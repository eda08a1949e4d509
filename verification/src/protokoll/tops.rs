use vstd::prelude::*;

verus! {

/// A proposal of the older agenda shape: texts only, no timestamp.
#[derive(Clone, PartialEq, Eq, Debug)]
pub struct Antrag {
    pub titel: String,
    pub antragstext: String,
    pub begruendung: String,
}

/// The older two-way section split of the agenda.
#[derive(Clone, Copy, PartialEq, Eq, Structural, Debug)]
pub enum TopType {
    Normal,
    Sonstige,
}

/// An agenda item of the older shape.
#[derive(Clone, PartialEq, Eq, Debug)]
pub struct Top {
    pub weight: i64,
    pub name: String,
    pub antraege: Vec<Antrag>,
    pub top_type: TopType,
}

} // verus!

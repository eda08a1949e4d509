use vstd::prelude::*;

verus! {

/// A roster entry of the older reporting shape: one display name and the
/// excused flag, with presence not yet tracked.
#[derive(Clone, PartialEq, Eq, Debug)]
pub struct Rat {
    pub name: String,
    pub abgemeldet: bool,
}

/// A council member as the older roster endpoint reports it.
#[derive(Clone, PartialEq, Eq, Debug)]
pub struct Person {
    pub id: String,
    pub name: String,
}

/// An excused-absence record, identity reference only.
#[derive(Clone, PartialEq, Eq, Debug)]
pub struct Abmeldung {
    pub person_id: String,
}

/// Does some absence record reference this identity?
pub open spec fn spec_abgemeldet(id: Seq<char>, abmeldungen: Seq<Abmeldung>) -> bool {
    exists|k: int| 0 <= k < abmeldungen.len() && abmeldungen[k].person_id@ == id
}

/// Is `e` the reconciled entry for roster member `p`?
pub open spec fn rat_entry(p: Person, abmeldungen: Seq<Abmeldung>, e: Rat) -> bool {
    e.name@ == p.name@ && e.abgemeldet == spec_abgemeldet(p.id@, abmeldungen)
}

fn is_abgemeldet(id: &String, abmeldungen: &Vec<Abmeldung>) -> (r: bool)
    ensures
        r == spec_abgemeldet(id@, abmeldungen@),
{
    let mut k: usize = 0;
    while k < abmeldungen.len()
        invariant
            0 <= k <= abmeldungen@.len(),
            forall|j: int| 0 <= j < k ==> abmeldungen@[j].person_id@ != id@,
        decreases abmeldungen@.len() - k,
    {
        if abmeldungen[k].person_id == *id {
            return true;
        }
        k = k + 1;
    }
    false
}

/// Joins the roster with the absence records, keeping the roster order:
/// each member is excused exactly when an absence record names their
/// identity.
pub fn determine_present_raete(personen: &Vec<Person>, abmeldungen: &Vec<Abmeldung>) -> (r: Vec<
    Rat,
>)
    ensures
        r@.len() == personen@.len(),
        forall|i: int|
            0 <= i < personen@.len() ==> rat_entry(personen@[i], abmeldungen@, #[trigger] r@[i]),
{
    let mut result: Vec<Rat> = Vec::new();
    let mut i: usize = 0;
    while i < personen.len()
        invariant
            0 <= i <= personen@.len(),
            result@.len() == i,
            forall|j: int|
                0 <= j < i ==> rat_entry(personen@[j], abmeldungen@, #[trigger] result@[j]),
        decreases personen@.len() - i,
    {
        let p = &personen[i];
        let abgemeldet = is_abgemeldet(&p.id, abmeldungen);
        result.push(Rat { name: p.name.clone(), abgemeldet });
        i = i + 1;
    }
    result
}

} // verus!

pub mod cli;
pub mod datetime;
pub mod error;
pub mod generate;
pub mod post;
pub mod protokoll;
mod strutil;
pub mod sync;

pub use protokoll::{
    ProtokollFrontmatter, ProtokollTemplate,
    events::Event,
    person::{Abmeldung, Person, PersonWithAbmeldung, Quorum},
    sitzung::{Antrag, Sitzung, SitzungKind, Top, TopKind},
};

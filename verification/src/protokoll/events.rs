use vstd::prelude::*;
use vstd::string::StringExecFns;

use crate::datetime::{DateTime, datetime_valid};

verus! {

/// A calendar event, fetched purely for display: optional title, optional
/// location and the start time, already in the council's local offset.
#[derive(Clone, PartialEq, Eq, Debug)]
pub struct Event {
    pub title: Option<String>,
    pub location: Option<String>,
    pub start: DateTime,
}

pub open spec fn event_valid(e: Event) -> bool {
    datetime_valid(e.start)
}

/// The relative request target of the calendar listing.
pub fn calendar_request_target() -> (r: String)
    ensures
        r@ == "api/calendar/"@,
{
    let mut s = String::new();
    s.append("api/calendar/");
    proof {
        assert(s@ =~= "api/calendar/"@);
    }
    s
}

} // verus!

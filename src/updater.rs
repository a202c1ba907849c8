//! What the application remembers of updates.
use vstd::prelude::*;

verus! {

/// An update that was downloaded and installed, and waits for a restart.
#[derive(Debug, Clone, PartialEq)]
pub struct UpdateReadyInfo {
    pub current_version: String,
    pub new_version: String,
    pub body: Option<String>,
}

/// Whether an update is ready for a restart.
pub struct UpdateState {
    pub ready: Option<UpdateReadyInfo>,
}

impl UpdateState {
    /// No update is ready yet.
    pub fn new() -> (r: Self)
        ensures
            r.ready is None,
    {
        UpdateState { ready: None }
    }
}

pub open spec fn release_notes_of(body: Option<Seq<char>>) -> Seq<char> {
    match body {
        Some(b) => b,
        None => "Bug fixes and improvements"@,
    }
}

/// The notes shown with an update: its own, or a generic line when it has none.
pub fn release_notes(body: Option<&str>) -> (r: String)
    ensures
        r@ == release_notes_of(
            match body {
                Some(b) => Some(b@),
                None => None,
            },
        ),
{
    match body {
        Some(b) => String::from_str(b),
        None => String::from_str("Bug fixes and improvements"),
    }
}

} // verus!

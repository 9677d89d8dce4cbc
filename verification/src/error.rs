//! Error taxonomy shared by the confession core.

use vstd::prelude::*;

verus! {

/// Why an action was refused or abandoned. `NotFound`, `Conflict` and
/// `Unauthorized` are resolved into a user-facing message at the point of
/// detection; `Storage` and `PlatformIo` surface a transport failure and the
/// triggering action aborts. Nothing is retried.
#[derive(Clone, Copy, Debug, PartialEq, Eq, Structural)]
pub enum ConfessError {
    /// No vetting channel, no member matching a tag, or a guild that was
    /// never initialised.
    NotFound,
    /// A vetting channel is already set for the guild.
    Conflict,
    /// The actor lacks the required role or identity.
    Unauthorized,
    /// The persistent store failed.
    Storage,
    /// A platform message could not be sent or edited.
    PlatformIo,
}

impl ConfessError {
    /// A short human-readable explanation, shown in the conversation that
    /// triggered the failing action.
    pub fn describe(&self) -> (r: &'static str)
        ensures
            r@ == self.spec_describe(),
    {
        match self {
            ConfessError::NotFound => "Not found.",
            ConfessError::Conflict => "There is already a vetting channel set.",
            ConfessError::Unauthorized => "You are not authorised to use this command.",
            ConfessError::Storage => "The persistent store failed.",
            ConfessError::PlatformIo => "A message could not be sent.",
        }
    }

    pub open spec fn spec_describe(&self) -> Seq<char> {
        match self {
            ConfessError::NotFound => "Not found."@,
            ConfessError::Conflict => "There is already a vetting channel set."@,
            ConfessError::Unauthorized => "You are not authorised to use this command."@,
            ConfessError::Storage => "The persistent store failed."@,
            ConfessError::PlatformIo => "A message could not be sent."@,
        }
    }
}

} // verus!

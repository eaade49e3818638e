//! The publisher of a message, one of the `publisher` alternatives of [`super::Identity`].
use vstd::prelude::*;

verus! {

/// Who published a message on the DSH platform.
pub enum Publisher {
    /// A free-form publisher name (field 2).
    FreeForm(String),
    /// An MQTT user (field 3).
    User(String),
    /// An MQTT client (field 4).
    Client(String),
    /// An application (field 5).
    Application(String),
}

impl Clone for Publisher {
    fn clone(&self) -> (r: Self)
        ensures
            r == *self,
    {
        match self {
            Publisher::FreeForm(s) => Publisher::FreeForm(s.clone()),
            Publisher::User(s) => Publisher::User(s.clone()),
            Publisher::Client(s) => Publisher::Client(s.clone()),
            Publisher::Application(s) => Publisher::Application(s.clone()),
        }
    }
}

} // verus!

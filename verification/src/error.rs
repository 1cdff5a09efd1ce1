//! The error taxonomy: invalid arguments are found before any storage call;
//! storage failures themselves happen outside this library and stay with the
//! caller.
use vstd::prelude::*;

verus! {

/// A validation failure of one operation's arguments. Every variant is
/// reported before any storage call is made.
#[derive(Debug)]
pub enum PlantError {
    /// The given identifier text is not a well-formed identifier. Carries the
    /// offending value.
    InvalidId(String),
    /// A search term and an identifier were both given to the view operation;
    /// they are mutually exclusive.
    ExclusiveViewArgs,
    /// A tag to add and a tag to remove were both given to the update
    /// operation; one call applies at most one tag-list mutation.
    ExclusiveTagArgs,
}

impl PlantError {
    /// The message shown to the user for this failure.
    pub open spec fn spec_message(self) -> Seq<char> {
        match self {
            PlantError::InvalidId(s) => "Error: ID invalido '"@ + s@ + "'"@,
            PlantError::ExclusiveViewArgs => "No puedes usar search_param e id juntos"@,
            PlantError::ExclusiveTagArgs => "No puedes agregar y remover un tag en la misma operacion"@,
        }
    }

    /// Renders the message shown to the user for this failure.
    pub fn message(&self) -> (r: String)
        ensures
            r@ == self.spec_message(),
    {
        match self {
            PlantError::InvalidId(s) => {
                let mut m = String::from_str("Error: ID invalido '");
                m.append(s.as_str());
                m.append("'");
                m
            },
            PlantError::ExclusiveViewArgs => String::from_str(
                "No puedes usar search_param e id juntos",
            ),
            PlantError::ExclusiveTagArgs => String::from_str(
                "No puedes agregar y remover un tag en la misma operacion",
            ),
        }
    }
}

} // verus!

use vstd::prelude::*;

verus! {

/// The trainer's gender, stored in the save file as a single byte.
#[derive(Debug, Clone, Copy, Default, PartialEq, Eq, Hash, Structural)]
pub enum Gender {
    #[default]
    Male,
    Female,
}

} // verus!

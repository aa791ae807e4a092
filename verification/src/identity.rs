//! The identities of gestures, of projects and of observers.
use vstd::prelude::*;

verus! {

/// The identity of a gesture.
#[derive(Clone, Copy, PartialEq, Eq, Structural, Debug, Hash)]
pub struct GestureID(pub u128);

/// The identity of a project.
#[derive(Clone, Copy, PartialEq, Eq, Structural, Debug, Hash)]
pub struct ProjectID(pub u128);

/// The identity of an observer: the machine on which a front end runs.
#[derive(Clone, Copy, PartialEq, Eq, Structural, Debug, Hash)]
pub struct MachineID(pub u8);

/// Whether the number is a universally unique identifier of version 4: the
/// four bits of the version hold 4, and the two bits of the variant hold 2.
pub open spec fn is_random_uuid(number: u128) -> bool {
    number & 0xF000_C000_0000_0000_0000 == 0x4000_8000_0000_0000_0000
}

/// Calls `uuid::Uuid::new_v4` and reads the identifier with
/// `uuid::Uuid::as_u128`. The identifier is drawn at random; the contract
/// says of it only what the source of `new_v4` sets in every identifier, the
/// bits of version and variant.
#[verifier::external_body]
fn random_uuid() -> (r: u128)
    ensures
        is_random_uuid(r),
{
    uuid::Uuid::new_v4().as_u128()
}

impl GestureID {
    /// A freshly drawn identity.
    pub fn new() -> (r: GestureID)
        ensures
            is_random_uuid(r.0),
    {
        GestureID(random_uuid())
    }
}

impl ProjectID {
    /// A freshly drawn identity.
    pub fn new() -> (r: ProjectID)
        ensures
            is_random_uuid(r.0),
    {
        ProjectID(random_uuid())
    }
}

/// An identity: a value that stands for one number, and for another number
/// than every other identity of its type.
pub trait Identity: Copy + Sized {
    /// The number that the identity stands for.
    spec fn number(self) -> u128;

    /// Computes `number`.
    fn to_number(self) -> (r: u128)
        ensures
            r == self.number(),
    ;

    /// Two identities with one number are the same.
    proof fn lemma_number_decides(a: Self, b: Self)
        ensures
            a.number() == b.number() ==> a == b,
    ;
}

impl Identity for GestureID {
    open spec fn number(self) -> u128 {
        self.0
    }

    fn to_number(self) -> (r: u128) {
        self.0
    }

    proof fn lemma_number_decides(a: Self, b: Self) {
    }
}

impl Identity for ProjectID {
    open spec fn number(self) -> u128 {
        self.0
    }

    fn to_number(self) -> (r: u128) {
        self.0
    }

    proof fn lemma_number_decides(a: Self, b: Self) {
    }
}

impl Identity for MachineID {
    open spec fn number(self) -> u128 {
        self.0 as u128
    }

    fn to_number(self) -> (r: u128) {
        self.0 as u128
    }

    proof fn lemma_number_decides(a: Self, b: Self) {
    }
}

} // verus!

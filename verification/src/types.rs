//! Wire-side aliases and the numeric encoding of a registered proof kind.

use vstd::prelude::*;

verus! {

/// The proof kinds a caller can select by number. The set and its order
/// mirror the proof API this server fronts; the registry itself never reads
/// them.
#[derive(Clone, Copy, Debug, PartialEq, Eq, Structural)]
pub enum RegisteredPoStProof {
    StackedDrgWinning2KiBV1,
    StackedDrgWinning8MiBV1,
    StackedDrgWinning512MiBV1,
    StackedDrgWinning32GiBV1,
    StackedDrgWindow2KiBV1,
    StackedDrgWindow8MiBV1,
    StackedDrgWindow512MiBV1,
    StackedDrgWindow32GiBV1,
}

/// A proof kind as it arrives on the wire: a small number.
#[derive(Clone, Debug)]
pub struct WebRegisteredPoStProof(u32);

/// The proof kind that each wire code selects. Codes eight and above select
/// nothing; `as_object` refuses them up front.
pub open spec fn proof_kind_of(code: u32) -> RegisteredPoStProof {
    if code == 0 {
        RegisteredPoStProof::StackedDrgWinning2KiBV1
    } else if code == 1 {
        RegisteredPoStProof::StackedDrgWinning8MiBV1
    } else if code == 2 {
        RegisteredPoStProof::StackedDrgWinning512MiBV1
    } else if code == 3 {
        RegisteredPoStProof::StackedDrgWinning32GiBV1
    } else if code == 4 {
        RegisteredPoStProof::StackedDrgWindow2KiBV1
    } else if code == 5 {
        RegisteredPoStProof::StackedDrgWindow8MiBV1
    } else if code == 6 {
        RegisteredPoStProof::StackedDrgWindow512MiBV1
    } else {
        RegisteredPoStProof::StackedDrgWindow32GiBV1
    }
}

impl WebRegisteredPoStProof {
    /// The wire code.
    pub closed spec fn code(self) -> u32 {
        self.0
    }

    pub fn new(code: u32) -> (p: Self)
        ensures
            p.code() == code,
    {
        WebRegisteredPoStProof(code)
    }

    /// The proof kind this wire value selects. Only the eight known codes are
    /// accepted.
    pub fn as_object(&self) -> (r: RegisteredPoStProof)
        requires
            self.code() < 8,
        ensures
            r == proof_kind_of(self.code()),
    {
        match self.0 {
            0 => RegisteredPoStProof::StackedDrgWinning2KiBV1,
            1 => RegisteredPoStProof::StackedDrgWinning8MiBV1,
            2 => RegisteredPoStProof::StackedDrgWinning512MiBV1,
            3 => RegisteredPoStProof::StackedDrgWinning32GiBV1,
            4 => RegisteredPoStProof::StackedDrgWindow2KiBV1,
            5 => RegisteredPoStProof::StackedDrgWindow8MiBV1,
            6 => RegisteredPoStProof::StackedDrgWindow512MiBV1,
            _ => RegisteredPoStProof::StackedDrgWindow32GiBV1,
        }
    }
}

pub type WebTicket = [u8; 32];

pub type WebSnarkProof = Vec<u8>;

pub type WebUnpaddedBytesAmount = u64;

} // verus!

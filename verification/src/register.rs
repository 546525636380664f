//! The names of the sixteen general-purpose registers.

use vstd::prelude::*;

verus! {

/// One of the registers `V0` to `VF`. `VF` doubles as the flag register.
#[derive(Clone, Copy, Debug, PartialEq, Eq, Structural)]
pub enum VReg {
    V0,
    V1,
    V2,
    V3,
    V4,
    V5,
    V6,
    V7,
    V8,
    V9,
    VA,
    VB,
    VC,
    VD,
    VE,
    VF,
}

impl VReg {
    /// The register's number, 0 for `V0` up to 15 for `VF`.
    pub open spec fn number(self) -> int {
        match self {
            VReg::V0 => 0,
            VReg::V1 => 1,
            VReg::V2 => 2,
            VReg::V3 => 3,
            VReg::V4 => 4,
            VReg::V5 => 5,
            VReg::V6 => 6,
            VReg::V7 => 7,
            VReg::V8 => 8,
            VReg::V9 => 9,
            VReg::VA => 10,
            VReg::VB => 11,
            VReg::VC => 12,
            VReg::VD => 13,
            VReg::VE => 14,
            VReg::VF => 15,
        }
    }

    /// The register with number `n`, if `n` is below 16.
    pub open spec fn numbered(n: int) -> Option<VReg> {
        if n == 0 {
            Some(VReg::V0)
        } else if n == 1 {
            Some(VReg::V1)
        } else if n == 2 {
            Some(VReg::V2)
        } else if n == 3 {
            Some(VReg::V3)
        } else if n == 4 {
            Some(VReg::V4)
        } else if n == 5 {
            Some(VReg::V5)
        } else if n == 6 {
            Some(VReg::V6)
        } else if n == 7 {
            Some(VReg::V7)
        } else if n == 8 {
            Some(VReg::V8)
        } else if n == 9 {
            Some(VReg::V9)
        } else if n == 10 {
            Some(VReg::VA)
        } else if n == 11 {
            Some(VReg::VB)
        } else if n == 12 {
            Some(VReg::VC)
        } else if n == 13 {
            Some(VReg::VD)
        } else if n == 14 {
            Some(VReg::VE)
        } else if n == 15 {
            Some(VReg::VF)
        } else {
            None
        }
    }

    /// Numbering and naming are inverse to each other.
    pub broadcast proof fn lemma_number_numbered(self)
        ensures
            0 <= #[trigger] self.number() < 16,
            VReg::numbered(self.number()) == Some(self),
    {
    }

    /// Every number below 16 names a register, and that register has the number.
    pub proof fn lemma_numbered_number(n: int)
        requires
            0 <= n < 16,
        ensures
            VReg::numbered(n) is Some,
            VReg::numbered(n)->0.number() == n,
    {
    }

    /// The register's number as an index into the register bank.
    pub fn index(self) -> (i: usize)
        ensures
            i == self.number(),
            i < 16,
    {
        match self {
            VReg::V0 => 0,
            VReg::V1 => 1,
            VReg::V2 => 2,
            VReg::V3 => 3,
            VReg::V4 => 4,
            VReg::V5 => 5,
            VReg::V6 => 6,
            VReg::V7 => 7,
            VReg::V8 => 8,
            VReg::V9 => 9,
            VReg::VA => 10,
            VReg::VB => 11,
            VReg::VC => 12,
            VReg::VD => 13,
            VReg::VE => 14,
            VReg::VF => 15,
        }
    }

    /// The register numbered `n`, or `None` where `n` is 16 or more.
    pub fn from_u16(n: u16) -> (r: Option<VReg>)
        ensures
            r == VReg::numbered(n as int),
    {
        match n {
            0 => Some(VReg::V0),
            1 => Some(VReg::V1),
            2 => Some(VReg::V2),
            3 => Some(VReg::V3),
            4 => Some(VReg::V4),
            5 => Some(VReg::V5),
            6 => Some(VReg::V6),
            7 => Some(VReg::V7),
            8 => Some(VReg::V8),
            9 => Some(VReg::V9),
            10 => Some(VReg::VA),
            11 => Some(VReg::VB),
            12 => Some(VReg::VC),
            13 => Some(VReg::VD),
            14 => Some(VReg::VE),
            15 => Some(VReg::VF),
            _ => None,
        }
    }
}

} // verus!

//! What a debug probe reports of a core.
use vstd::prelude::*;

verus! {

/// Why a core is halted.
#[derive(Clone, Copy, Debug, PartialEq, Eq, Structural)]
pub enum HaltReason {
    Multiple,
    Breakpoint,
    Exception,
    Watchpoint,
    Step,
    Request,
    External,
    Unknown,
}

/// What a core is doing.
#[derive(Clone, Copy, Debug, PartialEq, Eq, Structural)]
pub enum CoreStatus {
    Running,
    Halted(HaltReason),
    LockedUp,
    Sleeping,
    Unknown,
}

/// The value of a core register.
#[derive(Clone, Copy, Debug, PartialEq, Eq, Structural)]
pub enum RegisterValue {
    U32(u32),
    U64(u64),
    U128(u128),
}

impl RegisterValue {
    /// The address that a register holds: its low 64 bits.
    pub open spec fn as_address(self) -> u64 {
        match self {
            RegisterValue::U32(v) => v as u64,
            RegisterValue::U64(v) => v,
            RegisterValue::U128(v) => (v % 0x1_0000_0000_0000_0000) as u64,
        }
    }

    /// The address that a register holds.
    pub fn address(&self) -> (address: u64)
        ensures
            address == self.as_address(),
    {
        match self {
            RegisterValue::U32(v) => *v as u64,
            RegisterValue::U64(v) => *v,
            RegisterValue::U128(v) => (*v % 0x1_0000_0000_0000_0000) as u64,
        }
    }
}

/// The address is what the register holds, as far as it fits: of a wider value the upper
/// half is left out.
pub proof fn address_is_the_low_half(value: RegisterValue)
    ensures
        match value {
            RegisterValue::U32(v) => value.as_address() == v,
            RegisterValue::U64(v) => value.as_address() == v,
            RegisterValue::U128(v) => {
                &&& v <= u64::MAX ==> value.as_address() == v
                &&& v - value.as_address() == (v / 0x1_0000_0000_0000_0000)
                    * 0x1_0000_0000_0000_0000
            },
        },
{
}

} // verus!

use vstd::prelude::*;

verus! {

/// The bit of the return flags that asks the host to discard all state changes
/// of the execution that ends.
pub const REVERT_BIT: u32 = 1;

/// The flags to indicate further information about the end of a contract execution.
pub struct ReturnFlags {
    value: u32,
}

impl View for ReturnFlags {
    type V = u32;

    closed spec fn view(&self) -> u32 {
        self.value
    }
}

/// Whether the reverted bit is set in a flag word.
pub open spec fn is_reverted(bits: u32) -> bool {
    bits & REVERT_BIT == REVERT_BIT
}

impl Default for ReturnFlags {
    fn default() -> (r: Self)
        ensures
            r@ == 0u32,
    {
        ReturnFlags { value: 0 }
    }
}

impl ReturnFlags {
    /// Sets or clears the bit that indicates that the execution is going to be
    /// reverted; all other bits stay as they are.
    pub fn set_reverted(self, has_reverted: bool) -> (r: Self)
        ensures
            is_reverted(r@) == has_reverted,
            r@ & !REVERT_BIT == self@ & !REVERT_BIT,
            r@ == (if has_reverted { self@ | REVERT_BIT } else { self@ & !REVERT_BIT }),
    {
        let v: u32 = self.value;
        let mut s = self;
        if has_reverted {
            s.value = s.value | REVERT_BIT;
        } else {
            s.value = s.value & !REVERT_BIT;
        }
        let w: u32 = s.value;
        assert(w & 1u32 == 1u32 <==> has_reverted) by (bit_vector)
            requires
                w == (if has_reverted { v | 1u32 } else { v & !1u32 }),
        ;
        assert(w & !1u32 == v & !1u32) by (bit_vector)
            requires
                w == (if has_reverted { v | 1u32 } else { v & !1u32 }),
        ;
        s
    }

    /// Returns the underlying `u32` representation.
    pub fn into_u32(self) -> (r: u32)
        ensures
            r == self@,
    {
        self.value
    }
}

} // verus!

use vstd::prelude::*;

verus! {

/// Identifies an in-flight operation: its slot in the slab and the slot's
/// generation when the operation was submitted.
#[derive(Debug, Clone, Copy, PartialEq, Eq, Structural)]
pub struct Token {
    pub index: u32,
    pub generation: u32,
}

/// The 64-bit user-data word of a token: generation in the high half, index
/// in the low half.
pub open spec fn spec_user_data(t: Token) -> u64 {
    ((t.generation as u64) << 32u64) | (t.index as u64)
}

/// The token that a user-data word names.
pub open spec fn spec_token_of(u: u64) -> Token {
    Token { index: (u & 0xffff_ffffu64) as u32, generation: (u >> 32u64) as u32 }
}

impl Token {
    /// Packs the token into the word the kernel echoes back.
    pub fn user_data(&self) -> (r: u64)
        ensures
            r == spec_user_data(*self),
    {
        ((self.generation as u64) << 32u64) | (self.index as u64)
    }

    /// Unpacks a user-data word.
    pub fn from_user_data(u: u64) -> (r: Token)
        ensures
            r == spec_token_of(u),
    {
        Token { index: (u & 0xffff_ffffu64) as u32, generation: (u >> 32u64) as u32 }
    }
}

/// Packing a token and unpacking the word gives the token back, so every
/// completion finds the slot and generation it was submitted with.
pub proof fn lemma_user_data_round_trip(t: Token)
    ensures
        spec_token_of(spec_user_data(t)) == t,
{
    let i = t.index;
    let g = t.generation;
    assert(((((g as u64) << 32u64) | (i as u64)) & 0xffff_ffffu64) as u32 == i) by (bit_vector);
    assert(((((g as u64) << 32u64) | (i as u64)) >> 32u64) as u32 == g) by (bit_vector);
}

/// Distinct tokens have distinct user-data words.
pub proof fn lemma_user_data_injective(a: Token, b: Token)
    requires
        spec_user_data(a) == spec_user_data(b),
    ensures
        a == b,
{
    lemma_user_data_round_trip(a);
    lemma_user_data_round_trip(b);
}

} // verus!

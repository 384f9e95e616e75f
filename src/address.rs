//! Account identities and the derivation of program-owned addresses.

use vstd::prelude::*;
use crate::error::DocumentsError;

verus! {

/// A 32-byte account identity.
#[derive(Clone, Copy, Debug, PartialEq, Eq)]
pub struct Address {
    pub bytes: [u8; 32],
}

impl View for Address {
    type V = Seq<u8>;

    open spec fn view(&self) -> Seq<u8> {
        self.bytes@
    }
}

impl Address {
    /// Wraps 32 raw bytes as an identity.
    pub fn new(bytes: [u8; 32]) -> (r: Address)
        ensures
            r@ == bytes@,
    {
        Address { bytes }
    }

    /// Byte-wise equality of two identities.
    pub fn same_as(&self, other: &Address) -> (r: bool)
        ensures
            r == (self@ == other@),
    {
        let mut i: usize = 0;
        while i < 32
            invariant
                0 <= i <= 32,
                self@.len() == 32,
                other@.len() == 32,
                forall|j: int| 0 <= j < i ==> self@[j] == other@[j],
            decreases 32 - i,
        {
            if self.bytes[i] != other.bytes[i] {
                return false;
            }
            i = i + 1;
        }
        assert(self@ =~= other@);
        true
    }
}

} // verus!

verus! {

/// What the program-address search yields for a list of seeds under a
/// program identity: the address bytes and the bump, or nothing when no
/// bump gives an address off the curve or a seed is longer than the search
/// accepts.
pub uninterp spec fn program_address(seeds: Seq<Seq<u8>>, program: Seq<u8>) -> Option<(Seq<u8>, u8)>;

/// The mathematical content of a search result.
pub open spec fn found_view(r: Option<(Address, u8)>) -> Option<(Seq<u8>, u8)> {
    match r {
        Some(found) => Some((found.0@, found.1)),
        None => None,
    }
}

/// Relies on solana_program's `Pubkey::try_find_program_address`: a search
/// over bumps whose outcome depends on the seeds and the program alone.
#[verifier::external_body]
fn try_find_program_address(seed_a: &[u8], seed_b: &[u8], program_id: &Address) -> (r: Option<(Address, u8)>)
    ensures
        found_view(r) == program_address(seq![seed_a@, seed_b@], program_id@),
{
    let program = solana_program::pubkey::Pubkey::new_from_array(program_id.bytes);
    solana_program::pubkey::Pubkey::try_find_program_address(&[seed_a, seed_b], &program)
        .map(|(key, bump)| (Address { bytes: key.to_bytes() }, bump))
}

/// Derives the canonical address and bump for a two-part seed.
pub fn derive_address(seed_a: &[u8], seed_b: &[u8], program_id: &Address) -> (r: Result<(Address, u8), DocumentsError>)
    ensures
        match r {
            Ok(found) => program_address(seq![seed_a@, seed_b@], program_id@) == Some((found.0@, found.1)),
            Err(e) => e == DocumentsError::DerivationExhausted
                && program_address(seq![seed_a@, seed_b@], program_id@) is None,
        },
{
    match try_find_program_address(seed_a, seed_b, program_id) {
        Some(found) => Ok(found),
        None => Err(DocumentsError::DerivationExhausted),
    }
}

/// Two derivations from the same seeds and program give the same address
/// and bump.
pub proof fn derivation_is_deterministic(
    seed_a: Seq<u8>,
    seed_b: Seq<u8>,
    program: Seq<u8>,
    first: Result<(Address, u8), DocumentsError>,
    second: Result<(Address, u8), DocumentsError>,
)
    requires
        first is Ok ==> program_address(seq![seed_a, seed_b], program) == Some((first->Ok_0.0@, first->Ok_0.1)),
        first is Err ==> program_address(seq![seed_a, seed_b], program) is None,
        second is Ok ==> program_address(seq![seed_a, seed_b], program) == Some((second->Ok_0.0@, second->Ok_0.1)),
        second is Err ==> program_address(seq![seed_a, seed_b], program) is None,
    ensures
        first is Ok <==> second is Ok,
        first is Ok ==> first->Ok_0.0@ == second->Ok_0.0@ && first->Ok_0.1 == second->Ok_0.1,
{
}

/// The decimal digits of a number, most significant first, as ASCII bytes.
pub open spec fn decimal(n: nat) -> Seq<u8>
    decreases n,
{
    if n < 10 {
        seq![(48 + n) as u8]
    } else {
        decimal(n / 10).push((48 + n % 10) as u8)
    }
}

/// Appends the decimal form of `n` to `out`.
pub fn push_decimal(out: &mut Vec<u8>, n: u32)
    ensures
        final(out)@ == old(out)@ + decimal(n as nat),
    decreases n,
{
    if n >= 10 {
        push_decimal(out, n / 10);
    }
    let digit: u8 = (n % 10) as u8;
    out.push(48 + digit);
    assert(out@ =~= old(out)@ + decimal(n as nat));
}

} // verus!

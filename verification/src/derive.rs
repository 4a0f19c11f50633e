//! The address-derivation scheme.
//!
//! A program-derived address is computed from a seed path and the program's
//! key by the ledger's own derivation function; the computation is a pure
//! function of its inputs, so any client can recompute an address off-ledger.
//! The result is named by the uninterpreted functions [`pda_of`] and
//! [`ata_of`]; the trusted wrappers below tie those names to the outside
//! derivation routines, and everything else is proved against the names.
use vstd::prelude::*;

use crate::records::ErrorCode;
use crate::seeds::{program_id, spec_program_id};
use crate::util::{bytes_eq, clone_bytes, singleton_byte, views_of};

verus! {

/// What the program-derived-address construction returns for a seed path and
/// a program key: the derived 32-byte address, or `None` when the seed path is
/// malformed or the candidate point falls on the curve. The result depends on
/// the arguments alone.
pub uninterp spec fn pda_of(seeds: Seq<Seq<u8>>, program_key: Seq<u8>) -> Option<Seq<u8>>;

/// The address of the associated holding account for a wallet and a mint.
/// The result depends on the arguments alone.
pub uninterp spec fn ata_of(wallet: Seq<u8>, mint: Seq<u8>) -> Seq<u8>;

/// The derived address of a Base's Master record.
pub open spec fn master_pda(base: Seq<u8>, bump: u8) -> Option<Seq<u8>> {
    pda_of(crate::seeds::spec_master_record_seeds(base, bump), spec_program_id())
}

/// The derived address of a Layer record.
pub open spec fn layer_pda(base: Seq<u8>, layer_index: u64, bump: u8) -> Option<Seq<u8>> {
    pda_of(crate::seeds::spec_layer_record_seeds(base, layer_index, bump), spec_program_id())
}

/// The derived address of an entity's mint.
pub open spec fn mint_pda(owner: Seq<u8>, index: Option<u64>, bump: u8) -> Option<Seq<u8>> {
    pda_of(crate::seeds::spec_mint_seeds(owner, index, bump), spec_program_id())
}

/// Relies on `solana_program::pubkey::Pubkey::create_program_address`: a pure
/// derivation from the seed path and the program key that fails exactly when
/// a seed is over-long, the path is over-long, or the derived point lies on
/// the curve; a returned address is 32 bytes.
#[verifier::external_body]
fn create_program_address(seeds: &Vec<Vec<u8>>, program_key: &Vec<u8>) -> (r: Option<Vec<u8>>)
    requires
        program_key@.len() == 32,
    ensures
        r matches Some(a) ==> Some(a@) == pda_of(views_of(seeds@), program_key@) && a@.len()
            == 32,
        r is None ==> pda_of(views_of(seeds@), program_key@) is None,
{
    let mut key_bytes = [0u8; 32];
    key_bytes.copy_from_slice(program_key.as_slice());
    let key = solana_program::pubkey::Pubkey::new_from_array(key_bytes);
    let seed_refs: Vec<&[u8]> = seeds.iter().map(|s| s.as_slice()).collect();
    match solana_program::pubkey::Pubkey::create_program_address(seed_refs.as_slice(), &key) {
        Ok(address) => Some(address.to_bytes().to_vec()),
        Err(_) => None,
    }
}

/// Relies on `spl_associated_token_account::get_associated_token_address`: a
/// pure derivation of the 32-byte holding-account address from the wallet and
/// mint keys. Its internal bump search is treated as infallible, as its own
/// callers treat it; no input is known to exhaust it.
#[verifier::external_body]
pub(crate) fn associated_token_address(wallet: &Vec<u8>, mint: &Vec<u8>) -> (r: Vec<u8>)
    requires
        wallet@.len() == 32,
        mint@.len() == 32,
    ensures
        r@ == ata_of(wallet@, mint@),
        r@.len() == 32,
{
    let mut wallet_bytes = [0u8; 32];
    wallet_bytes.copy_from_slice(wallet.as_slice());
    let mut mint_bytes = [0u8; 32];
    mint_bytes.copy_from_slice(mint.as_slice());
    let address = spl_associated_token_account::get_associated_token_address(
        &solana_program::pubkey::Pubkey::new_from_array(wallet_bytes),
        &solana_program::pubkey::Pubkey::new_from_array(mint_bytes),
    );
    address.to_bytes().to_vec()
}

/// Derives the canonical address for a seed path under this program's key, or
/// `None` when the path yields no valid address.
pub fn derive_address(seeds: &Vec<Vec<u8>>) -> (r: Option<Vec<u8>>)
    ensures
        r matches Some(a) ==> Some(a@) == pda_of(views_of(seeds@), spec_program_id()) && a@.len()
            == 32,
        r is None ==> pda_of(views_of(seeds@), spec_program_id()) is None,
{
    let id = program_id();
    create_program_address(seeds, &id)
}

/// Re-derives the address for a seed path and compares it byte-for-byte with
/// the address the caller supplied; `err` is returned on any mismatch. This
/// guard is the sole structural-authorization check of every operation.
pub fn verify_derived(expected: &Vec<u8>, seeds: &Vec<Vec<u8>>, err: ErrorCode) -> (r: Result<
    (),
    ErrorCode,
>)
    ensures
        r is Ok <==> pda_of(views_of(seeds@), spec_program_id()) == Some(expected@),
        r is Err ==> r->Err_0 == err,
{
    match derive_address(seeds) {
        Some(address) => {
            if bytes_eq(&address, expected) {
                Ok(())
            } else {
                Err(err)
            }
        },
        None => Err(err),
    }
}

/// The given seed path with a one-byte bump seed appended.
pub fn seeds_with_bump(seeds: &Vec<Vec<u8>>, bump: u8) -> (r: Vec<Vec<u8>>)
    ensures
        views_of(r@) == views_of(seeds@).push(seq![bump]),
{
    let mut r: Vec<Vec<u8>> = Vec::new();
    let mut i: usize = 0;
    while i < seeds.len()
        invariant
            i <= seeds@.len(),
            views_of(r@) == views_of(seeds@).take(i as int),
        decreases seeds@.len() - i,
    {
        let ghost prev = r@;
        r.push(clone_bytes(&seeds[i]));
        proof {
            crate::util::lemma_views_of_push(prev, r@.last());
            assert(views_of(seeds@).take(i as int + 1) =~= views_of(seeds@).take(
                i as int,
            ).push(seeds@[i as int]@));
        }
        i += 1;
    }
    let ghost prev = r@;
    r.push(singleton_byte(bump));
    proof {
        crate::util::lemma_views_of_push(prev, r@.last());
        assert(views_of(seeds@).take(seeds@.len() as int) =~= views_of(seeds@));
    }
    r
}

/// Searches bump bytes from 255 downward for the first one that yields a
/// valid derived address for the seed path, exactly as off-ledger clients do.
/// Returns the bump and the address, or `None` when no bump in `1..=255`
/// yields an address.
pub fn find_derived_address(seeds: &Vec<Vec<u8>>) -> (r: Option<(u8, Vec<u8>)>)
    ensures
        r matches Some((bump, address)) ==> {
            &&& Some(address@) == pda_of(
                views_of(seeds@).push(seq![bump]),
                spec_program_id(),
            )
            &&& address@.len() == 32
            &&& forall|b: u8|
                bump < b ==> pda_of(views_of(seeds@).push(seq![b]), spec_program_id()) is None
        },
        r is None ==> forall|b: u8|
            1 <= b ==> pda_of(views_of(seeds@).push(seq![b]), spec_program_id()) is None,
{
    let mut bump: u8 = 255;
    loop
        invariant
            1 <= bump <= 255,
            forall|b: u8|
                bump < b ==> pda_of(views_of(seeds@).push(seq![b]), spec_program_id()) is None,
        decreases bump,
    {
        let candidate = seeds_with_bump(seeds, bump);
        match derive_address(&candidate) {
            Some(address) => {
                return Some((bump, address));
            },
            None => {},
        }
        if bump == 1 {
            return None;
        }
        bump -= 1;
    }
}

/// Determinism of derivation: two derivations from the same seed path under
/// the same program key yield the same result.
pub proof fn lemma_derivation_deterministic(
    seeds: Seq<Seq<u8>>,
    program_key: Seq<u8>,
    a1: Option<Seq<u8>>,
    a2: Option<Seq<u8>>,
)
    requires
        a1 == pda_of(seeds, program_key),
        a2 == pda_of(seeds, program_key),
    ensures
        a1 == a2,
{
}

} // verus!

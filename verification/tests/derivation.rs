//! Address-derivation behaviour, checked against the ledger runtime's own
//! derivation routines.
use std::str::FromStr;

use asyncart::derive::{derive_address, find_derived_address, verify_derived};
use asyncart::records::ErrorCode;
use asyncart::seeds::{prefix_tag, program_id};
use solana_program::pubkey::Pubkey;

fn base_key(fill: u8) -> Vec<u8> {
    vec![fill; 32]
}

fn master_seeds_no_bump(base: &[u8]) -> Vec<Vec<u8>> {
    vec![prefix_tag(), base.to_vec()]
}

#[test]
fn program_id_matches_declared_key() {
    let declared = Pubkey::from_str("Ax22eZWmvg77HAE5eWbvhdzZYLPmv6C8TV28ivasjB5L").unwrap();
    assert_eq!(program_id(), declared.to_bytes().to_vec());
}

#[test]
fn derivation_is_deterministic() {
    let seeds = master_seeds_no_bump(&base_key(7));
    let first = find_derived_address(&seeds).expect("some bump must yield an address");
    let second = find_derived_address(&seeds).expect("some bump must yield an address");
    assert_eq!(first, second);

    let mut with_bump = seeds.clone();
    with_bump.push(vec![first.0]);
    let once = derive_address(&with_bump);
    let again = derive_address(&with_bump);
    assert_eq!(once, again);
    assert_eq!(once, Some(first.1.clone()));
}

#[test]
fn derivation_matches_runtime() {
    let base = base_key(9);
    let seeds = master_seeds_no_bump(&base);
    let (bump, address) = find_derived_address(&seeds).unwrap();

    let id = Pubkey::from_str("Ax22eZWmvg77HAE5eWbvhdzZYLPmv6C8TV28ivasjB5L").unwrap();
    let (expected, expected_bump) = Pubkey::find_program_address(&[b"asyncart", &base], &id);
    assert_eq!(bump, expected_bump);
    assert_eq!(address, expected.to_bytes().to_vec());
}

#[test]
fn verify_derived_accepts_the_derivation_and_rejects_others() {
    let base = base_key(3);
    let seeds = master_seeds_no_bump(&base);
    let (bump, address) = find_derived_address(&seeds).unwrap();
    let mut with_bump = seeds.clone();
    with_bump.push(vec![bump]);

    assert_eq!(verify_derived(&address, &with_bump, ErrorCode::InvalidMintPDA), Ok(()));

    let mut forged = address.clone();
    forged[0] ^= 1;
    assert_eq!(
        verify_derived(&forged, &with_bump, ErrorCode::InvalidMintPDA),
        Err(ErrorCode::InvalidMintPDA)
    );
    assert_eq!(
        verify_derived(&forged, &with_bump, ErrorCode::InvalidLayerPDA),
        Err(ErrorCode::InvalidLayerPDA)
    );
}

#[test]
fn wrong_bump_never_matches_the_found_address() {
    let base = base_key(5);
    let seeds = master_seeds_no_bump(&base);
    let (bump, address) = find_derived_address(&seeds).unwrap();
    for other in (1u8..=255).filter(|b| *b != bump) {
        let mut with_bump = seeds.clone();
        with_bump.push(vec![other]);
        if let Some(derived) = derive_address(&with_bump) {
            assert_ne!(derived, address);
        }
    }
}

//! The four operations, end to end on the ledger model.
use asyncart::derive::find_derived_address;
use asyncart::ledger::{
    create_associated_account, create_master_edition, create_metadata, initialize_mint,
    layer_current, master_schema, mint_supply, mint_to, Ledger,
};
use asyncart::ops::{
    create_image, create_layer, create_master, update_master_schema, CreateImage, CreateLayer,
    CreateMaster, UpdateMasterSchema,
};
use asyncart::records::{pad_schema, Data, ErrorCode, MetadataRecord};
use asyncart::seeds::{mint_tag, prefix_tag, MAX_SCHEMA_URI_LENGTH};

fn key(fill: u8) -> Vec<u8> {
    vec![fill; 32]
}

fn sample_data() -> Data {
    Data {
        name: "First Frame".to_string(),
        symbol: "FRAME".to_string(),
        uri: "https://example.invalid/frame.json".to_string(),
        seller_fee_basis_points: 500,
    }
}

fn find(seeds: Vec<Vec<u8>>) -> (u8, Vec<u8>) {
    find_derived_address(&seeds).expect("some bump must yield an address")
}

fn master_addr(base: &[u8]) -> (u8, Vec<u8>) {
    find(vec![prefix_tag(), base.to_vec()])
}

fn layer_addr(base: &[u8], index: u64) -> (u8, Vec<u8>) {
    find(vec![prefix_tag(), base.to_vec(), index.to_le_bytes().to_vec()])
}

fn mint_addr(owner: &[u8], index: Option<u64>) -> (u8, Vec<u8>) {
    let mut seeds = vec![prefix_tag(), owner.to_vec(), mint_tag()];
    if let Some(i) = index {
        seeds.push(i.to_le_bytes().to_vec());
    }
    find(seeds)
}

#[test]
fn end_to_end_master_layer_image() {
    let mut l = Ledger::new();
    let base = key(1);
    let payer = key(2);

    let (master_bump, master) = master_addr(&base);
    let (mint_bump, mint) = mint_addr(&base, None);
    let accounts = CreateMaster {
        base: base.clone(),
        payer: payer.clone(),
        master: master.clone(),
        mint: mint.clone(),
    };
    let schema = b"ar://abc".to_vec();
    assert_eq!(
        create_master(&mut l, &accounts, master_bump, mint_bump, &schema, &sample_data()),
        Ok(())
    );
    let stored = master_schema(&l, &master).expect("master record exists");
    assert_eq!(stored.len(), MAX_SCHEMA_URI_LENGTH);
    assert_eq!(&stored[..8], b"ar://abc");
    assert!(stored[8..].iter().all(|&b| b == 0));
    assert_eq!(mint_supply(&l, &mint), Some(1));

    let (layer_bump, layer) = layer_addr(&base, 0);
    let (layer_mint_bump, layer_mint) = mint_addr(&base, Some(0));
    let layer_accounts = CreateLayer {
        base: base.clone(),
        payer: payer.clone(),
        layer: layer.clone(),
        mint: layer_mint.clone(),
    };
    assert_eq!(
        create_layer(&mut l, &layer_accounts, layer_bump, layer_mint_bump, 0, 0, &sample_data()),
        Ok(())
    );
    assert_eq!(layer_current(&l, &layer), Some(0));
    assert_eq!(mint_supply(&l, &layer_mint), Some(1));

    let (image_mint_bump, image_mint) = mint_addr(&layer, Some(0));
    let image_accounts = CreateImage {
        base: base.clone(),
        payer: payer.clone(),
        layer: layer.clone(),
        mint: image_mint.clone(),
    };
    assert_eq!(
        create_image(&mut l, &image_accounts, layer_bump, 0, image_mint_bump, 0, &sample_data()),
        Ok(())
    );
    assert_eq!(mint_supply(&l, &image_mint), Some(1));

    let metadata: &MetadataRecord = l
        .metadata
        .iter()
        .find(|(k, _)| *k == image_mint)
        .map(|(_, m)| m)
        .expect("image metadata exists");
    assert_eq!(metadata.name, "First Frame");
    assert_eq!(metadata.symbol, "FRAME");
    assert_eq!(metadata.uri, "https://example.invalid/frame.json");
    assert_eq!(metadata.seller_fee_basis_points, 500);
    assert_eq!(metadata.creators.len(), 1);
    assert_eq!(metadata.creators[0].address, base);
    assert!(metadata.creators[0].verified);
    assert_eq!(metadata.creators[0].share, 100);

    let edition = l.editions.iter().find(|(k, _)| *k == image_mint).map(|(_, e)| e);
    assert_eq!(edition.expect("image edition exists").max_supply, Some(0));
}

#[test]
fn forged_layer_address_is_rejected_with_no_new_records() {
    let mut l = Ledger::new();
    let base = key(1);
    let payer = key(2);

    let (layer_bump, layer) = layer_addr(&base, 0);
    let mut forged = layer.clone();
    forged[5] ^= 0xFF;
    let (image_mint_bump, image_mint) = mint_addr(&forged, Some(0));
    let image_accounts = CreateImage {
        base: base.clone(),
        payer: payer.clone(),
        layer: forged,
        mint: image_mint,
    };
    assert_eq!(
        create_image(&mut l, &image_accounts, layer_bump, 0, image_mint_bump, 0, &sample_data()),
        Err(ErrorCode::InvalidLayerPDA)
    );
    assert!(l.mints.is_empty());
    assert!(l.token_accounts.is_empty());
    assert!(l.metadata.is_empty());
    assert!(l.editions.is_empty());
}

#[test]
fn metadata_step_failure_rolls_everything_back() {
    let base = key(1);
    let payer = key(2);
    let (master_bump, master) = master_addr(&base);
    let (mint_bump, mint) = mint_addr(&base, None);

    let mut l = Ledger::new();
    l.metadata.push((
        mint.clone(),
        MetadataRecord {
            name: "occupied".to_string(),
            symbol: "OCC".to_string(),
            uri: "https://example.invalid/occupied.json".to_string(),
            seller_fee_basis_points: 0,
            creators: vec![],
            update_authority: key(9),
            is_mutable: false,
        },
    ));

    let accounts = CreateMaster {
        base: base.clone(),
        payer: payer.clone(),
        master: master.clone(),
        mint: mint.clone(),
    };
    assert_eq!(
        create_master(&mut l, &accounts, master_bump, mint_bump, &b"ar://abc".to_vec(), &sample_data()),
        Err(ErrorCode::AccountAlreadyInUse)
    );
    assert!(l.masters.is_empty());
    assert!(l.mints.is_empty());
    assert!(l.token_accounts.is_empty());
    assert!(l.editions.is_empty());
    assert_eq!(l.metadata.len(), 1);
}

#[test]
fn schema_padding_round_trip() {
    let short = b"ar://abc".to_vec();
    let padded = pad_schema(&short);
    assert_eq!(padded.len(), MAX_SCHEMA_URI_LENGTH);
    assert_eq!(&padded[..short.len()], &short[..]);
    assert!(padded[short.len()..].iter().all(|&b| b == 0));

    let exact = vec![7u8; MAX_SCHEMA_URI_LENGTH];
    assert_eq!(pad_schema(&exact), exact);

    let long = vec![9u8; MAX_SCHEMA_URI_LENGTH + 37];
    assert_eq!(pad_schema(&long), vec![9u8; MAX_SCHEMA_URI_LENGTH]);
}

#[test]
fn issued_supply_is_locked_at_one() {
    let mut l = Ledger::new();
    let base = key(1);
    let payer = key(2);
    let (master_bump, master) = master_addr(&base);
    let (mint_bump, mint) = mint_addr(&base, None);
    let accounts = CreateMaster {
        base: base.clone(),
        payer: payer.clone(),
        master,
        mint: mint.clone(),
    };
    assert_eq!(
        create_master(&mut l, &accounts, master_bump, mint_bump, &b"ar://abc".to_vec(), &sample_data()),
        Ok(())
    );
    assert_eq!(mint_supply(&l, &mint), Some(1));

    let holding = l
        .token_accounts
        .iter()
        .find(|(_, a)| a.mint == mint)
        .map(|(k, _)| k.clone())
        .expect("holding account exists");
    assert_eq!(
        mint_to(&mut l, &mint, &holding, &base, 1),
        Err(ErrorCode::InvalidAuthority)
    );
    assert_eq!(mint_supply(&l, &mint), Some(1));
}

#[test]
fn update_master_schema_is_scoped_to_the_derived_address() {
    let mut l = Ledger::new();
    let base = key(1);
    let payer = key(2);
    let (master_bump, master) = master_addr(&base);
    let (mint_bump, mint) = mint_addr(&base, None);
    let accounts = CreateMaster {
        base: base.clone(),
        payer,
        master: master.clone(),
        mint,
    };
    assert_eq!(
        create_master(&mut l, &accounts, master_bump, mint_bump, &b"ar://abc".to_vec(), &sample_data()),
        Ok(())
    );

    let mut forged = master.clone();
    forged[11] ^= 0x40;
    let bad = UpdateMasterSchema { base: base.clone(), master: forged };
    assert_eq!(
        update_master_schema(&mut l, &bad, master_bump, &b"ar://def".to_vec()),
        Err(ErrorCode::InvalidMintPDA)
    );
    assert_eq!(&master_schema(&l, &master).unwrap()[..8], b"ar://abc");

    let good = UpdateMasterSchema { base: base.clone(), master: master.clone() };
    assert_eq!(
        update_master_schema(&mut l, &good, master_bump, &b"ar://def".to_vec()),
        Ok(())
    );
    let stored = master_schema(&l, &master).unwrap();
    assert_eq!(&stored[..8], b"ar://def");
    assert_eq!(stored.len(), MAX_SCHEMA_URI_LENGTH);
}

#[test]
fn update_master_schema_needs_an_existing_record() {
    let mut l = Ledger::new();
    let base = key(1);
    let (master_bump, master) = master_addr(&base);
    let good = UpdateMasterSchema { base, master };
    assert_eq!(
        update_master_schema(&mut l, &good, master_bump, &b"ar://abc".to_vec()),
        Err(ErrorCode::AccountNotInitialized)
    );
}

#[test]
fn second_master_for_the_same_base_is_rejected() {
    let mut l = Ledger::new();
    let base = key(1);
    let payer = key(2);
    let (master_bump, master) = master_addr(&base);
    let (mint_bump, mint) = mint_addr(&base, None);
    let accounts = CreateMaster {
        base: base.clone(),
        payer,
        master,
        mint,
    };
    assert_eq!(
        create_master(&mut l, &accounts, master_bump, mint_bump, &b"ar://abc".to_vec(), &sample_data()),
        Ok(())
    );
    let masters_before = l.masters.len();
    let mints_before = l.mints.len();
    assert_eq!(
        create_master(&mut l, &accounts, master_bump, mint_bump, &b"ar://abc".to_vec(), &sample_data()),
        Err(ErrorCode::AccountAlreadyInUse)
    );
    assert_eq!(l.masters.len(), masters_before);
    assert_eq!(l.mints.len(), mints_before);
}

#[test]
fn wrong_mint_address_is_rejected() {
    let mut l = Ledger::new();
    let base = key(1);
    let payer = key(2);
    let (master_bump, master) = master_addr(&base);
    let accounts = CreateMaster {
        base: base.clone(),
        payer,
        master,
        mint: key(8),
    };
    assert_eq!(
        create_master(&mut l, &accounts, master_bump, 255, &b"ar://abc".to_vec(), &sample_data()),
        Err(ErrorCode::InvalidMintPDA)
    );
    assert!(l.masters.is_empty());
    assert!(l.mints.is_empty());
}

#[test]
fn holding_account_address_matches_runtime_derivation() {
    let mut l = Ledger::new();
    let authority = key(1);
    let payer = key(2);
    let mint = key(4);
    initialize_mint(&mut l, &mint, 0, &authority, &authority).unwrap();
    let holding = create_associated_account(&mut l, &payer, &mint).unwrap();
    let expected = spl_associated_token_account::get_associated_token_address(
        &solana_program::pubkey::Pubkey::new_from_array(payer.clone().try_into().unwrap()),
        &solana_program::pubkey::Pubkey::new_from_array(mint.clone().try_into().unwrap()),
    );
    assert_eq!(holding, expected.to_bytes().to_vec());
}

#[test]
fn issuance_program_error_paths() {
    let mut l = Ledger::new();
    let authority = key(1);
    let payer = key(2);
    let mint = key(4);
    let other_mint = key(6);

    assert_eq!(
        mint_to(&mut l, &mint, &key(5), &authority, 1),
        Err(ErrorCode::AccountNotInitialized)
    );
    assert_eq!(initialize_mint(&mut l, &mint, 0, &authority, &authority), Ok(()));
    assert_eq!(
        initialize_mint(&mut l, &mint, 0, &authority, &authority),
        Err(ErrorCode::AccountAlreadyInUse)
    );

    let holding = create_associated_account(&mut l, &payer, &mint).expect("fresh account");
    assert_eq!(
        create_associated_account(&mut l, &payer, &mint),
        Err(ErrorCode::AccountAlreadyInUse)
    );

    assert_eq!(initialize_mint(&mut l, &other_mint, 0, &authority, &authority), Ok(()));
    assert_eq!(
        mint_to(&mut l, &other_mint, &holding, &authority, 1),
        Err(ErrorCode::MintMismatch)
    );

    assert_eq!(mint_to(&mut l, &mint, &holding, &authority, u64::MAX), Ok(()));
    assert_eq!(
        mint_to(&mut l, &mint, &holding, &authority, 1),
        Err(ErrorCode::ArithmeticOverflow)
    );

    assert_eq!(
        create_metadata(&mut l, &other_mint, &authority, &authority, &sample_data(), vec![], true),
        Ok(())
    );
    assert_eq!(
        create_master_edition(&mut l, &other_mint, &authority, Some(0)),
        Err(ErrorCode::InvalidMintState)
    );
}

//! The four operations the program exposes, and the resource-provisioning
//! pipeline they share.
//!
//! Every operation re-derives the expected address for each record it touches
//! and compares it with the address the caller supplied; only then does it
//! write. The whole operation commits or the whole operation leaves the
//! ledger exactly as it was: no step persists on any error path.
use vstd::prelude::*;

use crate::alist::{
    alist_find, alist_has_key, alist_set_value, lemma_alist_get_push, lemma_alist_get_update,
    lemma_alist_unique_push, lemma_alist_unique_update,
};
use crate::derive::{
    associated_token_address, ata_of, layer_pda, master_pda, mint_pda, verify_derived,
};
use crate::ledger::{
    create_associated_account, create_master_edition, create_metadata, initialize_mint, mint_to,
    Ledger,
};
use crate::records::{
    spec_pad_schema, Creator, CreatorV, Data, EditionRecordV, ErrorCode, Layer, LayerV, Master,
    MasterV, MetadataRecordV, MintRecordV, TokenAccountRecordV,
};
use crate::records::pad_schema;
use crate::seeds::{layer_record_seeds, master_record_seeds, mint_seeds};
use crate::util::clone_bytes;

verus! {

/// The accounts a `create_master` call touches.
pub struct CreateMaster {
    /// The externally held signing key that roots the collection.
    pub base: Vec<u8>,
    /// The fee payer, who receives the new holding account.
    pub payer: Vec<u8>,
    /// Address for the new Master record, derived from the Base alone.
    pub master: Vec<u8>,
    /// Address for the Master's mint.
    pub mint: Vec<u8>,
}

impl CreateMaster {
    /// All supplied addresses are 32 bytes.
    pub open spec fn wf(self) -> bool {
        &&& self.base@.len() == 32
        &&& self.payer@.len() == 32
        &&& self.master@.len() == 32
        &&& self.mint@.len() == 32
    }
}

/// The accounts a `create_layer` call touches.
pub struct CreateLayer {
    pub base: Vec<u8>,
    pub payer: Vec<u8>,
    /// Address for the new Layer record, derived from the Base and the layer
    /// index.
    pub layer: Vec<u8>,
    /// Address for the Layer's mint.
    pub mint: Vec<u8>,
}

impl CreateLayer {
    /// All supplied addresses are 32 bytes.
    pub open spec fn wf(self) -> bool {
        &&& self.base@.len() == 32
        &&& self.payer@.len() == 32
        &&& self.layer@.len() == 32
        &&& self.mint@.len() == 32
    }
}

/// The accounts a `create_image` call touches.
pub struct CreateImage {
    pub base: Vec<u8>,
    pub payer: Vec<u8>,
    /// The Layer the new Image hangs under; re-validated against its
    /// derivation, never trusted.
    pub layer: Vec<u8>,
    /// Address for the Image's mint, derived from the Layer and the mint
    /// index.
    pub mint: Vec<u8>,
}

impl CreateImage {
    /// All supplied addresses are 32 bytes.
    pub open spec fn wf(self) -> bool {
        &&& self.base@.len() == 32
        &&& self.payer@.len() == 32
        &&& self.layer@.len() == 32
        &&& self.mint@.len() == 32
    }
}

/// The accounts an `update_master_schema` call touches.
pub struct UpdateMasterSchema {
    pub base: Vec<u8>,
    /// The Master record to overwrite; re-validated against its derivation.
    pub master: Vec<u8>,
}

impl UpdateMasterSchema {
    /// All supplied addresses are 32 bytes.
    pub open spec fn wf(self) -> bool {
        &&& self.base@.len() == 32
        &&& self.master@.len() == 32
    }
}

/// What the first pipeline steps return: the mint address must equal its
/// derivation and must not be occupied.
pub open spec fn create_mint_at_pda_result(
    l: Ledger,
    mint: Seq<u8>,
    owner: Seq<u8>,
    index: Option<u64>,
    bump: u8,
) -> Result<(), ErrorCode> {
    if mint_pda(owner, index, bump) != Some(mint) {
        Result::Err(ErrorCode::InvalidMintPDA)
    } else if l.has_mint(mint) {
        Result::Err(ErrorCode::AccountAlreadyInUse)
    } else {
        Result::Ok(())
    }
}

/// Pipeline steps one and two: validates the target mint address against its
/// derivation from `(PREFIX, owner, MINT, optional index, bump)`, then has
/// the issuance program allocate a zero-decimal, supply-zero mint there, with
/// mint and freeze authority both set to `mint_authority`.
pub fn create_mint_at_pda(
    l: &mut Ledger,
    mint: &Vec<u8>,
    owner: &Vec<u8>,
    mint_authority: &Vec<u8>,
    bump: u8,
    index: Option<u64>,
) -> (r: Result<(), ErrorCode>)
    requires
        old(l).wf(),
    ensures
        final(l).wf(),
        r == create_mint_at_pda_result(*old(l), mint@, owner@, index, bump),
        r is Err ==> *final(l) == *old(l),
        r is Ok ==> {
            &&& final(l).mint_view(mint@) == Some(
                MintRecordV {
                    decimals: 0,
                    supply: 0,
                    mint_authority: Some(mint_authority@),
                    freeze_authority: Some(mint_authority@),
                },
            )
            &&& forall|k: Seq<u8>|
                k != mint@ ==> #[trigger] final(l).mint_view(k) == old(l).mint_view(k)
            &&& final(l).mints@.len() == old(l).mints@.len() + 1
            &&& final(l).masters == old(l).masters
            &&& final(l).layers == old(l).layers
            &&& final(l).token_accounts == old(l).token_accounts
            &&& final(l).metadata == old(l).metadata
            &&& final(l).editions == old(l).editions
        },
{
    let seeds = mint_seeds(owner, index, bump);
    verify_derived(mint, &seeds, ErrorCode::InvalidMintPDA)?;
    initialize_mint(l, mint, 0, mint_authority, mint_authority)
}

/// What the metadata-and-edition step returns: the mint must exist with the
/// owning key as its authority, carry neither metadata nor an edition yet,
/// and be a zero-decimal mint with exactly one unit issued.
pub open spec fn create_metadata_and_edition_result(
    l: Ledger,
    base: Seq<u8>,
    mint: Seq<u8>,
) -> Result<(), ErrorCode> {
    match l.mint_view(mint) {
        Option::None => Result::Err(ErrorCode::AccountNotInitialized),
        Option::Some(m) => if m.mint_authority != Some(base) {
            Result::Err(ErrorCode::InvalidAuthority)
        } else if l.has_metadata(mint) {
            Result::Err(ErrorCode::AccountAlreadyInUse)
        } else if l.has_edition(mint) {
            Result::Err(ErrorCode::AccountAlreadyInUse)
        } else if !(m.decimals == 0 && m.supply == 1) {
            Result::Err(ErrorCode::InvalidMintState)
        } else {
            Result::Ok(())
        },
    }
}

/// Pipeline step five: writes the metadata record — named after the supplied
/// data, with the Base as sole creator, verified, at a 100% share, marked
/// mutable — and the master-edition record with a maximum supply of zero, so
/// no additional prints can ever be made. The edition write revokes the
/// mint's authorities, permanently capping its issued amount at one.
pub fn create_metadata_and_edition(
    l: &mut Ledger,
    base: &Vec<u8>,
    mint: &Vec<u8>,
    data: &Data,
) -> (r: Result<(), ErrorCode>)
    requires
        old(l).wf(),
    ensures
        final(l).wf(),
        r == create_metadata_and_edition_result(*old(l), base@, mint@),
        r is Err ==> *final(l) == *old(l),
        r is Ok ==> {
            &&& final(l).metadata_view(mint@) == Some(
                MetadataRecordV {
                    name: data@.name,
                    symbol: data@.symbol,
                    uri: data@.uri,
                    seller_fee_basis_points: data@.seller_fee_basis_points,
                    creators: seq![CreatorV { address: base@, verified: true, share: 100 }],
                    update_authority: base@,
                    is_mutable: true,
                },
            )
            &&& final(l).edition_view(mint@) == Some(
                EditionRecordV { max_supply: Some(0u64) },
            )
            &&& final(l).mint_view(mint@) == Some(
                MintRecordV {
                    decimals: 0,
                    supply: 1,
                    mint_authority: Option::None,
                    freeze_authority: Option::None,
                },
            )
            &&& forall|k: Seq<u8>|
                k != mint@ ==> #[trigger] final(l).metadata_view(k) == old(l).metadata_view(k)
            &&& forall|k: Seq<u8>|
                k != mint@ ==> #[trigger] final(l).edition_view(k) == old(l).edition_view(k)
            &&& forall|k: Seq<u8>|
                k != mint@ ==> #[trigger] final(l).mint_view(k) == old(l).mint_view(k)
            &&& final(l).metadata@.len() == old(l).metadata@.len() + 1
            &&& final(l).editions@.len() == old(l).editions@.len() + 1
            &&& final(l).mints@.len() == old(l).mints@.len()
            &&& final(l).masters == old(l).masters
            &&& final(l).layers == old(l).layers
            &&& final(l).token_accounts == old(l).token_accounts
        },
{
    let mi = match alist_find(&l.mints, mint) {
        Some(i) => i,
        None => {
            return Err(ErrorCode::AccountNotInitialized);
        },
    };
    let authority_ok = {
        let entry = &l.mints[mi];
        match &entry.1.mint_authority {
            Some(a) => crate::util::bytes_eq(a, base),
            None => false,
        }
    };
    if !authority_ok {
        return Err(ErrorCode::InvalidAuthority);
    }
    if alist_has_key(&l.metadata, mint) {
        return Err(ErrorCode::AccountAlreadyInUse);
    }
    if alist_has_key(&l.editions, mint) {
        return Err(ErrorCode::AccountAlreadyInUse);
    }
    let mint_shape_ok = {
        let entry = &l.mints[mi];
        entry.1.decimals == 0 && entry.1.supply == 1
    };
    if !mint_shape_ok {
        return Err(ErrorCode::InvalidMintState);
    }
    let mut creators: Vec<Creator> = Vec::new();
    creators.push(Creator { address: clone_bytes(base), verified: true, share: 100 });
    proof {
        assert(creators@.map_values(|c: Creator| c@) =~= seq![
            CreatorV { address: base@, verified: true, share: 100 },
        ]);
    }
    let metadata_written = create_metadata(l, mint, base, base, data, creators, true);
    match metadata_written {
        Ok(()) => {},
        Err(e) => {
            return Err(e);
        },
    }
    let ghost mid = *l;
    let edition_written = create_master_edition(l, mint, base, Some(0));
    match edition_written {
        Ok(()) => {},
        Err(e) => {
            return Err(e);
        },
    }
    proof {
        assert(l.metadata == mid.metadata);
        assert(l.metadata_view(mint@) == mid.metadata_view(mint@));
        assert forall|k: Seq<u8>|
            k != mint@ implies #[trigger] l.metadata_view(k) == old(l).metadata_view(k) by {
            assert(mid.metadata_view(k) == old(l).metadata_view(k));
        }
        assert forall|k: Seq<u8>|
            k != mint@ implies #[trigger] l.edition_view(k) == old(l).edition_view(k) by {
            assert(mid.editions == old(l).editions);
            assert(l.edition_view(k) == mid.edition_view(k));
        }
        assert forall|k: Seq<u8>|
            k != mint@ implies #[trigger] l.mint_view(k) == old(l).mint_view(k) by {
            assert(mid.mints == old(l).mints);
            assert(l.mint_view(k) == mid.mint_view(k));
        }
    }
    Ok(())
}

/// What `create_master` returns: the Master and mint addresses must equal
/// their derivations from the Base, and the Master record, the mint, the
/// payer's holding account, the metadata and the edition must all be fresh.
pub open spec fn create_master_result(
    l: Ledger,
    base: Seq<u8>,
    payer: Seq<u8>,
    master: Seq<u8>,
    mint: Seq<u8>,
    bump: u8,
    mint_bump: u8,
) -> Result<(), ErrorCode> {
    if master_pda(base, bump) != Some(master) {
        Result::Err(ErrorCode::InvalidMintPDA)
    } else if l.has_master(master) {
        Result::Err(ErrorCode::AccountAlreadyInUse)
    } else if mint_pda(base, Option::None, mint_bump) != Some(mint) {
        Result::Err(ErrorCode::InvalidMintPDA)
    } else if l.has_mint(mint) {
        Result::Err(ErrorCode::AccountAlreadyInUse)
    } else if l.has_token_account(ata_of(payer, mint)) {
        Result::Err(ErrorCode::AccountAlreadyInUse)
    } else if l.has_metadata(mint) {
        Result::Err(ErrorCode::AccountAlreadyInUse)
    } else if l.has_edition(mint) {
        Result::Err(ErrorCode::AccountAlreadyInUse)
    } else {
        Result::Ok(())
    }
}

/// Creates the singleton Master for a Base: validates the Master and mint
/// addresses against their derivations, runs the five-step provisioning
/// pipeline — allocate the mint, open the payer's holding account, issue the
/// single unit, write metadata and the edition marker — and records the
/// schema, padded to its fixed length. Any failure leaves the ledger exactly
/// as it was.
pub fn create_master(
    l: &mut Ledger,
    accounts: &CreateMaster,
    bump: u8,
    mint_bump: u8,
    schema: &Vec<u8>,
    data: &Data,
) -> (r: Result<(), ErrorCode>)
    requires
        old(l).wf(),
        accounts.wf(),
    ensures
        final(l).wf(),
        r == create_master_result(
            *old(l),
            accounts.base@,
            accounts.payer@,
            accounts.master@,
            accounts.mint@,
            bump,
            mint_bump,
        ),
        r is Err ==> *final(l) == *old(l),
        r is Ok ==> {
            &&& final(l).master_view(accounts.master@) == Some(
                MasterV { schema: spec_pad_schema(schema@) },
            )
            &&& final(l).mint_view(accounts.mint@) == Some(
                MintRecordV {
                    decimals: 0,
                    supply: 1,
                    mint_authority: Option::None,
                    freeze_authority: Option::None,
                },
            )
            &&& final(l).token_account_view(ata_of(accounts.payer@, accounts.mint@)) == Some(
                TokenAccountRecordV { owner: accounts.payer@, mint: accounts.mint@, amount: 1 },
            )
            &&& final(l).metadata_view(accounts.mint@) == Some(
                MetadataRecordV {
                    name: data@.name,
                    symbol: data@.symbol,
                    uri: data@.uri,
                    seller_fee_basis_points: data@.seller_fee_basis_points,
                    creators: seq![
                        CreatorV { address: accounts.base@, verified: true, share: 100 },
                    ],
                    update_authority: accounts.base@,
                    is_mutable: true,
                },
            )
            &&& final(l).edition_view(accounts.mint@) == Some(
                EditionRecordV { max_supply: Some(0u64) },
            )
            &&& forall|k: Seq<u8>|
                k != accounts.master@ ==> #[trigger] final(l).master_view(k) == old(
                    l,
                ).master_view(k)
            &&& forall|k: Seq<u8>|
                k != accounts.mint@ ==> #[trigger] final(l).mint_view(k) == old(l).mint_view(k)
            &&& forall|k: Seq<u8>|
                k != ata_of(accounts.payer@, accounts.mint@)
                    ==> #[trigger] final(l).token_account_view(k) == old(l).token_account_view(k)
            &&& forall|k: Seq<u8>|
                k != accounts.mint@ ==> #[trigger] final(l).metadata_view(k) == old(
                    l,
                ).metadata_view(k)
            &&& forall|k: Seq<u8>|
                k != accounts.mint@ ==> #[trigger] final(l).edition_view(k) == old(
                    l,
                ).edition_view(k)
            &&& final(l).masters@.len() == old(l).masters@.len() + 1
            &&& final(l).mints@.len() == old(l).mints@.len() + 1
            &&& final(l).token_accounts@.len() == old(l).token_accounts@.len() + 1
            &&& final(l).metadata@.len() == old(l).metadata@.len() + 1
            &&& final(l).editions@.len() == old(l).editions@.len() + 1
            &&& final(l).layers == old(l).layers
        },
{
    let seeds_master = master_record_seeds(&accounts.base, bump);
    verify_derived(&accounts.master, &seeds_master, ErrorCode::InvalidMintPDA)?;
    if alist_has_key(&l.masters, &accounts.master) {
        return Err(ErrorCode::AccountAlreadyInUse);
    }
    let seeds_mint = mint_seeds(&accounts.base, None, mint_bump);
    verify_derived(&accounts.mint, &seeds_mint, ErrorCode::InvalidMintPDA)?;
    if alist_has_key(&l.mints, &accounts.mint) {
        return Err(ErrorCode::AccountAlreadyInUse);
    }
    let ata = associated_token_address(&accounts.payer, &accounts.mint);
    if alist_has_key(&l.token_accounts, &ata) {
        return Err(ErrorCode::AccountAlreadyInUse);
    }
    if alist_has_key(&l.metadata, &accounts.mint) {
        return Err(ErrorCode::AccountAlreadyInUse);
    }
    if alist_has_key(&l.editions, &accounts.mint) {
        return Err(ErrorCode::AccountAlreadyInUse);
    }
    let minted = create_mint_at_pda(
        l,
        &accounts.mint,
        &accounts.base,
        &accounts.base,
        mint_bump,
        None,
    );
    match minted {
        Ok(()) => {},
        Err(e) => {
            return Err(e);
        },
    }
    let ghost l1 = *l;
    let opened = create_associated_account(l, &accounts.payer, &accounts.mint);
    let holding = match opened {
        Ok(a) => a,
        Err(e) => {
            return Err(e);
        },
    };
    let ghost l2 = *l;
    let issued = mint_to(l, &accounts.mint, &holding, &accounts.base, 1);
    match issued {
        Ok(()) => {},
        Err(e) => {
            return Err(e);
        },
    }
    let ghost l3 = *l;
    let described = create_metadata_and_edition(l, &accounts.base, &accounts.mint, data);
    match described {
        Ok(()) => {},
        Err(e) => {
            return Err(e);
        },
    }
    let ghost l4 = *l;
    let ghost prev_masters = l.masters@;
    l.masters.push((clone_bytes(&accounts.master), Master { schema: pad_schema(schema) }));
    proof {
        let p = l.masters@.last();
        assert(l4.masters == old(l).masters);
        lemma_alist_unique_push(prev_masters, p);
        lemma_alist_get_push(prev_masters, p, accounts.master@);
        assert forall|k: Seq<u8>|
            k != accounts.master@ implies #[trigger] l.master_view(k) == old(l).master_view(
            k,
        ) by {
            lemma_alist_get_push(prev_masters, p, k);
        }
        assert forall|k: Seq<u8>|
            k != accounts.mint@ implies #[trigger] l.mint_view(k) == old(l).mint_view(k) by {
            assert(l.mints == l4.mints);
            assert(l4.mint_view(k) == l3.mint_view(k));
            assert(l3.mint_view(k) == l2.mint_view(k));
            assert(l2.mints == l1.mints);
            assert(l1.mint_view(k) == old(l).mint_view(k));
        }
        assert forall|k: Seq<u8>|
            k != ata_of(accounts.payer@, accounts.mint@) implies #[trigger] l.token_account_view(
            k,
        ) == old(l).token_account_view(k) by {
            assert(l.token_accounts == l4.token_accounts);
            assert(l4.token_accounts == l3.token_accounts);
            assert(l3.token_account_view(k) == l2.token_account_view(k));
            assert(l2.token_account_view(k) == l1.token_account_view(k));
            assert(l1.token_accounts == old(l).token_accounts);
        }
        assert forall|k: Seq<u8>|
            k != accounts.mint@ implies #[trigger] l.metadata_view(k) == old(l).metadata_view(
            k,
        ) by {
            assert(l.metadata == l4.metadata);
            assert(l4.metadata_view(k) == l3.metadata_view(k));
            assert(l3.metadata == l2.metadata);
            assert(l2.metadata == l1.metadata);
            assert(l1.metadata == old(l).metadata);
        }
        assert forall|k: Seq<u8>|
            k != accounts.mint@ implies #[trigger] l.edition_view(k) == old(l).edition_view(
            k,
        ) by {
            assert(l.editions == l4.editions);
            assert(l4.edition_view(k) == l3.edition_view(k));
            assert(l3.editions == l2.editions);
            assert(l2.editions == l1.editions);
            assert(l1.editions == old(l).editions);
        }
    }
    Ok(())
}

/// What `create_layer` returns: the Layer and mint addresses must equal
/// their derivations from the Base and the layer index, and the Layer record,
/// the mint, the payer's holding account, the metadata and the edition must
/// all be fresh.
pub open spec fn create_layer_result(
    l: Ledger,
    base: Seq<u8>,
    payer: Seq<u8>,
    layer: Seq<u8>,
    mint: Seq<u8>,
    layer_bump: u8,
    mint_bump: u8,
    layer_index: u64,
) -> Result<(), ErrorCode> {
    if layer_pda(base, layer_index, layer_bump) != Some(layer) {
        Result::Err(ErrorCode::InvalidLayerPDA)
    } else if l.has_layer(layer) {
        Result::Err(ErrorCode::AccountAlreadyInUse)
    } else if mint_pda(base, Option::Some(layer_index), mint_bump) != Some(mint) {
        Result::Err(ErrorCode::InvalidMintPDA)
    } else if l.has_mint(mint) {
        Result::Err(ErrorCode::AccountAlreadyInUse)
    } else if l.has_token_account(ata_of(payer, mint)) {
        Result::Err(ErrorCode::AccountAlreadyInUse)
    } else if l.has_metadata(mint) {
        Result::Err(ErrorCode::AccountAlreadyInUse)
    } else if l.has_edition(mint) {
        Result::Err(ErrorCode::AccountAlreadyInUse)
    } else {
        Result::Ok(())
    }
}

/// Creates one Layer slot under a Base: validates the Layer and mint
/// addresses against their derivations from `(Base, layer_index)`, runs the
/// provisioning pipeline for the Layer's mint, and records the index of the
/// initially active Image. Any failure leaves the ledger exactly as it was.
pub fn create_layer(
    l: &mut Ledger,
    accounts: &CreateLayer,
    layer_bump: u8,
    mint_bump: u8,
    layer_index: u64,
    current: u64,
    data: &Data,
) -> (r: Result<(), ErrorCode>)
    requires
        old(l).wf(),
        accounts.wf(),
    ensures
        final(l).wf(),
        r == create_layer_result(
            *old(l),
            accounts.base@,
            accounts.payer@,
            accounts.layer@,
            accounts.mint@,
            layer_bump,
            mint_bump,
            layer_index,
        ),
        r is Err ==> *final(l) == *old(l),
        r is Ok ==> {
            &&& final(l).layer_view(accounts.layer@) == Some(LayerV { current })
            &&& final(l).mint_view(accounts.mint@) == Some(
                MintRecordV {
                    decimals: 0,
                    supply: 1,
                    mint_authority: Option::None,
                    freeze_authority: Option::None,
                },
            )
            &&& final(l).token_account_view(ata_of(accounts.payer@, accounts.mint@)) == Some(
                TokenAccountRecordV { owner: accounts.payer@, mint: accounts.mint@, amount: 1 },
            )
            &&& final(l).metadata_view(accounts.mint@) == Some(
                MetadataRecordV {
                    name: data@.name,
                    symbol: data@.symbol,
                    uri: data@.uri,
                    seller_fee_basis_points: data@.seller_fee_basis_points,
                    creators: seq![
                        CreatorV { address: accounts.base@, verified: true, share: 100 },
                    ],
                    update_authority: accounts.base@,
                    is_mutable: true,
                },
            )
            &&& final(l).edition_view(accounts.mint@) == Some(
                EditionRecordV { max_supply: Some(0u64) },
            )
            &&& forall|k: Seq<u8>|
                k != accounts.layer@ ==> #[trigger] final(l).layer_view(k) == old(l).layer_view(k)
            &&& forall|k: Seq<u8>|
                k != accounts.mint@ ==> #[trigger] final(l).mint_view(k) == old(l).mint_view(k)
            &&& forall|k: Seq<u8>|
                k != ata_of(accounts.payer@, accounts.mint@)
                    ==> #[trigger] final(l).token_account_view(k) == old(l).token_account_view(k)
            &&& forall|k: Seq<u8>|
                k != accounts.mint@ ==> #[trigger] final(l).metadata_view(k) == old(
                    l,
                ).metadata_view(k)
            &&& forall|k: Seq<u8>|
                k != accounts.mint@ ==> #[trigger] final(l).edition_view(k) == old(
                    l,
                ).edition_view(k)
            &&& final(l).layers@.len() == old(l).layers@.len() + 1
            &&& final(l).mints@.len() == old(l).mints@.len() + 1
            &&& final(l).token_accounts@.len() == old(l).token_accounts@.len() + 1
            &&& final(l).metadata@.len() == old(l).metadata@.len() + 1
            &&& final(l).editions@.len() == old(l).editions@.len() + 1
            &&& final(l).masters == old(l).masters
        },
{
    let seeds_layer = layer_record_seeds(&accounts.base, layer_index, layer_bump);
    verify_derived(&accounts.layer, &seeds_layer, ErrorCode::InvalidLayerPDA)?;
    if alist_has_key(&l.layers, &accounts.layer) {
        return Err(ErrorCode::AccountAlreadyInUse);
    }
    let seeds_mint = mint_seeds(&accounts.base, Some(layer_index), mint_bump);
    verify_derived(&accounts.mint, &seeds_mint, ErrorCode::InvalidMintPDA)?;
    if alist_has_key(&l.mints, &accounts.mint) {
        return Err(ErrorCode::AccountAlreadyInUse);
    }
    let ata = associated_token_address(&accounts.payer, &accounts.mint);
    if alist_has_key(&l.token_accounts, &ata) {
        return Err(ErrorCode::AccountAlreadyInUse);
    }
    if alist_has_key(&l.metadata, &accounts.mint) {
        return Err(ErrorCode::AccountAlreadyInUse);
    }
    if alist_has_key(&l.editions, &accounts.mint) {
        return Err(ErrorCode::AccountAlreadyInUse);
    }
    let minted = create_mint_at_pda(
        l,
        &accounts.mint,
        &accounts.base,
        &accounts.base,
        mint_bump,
        Some(layer_index),
    );
    match minted {
        Ok(()) => {},
        Err(e) => {
            return Err(e);
        },
    }
    let ghost l1 = *l;
    let opened = create_associated_account(l, &accounts.payer, &accounts.mint);
    let holding = match opened {
        Ok(a) => a,
        Err(e) => {
            return Err(e);
        },
    };
    let ghost l2 = *l;
    let issued = mint_to(l, &accounts.mint, &holding, &accounts.base, 1);
    match issued {
        Ok(()) => {},
        Err(e) => {
            return Err(e);
        },
    }
    let ghost l3 = *l;
    let described = create_metadata_and_edition(l, &accounts.base, &accounts.mint, data);
    match described {
        Ok(()) => {},
        Err(e) => {
            return Err(e);
        },
    }
    let ghost l4 = *l;
    let ghost prev_layers = l.layers@;
    l.layers.push((clone_bytes(&accounts.layer), Layer { current }));
    proof {
        let p = l.layers@.last();
        assert(l4.layers == old(l).layers);
        lemma_alist_unique_push(prev_layers, p);
        lemma_alist_get_push(prev_layers, p, accounts.layer@);
        assert forall|k: Seq<u8>|
            k != accounts.layer@ implies #[trigger] l.layer_view(k) == old(l).layer_view(k) by {
            lemma_alist_get_push(prev_layers, p, k);
        }
        assert forall|k: Seq<u8>|
            k != accounts.mint@ implies #[trigger] l.mint_view(k) == old(l).mint_view(k) by {
            assert(l.mints == l4.mints);
            assert(l4.mint_view(k) == l3.mint_view(k));
            assert(l3.mint_view(k) == l2.mint_view(k));
            assert(l2.mints == l1.mints);
            assert(l1.mint_view(k) == old(l).mint_view(k));
        }
        assert forall|k: Seq<u8>|
            k != ata_of(accounts.payer@, accounts.mint@) implies #[trigger] l.token_account_view(
            k,
        ) == old(l).token_account_view(k) by {
            assert(l.token_accounts == l4.token_accounts);
            assert(l4.token_accounts == l3.token_accounts);
            assert(l3.token_account_view(k) == l2.token_account_view(k));
            assert(l2.token_account_view(k) == l1.token_account_view(k));
            assert(l1.token_accounts == old(l).token_accounts);
        }
        assert forall|k: Seq<u8>|
            k != accounts.mint@ implies #[trigger] l.metadata_view(k) == old(l).metadata_view(
            k,
        ) by {
            assert(l.metadata == l4.metadata);
            assert(l4.metadata_view(k) == l3.metadata_view(k));
            assert(l3.metadata == l2.metadata);
            assert(l2.metadata == l1.metadata);
            assert(l1.metadata == old(l).metadata);
        }
        assert forall|k: Seq<u8>|
            k != accounts.mint@ implies #[trigger] l.edition_view(k) == old(l).edition_view(
            k,
        ) by {
            assert(l.editions == l4.editions);
            assert(l4.edition_view(k) == l3.edition_view(k));
            assert(l3.editions == l2.editions);
            assert(l2.editions == l1.editions);
            assert(l1.editions == old(l).editions);
        }
    }
    Ok(())
}

/// What `create_image` returns: the supplied Layer address must equal its
/// derivation from `(Base, layer_index)`, the mint address its derivation
/// from `(Layer, mint_index)`, and the mint, the payer's holding account, the
/// metadata and the edition must all be fresh.
pub open spec fn create_image_result(
    l: Ledger,
    base: Seq<u8>,
    payer: Seq<u8>,
    layer: Seq<u8>,
    mint: Seq<u8>,
    layer_bump: u8,
    layer_index: u64,
    mint_bump: u8,
    mint_index: u64,
) -> Result<(), ErrorCode> {
    if layer_pda(base, layer_index, layer_bump) != Some(layer) {
        Result::Err(ErrorCode::InvalidLayerPDA)
    } else if mint_pda(layer, Option::Some(mint_index), mint_bump) != Some(mint) {
        Result::Err(ErrorCode::InvalidMintPDA)
    } else if l.has_mint(mint) {
        Result::Err(ErrorCode::AccountAlreadyInUse)
    } else if l.has_token_account(ata_of(payer, mint)) {
        Result::Err(ErrorCode::AccountAlreadyInUse)
    } else if l.has_metadata(mint) {
        Result::Err(ErrorCode::AccountAlreadyInUse)
    } else if l.has_edition(mint) {
        Result::Err(ErrorCode::AccountAlreadyInUse)
    } else {
        Result::Ok(())
    }
}

/// Creates one tradable Image under a Layer. The supplied Layer address is
/// first re-validated against its derivation from `(Base, layer_index)` —
/// a forged Layer address fails with `InvalidLayerPDA` and leaves no new
/// records — and the provisioning pipeline then runs for the Image's mint,
/// whose seed path hangs off the Layer's key and the mint index. An Image
/// allocates no record of its own: its identity lives entirely in its mint,
/// metadata and edition.
pub fn create_image(
    l: &mut Ledger,
    accounts: &CreateImage,
    layer_bump: u8,
    layer_index: u64,
    mint_bump: u8,
    mint_index: u64,
    data: &Data,
) -> (r: Result<(), ErrorCode>)
    requires
        old(l).wf(),
        accounts.wf(),
    ensures
        final(l).wf(),
        r == create_image_result(
            *old(l),
            accounts.base@,
            accounts.payer@,
            accounts.layer@,
            accounts.mint@,
            layer_bump,
            layer_index,
            mint_bump,
            mint_index,
        ),
        r is Err ==> *final(l) == *old(l),
        r is Ok ==> {
            &&& final(l).mint_view(accounts.mint@) == Some(
                MintRecordV {
                    decimals: 0,
                    supply: 1,
                    mint_authority: Option::None,
                    freeze_authority: Option::None,
                },
            )
            &&& final(l).token_account_view(ata_of(accounts.payer@, accounts.mint@)) == Some(
                TokenAccountRecordV { owner: accounts.payer@, mint: accounts.mint@, amount: 1 },
            )
            &&& final(l).metadata_view(accounts.mint@) == Some(
                MetadataRecordV {
                    name: data@.name,
                    symbol: data@.symbol,
                    uri: data@.uri,
                    seller_fee_basis_points: data@.seller_fee_basis_points,
                    creators: seq![
                        CreatorV { address: accounts.base@, verified: true, share: 100 },
                    ],
                    update_authority: accounts.base@,
                    is_mutable: true,
                },
            )
            &&& final(l).edition_view(accounts.mint@) == Some(
                EditionRecordV { max_supply: Some(0u64) },
            )
            &&& forall|k: Seq<u8>|
                k != accounts.mint@ ==> #[trigger] final(l).mint_view(k) == old(l).mint_view(k)
            &&& forall|k: Seq<u8>|
                k != ata_of(accounts.payer@, accounts.mint@)
                    ==> #[trigger] final(l).token_account_view(k) == old(l).token_account_view(k)
            &&& forall|k: Seq<u8>|
                k != accounts.mint@ ==> #[trigger] final(l).metadata_view(k) == old(
                    l,
                ).metadata_view(k)
            &&& forall|k: Seq<u8>|
                k != accounts.mint@ ==> #[trigger] final(l).edition_view(k) == old(
                    l,
                ).edition_view(k)
            &&& final(l).mints@.len() == old(l).mints@.len() + 1
            &&& final(l).token_accounts@.len() == old(l).token_accounts@.len() + 1
            &&& final(l).metadata@.len() == old(l).metadata@.len() + 1
            &&& final(l).editions@.len() == old(l).editions@.len() + 1
            &&& final(l).masters == old(l).masters
            &&& final(l).layers == old(l).layers
        },
{
    let seeds_layer = layer_record_seeds(&accounts.base, layer_index, layer_bump);
    verify_derived(&accounts.layer, &seeds_layer, ErrorCode::InvalidLayerPDA)?;
    let seeds_mint = mint_seeds(&accounts.layer, Some(mint_index), mint_bump);
    verify_derived(&accounts.mint, &seeds_mint, ErrorCode::InvalidMintPDA)?;
    if alist_has_key(&l.mints, &accounts.mint) {
        return Err(ErrorCode::AccountAlreadyInUse);
    }
    let ata = associated_token_address(&accounts.payer, &accounts.mint);
    if alist_has_key(&l.token_accounts, &ata) {
        return Err(ErrorCode::AccountAlreadyInUse);
    }
    if alist_has_key(&l.metadata, &accounts.mint) {
        return Err(ErrorCode::AccountAlreadyInUse);
    }
    if alist_has_key(&l.editions, &accounts.mint) {
        return Err(ErrorCode::AccountAlreadyInUse);
    }
    let minted = create_mint_at_pda(
        l,
        &accounts.mint,
        &accounts.layer,
        &accounts.base,
        mint_bump,
        Some(mint_index),
    );
    match minted {
        Ok(()) => {},
        Err(e) => {
            return Err(e);
        },
    }
    let ghost l1 = *l;
    let opened = create_associated_account(l, &accounts.payer, &accounts.mint);
    let holding = match opened {
        Ok(a) => a,
        Err(e) => {
            return Err(e);
        },
    };
    let ghost l2 = *l;
    let issued = mint_to(l, &accounts.mint, &holding, &accounts.base, 1);
    match issued {
        Ok(()) => {},
        Err(e) => {
            return Err(e);
        },
    }
    let ghost l3 = *l;
    let described = create_metadata_and_edition(l, &accounts.base, &accounts.mint, data);
    match described {
        Ok(()) => {},
        Err(e) => {
            return Err(e);
        },
    }
    proof {
        assert forall|k: Seq<u8>|
            k != accounts.mint@ implies #[trigger] l.mint_view(k) == old(l).mint_view(k) by {
            assert(l.mint_view(k) == l3.mint_view(k));
            assert(l3.mint_view(k) == l2.mint_view(k));
            assert(l2.mints == l1.mints);
            assert(l1.mint_view(k) == old(l).mint_view(k));
        }
        assert forall|k: Seq<u8>|
            k != ata_of(accounts.payer@, accounts.mint@) implies #[trigger] l.token_account_view(
            k,
        ) == old(l).token_account_view(k) by {
            assert(l.token_accounts == l3.token_accounts);
            assert(l3.token_account_view(k) == l2.token_account_view(k));
            assert(l2.token_account_view(k) == l1.token_account_view(k));
            assert(l1.token_accounts == old(l).token_accounts);
        }
        assert forall|k: Seq<u8>|
            k != accounts.mint@ implies #[trigger] l.metadata_view(k) == old(l).metadata_view(
            k,
        ) by {
            assert(l.metadata_view(k) == l3.metadata_view(k));
            assert(l3.metadata == l2.metadata);
            assert(l2.metadata == l1.metadata);
            assert(l1.metadata == old(l).metadata);
        }
        assert forall|k: Seq<u8>|
            k != accounts.mint@ implies #[trigger] l.edition_view(k) == old(l).edition_view(
            k,
        ) by {
            assert(l.edition_view(k) == l3.edition_view(k));
            assert(l3.editions == l2.editions);
            assert(l2.editions == l1.editions);
            assert(l1.editions == old(l).editions);
        }
    }
    Ok(())
}

/// What `update_master_schema` returns: the Master address must equal its
/// derivation from the Base, and the record must exist.
pub open spec fn update_master_schema_result(
    l: Ledger,
    base: Seq<u8>,
    master: Seq<u8>,
    bump: u8,
) -> Result<(), ErrorCode> {
    if master_pda(base, bump) != Some(master) {
        Result::Err(ErrorCode::InvalidMintPDA)
    } else if !l.has_master(master) {
        Result::Err(ErrorCode::AccountNotInitialized)
    } else {
        Result::Ok(())
    }
}

/// Overwrites an existing Master record's schema, re-padded to its fixed
/// length. The only authorization is the address derivation itself: the
/// supplied Master address must re-derive from `(PREFIX, base, bump)`, and
/// only the rightful Base can sign for a path that reaches it.
pub fn update_master_schema(
    l: &mut Ledger,
    accounts: &UpdateMasterSchema,
    bump: u8,
    schema: &Vec<u8>,
) -> (r: Result<(), ErrorCode>)
    requires
        old(l).wf(),
        accounts.wf(),
    ensures
        final(l).wf(),
        r == update_master_schema_result(*old(l), accounts.base@, accounts.master@, bump),
        r is Err ==> *final(l) == *old(l),
        r is Ok ==> {
            &&& final(l).master_view(accounts.master@) == Some(
                MasterV { schema: spec_pad_schema(schema@) },
            )
            &&& forall|k: Seq<u8>|
                k != accounts.master@ ==> #[trigger] final(l).master_view(k) == old(
                    l,
                ).master_view(k)
            &&& final(l).masters@.len() == old(l).masters@.len()
            &&& final(l).layers == old(l).layers
            &&& final(l).mints == old(l).mints
            &&& final(l).token_accounts == old(l).token_accounts
            &&& final(l).metadata == old(l).metadata
            &&& final(l).editions == old(l).editions
        },
{
    let seeds = master_record_seeds(&accounts.base, bump);
    verify_derived(&accounts.master, &seeds, ErrorCode::InvalidMintPDA)?;
    let mi = match alist_find(&l.masters, &accounts.master) {
        Some(i) => i,
        None => {
            return Err(ErrorCode::AccountNotInitialized);
        },
    };
    let ghost prev = l.masters@;
    alist_set_value(&mut l.masters, mi, Master { schema: pad_schema(schema) });
    proof {
        lemma_alist_unique_update(prev, mi as int, l.masters@[mi as int]);
        assert forall|k: Seq<u8>| true implies #[trigger] l.master_view(k) == (if k
            == accounts.master@ {
            Some(l.masters@[mi as int].1@)
        } else {
            old(l).master_view(k)
        }) by {
            lemma_alist_get_update(prev, mi as int, l.masters@[mi as int], k);
        }
    }
    Ok(())
}

} // verus!

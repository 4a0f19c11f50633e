//! The ledger model and the external collaborator programs' boundary
//! behaviour.
//!
//! The ledger holds every class of record the operations touch: the program's
//! own Master and Layer records, and the mint, holding-account, metadata and
//! master-edition records owned by the external issuance, account-provisioning
//! and metadata programs. Those collaborators are modelled here exactly at
//! their documented boundary: what each call checks, what it writes, and what
//! it returns. Each call either performs its whole effect or reports an error
//! and leaves the ledger unchanged.
use vstd::prelude::*;

use crate::alist::{
    alist_find, alist_get, alist_has_key, alist_set_value, alist_unique, lemma_alist_get_push,
    lemma_alist_get_update, lemma_alist_unique_push, lemma_alist_unique_update,
};
use crate::derive::{associated_token_address, ata_of};
use crate::records::{
    Creator, CreatorV, Data, EditionRecord, EditionRecordV, ErrorCode, Layer, LayerV, Master,
    MasterV, MetadataRecord, MetadataRecordV, MintRecord, MintRecordV, TokenAccountRecord,
    TokenAccountRecordV,
};
use crate::util::{clone_bytes, clone_opt_bytes};

verus! {

/// All ledger-resident records, keyed by their 32-byte addresses.
pub struct Ledger {
    pub masters: Vec<(Vec<u8>, Master)>,
    pub layers: Vec<(Vec<u8>, Layer)>,
    pub mints: Vec<(Vec<u8>, MintRecord)>,
    pub token_accounts: Vec<(Vec<u8>, TokenAccountRecord)>,
    pub metadata: Vec<(Vec<u8>, MetadataRecord)>,
    pub editions: Vec<(Vec<u8>, EditionRecord)>,
}

impl Ledger {
    /// Every record class keeps pairwise-distinct addresses.
    pub open spec fn wf(self) -> bool {
        &&& alist_unique(self.masters@)
        &&& alist_unique(self.layers@)
        &&& alist_unique(self.mints@)
        &&& alist_unique(self.token_accounts@)
        &&& alist_unique(self.metadata@)
        &&& alist_unique(self.editions@)
    }

    /// The Master record at an address, if any.
    pub open spec fn master_view(self, k: Seq<u8>) -> Option<MasterV> {
        match alist_get(self.masters@, k) {
            Option::Some(m) => Option::Some(m@),
            Option::None => Option::None,
        }
    }

    /// The Layer record at an address, if any.
    pub open spec fn layer_view(self, k: Seq<u8>) -> Option<LayerV> {
        match alist_get(self.layers@, k) {
            Option::Some(m) => Option::Some(m@),
            Option::None => Option::None,
        }
    }

    /// The mint record at an address, if any.
    pub open spec fn mint_view(self, k: Seq<u8>) -> Option<MintRecordV> {
        match alist_get(self.mints@, k) {
            Option::Some(m) => Option::Some(m@),
            Option::None => Option::None,
        }
    }

    /// The holding account at an address, if any.
    pub open spec fn token_account_view(self, k: Seq<u8>) -> Option<TokenAccountRecordV> {
        match alist_get(self.token_accounts@, k) {
            Option::Some(m) => Option::Some(m@),
            Option::None => Option::None,
        }
    }

    /// The metadata record of a mint, if any. The external metadata program
    /// derives its record's address from the mint, so the model keys metadata
    /// by the mint's address.
    pub open spec fn metadata_view(self, k: Seq<u8>) -> Option<MetadataRecordV> {
        match alist_get(self.metadata@, k) {
            Option::Some(m) => Option::Some(m@),
            Option::None => Option::None,
        }
    }

    /// The master-edition record of a mint, if any; keyed by the mint's
    /// address, as the metadata is.
    pub open spec fn edition_view(self, k: Seq<u8>) -> Option<EditionRecordV> {
        match alist_get(self.editions@, k) {
            Option::Some(m) => Option::Some(m@),
            Option::None => Option::None,
        }
    }

    pub open spec fn has_master(self, k: Seq<u8>) -> bool {
        self.master_view(k) is Some
    }

    pub open spec fn has_layer(self, k: Seq<u8>) -> bool {
        self.layer_view(k) is Some
    }

    pub open spec fn has_mint(self, k: Seq<u8>) -> bool {
        self.mint_view(k) is Some
    }

    pub open spec fn has_token_account(self, k: Seq<u8>) -> bool {
        self.token_account_view(k) is Some
    }

    pub open spec fn has_metadata(self, k: Seq<u8>) -> bool {
        self.metadata_view(k) is Some
    }

    pub open spec fn has_edition(self, k: Seq<u8>) -> bool {
        self.edition_view(k) is Some
    }

    /// An empty ledger.
    pub fn new() -> (r: Ledger)
        ensures
            r.wf(),
            r.masters@.len() == 0,
            r.layers@.len() == 0,
            r.mints@.len() == 0,
            r.token_accounts@.len() == 0,
            r.metadata@.len() == 0,
            r.editions@.len() == 0,
    {
        Ledger {
            masters: Vec::new(),
            layers: Vec::new(),
            mints: Vec::new(),
            token_accounts: Vec::new(),
            metadata: Vec::new(),
            editions: Vec::new(),
        }
    }
}

/// What the issuance program's `initializeMint` returns: it fails exactly
/// when the target address already holds a mint record.
pub open spec fn initialize_mint_result(l: Ledger, mint: Seq<u8>) -> Result<(), ErrorCode> {
    if l.has_mint(mint) {
        Result::Err(ErrorCode::AccountAlreadyInUse)
    } else {
        Result::Ok(())
    }
}

/// Models the issuance program's `initializeMint`: allocates a fresh mint
/// record with no units issued and the given authorities.
pub fn initialize_mint(
    l: &mut Ledger,
    mint: &Vec<u8>,
    decimals: u8,
    mint_authority: &Vec<u8>,
    freeze_authority: &Vec<u8>,
) -> (r: Result<(), ErrorCode>)
    requires
        old(l).wf(),
    ensures
        final(l).wf(),
        r == initialize_mint_result(*old(l), mint@),
        r is Err ==> *final(l) == *old(l),
        r is Ok ==> {
            &&& final(l).mint_view(mint@) == Some(
                MintRecordV {
                    decimals,
                    supply: 0,
                    mint_authority: Some(mint_authority@),
                    freeze_authority: Some(freeze_authority@),
                },
            )
            &&& forall|k: Seq<u8>|
                k != mint@ ==> #[trigger] final(l).mint_view(k) == old(l).mint_view(k)
            &&& final(l).mints@.len() == old(l).mints@.len() + 1
            &&& final(l).masters == old(l).masters
            &&& final(l).layers == old(l).layers
            &&& final(l).token_accounts == old(l).token_accounts
            &&& final(l).metadata == old(l).metadata
            &&& final(l).editions == old(l).editions
        },
{
    if alist_has_key(&l.mints, mint) {
        return Err(ErrorCode::AccountAlreadyInUse);
    }
    let ghost prev = l.mints@;
    l.mints.push(
        (
            clone_bytes(mint),
            MintRecord {
                decimals,
                supply: 0,
                mint_authority: Some(clone_bytes(mint_authority)),
                freeze_authority: Some(clone_bytes(freeze_authority)),
            },
        ),
    );
    proof {
        let p = l.mints@.last();
        lemma_alist_unique_push(prev, p);
        lemma_alist_get_push(prev, p, mint@);
        assert forall|k: Seq<u8>|
            k != mint@ implies #[trigger] l.mint_view(k) == old(l).mint_view(k) by {
            lemma_alist_get_push(prev, p, k);
        }
    }
    Ok(())
}

/// What the account-provisioning program's `createAssociatedAccount` returns:
/// it fails when the mint does not exist or when the derived holding-account
/// address is already occupied.
pub open spec fn create_associated_account_result(
    l: Ledger,
    wallet: Seq<u8>,
    mint: Seq<u8>,
) -> Result<(), ErrorCode> {
    if !l.has_mint(mint) {
        Result::Err(ErrorCode::AccountNotInitialized)
    } else if l.has_token_account(ata_of(wallet, mint)) {
        Result::Err(ErrorCode::AccountAlreadyInUse)
    } else {
        Result::Ok(())
    }
}

/// Models the account-provisioning program's `createAssociatedAccount`: opens
/// an empty holding account for the wallet at the address derived from the
/// wallet and the mint, and returns that address.
pub fn create_associated_account(l: &mut Ledger, wallet: &Vec<u8>, mint: &Vec<u8>) -> (r: Result<
    Vec<u8>,
    ErrorCode,
>)
    requires
        old(l).wf(),
        wallet@.len() == 32,
        mint@.len() == 32,
    ensures
        final(l).wf(),
        match create_associated_account_result(*old(l), wallet@, mint@) {
            Result::Ok(()) => r matches Ok(a) && a@ == ata_of(wallet@, mint@),
            Result::Err(e) => r == Result::<Vec<u8>, ErrorCode>::Err(e),
        },
        r is Err ==> *final(l) == *old(l),
        r is Ok ==> {
            &&& final(l).token_account_view(ata_of(wallet@, mint@)) == Some(
                TokenAccountRecordV { owner: wallet@, mint: mint@, amount: 0 },
            )
            &&& forall|k: Seq<u8>|
                k != ata_of(wallet@, mint@) ==> #[trigger] final(l).token_account_view(k) == old(
                    l,
                ).token_account_view(k)
            &&& final(l).token_accounts@.len() == old(l).token_accounts@.len() + 1
            &&& final(l).masters == old(l).masters
            &&& final(l).layers == old(l).layers
            &&& final(l).mints == old(l).mints
            &&& final(l).metadata == old(l).metadata
            &&& final(l).editions == old(l).editions
        },
{
    if !alist_has_key(&l.mints, mint) {
        return Err(ErrorCode::AccountNotInitialized);
    }
    let address = associated_token_address(wallet, mint);
    if alist_has_key(&l.token_accounts, &address) {
        return Err(ErrorCode::AccountAlreadyInUse);
    }
    let ghost prev = l.token_accounts@;
    let key = clone_bytes(&address);
    l.token_accounts.push(
        (
            key,
            TokenAccountRecord { owner: clone_bytes(wallet), mint: clone_bytes(mint), amount: 0 },
        ),
    );
    proof {
        let p = l.token_accounts@.last();
        lemma_alist_unique_push(prev, p);
        lemma_alist_get_push(prev, p, ata_of(wallet@, mint@));
        assert forall|k: Seq<u8>|
            k != ata_of(wallet@, mint@) implies #[trigger] l.token_account_view(k) == old(
            l,
        ).token_account_view(k) by {
            lemma_alist_get_push(prev, p, k);
        }
    }
    Ok(address)
}

/// What the issuance program's `mintTo` returns: both accounts must exist,
/// the destination must belong to the mint, the signer must hold the mint
/// authority, and neither the supply nor the balance may overflow.
pub open spec fn mint_to_result(
    l: Ledger,
    mint: Seq<u8>,
    dest: Seq<u8>,
    authority: Seq<u8>,
    amount: u64,
) -> Result<(), ErrorCode> {
    match l.mint_view(mint) {
        Option::None => Result::Err(ErrorCode::AccountNotInitialized),
        Option::Some(m) => match l.token_account_view(dest) {
            Option::None => Result::Err(ErrorCode::AccountNotInitialized),
            Option::Some(d) => if d.mint != mint {
                Result::Err(ErrorCode::MintMismatch)
            } else if m.mint_authority != Some(authority) {
                Result::Err(ErrorCode::InvalidAuthority)
            } else if m.supply + amount > u64::MAX {
                Result::Err(ErrorCode::ArithmeticOverflow)
            } else if d.amount + amount > u64::MAX {
                Result::Err(ErrorCode::ArithmeticOverflow)
            } else {
                Result::Ok(())
            },
        },
    }
}

/// Models the issuance program's `mintTo`: moves `amount` fresh units of the
/// mint into the destination holding account, raising the mint's supply by
/// the same amount.
pub fn mint_to(
    l: &mut Ledger,
    mint: &Vec<u8>,
    dest: &Vec<u8>,
    authority: &Vec<u8>,
    amount: u64,
) -> (r: Result<(), ErrorCode>)
    requires
        old(l).wf(),
    ensures
        final(l).wf(),
        r == mint_to_result(*old(l), mint@, dest@, authority@, amount),
        r is Err ==> *final(l) == *old(l),
        r is Ok ==> {
            let m = old(l).mint_view(mint@).unwrap();
            let d = old(l).token_account_view(dest@).unwrap();
            &&& final(l).mint_view(mint@) == Some(
                MintRecordV {
                    decimals: m.decimals,
                    supply: (m.supply + amount) as u64,
                    mint_authority: m.mint_authority,
                    freeze_authority: m.freeze_authority,
                },
            )
            &&& final(l).token_account_view(dest@) == Some(
                TokenAccountRecordV {
                    owner: d.owner,
                    mint: d.mint,
                    amount: (d.amount + amount) as u64,
                },
            )
            &&& forall|k: Seq<u8>|
                k != mint@ ==> #[trigger] final(l).mint_view(k) == old(l).mint_view(k)
            &&& forall|k: Seq<u8>|
                k != dest@ ==> #[trigger] final(l).token_account_view(k) == old(
                    l,
                ).token_account_view(k)
            &&& final(l).mints@.len() == old(l).mints@.len()
            &&& final(l).token_accounts@.len() == old(l).token_accounts@.len()
            &&& final(l).masters == old(l).masters
            &&& final(l).layers == old(l).layers
            &&& final(l).metadata == old(l).metadata
            &&& final(l).editions == old(l).editions
        },
{
    let mi = match alist_find(&l.mints, mint) {
        Some(i) => i,
        None => {
            return Err(ErrorCode::AccountNotInitialized);
        },
    };
    let di = match alist_find(&l.token_accounts, dest) {
        Some(i) => i,
        None => {
            return Err(ErrorCode::AccountNotInitialized);
        },
    };
    let dest_mint_ok = {
        let entry = &l.token_accounts[di];
        crate::util::bytes_eq(&entry.1.mint, mint)
    };
    if !dest_mint_ok {
        return Err(ErrorCode::MintMismatch);
    }
    let authority_ok = {
        let entry = &l.mints[mi];
        match &entry.1.mint_authority {
            Some(a) => crate::util::bytes_eq(a, authority),
            None => false,
        }
    };
    if !authority_ok {
        return Err(ErrorCode::InvalidAuthority);
    }
    let supply = {
        let entry = &l.mints[mi];
        entry.1.supply
    };
    if supply > u64::MAX - amount {
        return Err(ErrorCode::ArithmeticOverflow);
    }
    let balance = {
        let entry = &l.token_accounts[di];
        entry.1.amount
    };
    if balance > u64::MAX - amount {
        return Err(ErrorCode::ArithmeticOverflow);
    }
    let new_mint_record = {
        let entry = &l.mints[mi];
        MintRecord {
            decimals: entry.1.decimals,
            supply: supply + amount,
            mint_authority: clone_opt_bytes(&entry.1.mint_authority),
            freeze_authority: clone_opt_bytes(&entry.1.freeze_authority),
        }
    };
    let ghost prev_mints = l.mints@;
    alist_set_value(&mut l.mints, mi, new_mint_record);
    let new_account_record = {
        let entry = &l.token_accounts[di];
        TokenAccountRecord {
            owner: clone_bytes(&entry.1.owner),
            mint: clone_bytes(&entry.1.mint),
            amount: balance + amount,
        }
    };
    let ghost prev_accounts = l.token_accounts@;
    alist_set_value(&mut l.token_accounts, di, new_account_record);
    proof {
        lemma_alist_unique_update(prev_mints, mi as int, l.mints@[mi as int]);
        lemma_alist_unique_update(prev_accounts, di as int, l.token_accounts@[di as int]);
        assert forall|k: Seq<u8>| true implies #[trigger] l.mint_view(k) == (if k == mint@ {
            Some(l.mints@[mi as int].1@)
        } else {
            old(l).mint_view(k)
        }) by {
            lemma_alist_get_update(prev_mints, mi as int, l.mints@[mi as int], k);
        }
        assert forall|k: Seq<u8>| true implies #[trigger] l.token_account_view(k) == (if k
            == dest@ {
            Some(l.token_accounts@[di as int].1@)
        } else {
            old(l).token_account_view(k)
        }) by {
            lemma_alist_get_update(prev_accounts, di as int, l.token_accounts@[di as int], k);
        }
    }
    Ok(())
}

/// When a mint's issuance authority is revoked, no issuance call can ever
/// succeed against it again, whatever signer, destination or amount is tried:
/// together with `mint_to`'s contract, the mint's supply is permanent.
pub proof fn lemma_supply_locked(
    l: Ledger,
    mint: Seq<u8>,
    dest: Seq<u8>,
    authority: Seq<u8>,
    amount: u64,
)
    requires
        l.mint_view(mint) matches Some(m) && m.mint_authority is None,
    ensures
        mint_to_result(l, mint, dest, authority, amount) is Err,
{
}

/// What the metadata program's `createMetadataAccount` returns: the mint must
/// exist, the signer must hold its mint authority, and the mint must not have
/// metadata yet.
pub open spec fn create_metadata_result(
    l: Ledger,
    mint: Seq<u8>,
    authority: Seq<u8>,
) -> Result<(), ErrorCode> {
    match l.mint_view(mint) {
        Option::None => Result::Err(ErrorCode::AccountNotInitialized),
        Option::Some(m) => if m.mint_authority != Some(authority) {
            Result::Err(ErrorCode::InvalidAuthority)
        } else if l.has_metadata(mint) {
            Result::Err(ErrorCode::AccountAlreadyInUse)
        } else {
            Result::Ok(())
        },
    }
}

/// Models the metadata program's `createMetadataAccount`: writes the
/// descriptive record for a mint.
pub fn create_metadata(
    l: &mut Ledger,
    mint: &Vec<u8>,
    authority: &Vec<u8>,
    update_authority: &Vec<u8>,
    data: &Data,
    creators: Vec<Creator>,
    is_mutable: bool,
) -> (r: Result<(), ErrorCode>)
    requires
        old(l).wf(),
    ensures
        final(l).wf(),
        r == create_metadata_result(*old(l), mint@, authority@),
        r is Err ==> *final(l) == *old(l),
        r is Ok ==> {
            &&& final(l).metadata_view(mint@) == Some(
                MetadataRecordV {
                    name: data@.name,
                    symbol: data@.symbol,
                    uri: data@.uri,
                    seller_fee_basis_points: data@.seller_fee_basis_points,
                    creators: creators@.map_values(|c: Creator| c@),
                    update_authority: update_authority@,
                    is_mutable,
                },
            )
            &&& forall|k: Seq<u8>|
                k != mint@ ==> #[trigger] final(l).metadata_view(k) == old(l).metadata_view(k)
            &&& final(l).metadata@.len() == old(l).metadata@.len() + 1
            &&& final(l).masters == old(l).masters
            &&& final(l).layers == old(l).layers
            &&& final(l).mints == old(l).mints
            &&& final(l).token_accounts == old(l).token_accounts
            &&& final(l).editions == old(l).editions
        },
{
    let authority_ok = match alist_find(&l.mints, mint) {
        Some(i) => {
            let entry = &l.mints[i];
            match &entry.1.mint_authority {
                Some(a) => crate::util::bytes_eq(a, authority),
                None => false,
            }
        },
        None => {
            return Err(ErrorCode::AccountNotInitialized);
        },
    };
    if !authority_ok {
        return Err(ErrorCode::InvalidAuthority);
    }
    if alist_has_key(&l.metadata, mint) {
        return Err(ErrorCode::AccountAlreadyInUse);
    }
    let ghost prev = l.metadata@;
    l.metadata.push(
        (
            clone_bytes(mint),
            MetadataRecord {
                name: data.name.clone(),
                symbol: data.symbol.clone(),
                uri: data.uri.clone(),
                seller_fee_basis_points: data.seller_fee_basis_points,
                creators,
                update_authority: clone_bytes(update_authority),
                is_mutable,
            },
        ),
    );
    proof {
        let p = l.metadata@.last();
        lemma_alist_unique_push(prev, p);
        lemma_alist_get_push(prev, p, mint@);
        assert forall|k: Seq<u8>|
            k != mint@ implies #[trigger] l.metadata_view(k) == old(l).metadata_view(k) by {
            lemma_alist_get_push(prev, p, k);
        }
    }
    Ok(())
}

/// What the metadata program's `createMasterEdition` returns: the mint must
/// exist with its metadata written, the signer must hold the mint authority,
/// the mint must be zero-decimal with exactly one unit issued, and no edition
/// record may exist yet.
pub open spec fn create_master_edition_result(
    l: Ledger,
    mint: Seq<u8>,
    authority: Seq<u8>,
) -> Result<(), ErrorCode> {
    match l.mint_view(mint) {
        Option::None => Result::Err(ErrorCode::AccountNotInitialized),
        Option::Some(m) => if m.mint_authority != Some(authority) {
            Result::Err(ErrorCode::InvalidAuthority)
        } else if !l.has_metadata(mint) {
            Result::Err(ErrorCode::AccountNotInitialized)
        } else if l.has_edition(mint) {
            Result::Err(ErrorCode::AccountAlreadyInUse)
        } else if !(m.decimals == 0 && m.supply == 1) {
            Result::Err(ErrorCode::InvalidMintState)
        } else {
            Result::Ok(())
        },
    }
}

/// Models the metadata program's `createMasterEdition`: writes the
/// master-edition marker for a supply-one mint and revokes the mint's
/// authorities, so its issued amount is permanently capped.
pub fn create_master_edition(
    l: &mut Ledger,
    mint: &Vec<u8>,
    authority: &Vec<u8>,
    max_supply: Option<u64>,
) -> (r: Result<(), ErrorCode>)
    requires
        old(l).wf(),
    ensures
        final(l).wf(),
        r == create_master_edition_result(*old(l), mint@, authority@),
        r is Err ==> *final(l) == *old(l),
        r is Ok ==> {
            &&& final(l).edition_view(mint@) == Some(EditionRecordV { max_supply })
            &&& final(l).mint_view(mint@) == Some(
                MintRecordV {
                    decimals: 0,
                    supply: 1,
                    mint_authority: Option::None,
                    freeze_authority: Option::None,
                },
            )
            &&& forall|k: Seq<u8>|
                k != mint@ ==> #[trigger] final(l).edition_view(k) == old(l).edition_view(k)
            &&& forall|k: Seq<u8>|
                k != mint@ ==> #[trigger] final(l).mint_view(k) == old(l).mint_view(k)
            &&& final(l).editions@.len() == old(l).editions@.len() + 1
            &&& final(l).mints@.len() == old(l).mints@.len()
            &&& final(l).masters == old(l).masters
            &&& final(l).layers == old(l).layers
            &&& final(l).token_accounts == old(l).token_accounts
            &&& final(l).metadata == old(l).metadata
        },
{
    let mi = match alist_find(&l.mints, mint) {
        Some(i) => i,
        None => {
            return Err(ErrorCode::AccountNotInitialized);
        },
    };
    let authority_ok = {
        let entry = &l.mints[mi];
        match &entry.1.mint_authority {
            Some(a) => crate::util::bytes_eq(a, authority),
            None => false,
        }
    };
    if !authority_ok {
        return Err(ErrorCode::InvalidAuthority);
    }
    if !alist_has_key(&l.metadata, mint) {
        return Err(ErrorCode::AccountNotInitialized);
    }
    if alist_has_key(&l.editions, mint) {
        return Err(ErrorCode::AccountAlreadyInUse);
    }
    let mint_shape_ok = {
        let entry = &l.mints[mi];
        entry.1.decimals == 0 && entry.1.supply == 1
    };
    if !mint_shape_ok {
        return Err(ErrorCode::InvalidMintState);
    }
    let ghost prev_editions = l.editions@;
    l.editions.push((clone_bytes(mint), EditionRecord { max_supply }));
    let ghost prev_mints = l.mints@;
    alist_set_value(
        &mut l.mints,
        mi,
        MintRecord { decimals: 0, supply: 1, mint_authority: None, freeze_authority: None },
    );
    proof {
        let p = l.editions@.last();
        lemma_alist_unique_push(prev_editions, p);
        lemma_alist_get_push(prev_editions, p, mint@);
        assert forall|k: Seq<u8>|
            k != mint@ implies #[trigger] l.edition_view(k) == old(l).edition_view(k) by {
            lemma_alist_get_push(prev_editions, p, k);
        }
        lemma_alist_unique_update(prev_mints, mi as int, l.mints@[mi as int]);
        assert forall|k: Seq<u8>| true implies #[trigger] l.mint_view(k) == (if k == mint@ {
            Some(l.mints@[mi as int].1@)
        } else {
            old(l).mint_view(k)
        }) by {
            lemma_alist_get_update(prev_mints, mi as int, l.mints@[mi as int], k);
        }
    }
    Ok(())
}

/// The stored schema of the Master record at an address, if one exists.
pub fn master_schema(l: &Ledger, address: &Vec<u8>) -> (r: Option<Vec<u8>>)
    ensures
        match r {
            Option::Some(s) => l.master_view(address@) matches Some(m) && m.schema == s@,
            Option::None => l.master_view(address@) is None,
        },
{
    match alist_find(&l.masters, address) {
        Some(i) => {
            let entry = &l.masters[i];
            Some(clone_bytes(&entry.1.schema))
        },
        None => None,
    }
}

/// The active-image index of the Layer record at an address, if one exists.
pub fn layer_current(l: &Ledger, address: &Vec<u8>) -> (r: Option<u64>)
    ensures
        match r {
            Option::Some(c) => l.layer_view(address@) matches Some(m) && m.current == c,
            Option::None => l.layer_view(address@) is None,
        },
{
    match alist_find(&l.layers, address) {
        Some(i) => {
            let entry = &l.layers[i];
            Some(entry.1.current)
        },
        None => None,
    }
}

/// The issued amount of the mint at an address, if one exists.
pub fn mint_supply(l: &Ledger, address: &Vec<u8>) -> (r: Option<u64>)
    ensures
        match r {
            Option::Some(s) => l.mint_view(address@) matches Some(m) && m.supply == s,
            Option::None => l.mint_view(address@) is None,
        },
{
    match alist_find(&l.mints, address) {
        Some(i) => {
            let entry = &l.mints[i];
            Some(entry.1.supply)
        },
        None => None,
    }
}

} // verus!

//! The ledger-resident record types and their mathematical views.
use vstd::prelude::*;

use crate::seeds::MAX_SCHEMA_URI_LENGTH;

verus! {

/// Why an operation was rejected.
///
/// The first two variants are address-derivation mismatches, the program's own
/// error codes. The remaining variants render the failures of the external
/// issuance, account-provisioning and metadata programs that the ledger model
/// internalizes: each is fatal to the whole operation.
#[derive(Clone, Copy, Debug, PartialEq, Eq, Structural)]
pub enum ErrorCode {
    /// A supplied mint or Master address does not equal its derivation.
    InvalidMintPDA,
    /// A supplied Layer address does not equal its derivation.
    InvalidLayerPDA,
    /// A record already exists at an address an operation would create.
    AccountAlreadyInUse,
    /// No record exists at an address an operation must read.
    AccountNotInitialized,
    /// A signer does not hold the authority a mutation needs.
    InvalidAuthority,
    /// A holding account belongs to a different mint than the one issued to.
    MintMismatch,
    /// A mint is not in the shape a master-edition record requires.
    InvalidMintState,
    /// Issuance would overflow a balance or a supply counter.
    ArithmeticOverflow,
}

/// The descriptive fields of a metadata record, as supplied by the caller.
pub struct Data {
    pub name: String,
    pub symbol: String,
    pub uri: String,
    pub seller_fee_basis_points: u16,
}

/// View of [`Data`].
pub struct DataV {
    pub name: Seq<char>,
    pub symbol: Seq<char>,
    pub uri: Seq<char>,
    pub seller_fee_basis_points: u16,
}

impl View for Data {
    type V = DataV;

    open spec fn view(&self) -> DataV {
        DataV {
            name: self.name@,
            symbol: self.symbol@,
            uri: self.uri@,
            seller_fee_basis_points: self.seller_fee_basis_points,
        }
    }
}

/// The singleton composite-asset descriptor for a Base.
///
/// The schema is stored padded or truncated to exactly
/// [`MAX_SCHEMA_URI_LENGTH`] bytes.
pub struct Master {
    pub schema: Vec<u8>,
}

/// View of [`Master`].
pub struct MasterV {
    pub schema: Seq<u8>,
}

impl View for Master {
    type V = MasterV;

    open spec fn view(&self) -> MasterV {
        MasterV { schema: self.schema@ }
    }
}

/// One swappable layer slot, indexed under a Master.
///
/// `current` is written at creation time only: the exposed operation set has
/// no update for it, unlike the Master's schema.
pub struct Layer {
    /// Index of the active Image within this layer.
    pub current: u64,
}

/// View of [`Layer`].
pub struct LayerV {
    pub current: u64,
}

impl View for Layer {
    type V = LayerV;

    open spec fn view(&self) -> LayerV {
        LayerV { current: self.current }
    }
}

/// A fungible-unit-of-one record, owned by the external issuance program.
pub struct MintRecord {
    pub decimals: u8,
    pub supply: u64,
    /// The key allowed to issue units, or `None` once issuance is revoked.
    pub mint_authority: Option<Vec<u8>>,
    pub freeze_authority: Option<Vec<u8>>,
}

/// View of [`MintRecord`].
pub struct MintRecordV {
    pub decimals: u8,
    pub supply: u64,
    pub mint_authority: Option<Seq<u8>>,
    pub freeze_authority: Option<Seq<u8>>,
}

impl View for MintRecord {
    type V = MintRecordV;

    open spec fn view(&self) -> MintRecordV {
        MintRecordV {
            decimals: self.decimals,
            supply: self.supply,
            mint_authority: match self.mint_authority {
                Option::Some(ref a) => Option::Some(a@),
                Option::None => Option::None,
            },
            freeze_authority: match self.freeze_authority {
                Option::Some(ref a) => Option::Some(a@),
                Option::None => Option::None,
            },
        }
    }
}

/// An account holding one owner's balance of one mint's units.
pub struct TokenAccountRecord {
    pub owner: Vec<u8>,
    pub mint: Vec<u8>,
    pub amount: u64,
}

/// View of [`TokenAccountRecord`].
pub struct TokenAccountRecordV {
    pub owner: Seq<u8>,
    pub mint: Seq<u8>,
    pub amount: u64,
}

impl View for TokenAccountRecord {
    type V = TokenAccountRecordV;

    open spec fn view(&self) -> TokenAccountRecordV {
        TokenAccountRecordV { owner: self.owner@, mint: self.mint@, amount: self.amount }
    }
}

/// One entry of a metadata record's creator list.
pub struct Creator {
    pub address: Vec<u8>,
    pub verified: bool,
    pub share: u8,
}

/// View of [`Creator`].
pub struct CreatorV {
    pub address: Seq<u8>,
    pub verified: bool,
    pub share: u8,
}

impl View for Creator {
    type V = CreatorV;

    open spec fn view(&self) -> CreatorV {
        CreatorV { address: self.address@, verified: self.verified, share: self.share }
    }
}

/// The descriptive record the external metadata program keeps for a mint.
pub struct MetadataRecord {
    pub name: String,
    pub symbol: String,
    pub uri: String,
    pub seller_fee_basis_points: u16,
    pub creators: Vec<Creator>,
    pub update_authority: Vec<u8>,
    pub is_mutable: bool,
}

/// View of [`MetadataRecord`].
pub struct MetadataRecordV {
    pub name: Seq<char>,
    pub symbol: Seq<char>,
    pub uri: Seq<char>,
    pub seller_fee_basis_points: u16,
    pub creators: Seq<CreatorV>,
    pub update_authority: Seq<u8>,
    pub is_mutable: bool,
}

impl View for MetadataRecord {
    type V = MetadataRecordV;

    open spec fn view(&self) -> MetadataRecordV {
        MetadataRecordV {
            name: self.name@,
            symbol: self.symbol@,
            uri: self.uri@,
            seller_fee_basis_points: self.seller_fee_basis_points,
            creators: self.creators@.map_values(|c: Creator| c@),
            update_authority: self.update_authority@,
            is_mutable: self.is_mutable,
        }
    }
}

/// The master-edition marker the external metadata program keeps for a mint.
///
/// `max_supply` of `Some(0)` means no additional prints can ever be made.
pub struct EditionRecord {
    pub max_supply: Option<u64>,
}

/// View of [`EditionRecord`].
pub struct EditionRecordV {
    pub max_supply: Option<u64>,
}

impl View for EditionRecord {
    type V = EditionRecordV;

    open spec fn view(&self) -> EditionRecordV {
        EditionRecordV { max_supply: self.max_supply }
    }
}

/// `n` zero bytes.
pub open spec fn zero_bytes(n: int) -> Seq<u8> {
    Seq::new(n as nat, |i: int| 0u8)
}

/// What a stored schema looks like: the input padded with zero bytes to
/// exactly [`MAX_SCHEMA_URI_LENGTH`] bytes, or truncated to that length if it
/// is longer.
pub open spec fn spec_pad_schema(s: Seq<u8>) -> Seq<u8> {
    if s.len() >= MAX_SCHEMA_URI_LENGTH {
        s.take(MAX_SCHEMA_URI_LENGTH as int)
    } else {
        s + zero_bytes(MAX_SCHEMA_URI_LENGTH - s.len())
    }
}

/// Pads or truncates a schema to exactly [`MAX_SCHEMA_URI_LENGTH`] bytes.
pub fn pad_schema(s: &Vec<u8>) -> (r: Vec<u8>)
    ensures
        r@ == spec_pad_schema(s@),
        r@.len() == MAX_SCHEMA_URI_LENGTH,
{
    let mut r: Vec<u8> = Vec::new();
    let keep: usize = if s.len() >= MAX_SCHEMA_URI_LENGTH {
        MAX_SCHEMA_URI_LENGTH
    } else {
        s.len()
    };
    let mut i: usize = 0;
    while i < keep
        invariant
            i <= keep,
            keep <= s@.len(),
            r@ == s@.take(i as int),
        decreases keep - i,
    {
        r.push(s[i]);
        assert(r@ =~= s@.take(i as int + 1));
        i += 1;
    }
    while r.len() < MAX_SCHEMA_URI_LENGTH
        invariant
            keep <= r@.len() <= MAX_SCHEMA_URI_LENGTH,
            r@.take(keep as int) == s@.take(keep as int),
            forall|j: int| keep <= j < r@.len() ==> r@[j] == 0u8,
        decreases MAX_SCHEMA_URI_LENGTH - r.len(),
    {
        r.push(0u8);
        assert(r@.take(keep as int) =~= s@.take(keep as int));
    }
    proof {
        if s@.len() >= MAX_SCHEMA_URI_LENGTH {
            assert(r@ =~= s@.take(MAX_SCHEMA_URI_LENGTH as int));
        } else {
            assert forall|j: int| 0 <= j < s@.len() implies r@[j] == s@[j] by {
                assert(r@.take(keep as int)[j] == s@.take(keep as int)[j]);
            }
            assert(r@ =~= s@ + zero_bytes(MAX_SCHEMA_URI_LENGTH - s@.len()));
        }
    }
    r
}

/// The schema padding round-trip law: a schema shorter than the limit is
/// stored as itself followed by zero padding and reads back unchanged as the
/// prefix of the stored bytes; one of exactly the limit is stored unchanged;
/// a longer one is truncated to exactly the limit.
pub proof fn lemma_schema_padding_round_trip(s: Seq<u8>)
    ensures
        spec_pad_schema(s).len() == MAX_SCHEMA_URI_LENGTH,
        s.len() <= MAX_SCHEMA_URI_LENGTH ==> spec_pad_schema(s).take(s.len() as int) == s,
        s.len() < MAX_SCHEMA_URI_LENGTH ==> forall|j: int|
            s.len() <= j < MAX_SCHEMA_URI_LENGTH ==> spec_pad_schema(s)[j] == 0u8,
        s.len() == MAX_SCHEMA_URI_LENGTH ==> spec_pad_schema(s) == s,
        s.len() > MAX_SCHEMA_URI_LENGTH ==> spec_pad_schema(s) == s.take(
            MAX_SCHEMA_URI_LENGTH as int,
        ),
{
    if s.len() <= MAX_SCHEMA_URI_LENGTH {
        assert(spec_pad_schema(s).take(s.len() as int) =~= s);
    }
    if s.len() == MAX_SCHEMA_URI_LENGTH {
        assert(spec_pad_schema(s) =~= s);
    }
}

} // verus!

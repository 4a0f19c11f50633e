//! Seed paths for program-derived addresses.
//!
//! Every entity of the hierarchy lives at an address derived from a fixed
//! domain tag, the owning entity's key, an optional little-endian index, and a
//! bump byte. These functions build those seed paths, in both specification
//! and executable form.
use vstd::prelude::*;

use crate::util::views_of;

verus! {

/// Stored schema strings are padded or truncated to exactly this many bytes,
/// so a Master record's storage footprint never changes after creation.
pub const MAX_SCHEMA_URI_LENGTH: usize = 200;

/// The domain-separator tag, the bytes of `"asyncart"`.
pub open spec fn spec_prefix_tag() -> Seq<u8> {
    seq![97u8, 115u8, 121u8, 110u8, 99u8, 97u8, 114u8, 116u8]
}

/// The mint tag, the bytes of `"mint"`.
pub open spec fn spec_mint_tag() -> Seq<u8> {
    seq![109u8, 105u8, 110u8, 116u8]
}

/// The key of the program that owns every derived address, decoded to bytes.
pub open spec fn spec_program_id() -> Seq<u8> {
    seq![
        147u8, 209u8, 74u8, 39u8, 33u8, 207u8, 205u8, 249u8, 173u8, 77u8, 203u8, 135u8, 70u8,
        44u8, 198u8, 230u8, 197u8, 254u8, 37u8, 58u8, 97u8, 118u8, 200u8, 176u8, 251u8, 13u8,
        235u8, 200u8, 239u8, 0u8, 112u8, 115u8,
    ]
}

/// The domain-separator tag `PREFIX`, as a byte vector.
pub fn prefix_tag() -> (r: Vec<u8>)
    ensures
        r@ == spec_prefix_tag(),
{
    let r: Vec<u8> = vec![97u8, 115u8, 121u8, 110u8, 99u8, 97u8, 114u8, 116u8];
    assert(r@ =~= spec_prefix_tag());
    r
}

/// The `MINT` tag, as a byte vector.
pub fn mint_tag() -> (r: Vec<u8>)
    ensures
        r@ == spec_mint_tag(),
{
    let r: Vec<u8> = vec![109u8, 105u8, 110u8, 116u8];
    assert(r@ =~= spec_mint_tag());
    r
}

/// The program's own key, as a byte vector.
pub fn program_id() -> (r: Vec<u8>)
    ensures
        r@ == spec_program_id(),
        r@.len() == 32,
{
    let r: Vec<u8> = vec![
        147u8, 209u8, 74u8, 39u8, 33u8, 207u8, 205u8, 249u8, 173u8, 77u8, 203u8, 135u8, 70u8,
        44u8, 198u8, 230u8, 197u8, 254u8, 37u8, 58u8, 97u8, 118u8, 200u8, 176u8, 251u8, 13u8,
        235u8, 200u8, 239u8, 0u8, 112u8, 115u8,
    ];
    assert(r@ =~= spec_program_id());
    r
}

/// Seed path of a Master record: `(PREFIX, base, bump)`.
pub open spec fn spec_master_record_seeds(base: Seq<u8>, bump: u8) -> Seq<Seq<u8>> {
    seq![spec_prefix_tag(), base, seq![bump]]
}

/// Seed path of a Layer record: `(PREFIX, base, layer index, bump)`.
pub open spec fn spec_layer_record_seeds(base: Seq<u8>, layer_index: u64, bump: u8) -> Seq<
    Seq<u8>,
> {
    seq![spec_prefix_tag(), base, vstd::bytes::spec_u64_to_le_bytes(layer_index), seq![bump]]
}

/// Seed path of an entity's mint: `(PREFIX, owner, MINT, optional index, bump)`.
///
/// The owner is the Base key for a Master or Layer mint and the Layer key for
/// an Image mint; the index is absent only for a Master mint.
pub open spec fn spec_mint_seeds(owner: Seq<u8>, index: Option<u64>, bump: u8) -> Seq<Seq<u8>> {
    match index {
        Option::None => seq![spec_prefix_tag(), owner, spec_mint_tag(), seq![bump]],
        Option::Some(i) => seq![
            spec_prefix_tag(),
            owner,
            spec_mint_tag(),
            vstd::bytes::spec_u64_to_le_bytes(i),
            seq![bump],
        ],
    }
}

/// Builds the Master record seed path.
pub fn master_record_seeds(base: &Vec<u8>, bump: u8) -> (r: Vec<Vec<u8>>)
    ensures
        views_of(r@) == spec_master_record_seeds(base@, bump),
{
    let mut r: Vec<Vec<u8>> = Vec::new();
    r.push(prefix_tag());
    r.push(crate::util::clone_bytes(base));
    r.push(crate::util::singleton_byte(bump));
    assert(views_of(r@) =~~= spec_master_record_seeds(base@, bump));
    r
}

/// Builds the Layer record seed path.
pub fn layer_record_seeds(base: &Vec<u8>, layer_index: u64, bump: u8) -> (r: Vec<Vec<u8>>)
    ensures
        views_of(r@) == spec_layer_record_seeds(base@, layer_index, bump),
{
    let mut r: Vec<Vec<u8>> = Vec::new();
    r.push(prefix_tag());
    r.push(crate::util::clone_bytes(base));
    r.push(vstd::bytes::u64_to_le_bytes(layer_index));
    r.push(crate::util::singleton_byte(bump));
    assert(views_of(r@) =~~= spec_layer_record_seeds(base@, layer_index, bump));
    r
}

/// Builds a mint seed path.
pub fn mint_seeds(owner: &Vec<u8>, index: Option<u64>, bump: u8) -> (r: Vec<Vec<u8>>)
    ensures
        views_of(r@) == spec_mint_seeds(owner@, index, bump),
{
    let mut r: Vec<Vec<u8>> = Vec::new();
    r.push(prefix_tag());
    r.push(crate::util::clone_bytes(owner));
    r.push(mint_tag());
    match index {
        Option::None => {},
        Option::Some(i) => {
            r.push(vstd::bytes::u64_to_le_bytes(i));
        },
    }
    r.push(crate::util::singleton_byte(bump));
    assert(views_of(r@) =~~= spec_mint_seeds(owner@, index, bump));
    r
}

} // verus!

//! Deterministic record addressing.
//!
//! A record's storage address is a pure function of a fixed domain tag, the
//! owner identity, and the asset identifier: the same inputs always derive
//! the same address. The derivation itself is the host ledger's
//! program-derived-address search, reached through one trusted call; its
//! result is only named here, never restated.

use vstd::prelude::*;
use vstd::string::StrSliceExecFns;
use vstd::string::StringSliceAdditionalSpecFns;

verus! {

/// The address that the host ledger's program-derived-address search returns
/// for these seeds (domain tag, owner, asset id) under this program id, or
/// `None` in the statistically improbable event that no bump seed yields a
/// valid address. The result depends on the four arguments alone.
pub uninterp spec fn pda_of(
    tag: Seq<u8>,
    owner: Seq<u8>,
    asset_id: Seq<u8>,
    program: Seq<u8>,
) -> Option<Seq<u8>>;

/// The domain tag under which every migration record is addressed.
pub open spec fn migration_tag() -> Seq<u8> {
    "migration".spec_bytes()
}

/// The 32-byte identifier of the program whose storage namespace holds the
/// records.
pub open spec fn spec_program_id() -> Seq<u8> {
    seq![
        84u8, 157, 21, 79, 34, 243, 58, 189, 0, 120, 209, 151, 16, 99, 167, 197, 155, 32, 104, 13,
        81, 89, 192, 155, 63, 245, 112, 28, 3, 180, 36, 44,
    ]
}

/// The address at which the record for `(owner, asset_id)` lives, or `None`
/// if no address can be derived for that pair.
pub open spec fn derived_address(owner: Seq<u8>, asset_id: Seq<char>) -> Option<Seq<u8>> {
    pda_of(migration_tag(), owner, vstd::utf8::encode_utf8(asset_id), spec_program_id())
}

/// The view of an optional byte string.
pub open spec fn opt_bytes(r: Option<Vec<u8>>) -> Option<Seq<u8>> {
    match r {
        Some(v) => Some(v@),
        None => None,
    }
}

/// Relies on `Pubkey::try_find_program_address` of anchor_lang's prelude
/// (solana-address): the returned address is a deterministic function of the
/// seeds and the program id alone, it is 32 bytes long, and the search
/// returns `None` rather than diverging when no bump seed works.
#[verifier::external_body]
fn pda_lookup(tag: &Vec<u8>, owner: &Vec<u8>, asset_id: &Vec<u8>, program: &Vec<u8>) -> (r: Option<
    Vec<u8>,
>)
    requires
        program@.len() == 32,
    ensures
        opt_bytes(r) == pda_of(tag@, owner@, asset_id@, program@),
        r matches Some(a) ==> a@.len() == 32,
{
    let program_bytes: [u8; 32] = program.as_slice().try_into().unwrap();
    let program_key = anchor_lang::prelude::Pubkey::new_from_array(program_bytes);
    let seeds: [&[u8]; 3] = [tag.as_slice(), owner.as_slice(), asset_id.as_slice()];
    match anchor_lang::prelude::Pubkey::try_find_program_address(&seeds, &program_key) {
        Some((address, _bump)) => Some(address.to_bytes().to_vec()),
        None => None,
    }
}

/// The bytes of [`migration_tag`].
fn migration_tag_bytes() -> (tag: Vec<u8>)
    ensures
        tag@ == migration_tag(),
{
    "migration".as_bytes_vec()
}

/// The bytes of [`spec_program_id`].
fn program_id_bytes() -> (id: Vec<u8>)
    ensures
        id@ == spec_program_id(),
        id@.len() == 32,
{
    let id: Vec<u8> = vec![
        84u8, 157, 21, 79, 34, 243, 58, 189, 0, 120, 209, 151, 16, 99, 167, 197, 155, 32, 104, 13,
        81, 89, 192, 155, 63, 245, 112, 28, 3, 180, 36, 44,
    ];
    proof {
        assert(id@ =~= spec_program_id());
    }
    id
}

/// Derive the storage address of the record for `(owner, eth_asset_id)`.
///
/// The result is a function of the two arguments alone: two calls with the
/// same owner and asset id always return the same address. `None` is
/// returned exactly when no address exists for the pair.
pub fn derive_address(owner: &Vec<u8>, eth_asset_id: &str) -> (address: Option<Vec<u8>>)
    ensures
        opt_bytes(address) == derived_address(owner@, eth_asset_id@),
        address matches Some(a) ==> a@.len() == 32,
{
    let tag = migration_tag_bytes();
    let program = program_id_bytes();
    let asset_bytes = eth_asset_id.as_bytes_vec();
    pda_lookup(&tag, owner, &asset_bytes, &program)
}

} // verus!

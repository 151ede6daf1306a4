//! Migration records: the data stored at a derived address, their two-state
//! lifecycle, and the owner-equality check that guards mutation.

use vstd::prelude::*;
use vstd::string::StringSliceAdditionalSpecFns;

verus! {

/// How many bytes an identity (a public key on the host ledger) occupies.
pub const IDENTITY_LEN: usize = 32;

/// The lifecycle state of a migration record.
///
/// The only legal transition is `Initiated` to `Completed`; no transition
/// leaves `Completed`, and no other state exists.
#[derive(Clone, Copy, Debug, PartialEq, Eq, Structural)]
pub enum MigrationStatus {
    Initiated,
    Completed,
}

/// The single-byte tag under which a status is stored in the record layout.
pub open spec fn spec_status_tag(s: MigrationStatus) -> u8 {
    match s {
        MigrationStatus::Initiated => 0,
        MigrationStatus::Completed => 1,
    }
}

impl MigrationStatus {
    /// The storage tag of this status: 0 for `Initiated`, 1 for `Completed`.
    pub fn as_tag(self) -> (tag: u8)
        ensures
            tag == spec_status_tag(self),
    {
        match self {
            MigrationStatus::Initiated => 0,
            MigrationStatus::Completed => 1,
        }
    }

    /// The status stored under `tag`, or `None` if `tag` is not a legal tag.
    pub fn from_tag(tag: u8) -> (s: Option<MigrationStatus>)
        ensures
            s matches Some(status) ==> spec_status_tag(status) == tag,
            s is None <==> tag > 1,
    {
        if tag == 0 {
            Some(MigrationStatus::Initiated)
        } else if tag == 1 {
            Some(MigrationStatus::Completed)
        } else {
            None
        }
    }

    /// Whether a record may move from `self` to `to`: the status is
    /// monotonic, so the only move barred is leaving `Completed` for
    /// `Initiated`. Re-asserting `Completed` is allowed.
    pub open spec fn can_become(self, to: MigrationStatus) -> bool {
        to is Completed || self is Initiated
    }
}

/// One migration record: the identity that requested the migration, the
/// asset's identifier on the origin system, and how far the migration has
/// progressed.
pub struct MigrationRecord {
    /// The identity that created the record and alone may complete it.
    pub user: Vec<u8>,
    /// The asset's identifier on the origin ledger, as the caller gave it.
    pub eth_asset_id: String,
    /// How far the migration has progressed.
    pub status: MigrationStatus,
}

/// The mathematical value of a [`MigrationRecord`].
#[verifier::ext_equal]
pub struct RecordModel {
    pub user: Seq<u8>,
    pub eth_asset_id: Seq<char>,
    pub status: MigrationStatus,
}

impl View for MigrationRecord {
    type V = RecordModel;

    open spec fn view(&self) -> RecordModel {
        RecordModel { user: self.user@, eth_asset_id: self.eth_asset_id@, status: self.status }
    }
}

impl MigrationRecord {
    /// A record is well formed when its owner field is a full identity.
    pub open spec fn wf(&self) -> bool {
        self.user@.len() == IDENTITY_LEN
    }
}

/// Whether `signer` holds the authority to mutate `record`: exactly when it
/// equals the record's stored owner. No alternate authorizer exists.
pub fn authorize(signer: &Vec<u8>, record: &MigrationRecord) -> (granted: bool)
    ensures
        granted == (signer@ == record.user@),
{
    bytes_eq(signer, &record.user)
}

/// Byte-for-byte equality of two byte strings.
pub fn bytes_eq(a: &Vec<u8>, b: &Vec<u8>) -> (eq: bool)
    ensures
        eq == (a@ == b@),
{
    if a.len() != b.len() {
        return false;
    }
    let mut i: usize = 0;
    while i < a.len()
        invariant
            i <= a@.len(),
            a@.len() == b@.len(),
            forall|j: int| 0 <= j < i ==> a@[j] == b@[j],
        decreases a@.len() - i,
    {
        if a[i] != b[i] {
            return false;
        }
        i += 1;
    }
    proof {
        assert(a@ =~= b@);
    }
    true
}

/// The exact number of bytes a stored record occupies: an 8-byte store-level
/// header, the 32-byte owner identity, a 4-byte length prefix, the asset
/// identifier's bytes, and the 1-byte status tag.
pub open spec fn spec_required_space(eth_asset_id: Seq<char>) -> int {
    8 + IDENTITY_LEN + 4 + vstd::utf8::encode_utf8(eth_asset_id).len() + 1
}

/// The exact storage allocation, in bytes, for a record of this asset id.
pub fn required_space(eth_asset_id: &str) -> (space: u64)
    requires
        spec_required_space(eth_asset_id@) <= u64::MAX,
    ensures
        space == spec_required_space(eth_asset_id@),
{
    let bytes = eth_asset_id.as_bytes_vec();
    45 + bytes.len() as u64
}

} // verus!

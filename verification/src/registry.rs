//! The record store and the two operations at the system boundary.
//!
//! The host ledger's keyed storage is modeled as an explicit mapping from
//! derived addresses to records. Each operation runs to completion as one
//! atomic step: it either applies in full or leaves the registry exactly as
//! it was, reporting why it was rejected.

use vstd::prelude::*;

use crate::addressing::{derive_address, derived_address};
use crate::errors::MigrationError;
use crate::records::{
    authorize, bytes_eq, spec_required_space, MigrationRecord, MigrationStatus, RecordModel,
    IDENTITY_LEN,
};

verus! {

/// The context a caller must present to create a record: the identity that
/// signs the request (and owns the record afterwards), the balance that
/// identity can spend, and the price the host charges per allocated byte.
pub struct InitializeMigration {
    /// The signing identity; it funds the allocation and becomes the owner.
    pub user: Vec<u8>,
    /// What the signer can pay towards the allocation.
    pub user_balance: u64,
    /// The host's price for one byte of record storage.
    pub cost_per_byte: u64,
}

impl InitializeMigration {
    /// The context is well formed when the signer is a full identity.
    pub open spec fn wf(&self) -> bool {
        self.user@.len() == IDENTITY_LEN
    }
}

/// The context a caller must present to complete a migration: the address of
/// the record it claims to own, and the identity signing the request.
pub struct CompleteMigration {
    /// The address of the record to complete.
    pub migration_record: Vec<u8>,
    /// The signing identity; it must equal the record's stored owner.
    pub user: Vec<u8>,
}

impl CompleteMigration {
    /// The context is well formed when the signer is a full identity.
    pub open spec fn wf(&self) -> bool {
        self.user@.len() == IDENTITY_LEN
    }
}

/// The observable log entry that a successful operation emits.
pub enum MigrationEvent {
    /// A record was created for this asset identifier.
    RecordCreated { eth_asset_id: String },
    /// This owner's migration was completed.
    MigrationCompleted { user: Vec<u8> },
}

/// One stored record together with the address it lives at.
struct StoredRecord {
    addr: Vec<u8>,
    record: MigrationRecord,
}

impl StoredRecord {
    /// Every stored record sits at the address derived from its own fields:
    /// re-derivation is the integrity check against mismatched records.
    spec fn inv(&self) -> bool {
        &&& self.addr@.len() == 32
        &&& self.record.wf()
        &&& Some(self.addr@) == derived_address(self.record.user@, self.record.eth_asset_id@)
    }
}

/// The registry of migration records, keyed by derived address.
pub struct Registry {
    entries: Vec<StoredRecord>,
}

/// No two stored records share an address.
spec fn distinct_addrs(s: Seq<StoredRecord>) -> bool {
    forall|i: int, j: int|
        0 <= i < j < s.len() ==> (#[trigger] s[i].addr@) != (#[trigger] s[j].addr@)
}

/// The mapping that a sequence of stored records denotes.
spec fn entries_map(s: Seq<StoredRecord>) -> Map<Seq<u8>, RecordModel>
    decreases s.len(),
{
    if s.len() == 0 {
        Map::empty()
    } else {
        entries_map(s.drop_last()).insert(s.last().addr@, s.last().record@)
    }
}

impl View for Registry {
    type V = Map<Seq<u8>, RecordModel>;

    closed spec fn view(&self) -> Map<Seq<u8>, RecordModel> {
        entries_map(self.entries@)
    }
}

/// What a creation request does to the registry's mapping, and what it
/// reports: it fails on an occupied address, then on missing funds, and
/// otherwise installs the new record in the `Initiated` state.
pub open spec fn create_spec(
    m: Map<Seq<u8>, RecordModel>,
    user: Seq<u8>,
    eth_asset_id: Seq<char>,
    user_balance: u64,
    cost_per_byte: u64,
) -> (Map<Seq<u8>, RecordModel>, Result<(), MigrationError>)
    recommends
        derived_address(user, eth_asset_id) is Some,
{
    let addr = derived_address(user, eth_asset_id).unwrap();
    if m.contains_key(addr) {
        (m, Err(MigrationError::DuplicateRecord))
    } else if (user_balance as int) < spec_required_space(eth_asset_id) * (cost_per_byte as int) {
        (m, Err(MigrationError::InsufficientFunds))
    } else {
        (
            m.insert(
                addr,
                RecordModel {
                    user: user,
                    eth_asset_id: eth_asset_id,
                    status: MigrationStatus::Initiated,
                },
            ),
            Ok(()),
        )
    }
}

/// What a completion request does to the registry's mapping, and what it
/// reports: the record must exist, must re-derive to the presented address,
/// and must be owned by the signer; then its status becomes `Completed`.
pub open spec fn complete_spec(
    m: Map<Seq<u8>, RecordModel>,
    user: Seq<u8>,
    target: Seq<u8>,
) -> (Map<Seq<u8>, RecordModel>, Result<(), MigrationError>) {
    if !m.contains_key(target) {
        (m, Err(MigrationError::RecordNotFound))
    } else {
        let rec = m[target];
        if derived_address(rec.user, rec.eth_asset_id) != Some(target) {
            (m, Err(MigrationError::AuthorizationFailure))
        } else if rec.user != user {
            (m, Err(MigrationError::AuthorizationFailure))
        } else {
            (
                m.insert(
                    target,
                    RecordModel {
                        user: rec.user,
                        eth_asset_id: rec.eth_asset_id,
                        status: MigrationStatus::Completed,
                    },
                ),
                Ok(()),
            )
        }
    }
}

/// The outcome of an operation, with the emitted event stripped.
pub open spec fn spec_outcome(result: Result<MigrationEvent, MigrationError>) -> Result<
    (),
    MigrationError,
> {
    match result {
        Ok(_) => Ok(()),
        Err(e) => Err(e),
    }
}

proof fn lemma_distinct_drop_last(s: Seq<StoredRecord>)
    requires
        distinct_addrs(s),
        s.len() > 0,
    ensures
        distinct_addrs(s.drop_last()),
{
    assert forall|i: int, j: int|
        0 <= i < j < s.drop_last().len() implies (#[trigger] s.drop_last()[i].addr@) != (
    #[trigger] s.drop_last()[j].addr@) by {
        assert(s.drop_last()[i] == s[i]);
        assert(s.drop_last()[j] == s[j]);
    }
}

/// A key is in the denoted mapping exactly when some stored record carries it.
proof fn lemma_entries_map_contains(s: Seq<StoredRecord>, key: Seq<u8>)
    ensures
        entries_map(s).contains_key(key) <==> exists|k: int|
            0 <= k < s.len() && (#[trigger] s[k].addr@) == key,
    decreases s.len(),
{
    if s.len() > 0 {
        lemma_entries_map_contains(s.drop_last(), key);
        if s.last().addr@ == key {
            assert(s[s.len() - 1].addr@ == key);
        } else {
            if exists|k: int| 0 <= k < s.len() && (#[trigger] s[k].addr@) == key {
                let k = choose|k: int| 0 <= k < s.len() && (#[trigger] s[k].addr@) == key;
                assert(s.drop_last()[k].addr@ == key);
            }
            if exists|k: int| 0 <= k < s.drop_last().len() && (#[trigger] s.drop_last()[k].addr@)
                == key {
                let k = choose|k: int|
                    0 <= k < s.drop_last().len() && (#[trigger] s.drop_last()[k].addr@) == key;
                assert(s[k].addr@ == key);
            }
        }
    }
}

/// With no shared addresses, the mapping sends each stored address to the
/// record stored under it.
proof fn lemma_entries_map_value(s: Seq<StoredRecord>, k: int)
    requires
        distinct_addrs(s),
        0 <= k < s.len(),
    ensures
        entries_map(s).contains_key(s[k].addr@),
        entries_map(s)[s[k].addr@] == s[k].record@,
    decreases s.len(),
{
    if k == s.len() - 1 {
    } else {
        lemma_distinct_drop_last(s);
        lemma_entries_map_value(s.drop_last(), k);
        assert(s.drop_last()[k] == s[k]);
        assert(s.last().addr@ != s[k].addr@);
    }
}

/// Replacing the record stored at one address rewrites exactly that address's
/// image in the denoted mapping.
proof fn lemma_entries_map_update(s: Seq<StoredRecord>, k: int, e: StoredRecord)
    requires
        distinct_addrs(s),
        0 <= k < s.len(),
        e.addr@ == s[k].addr@,
    ensures
        entries_map(s.update(k, e)) == entries_map(s).insert(e.addr@, e.record@),
    decreases s.len(),
{
    let t = s.update(k, e);
    if k == s.len() - 1 {
        assert(t.drop_last() =~= s.drop_last());
        assert(t.last() == e);
        assert(entries_map(s.drop_last()).insert(e.addr@, e.record@) =~= entries_map(
            s.drop_last(),
        ).insert(s.last().addr@, s.last().record@).insert(e.addr@, e.record@));
    } else {
        lemma_distinct_drop_last(s);
        lemma_entries_map_update(s.drop_last(), k, e);
        assert(t.drop_last() =~= s.drop_last().update(k, e));
        assert(t.last() == s.last());
        assert(s.last().addr@ != s[k].addr@);
        assert(entries_map(s.drop_last()).insert(e.addr@, e.record@).insert(
            s.last().addr@,
            s.last().record@,
        ) =~= entries_map(s.drop_last()).insert(s.last().addr@, s.last().record@).insert(
            e.addr@,
            e.record@,
        ));
    }
}

impl Registry {
    /// A registry is well formed when no two records share an address and
    /// every record sits at the address its own fields derive.
    pub closed spec fn wf(&self) -> bool {
        &&& distinct_addrs(self.entries@)
        &&& forall|i: int| 0 <= i < self.entries@.len() ==> (#[trigger] self.entries@[i]).inv()
    }

    /// An empty registry.
    pub fn new() -> (registry: Registry)
        ensures
            registry.wf(),
            registry@ == Map::<Seq<u8>, RecordModel>::empty(),
    {
        Registry { entries: Vec::new() }
    }

    /// The position of the record stored at `address`, if any.
    fn find_index(&self, address: &Vec<u8>) -> (found: Option<usize>)
        ensures
            match found {
                Some(i) => i < self.entries@.len() && self.entries@[i as int].addr@ == address@,
                None => forall|k: int|
                    0 <= k < self.entries@.len() ==> (#[trigger] self.entries@[k].addr@)
                        != address@,
            },
    {
        let mut i: usize = 0;
        while i < self.entries.len()
            invariant
                i <= self.entries@.len(),
                forall|k: int| 0 <= k < i ==> (#[trigger] self.entries@[k].addr@) != address@,
            decreases self.entries@.len() - i,
        {
            if bytes_eq(&self.entries[i].addr, address) {
                return Some(i);
            }
            i += 1;
        }
        None
    }

    /// Whether a record exists at `address`.
    pub fn contains_record(&self, address: &Vec<u8>) -> (present: bool)
        requires
            self.wf(),
        ensures
            present == self@.contains_key(address@),
    {
        proof {
            lemma_entries_map_contains(self.entries@, address@);
        }
        self.find_index(address).is_some()
    }

    /// The record stored at `address`, if any.
    pub fn get_record(&self, address: &Vec<u8>) -> (record: Option<&MigrationRecord>)
        requires
            self.wf(),
        ensures
            match record {
                Some(r) => self@.contains_key(address@) && r@ == self@[address@],
                None => !self@.contains_key(address@),
            },
    {
        proof {
            lemma_entries_map_contains(self.entries@, address@);
        }
        match self.find_index(address) {
            Some(i) => {
                proof {
                    lemma_entries_map_value(self.entries@, i as int);
                }
                Some(&self.entries[i].record)
            },
            None => None,
        }
    }

    /// Create the migration record for `(ctx.user, eth_asset_id)`.
    ///
    /// The record's address is derived from the signer and the asset id. The
    /// call fails with `DuplicateRecord` if that address is already occupied,
    /// and with `InsufficientFunds` if the signer cannot pay for the record's
    /// exact storage allocation; either failure leaves the registry
    /// untouched. On success the record is installed as
    /// `{user, eth_asset_id, Initiated}` and the created asset id is logged.
    pub fn initialize_migration(
        &mut self,
        ctx: &InitializeMigration,
        eth_asset_id: String,
    ) -> (result: Result<MigrationEvent, MigrationError>)
        requires
            old(self).wf(),
            ctx.wf(),
            derived_address(ctx.user@, eth_asset_id@) is Some,
        ensures
            final(self).wf(),
            (final(self)@, spec_outcome(result)) == create_spec(
                old(self)@,
                ctx.user@,
                eth_asset_id@,
                ctx.user_balance,
                ctx.cost_per_byte,
            ),
            result matches Ok(ev) ==> ev matches MigrationEvent::RecordCreated {
                eth_asset_id: logged,
            } && logged@ == eth_asset_id@,
    {
        let address = match derive_address(&ctx.user, eth_asset_id.as_str()) {
            Some(a) => a,
            None => {
                // Ruled out by the precondition that an address exists.
                proof {
                    assert(false);
                }
                return Err(MigrationError::DuplicateRecord);
            },
        };
        proof {
            lemma_entries_map_contains(self.entries@, address@);
        }
        if self.find_index(&address).is_some() {
            return Err(MigrationError::DuplicateRecord);
        }
        let asset_bytes = eth_asset_id.as_str().as_bytes_vec();
        let space: u128 = 45 + asset_bytes.len() as u128;
        let affordable = match space.checked_mul(ctx.cost_per_byte as u128) {
            Some(cost) => (ctx.user_balance as u128) >= cost,
            None => false,
        };
        if !affordable {
            return Err(MigrationError::InsufficientFunds);
        }
        let logged = eth_asset_id.clone();
        let record = MigrationRecord {
            user: ctx.user.clone(),
            eth_asset_id: eth_asset_id,
            status: MigrationStatus::Initiated,
        };
        proof {
            assert(record.user@ =~= ctx.user@);
        }
        let entry = StoredRecord { addr: address, record: record };
        self.entries.push(entry);
        proof {
            assert(self.entries@.drop_last() =~= old(self).entries@);
            assert(self@ == entries_map(old(self).entries@).insert(entry.addr@, entry.record@));
        }
        Ok(MigrationEvent::RecordCreated { eth_asset_id: logged })
    }

    /// Create the migration record for `(ctx.user, eth_asset_id)`, first
    /// checking that an address can be derived for the pair at all.
    ///
    /// `None` is returned, and the registry left untouched, exactly when no
    /// address exists for the pair. Otherwise the creation runs and its
    /// result is handed back as [`Registry::initialize_migration`] gives it.
    pub fn try_initialize_migration(
        &mut self,
        ctx: &InitializeMigration,
        eth_asset_id: String,
    ) -> (result: Option<Result<MigrationEvent, MigrationError>>)
        requires
            old(self).wf(),
            ctx.wf(),
        ensures
            final(self).wf(),
            result is None <==> derived_address(ctx.user@, eth_asset_id@) is None,
            result is None ==> final(self)@ == old(self)@,
            result matches Some(r) ==> (final(self)@, spec_outcome(r)) == create_spec(
                old(self)@,
                ctx.user@,
                eth_asset_id@,
                ctx.user_balance,
                ctx.cost_per_byte,
            ),
            result matches Some(Ok(ev)) ==> ev matches MigrationEvent::RecordCreated {
                eth_asset_id: logged,
            } && logged@ == eth_asset_id@,
    {
        match derive_address(&ctx.user, eth_asset_id.as_str()) {
            Some(_) => Some(self.initialize_migration(ctx, eth_asset_id)),
            None => None,
        }
    }

    /// Complete the migration recorded at `ctx.migration_record`.
    ///
    /// The call fails with `RecordNotFound` if no record lives at the
    /// presented address, and with `AuthorizationFailure` if the record does
    /// not re-derive to that address or the signer is not its stored owner;
    /// either failure leaves the registry untouched. On success the record's
    /// status becomes `Completed` — also when it already was, so a repeated
    /// completion by the owner succeeds again — and the owner is logged.
    pub fn complete_migration(&mut self, ctx: &CompleteMigration) -> (result: Result<
        MigrationEvent,
        MigrationError,
    >)
        requires
            old(self).wf(),
            ctx.wf(),
        ensures
            final(self).wf(),
            (final(self)@, spec_outcome(result)) == complete_spec(
                old(self)@,
                ctx.user@,
                ctx.migration_record@,
            ),
            result matches Ok(ev) ==> ev matches MigrationEvent::MigrationCompleted {
                user: logged,
            } && logged@ == ctx.user@,
    {
        proof {
            lemma_entries_map_contains(self.entries@, ctx.migration_record@);
        }
        let i = match self.find_index(&ctx.migration_record) {
            Some(i) => i,
            None => {
                return Err(MigrationError::RecordNotFound);
            },
        };
        proof {
            lemma_entries_map_value(self.entries@, i as int);
        }
        let stored = &self.entries[i];
        let re_derived = derive_address(&stored.record.user, stored.record.eth_asset_id.as_str());
        let address_checks = match re_derived {
            Some(a) => bytes_eq(&a, &ctx.migration_record),
            None => false,
        };
        if !address_checks {
            return Err(MigrationError::AuthorizationFailure);
        }
        if !authorize(&ctx.user, &stored.record) {
            return Err(MigrationError::AuthorizationFailure);
        }
        let logged = ctx.user.clone();
        proof {
            assert(logged@ =~= ctx.user@);
        }
        let mut entry = self.entries.remove(i);
        entry.record.status = MigrationStatus::Completed;
        self.entries.insert(i, entry);
        proof {
            assert(self.entries@ =~= old(self).entries@.update(i as int, entry));
            lemma_entries_map_update(old(self).entries@, i as int, entry);
        }
        Ok(MigrationEvent::MigrationCompleted { user: logged })
    }

    /// How many records the registry holds.
    pub fn record_count(&self) -> (count: usize)
        requires
            self.wf(),
        ensures
            count == self@.dom().len(),
    {
        proof {
            lemma_entries_map_len(self.entries@);
        }
        self.entries.len()
    }
}

proof fn lemma_entries_map_len(s: Seq<StoredRecord>)
    requires
        distinct_addrs(s),
    ensures
        entries_map(s).dom().finite(),
        entries_map(s).dom().len() == s.len(),
    decreases s.len(),
{
    if s.len() > 0 {
        lemma_distinct_drop_last(s);
        lemma_entries_map_len(s.drop_last());
        lemma_entries_map_contains(s.drop_last(), s.last().addr@);
        if entries_map(s.drop_last()).contains_key(s.last().addr@) {
            let k = choose|k: int|
                0 <= k < s.drop_last().len() && (#[trigger] s.drop_last()[k].addr@)
                    == s.last().addr@;
            assert(s[k].addr@ == s[s.len() - 1].addr@);
            assert(false);
        }
        vstd::set::axiom_set_insert_len(entries_map(s.drop_last()).dom(), s.last().addr@);
    }
}

/// Creating a record twice for the same owner and asset id: whatever funds
/// are offered the second time, the second creation fails with
/// `DuplicateRecord`, and the registry after it is exactly the registry
/// after the first creation.
pub proof fn lemma_duplicate_creation_rejected(
    m: Map<Seq<u8>, RecordModel>,
    user: Seq<u8>,
    eth_asset_id: Seq<char>,
    balance1: u64,
    price1: u64,
    balance2: u64,
    price2: u64,
)
    requires
        derived_address(user, eth_asset_id) is Some,
        create_spec(m, user, eth_asset_id, balance1, price1).1 is Ok,
    ensures
        create_spec(
            create_spec(m, user, eth_asset_id, balance1, price1).0,
            user,
            eth_asset_id,
            balance2,
            price2,
        ).0 == create_spec(m, user, eth_asset_id, balance1, price1).0,
        create_spec(
            create_spec(m, user, eth_asset_id, balance1, price1).0,
            user,
            eth_asset_id,
            balance2,
            price2,
        ).1 == Err::<(), MigrationError>(MigrationError::DuplicateRecord),
{
}

/// After a creation succeeds, the record at the derived address is exactly
/// `{user, eth_asset_id, Initiated}`.
pub proof fn lemma_creation_postcondition(
    m: Map<Seq<u8>, RecordModel>,
    user: Seq<u8>,
    eth_asset_id: Seq<char>,
    balance: u64,
    price: u64,
)
    requires
        derived_address(user, eth_asset_id) is Some,
        create_spec(m, user, eth_asset_id, balance, price).1 is Ok,
    ensures
        create_spec(m, user, eth_asset_id, balance, price).0.contains_key(
            derived_address(user, eth_asset_id).unwrap(),
        ),
        create_spec(m, user, eth_asset_id, balance, price).0[derived_address(
            user,
            eth_asset_id,
        ).unwrap()] == (RecordModel {
            user: user,
            eth_asset_id: eth_asset_id,
            status: MigrationStatus::Initiated,
        }),
{
}

/// A creation never rewrites a record: every record present before it is
/// present, unchanged, after it, whether the creation succeeds or fails.
pub proof fn lemma_creation_preserves_records(
    m: Map<Seq<u8>, RecordModel>,
    user: Seq<u8>,
    eth_asset_id: Seq<char>,
    balance: u64,
    price: u64,
    key: Seq<u8>,
)
    requires
        derived_address(user, eth_asset_id) is Some,
        m.contains_key(key),
    ensures
        create_spec(m, user, eth_asset_id, balance, price).0.contains_key(key),
        create_spec(m, user, eth_asset_id, balance, price).0[key] == m[key],
{
}

/// A completion signed by an identity other than the record's stored owner
/// fails with `AuthorizationFailure` and leaves the registry untouched: in
/// particular the record's status does not move.
pub proof fn lemma_unauthorized_completion_rejected(
    m: Map<Seq<u8>, RecordModel>,
    signer: Seq<u8>,
    target: Seq<u8>,
)
    requires
        m.contains_key(target),
        m[target].user != signer,
    ensures
        complete_spec(m, signer, target).0 == m,
        complete_spec(m, signer, target).1 == Err::<(), MigrationError>(
            MigrationError::AuthorizationFailure,
        ),
{
}

/// A completion signed by the stored owner of an initiated record succeeds
/// and moves exactly that record's status from `Initiated` to `Completed`,
/// leaving its owner and asset id as they were.
pub proof fn lemma_completion_postcondition(
    m: Map<Seq<u8>, RecordModel>,
    user: Seq<u8>,
    target: Seq<u8>,
)
    requires
        m.contains_key(target),
        m[target].user == user,
        derived_address(m[target].user, m[target].eth_asset_id) == Some(target),
        m[target].status is Initiated,
    ensures
        complete_spec(m, user, target).1 is Ok,
        complete_spec(m, user, target).0[target].status is Completed,
        complete_spec(m, user, target).0[target].user == m[target].user,
        complete_spec(m, user, target).0[target].eth_asset_id == m[target].eth_asset_id,
{
}

/// A second completion by the owner of an already completed record succeeds
/// again and changes nothing: completion is idempotent.
pub proof fn lemma_completion_idempotent(
    m: Map<Seq<u8>, RecordModel>,
    user: Seq<u8>,
    target: Seq<u8>,
)
    requires
        complete_spec(m, user, target).1 is Ok,
    ensures
        complete_spec(m, user, target).0[target].status is Completed,
        complete_spec(complete_spec(m, user, target).0, user, target).1 is Ok,
        complete_spec(complete_spec(m, user, target).0, user, target).0 == complete_spec(
            m,
            user,
            target,
        ).0,
{
    let m1 = complete_spec(m, user, target).0;
    assert(complete_spec(m1, user, target).0 =~= m1);
}

/// A record's status is monotonic across completions: whatever a completion
/// does, each record either keeps its state or takes the one allowed
/// transition, and records other than the target never change at all.
pub proof fn lemma_completion_monotonic(
    m: Map<Seq<u8>, RecordModel>,
    user: Seq<u8>,
    target: Seq<u8>,
    key: Seq<u8>,
)
    requires
        m.contains_key(key),
    ensures
        complete_spec(m, user, target).0.contains_key(key),
        m[key].status.can_become(complete_spec(m, user, target).0[key].status),
        key != target ==> complete_spec(m, user, target).0[key] == m[key],
{
}

} // verus!

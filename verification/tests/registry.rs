use graveshift::addressing::derive_address;
use graveshift::errors::MigrationError;
use graveshift::records::MigrationStatus;
use graveshift::registry::{
    CompleteMigration, InitializeMigration, MigrationEvent, Registry,
};

fn identity(byte: u8) -> Vec<u8> {
    vec![byte; 32]
}

fn funded(byte: u8) -> InitializeMigration {
    InitializeMigration { user: identity(byte), user_balance: 1_000_000, cost_per_byte: 1 }
}

#[test]
fn creation_installs_initiated_record() {
    let mut registry = Registry::new();
    let ctx = funded(7);
    let result = registry.initialize_migration(&ctx, String::from("0xabc123"));
    match result {
        Ok(MigrationEvent::RecordCreated { eth_asset_id }) => {
            assert_eq!(eth_asset_id, "0xabc123");
        }
        _ => panic!("creation should succeed and log the asset id"),
    }
    let address = derive_address(&identity(7), "0xabc123").unwrap();
    let record = registry.get_record(&address).expect("record should exist");
    assert_eq!(record.user, identity(7));
    assert_eq!(record.eth_asset_id, "0xabc123");
    assert_eq!(record.status, MigrationStatus::Initiated);
    assert_eq!(record.status.as_tag(), 0);
    assert_eq!(registry.record_count(), 1);
}

#[test]
fn duplicate_creation_fails_and_changes_nothing() {
    let mut registry = Registry::new();
    let ctx = funded(7);
    registry.initialize_migration(&ctx, String::from("0xabc123")).unwrap();
    let second = registry.initialize_migration(&ctx, String::from("0xabc123"));
    assert!(matches!(second, Err(MigrationError::DuplicateRecord)));
    assert_eq!(registry.record_count(), 1);
    let address = derive_address(&identity(7), "0xabc123").unwrap();
    let record = registry.get_record(&address).unwrap();
    assert_eq!(record.user, identity(7));
    assert_eq!(record.eth_asset_id, "0xabc123");
    assert_eq!(record.status, MigrationStatus::Initiated);
}

#[test]
fn creation_fails_without_funds() {
    let mut registry = Registry::new();
    let ctx = InitializeMigration { user: identity(7), user_balance: 52, cost_per_byte: 1 };
    let result = registry.initialize_migration(&ctx, String::from("0xabc123"));
    assert!(matches!(result, Err(MigrationError::InsufficientFunds)));
    assert_eq!(registry.record_count(), 0);
}

#[test]
fn creation_charges_for_the_exact_allocation() {
    // The record for "0xabc123" occupies exactly 53 bytes, so at one unit
    // per byte a balance of 53 suffices.
    let mut registry = Registry::new();
    let ctx = InitializeMigration { user: identity(7), user_balance: 53, cost_per_byte: 1 };
    assert!(registry.initialize_migration(&ctx, String::from("0xabc123")).is_ok());
}

#[test]
fn creation_reports_underivable_asset_id() {
    let mut registry = Registry::new();
    let ctx = funded(7);
    let long_id = "0x1111111111111111111111111111111111111111";
    let result = registry.try_initialize_migration(&ctx, String::from(long_id));
    assert!(result.is_none());
    assert_eq!(registry.record_count(), 0);
    let short = registry.try_initialize_migration(&ctx, String::from("0xabc123"));
    assert!(matches!(short, Some(Ok(_))));
    assert_eq!(registry.record_count(), 1);
}

#[test]
fn completion_by_owner_completes_the_record() {
    let mut registry = Registry::new();
    registry.initialize_migration(&funded(7), String::from("0xabc123")).unwrap();
    let address = derive_address(&identity(7), "0xabc123").unwrap();
    let ctx = CompleteMigration { migration_record: address.clone(), user: identity(7) };
    let result = registry.complete_migration(&ctx);
    match result {
        Ok(MigrationEvent::MigrationCompleted { user }) => assert_eq!(user, identity(7)),
        _ => panic!("completion by the owner should succeed and log the owner"),
    }
    let record = registry.get_record(&address).unwrap();
    assert_eq!(record.status, MigrationStatus::Completed);
    assert_eq!(record.status.as_tag(), 1);
    assert_eq!(record.user, identity(7));
    assert_eq!(record.eth_asset_id, "0xabc123");
}

#[test]
fn completion_is_idempotent_for_the_owner() {
    let mut registry = Registry::new();
    registry.initialize_migration(&funded(7), String::from("0xabc123")).unwrap();
    let address = derive_address(&identity(7), "0xabc123").unwrap();
    let ctx = CompleteMigration { migration_record: address.clone(), user: identity(7) };
    registry.complete_migration(&ctx).unwrap();
    let again = registry.complete_migration(&ctx);
    assert!(again.is_ok());
    let record = registry.get_record(&address).unwrap();
    assert_eq!(record.status, MigrationStatus::Completed);
    assert_eq!(registry.record_count(), 1);
}

#[test]
fn completion_by_another_identity_is_rejected() {
    let mut registry = Registry::new();
    registry.initialize_migration(&funded(7), String::from("0xabc123")).unwrap();
    let address = derive_address(&identity(7), "0xabc123").unwrap();
    let ctx = CompleteMigration { migration_record: address.clone(), user: identity(8) };
    let result = registry.complete_migration(&ctx);
    assert!(matches!(result, Err(MigrationError::AuthorizationFailure)));
    let record = registry.get_record(&address).unwrap();
    assert_eq!(record.status, MigrationStatus::Initiated);
}

#[test]
fn completion_of_a_missing_record_is_rejected() {
    let mut registry = Registry::new();
    let ctx = CompleteMigration { migration_record: identity(9), user: identity(7) };
    let result = registry.complete_migration(&ctx);
    assert!(matches!(result, Err(MigrationError::RecordNotFound)));
}

#[test]
fn end_to_end_migration() {
    let mut registry = Registry::new();
    let owner = identity(42);
    let stranger = identity(43);

    let created = registry
        .initialize_migration(&funded(42), String::from("0xabc123"))
        .expect("creation should succeed");
    assert!(matches!(created, MigrationEvent::RecordCreated { .. }));

    let address = derive_address(&owner, "0xabc123").unwrap();
    let record = registry.get_record(&address).unwrap();
    assert_eq!(record.user, owner);
    assert_eq!(record.eth_asset_id, "0xabc123");
    assert_eq!(record.status.as_tag(), 0);

    let complete = CompleteMigration { migration_record: address.clone(), user: owner.clone() };
    registry.complete_migration(&complete).expect("owner should complete");
    assert_eq!(registry.get_record(&address).unwrap().status.as_tag(), 1);

    let intruded = CompleteMigration { migration_record: address.clone(), user: stranger };
    let result = registry.complete_migration(&intruded);
    assert!(matches!(result, Err(MigrationError::AuthorizationFailure)));
    let record = registry.get_record(&address).unwrap();
    assert_eq!(record.status, MigrationStatus::Completed);
    assert_eq!(record.user, owner);
}

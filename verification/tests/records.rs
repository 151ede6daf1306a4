use graveshift::records::{authorize, bytes_eq, required_space, MigrationRecord, MigrationStatus};

fn identity(byte: u8) -> Vec<u8> {
    vec![byte; 32]
}

#[test]
fn status_tags() {
    assert_eq!(MigrationStatus::Initiated.as_tag(), 0);
    assert_eq!(MigrationStatus::Completed.as_tag(), 1);
}

#[test]
fn status_from_tag_round_trips() {
    assert_eq!(MigrationStatus::from_tag(0), Some(MigrationStatus::Initiated));
    assert_eq!(MigrationStatus::from_tag(1), Some(MigrationStatus::Completed));
    assert_eq!(MigrationStatus::from_tag(2), None);
    assert_eq!(MigrationStatus::from_tag(255), None);
}

#[test]
fn required_space_counts_every_field() {
    // 8-byte header + 32-byte owner + 4-byte length prefix + 8 id bytes + 1
    // status byte.
    assert_eq!(required_space("0xabc123"), 53);
    assert_eq!(required_space(""), 45);
}

#[test]
fn authorize_is_owner_equality() {
    let record = MigrationRecord {
        user: identity(7),
        eth_asset_id: String::from("0xabc123"),
        status: MigrationStatus::Initiated,
    };
    assert!(authorize(&identity(7), &record));
    assert!(!authorize(&identity(8), &record));
    assert!(!authorize(&Vec::new(), &record));
}

#[test]
fn bytes_eq_compares_contents() {
    assert!(bytes_eq(&vec![1, 2, 3], &vec![1, 2, 3]));
    assert!(!bytes_eq(&vec![1, 2, 3], &vec![1, 2, 4]));
    assert!(!bytes_eq(&vec![1, 2, 3], &vec![1, 2]));
    assert!(bytes_eq(&Vec::new(), &Vec::new()));
}

use crudapp::entry::{JournalEntryState, ENTRY_SPACE, INIT_SPACE, MAX_MESSAGE_LEN, MAX_TITLE_LEN};
use crudapp::store::{
    create_journal_entry, delete_journal_entry, update_journal_entry, CreateJournalEntry,
    DeleteJournalEntry, JournalError, JournalStore, UpdateJournalEntry,
};

const DEPOSIT: u64 = 8_532_480;

fn key(b: u8) -> [u8; 32] {
    [b; 32]
}

fn create(store: &mut JournalStore, owner: [u8; 32], title: &str, message: &str) -> Result<(), JournalError> {
    let ctx = CreateJournalEntry { owner, owner_lamports: 10 * DEPOSIT };
    create_journal_entry(store, &ctx, title.to_string(), message.to_string())
}

fn update(store: &mut JournalStore, owner: [u8; 32], title: &str, message: &str) -> Result<(), JournalError> {
    update_journal_entry(store, &UpdateJournalEntry { owner }, title.to_string(), message.to_string())
}

fn delete(store: &mut JournalStore, owner: [u8; 32], title: &str) -> Result<u64, JournalError> {
    delete_journal_entry(store, &DeleteJournalEntry { owner }, title.to_string())
}

fn read(store: &JournalStore, owner: [u8; 32], title: &str) -> Result<JournalEntryState, JournalError> {
    store.read_journal_entry(&title.to_string(), &owner)
}

#[test]
fn scenario_create_update_delete() {
    let a = key(1);
    let mut store = JournalStore::new(DEPOSIT);
    assert_eq!(create(&mut store, a, "log1", "hello"), Ok(()));
    let e = read(&store, a, "log1").unwrap();
    assert_eq!(e.owner, a);
    assert_eq!(e.title, "log1");
    assert_eq!(e.message, "hello");
    assert_eq!(update(&mut store, a, "log1", "world"), Ok(()));
    let e = read(&store, a, "log1").unwrap();
    assert_eq!(e.owner, a);
    assert_eq!(e.title, "log1");
    assert_eq!(e.message, "world");
    assert_eq!(delete(&mut store, a, "log1"), Ok(DEPOSIT));
    assert!(matches!(read(&store, a, "log1"), Err(JournalError::NotFound)));
    assert_eq!(store.len(), 0);
}

#[test]
fn create_then_read_gives_the_record() {
    let a = key(7);
    let mut store = JournalStore::new(DEPOSIT);
    assert_eq!(create(&mut store, a, "t", "m"), Ok(()));
    assert_eq!(create(&mut store, a, "u", ""), Ok(()));
    let e = read(&store, a, "u").unwrap();
    assert_eq!((e.owner, e.title.as_str(), e.message.as_str()), (a, "u", ""));
    let e = read(&store, a, "t").unwrap();
    assert_eq!((e.owner, e.title.as_str(), e.message.as_str()), (a, "t", "m"));
    assert_eq!(store.len(), 2);
}

#[test]
fn create_twice_fails_with_already_exists() {
    let a = key(2);
    let mut store = JournalStore::new(DEPOSIT);
    assert_eq!(create(&mut store, a, "log", "first"), Ok(()));
    assert_eq!(create(&mut store, a, "log", "second"), Err(JournalError::AlreadyExists));
    assert_eq!(read(&store, a, "log").unwrap().message, "first");
    assert_eq!(store.len(), 1);
}

#[test]
fn same_title_other_owner_is_another_entry() {
    let mut store = JournalStore::new(DEPOSIT);
    assert_eq!(create(&mut store, key(1), "log", "one"), Ok(()));
    assert_eq!(create(&mut store, key(2), "log", "two"), Ok(()));
    assert_eq!(read(&store, key(1), "log").unwrap().message, "one");
    assert_eq!(read(&store, key(2), "log").unwrap().message, "two");
    assert_eq!(store.len(), 2);
}

#[test]
fn update_replaces_message_only() {
    let a = key(3);
    let mut store = JournalStore::new(DEPOSIT);
    assert_eq!(create(&mut store, a, "notes", "old"), Ok(()));
    assert_eq!(update(&mut store, a, "notes", "new"), Ok(()));
    let e = read(&store, a, "notes").unwrap();
    assert_eq!((e.owner, e.title.as_str(), e.message.as_str()), (a, "notes", "new"));
}

#[test]
fn other_signer_sees_not_found() {
    let a = key(4);
    let b = key(5);
    let mut store = JournalStore::new(DEPOSIT);
    assert_eq!(create(&mut store, a, "mine", "secret"), Ok(()));
    assert_eq!(update(&mut store, b, "mine", "changed"), Err(JournalError::NotFound));
    assert_eq!(delete(&mut store, b, "mine"), Err(JournalError::NotFound));
    assert!(matches!(read(&store, b, "mine"), Err(JournalError::NotFound)));
    let e = read(&store, a, "mine").unwrap();
    assert_eq!((e.owner, e.message.as_str()), (a, "secret"));
}

#[test]
fn delete_then_create_is_fresh() {
    let a = key(6);
    let mut store = JournalStore::new(DEPOSIT);
    assert_eq!(create(&mut store, a, "day", "residue"), Ok(()));
    assert_eq!(delete(&mut store, a, "day"), Ok(DEPOSIT));
    assert_eq!(create(&mut store, a, "day", "clean"), Ok(()));
    assert_eq!(read(&store, a, "day").unwrap().message, "clean");
}

#[test]
fn missing_entry_is_not_found() {
    let mut store = JournalStore::new(DEPOSIT);
    assert_eq!(update(&mut store, key(1), "none", "x"), Err(JournalError::NotFound));
    assert_eq!(delete(&mut store, key(1), "none"), Err(JournalError::NotFound));
}

#[test]
fn title_bound_is_fifty_bytes() {
    let a = key(8);
    let mut store = JournalStore::new(DEPOSIT);
    let fifty = "a".repeat(50);
    let fifty_one = "a".repeat(51);
    assert_eq!(create(&mut store, a, &fifty, "m"), Ok(()));
    assert_eq!(create(&mut store, a, &fifty_one, "m"), Err(JournalError::ConstraintViolation));
    // 26 two-byte characters are 52 bytes.
    let wide = "é".repeat(26);
    assert_eq!(create(&mut store, a, &wide, "m"), Err(JournalError::ConstraintViolation));
    assert_eq!(store.len(), 1);
}

#[test]
fn message_bound_is_a_thousand_bytes() {
    let a = key(9);
    let mut store = JournalStore::new(DEPOSIT);
    let full = "m".repeat(1000);
    let over = "m".repeat(1001);
    assert_eq!(create(&mut store, a, "x", &over), Err(JournalError::ConstraintViolation));
    assert_eq!(create(&mut store, a, "x", &full), Ok(()));
    assert_eq!(update(&mut store, a, "x", &over), Err(JournalError::ConstraintViolation));
    assert_eq!(read(&store, a, "x").unwrap().message, full);
}

#[test]
fn deposit_must_be_covered() {
    let a = key(10);
    let mut store = JournalStore::new(DEPOSIT);
    let poor = CreateJournalEntry { owner: a, owner_lamports: DEPOSIT - 1 };
    assert_eq!(
        create_journal_entry(&mut store, &poor, "t".to_string(), "m".to_string()),
        Err(JournalError::InsufficientFunds)
    );
    assert_eq!(store.len(), 0);
    let exact = CreateJournalEntry { owner: a, owner_lamports: DEPOSIT };
    assert_eq!(create_journal_entry(&mut store, &exact, "t".to_string(), "m".to_string()), Ok(()));
    assert_eq!(store.rent_deposit(), DEPOSIT);
}

#[test]
fn existing_entry_is_reported_before_funds() {
    let a = key(11);
    let mut store = JournalStore::new(DEPOSIT);
    assert_eq!(create(&mut store, a, "t", "m"), Ok(()));
    let poor = CreateJournalEntry { owner: a, owner_lamports: 0 };
    assert_eq!(
        create_journal_entry(&mut store, &poor, "t".to_string(), "m".to_string()),
        Err(JournalError::AlreadyExists)
    );
}

#[test]
fn storage_is_sized_for_the_worst_case() {
    assert_eq!(MAX_TITLE_LEN, 50);
    assert_eq!(MAX_MESSAGE_LEN, 1000);
    assert_eq!(INIT_SPACE, 32 + 4 + 50 + 4 + 1000);
    assert_eq!(ENTRY_SPACE, 1098);
}

use journal::{
    create_journal_entry, delete_journal_entry, entry_space, update_journal_entry,
    CreateJournalEntry, DeleteJournalEntry, ErrorCode, Journal, JournalCount, JournalEntry,
    Pubkey, UpdateJournalEntry,
};

fn key(b: u8) -> Pubkey {
    Pubkey::new([b; 32])
}

fn s(text: &str) -> String {
    text.to_string()
}

fn journal_for(owner: &Pubkey) -> Journal {
    let mut j = Journal::new();
    j.open_count(owner);
    j
}

fn entry(id: u64, owner: Pubkey, title: &str, content: &str, at: i64) -> JournalEntry {
    JournalEntry {
        id,
        owner,
        created_at: at,
        updated_at: at,
        title: s(title),
        content: s(content),
    }
}

#[test]
fn create_update_delete_scenario() {
    let a = key(1);
    let mut j = journal_for(&a);
    assert_eq!(j.create(&a, s("Hi"), s("World"), 100), Ok(1));
    {
        let e = j.get(1, &a).unwrap();
        assert_eq!(e.id, 1);
        assert!(e.owner == a);
        assert_eq!(e.title, "Hi");
        assert_eq!(e.content, "World");
        assert_eq!(e.created_at, 100);
        assert_eq!(e.updated_at, 100);
    }
    assert_eq!(j.update(&a, 1, s("Hi2"), s("World2"), 200), Ok(()));
    {
        let e = j.get(1, &a).unwrap();
        assert_eq!(e.id, 1);
        assert!(e.owner == a);
        assert_eq!(e.title, "Hi2");
        assert_eq!(e.content, "World2");
        assert_eq!(e.created_at, 100);
        assert_eq!(e.updated_at, 200);
        assert!(e.updated_at > e.created_at);
    }
    assert_eq!(j.delete(&a, 1, &s("whatever")), Ok(72 + 3 + 6));
    assert_eq!(j.get(1, &a).err(), Some(ErrorCode::AccountNotFound));
}

#[test]
fn title_of_51_bytes_is_refused() {
    let a = key(1);
    let mut j = journal_for(&a);
    let title = "x".repeat(51);
    assert_eq!(j.create(&a, title, s("c"), 1), Err(ErrorCode::TitleLengthExceeded));
    assert_eq!(j.count_of(&a), Some(0));
    assert_eq!(j.get(1, &a).err(), Some(ErrorCode::AccountNotFound));
    assert_eq!(j.create(&a, s("t"), s("c"), 2), Ok(1));
}

#[test]
fn content_of_501_bytes_is_refused() {
    let a = key(1);
    let mut j = journal_for(&a);
    assert_eq!(
        j.create(&a, s("t"), "y".repeat(501), 1),
        Err(ErrorCode::ContentLengthExceeded)
    );
    assert_eq!(j.count_of(&a), Some(0));
}

#[test]
fn title_checked_before_content() {
    let a = key(1);
    let mut j = journal_for(&a);
    assert_eq!(
        j.create(&a, "x".repeat(51), "y".repeat(501), 1),
        Err(ErrorCode::TitleLengthExceeded)
    );
}

#[test]
fn limits_are_inclusive() {
    let a = key(1);
    let mut j = journal_for(&a);
    assert_eq!(j.create(&a, "x".repeat(50), "y".repeat(500), 1), Ok(1));
    assert_eq!(j.delete(&a, 1, &s("x")), Ok(72 + 50 + 500));
}

#[test]
fn lengths_count_encoded_bytes() {
    let a = key(1);
    let mut j = journal_for(&a);
    // 26 two-byte characters: 52 bytes
    assert_eq!(
        j.create(&a, "é".repeat(26), s("c"), 1),
        Err(ErrorCode::TitleLengthExceeded)
    );
    assert_eq!(j.create(&a, "é".repeat(25), s("c"), 1), Ok(1));
}

#[test]
fn create_without_counter_is_not_found() {
    let a = key(1);
    let mut j = Journal::new();
    assert_eq!(j.create(&a, s("t"), s("c"), 1), Err(ErrorCode::AccountNotFound));
    assert_eq!(j.count_of(&a), None);
}

#[test]
fn open_count_keeps_existing_counter() {
    let a = key(1);
    let mut j = journal_for(&a);
    assert_eq!(j.create(&a, s("t"), s("c"), 1), Ok(1));
    j.open_count(&a);
    assert_eq!(j.count_of(&a), Some(1));
}

#[test]
fn nth_create_gets_id_n() {
    let a = key(1);
    let mut j = journal_for(&a);
    for n in 1..=5u64 {
        assert_eq!(j.create(&a, s("t"), s("c"), n as i64), Ok(n));
        assert_eq!(j.count_of(&a), Some(n));
    }
}

#[test]
fn ids_are_per_owner() {
    let a = key(1);
    let b = key(2);
    let mut j = journal_for(&a);
    j.open_count(&b);
    assert_eq!(j.create(&a, s("a1"), s("c"), 1), Ok(1));
    assert_eq!(j.create(&b, s("b1"), s("c"), 2), Ok(1));
    assert_eq!(j.create(&a, s("a2"), s("c"), 3), Ok(2));
    assert_eq!(j.create(&b, s("b2"), s("c"), 4), Ok(2));
    assert_eq!(j.get(1, &a).unwrap().title, "a1");
    assert_eq!(j.get(1, &b).unwrap().title, "b1");
    assert_eq!(j.get(2, &a).unwrap().title, "a2");
}

#[test]
fn delete_then_create_gives_new_id() {
    let a = key(1);
    let mut j = journal_for(&a);
    assert_eq!(j.create(&a, s("t"), s("c"), 1), Ok(1));
    assert_eq!(j.delete(&a, 1, &s("t")), Ok(74));
    assert_eq!(j.get(1, &a).err(), Some(ErrorCode::AccountNotFound));
    assert_eq!(j.create(&a, s("t"), s("c"), 2), Ok(2));
    assert_eq!(j.count_of(&a), Some(2));
    assert_eq!(j.get(1, &a).err(), Some(ErrorCode::AccountNotFound));
}

#[test]
fn update_or_delete_missing_entry_is_not_found() {
    let a = key(1);
    let b = key(2);
    let mut j = journal_for(&a);
    assert_eq!(j.create(&a, s("t"), s("c"), 1), Ok(1));
    assert_eq!(j.update(&a, 2, s("t"), s("c"), 2), Err(ErrorCode::AccountNotFound));
    assert_eq!(j.update(&b, 1, s("t"), s("c"), 2), Err(ErrorCode::AccountNotFound));
    assert_eq!(j.delete(&b, 1, &s("t")), Err(ErrorCode::AccountNotFound));
    assert_eq!(j.get(1, &a).unwrap().updated_at, 1);
}

#[test]
fn update_over_limit_keeps_entry() {
    let a = key(1);
    let mut j = journal_for(&a);
    assert_eq!(j.create(&a, s("t"), s("c"), 1), Ok(1));
    assert_eq!(
        j.update(&a, 1, "x".repeat(51), s("c"), 2),
        Err(ErrorCode::TitleLengthExceeded)
    );
    assert_eq!(
        j.update(&a, 1, s("t"), "y".repeat(501), 2),
        Err(ErrorCode::ContentLengthExceeded)
    );
    let e = j.get(1, &a).unwrap();
    assert_eq!(e.title, "t");
    assert_eq!(e.updated_at, 1);
}

#[test]
fn update_keeps_identity_fields() {
    let a = key(7);
    let mut j = journal_for(&a);
    assert_eq!(j.create(&a, s("t"), s("c"), 10), Ok(1));
    assert_eq!(j.update(&a, 1, s("t2"), s("c2"), 10), Ok(()));
    assert_eq!(j.update(&a, 1, s(""), s(""), 30), Ok(()));
    let e = j.get(1, &a).unwrap();
    assert_eq!((e.id, e.created_at, e.updated_at), (1, 10, 30));
    assert!(e.owner == a);
    assert_eq!(e.title, "");
}

#[test]
fn handler_update_with_wrong_id_is_refused() {
    let a = key(1);
    let mut ctx = UpdateJournalEntry { journal: entry(3, a, "t", "c", 5), owner: a };
    assert_eq!(
        update_journal_entry(&mut ctx, 4, s("n"), s("m"), 9),
        Err(ErrorCode::InvalidJournalEntryId)
    );
    assert_eq!(ctx.journal.title, "t");
    assert_eq!(ctx.journal.content, "c");
    assert_eq!(ctx.journal.updated_at, 5);
    assert_eq!(update_journal_entry(&mut ctx, 3, s("n"), s("m"), 9), Ok(()));
    assert_eq!(ctx.journal.title, "n");
    assert_eq!(ctx.journal.content, "m");
    assert_eq!((ctx.journal.id, ctx.journal.created_at, ctx.journal.updated_at), (3, 5, 9));
}

#[test]
fn handler_update_by_other_signer_is_unauthorized() {
    let mut ctx = UpdateJournalEntry { journal: entry(1, key(1), "t", "c", 5), owner: key(2) };
    assert_eq!(
        update_journal_entry(&mut ctx, 1, s("n"), s("m"), 9),
        Err(ErrorCode::Unauthorized)
    );
    assert_eq!(ctx.journal.title, "t");
}

#[test]
fn handler_create_fills_entry() {
    let a = key(3);
    let mut ctx = CreateJournalEntry { journal_count: JournalCount { count: 41, owner: a }, owner: a };
    let e = create_journal_entry(&mut ctx, s("Hi"), s("World"), 77).unwrap();
    assert_eq!(e.id, 42);
    assert!(e.owner == a);
    assert_eq!((e.created_at, e.updated_at), (77, 77));
    assert_eq!(e.title, "Hi");
    assert_eq!(e.content, "World");
    assert_eq!(ctx.journal_count.count, 42);
}

#[test]
fn handler_create_on_full_counter_is_invalid_id() {
    let a = key(3);
    let mut ctx =
        CreateJournalEntry { journal_count: JournalCount { count: u64::MAX, owner: a }, owner: a };
    assert_eq!(
        create_journal_entry(&mut ctx, s("t"), s("c"), 1).err(),
        Some(ErrorCode::InvalidJournalEntryId)
    );
    assert_eq!(ctx.journal_count.count, u64::MAX);
}

#[test]
fn handler_create_with_foreign_counter_is_unauthorized() {
    let mut ctx = CreateJournalEntry {
        journal_count: JournalCount { count: 0, owner: key(1) },
        owner: key(2),
    };
    assert_eq!(
        create_journal_entry(&mut ctx, s("t"), s("c"), 1).err(),
        Some(ErrorCode::Unauthorized)
    );
    assert_eq!(ctx.journal_count.count, 0);
}

#[test]
fn handler_delete_checks_owner_and_returns_space() {
    let a = key(1);
    let ctx = DeleteJournalEntry { journal: entry(1, a, "Hi", "World", 5), owner: a };
    assert_eq!(delete_journal_entry(&ctx, &s("anything")), Ok(79));
    let other = DeleteJournalEntry { journal: entry(1, a, "Hi", "World", 5), owner: key(2) };
    assert_eq!(delete_journal_entry(&other, &s("Hi")), Err(ErrorCode::Unauthorized));
}

#[test]
fn next_id_advances_by_one() {
    let a = key(1);
    let mut c = JournalCount { count: 0, owner: a };
    assert_eq!(c.next_id(&a), Ok(1));
    assert_eq!(c.next_id(&a), Ok(2));
    assert_eq!(c.count, 2);
    let mut full = JournalCount { count: u64::MAX, owner: a };
    assert_eq!(full.next_id(&a), Err(ErrorCode::InvalidJournalEntryId));
    assert_eq!(full.next_id(&key(2)), Err(ErrorCode::Unauthorized));
}

#[test]
fn entry_space_is_exact() {
    assert_eq!(entry_space(&s("Hi"), &s("World")), 79);
    assert_eq!(entry_space(&s(""), &s("")), 72);
    assert_eq!(entry_space(&s("é"), &s("")), 74);
    assert_eq!(entry(1, key(1), "abc", "de", 0).space(), 77);
}

#[test]
fn error_messages() {
    assert_eq!(ErrorCode::InvalidJournalEntryId.message(), "Invalid journal entry ID");
    assert_eq!(
        ErrorCode::TitleLengthExceeded.message(),
        "Title length exceeded the maximum limit of 50 characters"
    );
    assert_eq!(
        ErrorCode::ContentLengthExceeded.message(),
        "Content length exceeded the maximum limit of 500 characters"
    );
    assert_eq!(ErrorCode::AccountNotFound.message(), "Journal entry not found");
    assert_eq!(ErrorCode::Unauthorized.message(), "Signer is not the owner of the account");
}

#[test]
fn pubkeys_compare_by_bytes() {
    let mut b = [9u8; 32];
    assert!(Pubkey::new(b) == key(9));
    b[31] = 8;
    assert!(Pubkey::new(b) != key(9));
    assert!(key(9).same_as(&key(9)));
    assert!(!key(9).same_as(&key(1)));
}

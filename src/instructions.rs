use vstd::prelude::*;
use crate::account::{
    check_lengths, fits_limits, length_check, space_for, EntryView, ErrorCode, JournalCount,
    JournalEntry,
};
use crate::pubkey::Pubkey;

verus! {

/// The accounts that creating an entry works on: the signer's counter.
pub struct CreateJournalEntry {
    pub journal_count: JournalCount,
    pub owner: Pubkey,
}

/// The accounts that updating an entry works on: the stored entry.
pub struct UpdateJournalEntry {
    pub journal: JournalEntry,
    pub owner: Pubkey,
}

/// The accounts that deleting an entry works on: the stored entry.
pub struct DeleteJournalEntry {
    pub journal: JournalEntry,
    pub owner: Pubkey,
}

/// The id that creating an entry assigns, or the first check that fails:
/// title length, content length, ownership of the counter, counter overflow.
pub open spec fn create_outcome(
    counter: JournalCount,
    signer: Seq<u8>,
    title: Seq<char>,
    content: Seq<char>,
) -> Result<u64, ErrorCode> {
    match length_check(title, content) {
        Err(e) => Err(e),
        Ok(_) => if counter.owner@ != signer {
            Err(ErrorCode::Unauthorized)
        } else if counter.count == u64::MAX {
            Err(ErrorCode::InvalidJournalEntryId)
        } else {
            Ok((counter.count + 1) as u64)
        },
    }
}

/// A freshly created entry.
pub open spec fn new_entry(
    id: u64,
    owner: Seq<u8>,
    title: Seq<char>,
    content: Seq<char>,
    now: i64,
) -> EntryView {
    EntryView { id, owner, created_at: now, updated_at: now, title, content }
}

/// Whether updating `entry` succeeds, or the first check that fails:
/// ownership, title length, content length, id.
pub open spec fn update_outcome(
    entry: EntryView,
    signer: Seq<u8>,
    id: u64,
    title: Seq<char>,
    content: Seq<char>,
) -> Result<(), ErrorCode> {
    if entry.owner != signer {
        Err(ErrorCode::Unauthorized)
    } else {
        match length_check(title, content) {
            Err(e) => Err(e),
            Ok(_) => if entry.id != id {
                Err(ErrorCode::InvalidJournalEntryId)
            } else {
                Ok(())
            },
        }
    }
}

/// `entry` with a new title and content, stamped at `now`.
pub open spec fn updated_entry(
    entry: EntryView,
    title: Seq<char>,
    content: Seq<char>,
    now: i64,
) -> EntryView {
    EntryView { title, content, updated_at: now, ..entry }
}

/// Creates an entry for the signer: advances the signer's counter and returns
/// the new entry, whose id is the new count and whose two timestamps are
/// `now`. On failure nothing changes.
pub fn create_journal_entry(
    ctx: &mut CreateJournalEntry,
    title: String,
    content: String,
    now: i64,
) -> (r: Result<JournalEntry, ErrorCode>)
    ensures
        match create_outcome(old(ctx).journal_count, old(ctx).owner@, title@, content@) {
            Ok(id) => {
                &&& r is Ok
                &&& r->Ok_0@ == new_entry(id, old(ctx).owner@, title@, content@, now)
                &&& final(ctx).journal_count == (JournalCount { count: id, ..old(ctx).journal_count })
                &&& final(ctx).owner == old(ctx).owner
            },
            Err(e) => r == Err::<JournalEntry, ErrorCode>(e) && *final(ctx) == *old(ctx),
        },
{
    check_lengths(&title, &content)?;
    let id = ctx.journal_count.next_id(&ctx.owner)?;
    Ok(JournalEntry { id, owner: ctx.owner, created_at: now, updated_at: now, title, content })
}

/// Replaces the title and content of the signer's entry `id` and stamps it
/// at `now`; id, owner and creation time stay. On failure nothing changes.
pub fn update_journal_entry(
    ctx: &mut UpdateJournalEntry,
    id: u64,
    title: String,
    content: String,
    now: i64,
) -> (r: Result<(), ErrorCode>)
    ensures
        r == update_outcome(old(ctx).journal@, old(ctx).owner@, id, title@, content@),
        r is Ok ==> final(ctx).journal@ == updated_entry(old(ctx).journal@, title@, content@, now)
            && final(ctx).owner == old(ctx).owner,
        r is Err ==> *final(ctx) == *old(ctx),
        old(ctx).journal.owner@ == old(ctx).owner@ && fits_limits(title@, content@)
            && old(ctx).journal.id != id ==> r == Err::<(), ErrorCode>(
            ErrorCode::InvalidJournalEntryId,
        ) && *final(ctx) == *old(ctx),
{
    if !ctx.journal.owner.same_as(&ctx.owner) {
        return Err(ErrorCode::Unauthorized);
    }
    check_lengths(&title, &content)?;
    if ctx.journal.id != id {
        return Err(ErrorCode::InvalidJournalEntryId);
    }
    ctx.journal.title = title;
    ctx.journal.content = content;
    ctx.journal.updated_at = now;
    Ok(())
}

/// Checks that the signer may delete the entry and returns the size of its
/// stored form, which goes back to the owner. `title` is accepted for the
/// caller's records only: it is never compared with the stored title.
pub fn delete_journal_entry(ctx: &DeleteJournalEntry, _title: &String) -> (r: Result<usize, ErrorCode>)
    requires
        fits_limits(ctx.journal.title@, ctx.journal.content@),
    ensures
        ctx.journal.owner@ != ctx.owner@ ==> r == Err::<usize, ErrorCode>(ErrorCode::Unauthorized),
        ctx.journal.owner@ == ctx.owner@ ==> r == Ok::<usize, ErrorCode>(
            space_for(ctx.journal.title@, ctx.journal.content@) as usize,
        ),
{
    if !ctx.journal.owner.same_as(&ctx.owner) {
        return Err(ErrorCode::Unauthorized);
    }
    Ok(ctx.journal.space())
}

} // verus!

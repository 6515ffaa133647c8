//! A per-owner journal: short text entries with sequential ids, bounded
//! sizes and creation/update timestamps, kept on a keyed store.
mod account;
mod instructions;
mod laws;
mod pubkey;
mod store;

pub use account::{
    byte_len, check_lengths, entry_space, fits_limits, length_check, space_for, text_len,
    EntryView, ErrorCode, JournalCount, JournalEntry, ENTRY_FIXED_SPACE, MAX_CONTENT_LEN, MAX_TITLE_LEN,
};
pub use instructions::{
    create_journal_entry, create_outcome, delete_journal_entry, new_entry, update_journal_entry,
    update_outcome, updated_entry, CreateJournalEntry, DeleteJournalEntry, UpdateJournalEntry,
};
pub use laws::{
    apply, base_count, created_ids, lemma_deleted_id_not_reused, lemma_ids_follow_counter,
    lemma_limits_kept, lemma_nth_create_id, lemma_over_limit_refused, lemma_run_wf,
    lemma_unique_ids, lemma_update_keeps_identity, run, Op,
};
pub use pubkey::Pubkey;
pub use store::{
    create_step, delete_step, key_of, open_count_step, stored_entry_ok, update_step, Journal,
    JournalView,
};

use vstd::prelude::*;
use crate::pubkey::Pubkey;

verus! {

/// Largest title, in bytes of its UTF-8 encoding.
pub const MAX_TITLE_LEN: usize = 50;

/// Largest content, in bytes of its UTF-8 encoding.
pub const MAX_CONTENT_LEN: usize = 500;

/// Bytes of an entry's stored form besides its two strings: discriminator,
/// id, owner, two timestamps and the two length prefixes.
pub const ENTRY_FIXED_SPACE: usize = 72;

/// Length of a text in bytes of its UTF-8 encoding.
pub open spec fn byte_len(s: Seq<char>) -> nat {
    vstd::utf8::encode_utf8(s).len()
}

/// Length of a string in bytes.
pub fn text_len(s: &String) -> (r: usize)
    ensures
        r == byte_len(s@),
{
    s.as_str().as_bytes().len()
}

/// Whether a title and a content are within their limits.
pub open spec fn fits_limits(title: Seq<char>, content: Seq<char>) -> bool {
    byte_len(title) <= MAX_TITLE_LEN && byte_len(content) <= MAX_CONTENT_LEN
}

/// Exact size of the stored form of an entry with these strings.
pub open spec fn space_for(title: Seq<char>, content: Seq<char>) -> nat {
    (ENTRY_FIXED_SPACE + byte_len(title) + byte_len(content)) as nat
}

/// Why an operation on the journal was refused.
#[derive(Clone, Copy, Debug, PartialEq, Eq, Structural)]
pub enum ErrorCode {
    /// The counter would overflow, or an id does not match the stored entry.
    InvalidJournalEntryId,
    /// The title is longer than `MAX_TITLE_LEN` bytes.
    TitleLengthExceeded,
    /// The content is longer than `MAX_CONTENT_LEN` bytes.
    ContentLengthExceeded,
    /// Nothing is stored under the requested key.
    AccountNotFound,
    /// The signer is not the owner of the account.
    Unauthorized,
}

impl ErrorCode {
    /// The human-readable message of each error.
    pub fn message(&self) -> (r: &'static str)
        ensures
            *self == ErrorCode::InvalidJournalEntryId ==> r@ == "Invalid journal entry ID"@,
            *self == ErrorCode::TitleLengthExceeded ==> r@
                == "Title length exceeded the maximum limit of 50 characters"@,
            *self == ErrorCode::ContentLengthExceeded ==> r@
                == "Content length exceeded the maximum limit of 500 characters"@,
            *self == ErrorCode::AccountNotFound ==> r@ == "Journal entry not found"@,
            *self == ErrorCode::Unauthorized ==> r@ == "Signer is not the owner of the account"@,
    {
        match self {
            ErrorCode::InvalidJournalEntryId => "Invalid journal entry ID",
            ErrorCode::TitleLengthExceeded => "Title length exceeded the maximum limit of 50 characters",
            ErrorCode::ContentLengthExceeded => "Content length exceeded the maximum limit of 500 characters",
            ErrorCode::AccountNotFound => "Journal entry not found",
            ErrorCode::Unauthorized => "Signer is not the owner of the account",
        }
    }
}

/// What a journal entry holds, as mathematical values.
pub ghost struct EntryView {
    pub id: u64,
    pub owner: Seq<u8>,
    pub created_at: i64,
    pub updated_at: i64,
    pub title: Seq<char>,
    pub content: Seq<char>,
}

/// One journal entry of one owner.
#[derive(Debug)]
pub struct JournalEntry {
    pub id: u64,
    pub owner: Pubkey,
    pub created_at: i64,
    pub updated_at: i64,
    pub title: String,
    pub content: String,
}

impl View for JournalEntry {
    type V = EntryView;

    open spec fn view(&self) -> EntryView {
        EntryView {
            id: self.id,
            owner: self.owner@,
            created_at: self.created_at,
            updated_at: self.updated_at,
            title: self.title@,
            content: self.content@,
        }
    }
}

impl JournalEntry {
    /// Size of the stored form of this entry.
    pub fn space(&self) -> (r: usize)
        requires
            fits_limits(self.title@, self.content@),
        ensures
            r == space_for(self.title@, self.content@),
    {
        entry_space(&self.title, &self.content)
    }
}

/// Size of the stored form of an entry with this title and content.
pub fn entry_space(title: &String, content: &String) -> (r: usize)
    requires
        fits_limits(title@, content@),
    ensures
        r == space_for(title@, content@),
{
    ENTRY_FIXED_SPACE + text_len(title) + text_len(content)
}

/// Checks a title and a content against their limits, the title first.
pub fn check_lengths(title: &String, content: &String) -> (r: Result<(), ErrorCode>)
    ensures
        r == length_check(title@, content@),
{
    if text_len(title) > MAX_TITLE_LEN {
        Err(ErrorCode::TitleLengthExceeded)
    } else if text_len(content) > MAX_CONTENT_LEN {
        Err(ErrorCode::ContentLengthExceeded)
    } else {
        Ok(())
    }
}

/// The outcome of checking a title and a content against their limits.
pub open spec fn length_check(title: Seq<char>, content: Seq<char>) -> Result<(), ErrorCode> {
    if byte_len(title) > MAX_TITLE_LEN {
        Err(ErrorCode::TitleLengthExceeded)
    } else if byte_len(content) > MAX_CONTENT_LEN {
        Err(ErrorCode::ContentLengthExceeded)
    } else {
        Ok(())
    }
}

/// The per-owner sequence counter: the id of the latest entry created.
#[derive(Clone, Copy, Debug)]
pub struct JournalCount {
    pub count: u64,
    pub owner: Pubkey,
}

impl JournalCount {
    /// Advances the counter by one and returns the new count, which is the
    /// id of the next entry. Fails on overflow, or when `signer` does not
    /// own the counter; then the counter is unchanged.
    pub fn next_id(&mut self, signer: &Pubkey) -> (r: Result<u64, ErrorCode>)
        ensures
            old(self).owner@ != signer@ ==> r == Err::<u64, ErrorCode>(ErrorCode::Unauthorized),
            old(self).owner@ == signer@ && old(self).count == u64::MAX ==> r == Err::<u64, ErrorCode>(
                ErrorCode::InvalidJournalEntryId,
            ),
            old(self).owner@ == signer@ && old(self).count < u64::MAX ==> r == Ok::<u64, ErrorCode>(
                (old(self).count + 1) as u64,
            ),
            r is Ok ==> *final(self) == (JournalCount { count: r->Ok_0, ..*old(self) }),
            r is Err ==> *final(self) == *old(self),
    {
        if !self.owner.same_as(signer) {
            return Err(ErrorCode::Unauthorized);
        }
        match self.count.checked_add(1) {
            Some(c) => {
                self.count = c;
                Ok(c)
            },
            None => Err(ErrorCode::InvalidJournalEntryId),
        }
    }
}

} // verus!

use vstd::prelude::*;
use crate::account::{
    check_lengths, fits_limits, length_check, space_for, EntryView, ErrorCode, JournalCount,
    JournalEntry,
};
use crate::instructions::{
    create_journal_entry, delete_journal_entry, new_entry, update_journal_entry, update_outcome,
    updated_entry, CreateJournalEntry, DeleteJournalEntry, UpdateJournalEntry,
};
use crate::pubkey::Pubkey;

verus! {

/// The store as mathematical values: each owner's counter, and each entry
/// under its key `(id, owner)`.
pub ghost struct JournalView {
    pub counts: Map<Seq<u8>, u64>,
    pub entries: Map<(u64, Seq<u8>), EntryView>,
}

/// What every stored entry satisfies: it sits under its own id and owner,
/// its owner has a counter that has reached its id, and its strings are
/// within their limits.
pub open spec fn stored_entry_ok(v: JournalView, k: (u64, Seq<u8>)) -> bool {
    let e = v.entries[k];
    &&& v.counts.contains_key(k.1)
    &&& 1 <= k.0 <= v.counts[k.1]
    &&& e.id == k.0
    &&& e.owner == k.1
    &&& fits_limits(e.title, e.content)
}

impl JournalView {
    pub open spec fn wf(self) -> bool {
        forall|k: (u64, Seq<u8>)| #[trigger]
            self.entries.contains_key(k) ==> stored_entry_ok(self, k)
    }
}

/// Provisioning a counter for `owner`: a new one starts at zero, an
/// existing one is kept.
pub open spec fn open_count_step(v: JournalView, owner: Seq<u8>) -> JournalView {
    if v.counts.contains_key(owner) {
        v
    } else {
        JournalView { counts: v.counts.insert(owner, 0), ..v }
    }
}

/// Creating an entry: lengths are checked, then the owner's counter is
/// advanced and the entry is stored under the new id.
pub open spec fn create_step(
    v: JournalView,
    owner: Seq<u8>,
    title: Seq<char>,
    content: Seq<char>,
    now: i64,
) -> (JournalView, Result<u64, ErrorCode>) {
    match length_check(title, content) {
        Err(e) => (v, Err(e)),
        Ok(_) => if !v.counts.contains_key(owner) {
            (v, Err(ErrorCode::AccountNotFound))
        } else if v.counts[owner] == u64::MAX {
            (v, Err(ErrorCode::InvalidJournalEntryId))
        } else {
            let id = (v.counts[owner] + 1) as u64;
            (
                JournalView {
                    counts: v.counts.insert(owner, id),
                    entries: v.entries.insert(
                        (id, owner),
                        new_entry(id, owner, title, content, now),
                    ),
                },
                Ok(id),
            )
        },
    }
}

/// Updating the entry under `(id, owner)`.
pub open spec fn update_step(
    v: JournalView,
    owner: Seq<u8>,
    id: u64,
    title: Seq<char>,
    content: Seq<char>,
    now: i64,
) -> (JournalView, Result<(), ErrorCode>) {
    if !v.entries.contains_key((id, owner)) {
        (v, Err(ErrorCode::AccountNotFound))
    } else {
        let e = v.entries[(id, owner)];
        match update_outcome(e, owner, id, title, content) {
            Err(err) => (v, Err(err)),
            Ok(_) => (
                JournalView {
                    entries: v.entries.insert((id, owner), updated_entry(e, title, content, now)),
                    ..v
                },
                Ok(()),
            ),
        }
    }
}

/// Deleting the entry under `(id, owner)`; the result is the size of its
/// stored form, given back to the owner.
pub open spec fn delete_step(v: JournalView, owner: Seq<u8>, id: u64) -> (
    JournalView,
    Result<usize, ErrorCode>,
) {
    if !v.entries.contains_key((id, owner)) {
        (v, Err(ErrorCode::AccountNotFound))
    } else {
        let e = v.entries[(id, owner)];
        (
            JournalView { entries: v.entries.remove((id, owner)), ..v },
            Ok(space_for(e.title, e.content) as usize),
        )
    }
}

/// A keyed store of counters and entries, on which the three operations act
/// as single steps: each either takes full effect or changes nothing.
pub struct Journal {
    counts: Vec<JournalCount>,
    entries: Vec<JournalEntry>,
    model: Ghost<JournalView>,
}

impl View for Journal {
    type V = JournalView;

    closed spec fn view(&self) -> JournalView {
        self.model@
    }
}

/// `counts` holds one counter per owner, and `m` gives each its count.
spec fn counts_match(counts: Seq<JournalCount>, m: Map<Seq<u8>, u64>) -> bool {
    &&& forall|i: int|
        0 <= i < counts.len() ==> m.contains_key(#[trigger] counts[i].owner@) && m[counts[i].owner@]
            == counts[i].count
    &&& forall|i: int, j: int|
        0 <= i < counts.len() && 0 <= j < counts.len() && i != j ==> (#[trigger] counts[i]).owner@
            != (#[trigger] counts[j]).owner@
    &&& forall|k: Seq<u8>| #[trigger]
        m.contains_key(k) ==> exists|i: int| 0 <= i < counts.len()
            && (#[trigger] counts[i]).owner@ == k
}

/// The key under which an entry is stored.
pub open spec fn key_of(e: EntryView) -> (u64, Seq<u8>) {
    (e.id, e.owner)
}

/// `entries` holds one entry per key, and `m` gives each under its key.
spec fn entries_match(entries: Seq<JournalEntry>, m: Map<(u64, Seq<u8>), EntryView>) -> bool {
    &&& forall|i: int|
        0 <= i < entries.len() ==> m.contains_key(key_of(#[trigger] entries[i]@)) && m[key_of(
            entries[i]@,
        )] == entries[i]@
    &&& forall|i: int, j: int|
        0 <= i < entries.len() && 0 <= j < entries.len()
            && i != j ==> key_of((#[trigger] entries[i])@)
            != key_of((#[trigger] entries[j])@)
    &&& forall|k: (u64, Seq<u8>)| #[trigger]
        m.contains_key(k) ==> exists|i: int| 0 <= i < entries.len()
            && key_of((#[trigger] entries[i])@) == k
}

impl Journal {
    /// The store's internal invariant.
    pub closed spec fn wf(&self) -> bool {
        &&& self.model@.wf()
        &&& counts_match(self.counts@, self.model@.counts)
        &&& entries_match(self.entries@, self.model@.entries)
    }

    /// An empty store.
    pub fn new() -> (r: Journal)
        ensures
            r.wf(),
            r@.counts == Map::<Seq<u8>, u64>::empty(),
            r@.entries == Map::<(u64, Seq<u8>), EntryView>::empty(),
    {
        Journal {
            counts: Vec::new(),
            entries: Vec::new(),
            model: Ghost(JournalView { counts: Map::empty(), entries: Map::empty() }),
        }
    }

    fn find_count(&self, owner: &Pubkey) -> (r: Option<usize>)
        requires
            self.wf(),
        ensures
            r is Some ==> r->Some_0 < self.counts@.len()
                && self.counts@[r->Some_0 as int].owner@ == owner@,
            r is None ==> !self@.counts.contains_key(owner@),
    {
        let mut i: usize = 0;
        while i < self.counts.len()
            invariant
                self.wf(),
                i <= self.counts@.len(),
                forall|j: int| 0 <= j < i ==> self.counts@[j].owner@ != owner@,
            decreases self.counts@.len() - i,
        {
            if self.counts[i].owner.same_as(owner) {
                return Some(i);
            }
            i = i + 1;
        }
        None
    }

    fn find_entry(&self, id: u64, owner: &Pubkey) -> (r: Option<usize>)
        requires
            self.wf(),
        ensures
            r is Some ==> r->Some_0 < self.entries@.len()
                && key_of(self.entries@[r->Some_0 as int]@) == (id, owner@),
            r is None ==> !self@.entries.contains_key((id, owner@)),
    {
        let mut i: usize = 0;
        while i < self.entries.len()
            invariant
                self.wf(),
                i <= self.entries@.len(),
                forall|j: int| 0 <= j < i ==> key_of(self.entries@[j]@) != (id, owner@),
            decreases self.entries@.len() - i,
        {
            if self.entries[i].id == id && self.entries[i].owner.same_as(owner) {
                return Some(i);
            }
            i = i + 1;
        }
        None
    }

    /// The count of `owner`'s counter, if it has one.
    pub fn count_of(&self, owner: &Pubkey) -> (r: Option<u64>)
        requires
            self.wf(),
        ensures
            r == (if self@.counts.contains_key(owner@) {
                Some(self@.counts[owner@])
            } else {
                None
            }),
    {
        match self.find_count(owner) {
            Some(i) => Some(self.counts[i].count),
            None => None,
        }
    }

    /// The entry stored under `(id, owner)`.
    pub fn get(&self, id: u64, owner: &Pubkey) -> (r: Result<&JournalEntry, ErrorCode>)
        requires
            self.wf(),
        ensures
            self@.entries.contains_key((id, owner@)) ==> r is Ok && r->Ok_0@ == self@.entries[(
            id,
            owner@,
            )],
            !self@.entries.contains_key((id, owner@)) ==> r == Err::<&JournalEntry, ErrorCode>(
                ErrorCode::AccountNotFound,
            ),
    {
        match self.find_entry(id, owner) {
            Some(i) => Ok(&self.entries[i]),
            None => Err(ErrorCode::AccountNotFound),
        }
    }

    /// Provisions a counter for `owner`, starting at zero, unless it has one.
    pub fn open_count(&mut self, owner: &Pubkey)
        requires
            old(self).wf(),
        ensures
            final(self).wf(),
            final(self)@ == open_count_step(old(self)@, owner@),
    {
        if self.find_count(owner).is_some() {
            return;
        }
        let ghost pre = self@;
        self.counts.push(JournalCount { count: 0, owner: *owner });
        self.model = Ghost(open_count_step(pre, owner@));
        assert(self.counts@.last().owner@ == owner@);
        assert forall|k: Seq<u8>| #[trigger] self.model@.counts.contains_key(k)
            implies exists|i: int|
            0 <= i < self.counts@.len() && (#[trigger] self.counts@[i]).owner@ == k by {
            if k != owner@ {
                let i = choose|i: int| 0 <= i < old(self).counts@.len()
                    && (#[trigger] old(self).counts@[i]).owner@ == k;
                assert(self.counts@[i] == old(self).counts@[i]);
            } else {
                assert(self.counts@[self.counts@.len() - 1].owner@ == k);
            }
        }
        assert forall|k: (u64, Seq<u8>)| #[trigger] self.model@.entries.contains_key(k)
            implies stored_entry_ok(self.model@, k) by {
            assert(stored_entry_ok(pre, k));
        }
        assert(self.model@.wf());
        assert(counts_match(self.counts@, self.model@.counts));
    }

    /// Creates an entry for `owner` and returns its id: the owner's counter
    /// advances by one and the entry is stored under the new count.
    pub fn create(
        &mut self,
        owner: &Pubkey,
        title: String,
        content: String,
        now: i64,
    ) -> (r: Result<u64, ErrorCode>)
        requires
            old(self).wf(),
        ensures
            final(self).wf(),
            (final(self)@, r) == create_step(old(self)@, owner@, title@, content@, now),
    {
        let ghost pre = self@;
        let ghost t = title@;
        let ghost c = content@;
        check_lengths(&title, &content)?;
        let i = match self.find_count(owner) {
            Some(i) => i,
            None => return Err(ErrorCode::AccountNotFound),
        };
        let mut ctx = CreateJournalEntry { journal_count: self.counts[i], owner: *owner };
        let entry = create_journal_entry(&mut ctx, title, content, now)?;
        let id = entry.id;
        let ghost key = (id, owner@);
        let ghost post = create_step(pre, owner@, t, c, now).0;
        assert(!pre.entries.contains_key(key)) by {
            if pre.entries.contains_key(key) {
                assert(stored_entry_ok(pre, key));
            }
        }
        self.counts.set(i, ctx.journal_count);
        self.entries.push(entry);
        self.model = Ghost(post);
        assert forall|k: (u64, Seq<u8>)| #[trigger] post.entries.contains_key(k)
            implies stored_entry_ok(post, k) by {
            if k != key {
                assert(stored_entry_ok(pre, k));
            }
        }
        assert forall|j: int| 0 <= j < self.counts@.len() implies post.counts.contains_key(
            #[trigger] self.counts@[j].owner@) && post.counts[self.counts@[j].owner@]
                == self.counts@[j].count by {
            if j != i {
                assert(old(self).counts@[j] == self.counts@[j]);
                assert(old(self).counts@[j].owner@ != old(self).counts@[i as int].owner@);
            }
        }
        assert forall|a: int, b: int|
            0 <= a < self.counts@.len() && 0 <= b < self.counts@.len() && a != b implies (
            #[trigger] self.counts@[a]).owner@ != (#[trigger] self.counts@[b]).owner@ by {
            assert(old(self).counts@[a].owner@ != old(self).counts@[b].owner@);
        }
        assert forall|k: Seq<u8>| #[trigger] post.counts.contains_key(k) implies exists|j: int|
            0 <= j < self.counts@.len() && (#[trigger] self.counts@[j]).owner@ == k by {
            let j = choose|j: int| 0 <= j < old(self).counts@.len()
                && (#[trigger] old(self).counts@[j]).owner@ == k;
            assert(self.counts@[j].owner@ == k);
        }
        let ghost n = self.entries@.len() - 1;
        assert(key_of(self.entries@[n]@) == key);
        assert forall|j: int| 0 <= j < self.entries@.len() implies post.entries.contains_key(
            key_of(#[trigger] self.entries@[j]@)) && post.entries[key_of(self.entries@[j]@)]
                == self.entries@[j]@ by {
            if j != n {
                assert(old(self).entries@[j] == self.entries@[j]);
            }
        }
        assert forall|a: int, b: int|
            0 <= a < self.entries@.len() && 0 <= b < self.entries@.len() && a != b implies key_of(
            (#[trigger] self.entries@[a])@) != key_of((#[trigger] self.entries@[b])@) by {
            if a != n && b != n {
                assert(old(self).entries@[a] == self.entries@[a]);
                assert(old(self).entries@[b] == self.entries@[b]);
            } else if a == n {
                assert(old(self).entries@[b] == self.entries@[b]);
            } else {
                assert(old(self).entries@[a] == self.entries@[a]);
            }
        }
        assert forall|k: (u64, Seq<u8>)| #[trigger] post.entries.contains_key(k)
            implies exists|j: int|
            0 <= j < self.entries@.len() && key_of((#[trigger] self.entries@[j])@) == k by {
            if k == key {
                assert(key_of(self.entries@[n]@) == k);
            } else {
                let j = choose|j: int| 0 <= j < old(self).entries@.len()
                    && key_of((#[trigger] old(self).entries@[j])@) == k;
                assert(self.entries@[j] == old(self).entries@[j]);
            }
        }
        Ok(id)
    }

    /// Replaces the title and content of the entry under `(id, owner)` and
    /// stamps it at `now`.
    pub fn update(
        &mut self,
        owner: &Pubkey,
        id: u64,
        title: String,
        content: String,
        now: i64,
    ) -> (r: Result<(), ErrorCode>)
        requires
            old(self).wf(),
        ensures
            final(self).wf(),
            (final(self)@, r) == update_step(old(self)@, owner@, id, title@, content@, now),
    {
        let ghost pre = self@;
        let ghost t = title@;
        let ghost c = content@;
        let i = match self.find_entry(id, owner) {
            Some(i) => i,
            None => return Err(ErrorCode::AccountNotFound),
        };
        let ghost key = (id, owner@);
        let journal = self.entries.remove(i);
        let mut ctx = UpdateJournalEntry { journal, owner: *owner };
        let r = update_journal_entry(&mut ctx, id, title, content, now);
        self.entries.insert(i, ctx.journal);
        assert(self.entries@ =~= old(self).entries@.update(i as int, self.entries@[i as int]));
        if r.is_err() {
            assert(self.entries@ =~= old(self).entries@);
            return r;
        }
        let ghost post = update_step(pre, owner@, id, t, c, now).0;
        self.model = Ghost(post);
        assert forall|k: (u64, Seq<u8>)| #[trigger] post.entries.contains_key(k)
            implies stored_entry_ok(post, k) by {
            assert(stored_entry_ok(pre, k));
        }
        assert(key_of(self.entries@[i as int]@) == key);
        assert forall|j: int| 0 <= j < self.entries@.len() implies post.entries.contains_key(
            key_of(#[trigger] self.entries@[j]@)) && post.entries[key_of(self.entries@[j]@)]
                == self.entries@[j]@ by {
            if j != i {
                assert(old(self).entries@[j] == self.entries@[j]);
                assert(key_of(old(self).entries@[j]@) != key_of(old(self).entries@[i as int]@));
            }
        }
        assert forall|a: int, b: int|
            0 <= a < self.entries@.len() && 0 <= b < self.entries@.len() && a != b implies key_of(
            (#[trigger] self.entries@[a])@) != key_of((#[trigger] self.entries@[b])@) by {
            assert(key_of(old(self).entries@[a]@) != key_of(old(self).entries@[b]@));
        }
        assert forall|k: (u64, Seq<u8>)| #[trigger] post.entries.contains_key(k)
            implies exists|j: int|
            0 <= j < self.entries@.len() && key_of((#[trigger] self.entries@[j])@) == k by {
            let j = choose|j: int| 0 <= j < old(self).entries@.len()
                && key_of((#[trigger] old(self).entries@[j])@) == k;
            assert(key_of(self.entries@[j]@) == k);
        }
        r
    }

    /// Removes the entry under `(id, owner)` and returns the size of its
    /// stored form. `title` is accepted for the caller's records only.
    pub fn delete(&mut self, owner: &Pubkey, id: u64, title: &String) -> (r: Result<
        usize,
        ErrorCode,
    >)
        requires
            old(self).wf(),
        ensures
            final(self).wf(),
            (final(self)@, r) == delete_step(old(self)@, owner@, id),
    {
        let ghost pre = self@;
        let i = match self.find_entry(id, owner) {
            Some(i) => i,
            None => return Err(ErrorCode::AccountNotFound),
        };
        let ghost key = (id, owner@);
        proof {
            assert(stored_entry_ok(pre, key));
        }
        let journal = self.entries.remove(i);
        let ctx = DeleteJournalEntry { journal, owner: *owner };
        let r = delete_journal_entry(&ctx, title);
        let ghost post = delete_step(pre, owner@, id).0;
        self.model = Ghost(post);
        assert forall|k: (u64, Seq<u8>)| #[trigger] post.entries.contains_key(k)
            implies stored_entry_ok(post, k) by {
            assert(stored_entry_ok(pre, k));
        }
        assert forall|j: int| 0 <= j < self.entries@.len() implies post.entries.contains_key(
            key_of(#[trigger] self.entries@[j]@)) && post.entries[key_of(self.entries@[j]@)]
                == self.entries@[j]@ by {
            let oj = if j < i { j } else { j + 1 };
            assert(self.entries@[j] == old(self).entries@[oj]);
            assert(key_of(old(self).entries@[oj]@) != key_of(old(self).entries@[i as int]@));
        }
        assert forall|a: int, b: int|
            0 <= a < self.entries@.len() && 0 <= b < self.entries@.len() && a != b implies key_of(
            (#[trigger] self.entries@[a])@) != key_of((#[trigger] self.entries@[b])@) by {
            let oa = if a < i { a } else { a + 1 };
            let ob = if b < i { b } else { b + 1 };
            assert(self.entries@[a] == old(self).entries@[oa]);
            assert(self.entries@[b] == old(self).entries@[ob]);
            assert(key_of(old(self).entries@[oa]@) != key_of(old(self).entries@[ob]@));
        }
        assert forall|k: (u64, Seq<u8>)| #[trigger] post.entries.contains_key(k)
            implies exists|j: int|
            0 <= j < self.entries@.len() && key_of((#[trigger] self.entries@[j])@) == k by {
            let oj = choose|j: int| 0 <= j < old(self).entries@.len()
                && key_of((#[trigger] old(self).entries@[j])@) == k;
            assert(oj != i);
            let j = if oj < i { oj } else { oj - 1 };
            assert(self.entries@[j] == old(self).entries@[oj]);
        }
        r
    }
}

} // verus!

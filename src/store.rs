use vstd::prelude::*;

use crate::entry::{
    message_fits, same_owner, title_fits, valid_message, valid_title, EntryView,
    JournalEntryState,
};

verus! {

/// Why an operation on the journal was refused. A refused operation changes nothing.
#[derive(Clone, Copy, Debug, PartialEq, Eq, Structural)]
pub enum JournalError {
    /// An entry with this title and owner exists already.
    AlreadyExists,
    /// No entry with this title exists for the signer.
    NotFound,
    /// The signer cannot pay the storage deposit.
    InsufficientFunds,
    /// A title or a message is longer than its bound.
    ConstraintViolation,
}

/// The signer of a creation, who becomes the owner and pays the deposit.
pub struct CreateJournalEntry {
    pub owner: [u8; 32],
    pub owner_lamports: u64,
}

/// The signer of an update.
pub struct UpdateJournalEntry {
    pub owner: [u8; 32],
}

/// The signer of a deletion, to whom the deposit goes back.
pub struct DeleteJournalEntry {
    pub owner: [u8; 32],
}

/// Where an entry is stored: its title and its owner's identity.
pub type EntryKey = (Seq<char>, Seq<u8>);

/// The contents of a journal: each entry under its title and owner.
pub type Contents = Map<EntryKey, EntryView>;

/// Outcome of a creation: the new contents and the result.
pub open spec fn create_spec(
    m: Contents,
    deposit: nat,
    owner: Seq<u8>,
    lamports: nat,
    title: Seq<char>,
    message: Seq<char>,
) -> (Contents, Result<(), JournalError>) {
    if m.contains_key((title, owner)) {
        (m, Err(JournalError::AlreadyExists))
    } else if lamports < deposit {
        (m, Err(JournalError::InsufficientFunds))
    } else if !valid_title(title) || !valid_message(message) {
        (m, Err(JournalError::ConstraintViolation))
    } else {
        (
            m.insert((title, owner), EntryView { owner, title, message }),
            Ok(()),
        )
    }
}

/// Outcome of an update: the new contents and the result.
pub open spec fn update_spec(
    m: Contents,
    owner: Seq<u8>,
    title: Seq<char>,
    message: Seq<char>,
) -> (Contents, Result<(), JournalError>) {
    if !m.contains_key((title, owner)) {
        (m, Err(JournalError::NotFound))
    } else if !valid_message(message) {
        (m, Err(JournalError::ConstraintViolation))
    } else {
        (m.insert((title, owner), EntryView { message, ..m[(title, owner)] }), Ok(()))
    }
}

/// Outcome of a deletion: the new contents, and the deposit handed back.
pub open spec fn delete_spec(m: Contents, deposit: u64, owner: Seq<u8>, title: Seq<char>) -> (
    Contents,
    Result<u64, JournalError>,
) {
    if !m.contains_key((title, owner)) {
        (m, Err(JournalError::NotFound))
    } else {
        (m.remove((title, owner)), Ok(deposit))
    }
}

/// What a read finds.
pub open spec fn read_spec(m: Contents, owner: Seq<u8>, title: Seq<char>) -> Result<
    EntryView,
    JournalError,
> {
    if m.contains_key((title, owner)) {
        Ok(m[(title, owner)])
    } else {
        Err(JournalError::NotFound)
    }
}

/// The view of a read's result.
pub open spec fn read_view(r: Result<JournalEntryState, JournalError>) -> Result<
    EntryView,
    JournalError,
> {
    match r {
        Ok(e) => Ok(e@),
        Err(x) => Err(x),
    }
}

/// Every entry of the contents is stored under its own title and owner, within bounds.
pub open spec fn contents_ok(m: Contents) -> bool {
    forall|k: EntryKey|
        #[trigger] m.contains_key(k) ==> m[k].title == k.0 && m[k].owner == k.1 && valid_title(
            k.0,
        ) && valid_message(m[k].message)
}

/// The journal: the entries that exist, and the deposit that backs each of them.
pub struct JournalStore {
    entries: Vec<JournalEntryState>,
    rent_deposit: u64,
    contents: Ghost<Contents>,
}

impl View for JournalStore {
    type V = Contents;

    closed spec fn view(&self) -> Contents {
        self.contents@
    }
}

/// The key under which an entry is stored.
pub open spec fn key_of(e: EntryView) -> EntryKey {
    (e.title, e.owner)
}

impl JournalStore {
    /// The entries stand in the vector once each, and the contents are exactly them.
    pub closed spec fn wf(&self) -> bool {
        &&& contents_ok(self.contents@)
        &&& forall|i: int|
            0 <= i < self.entries@.len() ==> {
                &&& self.contents@.contains_key(#[trigger] key_of(self.entries@[i]@))
                &&& self.contents@[key_of(self.entries@[i]@)] == self.entries@[i]@
            }
        &&& forall|k: EntryKey| #[trigger]
            self.contents@.contains_key(k) ==> exists|i: int|
                0 <= i < self.entries@.len() && #[trigger] key_of(self.entries@[i]@) == k
        &&& forall|i: int, j: int|
            0 <= i < self.entries@.len() && 0 <= j < self.entries@.len() && i != j ==> key_of(
                #[trigger] self.entries@[i]@,
            ) != key_of(#[trigger] self.entries@[j]@)
    }

    /// The deposit that every entry holds while it exists.
    pub closed spec fn deposit(&self) -> u64 {
        self.rent_deposit
    }

    /// An empty journal, whose entries each hold `rent_deposit`.
    pub fn new(rent_deposit: u64) -> (r: JournalStore)
        ensures
            r.wf(),
            r@ == Contents::empty(),
            r.deposit() == rent_deposit,
    {
        JournalStore { entries: Vec::new(), rent_deposit, contents: Ghost(Map::empty()) }
    }

    /// The deposit that every entry holds while it exists.
    pub fn rent_deposit(&self) -> (r: u64)
        ensures
            r == self.deposit(),
    {
        self.rent_deposit
    }

    /// The number of entries.
    pub fn len(&self) -> (r: usize)
        requires
            self.wf(),
        ensures
            r == self@.len(),
    {
        proof {
            self.lemma_len();
        }
        self.entries.len()
    }

    proof fn lemma_len(&self)
        requires
            self.wf(),
        ensures
            self.entries@.len() == self@.len(),
    {
        let keys = Set::new(|i: int| 0 <= i < self.entries@.len()).map(
            |i: int| key_of(self.entries@[i]@),
        );
        assert(keys =~= self@.dom()) by {
            assert forall|k: EntryKey| self@.dom().contains(k) implies keys.contains(k) by {
                let i = choose|i: int|
                    0 <= i < self.entries@.len() && #[trigger] key_of(self.entries@[i]@) == k;
                assert(Set::new(|i: int| 0 <= i < self.entries@.len()).contains(i));
            }
        }
        let idx = Set::new(|i: int| 0 <= i < self.entries@.len());
        assert(idx =~= vstd::set_lib::set_int_range(0, self.entries@.len() as int));
        vstd::set_lib::lemma_int_range(0, self.entries@.len() as int);
        vstd::set_lib::lemma_map_size(idx, keys, |i: int| key_of(self.entries@[i]@));
    }

    /// The contents are within bounds and each entry lies under its own key.
    pub proof fn lemma_contents_ok(&self)
        requires
            self.wf(),
        ensures
            contents_ok(self@),
    {
    }

    /// Where the entry with this title and owner stands, if it exists.
    fn find(&self, title: &String, owner: &[u8; 32]) -> (r: Option<usize>)
        requires
            self.wf(),
        ensures
            match r {
                Some(i) => i < self.entries@.len() && key_of(self.entries@[i as int]@) == (
                    title@,
                    owner@,
                ),
                None => !self@.contains_key((title@, owner@)),
            },
    {
        let mut i: usize = 0;
        while i < self.entries.len()
            invariant
                self.wf(),
                0 <= i <= self.entries@.len(),
                forall|j: int| 0 <= j < i ==> key_of(#[trigger] self.entries@[j]@) != (title@, owner@),
            decreases self.entries@.len() - i,
        {
            let e = &self.entries[i];
            if e.title == *title && same_owner(&e.owner, owner) {
                return Some(i);
            }
            i = i + 1;
        }
        None
    }

    /// The entry with this title and owner.
    pub fn read_journal_entry(&self, title: &String, owner: &[u8; 32]) -> (r: Result<
        JournalEntryState,
        JournalError,
    >)
        requires
            self.wf(),
        ensures
            read_view(r) == read_spec(self@, owner@, title@),
    {
        match self.find(title, owner) {
            Some(i) => Ok(self.entries[i].duplicate()),
            None => Err(JournalError::NotFound),
        }
    }
}

/// Creates the entry `title` of the signer with `message`; the signer pays the deposit.
pub fn create_journal_entry(
    store: &mut JournalStore,
    ctx: &CreateJournalEntry,
    title: String,
    message: String,
) -> (r: Result<(), JournalError>)
    requires
        old(store).wf(),
    ensures
        final(store).wf(),
        final(store).deposit() == old(store).deposit(),
        (final(store)@, r) == create_spec(
            old(store)@,
            old(store).deposit() as nat,
            ctx.owner@,
            ctx.owner_lamports as nat,
            title@,
            message@,
        ),
{
    if store.find(&title, &ctx.owner).is_some() {
        return Err(JournalError::AlreadyExists);
    }
    if ctx.owner_lamports < store.rent_deposit {
        return Err(JournalError::InsufficientFunds);
    }
    if !title_fits(&title) || !message_fits(&message) {
        return Err(JournalError::ConstraintViolation);
    }
    let e = JournalEntryState { owner: ctx.owner, title, message };
    let ghost k = key_of(e@);
    let ghost old_entries = store.entries@;
    store.contents = Ghost(store.contents@.insert(k, e@));
    store.entries.push(e);
    proof {
        assert(store.entries@ == old_entries.push(e));
        assert forall|i: int| 0 <= i < store.entries@.len() implies {
            &&& store.contents@.contains_key(#[trigger] key_of(store.entries@[i]@))
            &&& store.contents@[key_of(store.entries@[i]@)] == store.entries@[i]@
        } by {
            if i < old_entries.len() {
                assert(old(store).contents@.contains_key(key_of(old_entries[i]@)));
            }
        }
        assert forall|kk: EntryKey| #[trigger]
            store.contents@.contains_key(kk) implies exists|i: int|
            0 <= i < store.entries@.len() && #[trigger] key_of(store.entries@[i]@) == kk by {
            if kk == k {
                assert(key_of(store.entries@[old_entries.len() as int]@) == kk);
            } else {
                assert(old(store).contents@.contains_key(kk));
                let i = choose|i: int|
                    0 <= i < old_entries.len() && #[trigger] key_of(old_entries[i]@) == kk;
                assert(key_of(store.entries@[i]@) == kk);
            }
        }
        assert forall|i: int, j: int|
            0 <= i < store.entries@.len() && 0 <= j < store.entries@.len() && i != j implies key_of(
            #[trigger] store.entries@[i]@,
        ) != key_of(#[trigger] store.entries@[j]@) by {
            if i < old_entries.len() {
                assert(old(store).contents@.contains_key(key_of(old_entries[i]@)));
            }
            if j < old_entries.len() {
                assert(old(store).contents@.contains_key(key_of(old_entries[j]@)));
            }
        }
    }
    Ok(())
}

/// Replaces the message of the signer's entry `title`; the title and owner stay.
pub fn update_journal_entry(
    store: &mut JournalStore,
    ctx: &UpdateJournalEntry,
    title: String,
    message: String,
) -> (r: Result<(), JournalError>)
    requires
        old(store).wf(),
    ensures
        final(store).wf(),
        final(store).deposit() == old(store).deposit(),
        (final(store)@, r) == update_spec(old(store)@, ctx.owner@, title@, message@),
{
    let idx = match store.find(&title, &ctx.owner) {
        Some(i) => i,
        None => {
            return Err(JournalError::NotFound);
        },
    };
    if !message_fits(&message) {
        return Err(JournalError::ConstraintViolation);
    }
    let e = JournalEntryState { owner: ctx.owner, title, message };
    let ghost k = key_of(e@);
    let ghost old_entries = store.entries@;
    proof {
        assert(store.contents@.contains_key(k));
        assert(e@ == EntryView { message: e@.message, ..store.contents@[k] });
    }
    store.contents = Ghost(store.contents@.insert(k, e@));
    store.entries.set(idx, e);
    proof {
        assert(store.entries@ == old_entries.update(idx as int, e));
        assert forall|i: int| 0 <= i < store.entries@.len() implies {
            &&& store.contents@.contains_key(#[trigger] key_of(store.entries@[i]@))
            &&& store.contents@[key_of(store.entries@[i]@)] == store.entries@[i]@
        } by {
            if i != idx {
                assert(old(store).contents@.contains_key(key_of(old_entries[i]@)));
                assert(key_of(old_entries[i]@) != key_of(old_entries[idx as int]@));
            }
        }
        assert forall|kk: EntryKey| #[trigger]
            store.contents@.contains_key(kk) implies exists|i: int|
            0 <= i < store.entries@.len() && #[trigger] key_of(store.entries@[i]@) == kk by {
            let i = choose|i: int|
                0 <= i < old_entries.len() && #[trigger] key_of(old_entries[i]@) == kk;
            assert(key_of(store.entries@[i]@) == kk);
        }
        assert forall|i: int, j: int|
            0 <= i < store.entries@.len() && 0 <= j < store.entries@.len() && i != j implies key_of(
            #[trigger] store.entries@[i]@,
        ) != key_of(#[trigger] store.entries@[j]@) by {
            assert(key_of(old_entries[i]@) != key_of(old_entries[j]@));
        }
    }
    Ok(())
}

/// Removes the signer's entry `title` and hands its deposit back.
pub fn delete_journal_entry(store: &mut JournalStore, ctx: &DeleteJournalEntry, title: String) -> (r:
    Result<u64, JournalError>)
    requires
        old(store).wf(),
    ensures
        final(store).wf(),
        final(store).deposit() == old(store).deposit(),
        (final(store)@, r) == delete_spec(old(store)@, old(store).deposit(), ctx.owner@, title@),
{
    let idx = match store.find(&title, &ctx.owner) {
        Some(i) => i,
        None => {
            return Err(JournalError::NotFound);
        },
    };
    let ghost k = (title@, ctx.owner@);
    let ghost old_entries = store.entries@;
    store.contents = Ghost(store.contents@.remove(k));
    store.entries.remove(idx);
    proof {
        assert(store.entries@ == old_entries.remove(idx as int));
        assert forall|i: int| 0 <= i < store.entries@.len() implies {
            &&& store.contents@.contains_key(#[trigger] key_of(store.entries@[i]@))
            &&& store.contents@[key_of(store.entries@[i]@)] == store.entries@[i]@
        } by {
            let oi = if i < idx { i } else { i + 1 };
            assert(store.entries@[i] == old_entries[oi]);
            assert(old(store).contents@.contains_key(key_of(old_entries[oi]@)));
            assert(key_of(old_entries[oi]@) != key_of(old_entries[idx as int]@));
        }
        assert forall|kk: EntryKey| #[trigger]
            store.contents@.contains_key(kk) implies exists|i: int|
            0 <= i < store.entries@.len() && #[trigger] key_of(store.entries@[i]@) == kk by {
            let oi = choose|oi: int|
                0 <= oi < old_entries.len() && #[trigger] key_of(old_entries[oi]@) == kk;
            assert(oi != idx);
            let i = if oi < idx { oi } else { oi - 1 };
            assert(store.entries@[i] == old_entries[oi]);
            assert(key_of(store.entries@[i]@) == kk);
        }
        assert forall|i: int, j: int|
            0 <= i < store.entries@.len() && 0 <= j < store.entries@.len() && i != j implies key_of(
            #[trigger] store.entries@[i]@,
        ) != key_of(#[trigger] store.entries@[j]@) by {
            let oi = if i < idx { i } else { i + 1 };
            let oj = if j < idx { j } else { j + 1 };
            assert(store.entries@[i] == old_entries[oi]);
            assert(store.entries@[j] == old_entries[oj]);
        }
    }
    Ok(store.rent_deposit)
}

} // verus!

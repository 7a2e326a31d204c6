use vstd::prelude::*;

verus! {

/// Length of the header that the host keeps in front of every record.
pub const DISCRIMINATOR_LEN: usize = 8;

/// Length of an owner's public identity.
pub const OWNER_LEN: usize = 32;

/// Length of the prefix that encodes the byte length of a text field.
pub const STRING_PREFIX_LEN: usize = 4;

/// Largest length, in bytes, of a title.
pub const MAX_TITLE_LEN: usize = 50;

/// Largest length, in bytes, of a message.
pub const MAX_MESSAGE_LEN: usize = 1000;

/// Worst-case encoded size of a record, header not included.
pub const INIT_SPACE: usize = OWNER_LEN + STRING_PREFIX_LEN + MAX_TITLE_LEN + STRING_PREFIX_LEN
    + MAX_MESSAGE_LEN;

/// Storage allocated for every record: the header and the worst-case encoding.
pub const ENTRY_SPACE: usize = DISCRIMINATOR_LEN + INIT_SPACE;

/// Length in bytes of the UTF-8 encoding of a text.
pub open spec fn byte_len(s: Seq<char>) -> nat {
    vstd::utf8::encode_utf8(s).len()
}

/// A title that fits its bound.
pub open spec fn valid_title(title: Seq<char>) -> bool {
    byte_len(title) <= MAX_TITLE_LEN
}

/// A message that fits its bound.
pub open spec fn valid_message(message: Seq<char>) -> bool {
    byte_len(message) <= MAX_MESSAGE_LEN
}

/// What a stored record holds.
pub ghost struct EntryView {
    pub owner: Seq<u8>,
    pub title: Seq<char>,
    pub message: Seq<char>,
}

/// A journal entry: its owner, its title and its message.
pub struct JournalEntryState {
    pub owner: [u8; 32],
    pub title: String,
    pub message: String,
}

impl View for JournalEntryState {
    type V = EntryView;

    open spec fn view(&self) -> EntryView {
        EntryView { owner: self.owner@, title: self.title@, message: self.message@ }
    }
}

impl JournalEntryState {
    /// A copy of the entry.
    pub fn duplicate(&self) -> (r: JournalEntryState)
        ensures
            r@ == self@,
    {
        JournalEntryState { owner: self.owner, title: self.title.clone(), message: self.message.clone() }
    }
}

/// Whether a title fits its bound.
pub fn title_fits(title: &String) -> (r: bool)
    ensures
        r == valid_title(title@),
{
    title.as_str().as_bytes().len() <= MAX_TITLE_LEN
}

/// Whether a message fits its bound.
pub fn message_fits(message: &String) -> (r: bool)
    ensures
        r == valid_message(message@),
{
    message.as_str().as_bytes().len() <= MAX_MESSAGE_LEN
}

/// Whether two owner identities are the same.
pub fn same_owner(a: &[u8; 32], b: &[u8; 32]) -> (r: bool)
    ensures
        r == (a@ == b@),
{
    let mut i: usize = 0;
    while i < 32
        invariant
            0 <= i <= 32,
            a@.len() == 32,
            b@.len() == 32,
            forall|j: int| 0 <= j < i ==> a@[j] == b@[j],
        decreases 32 - i,
    {
        if a[i] != b[i] {
            return false;
        }
        i = i + 1;
    }
    assert(a@ =~= b@);
    true
}

} // verus!

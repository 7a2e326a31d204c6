use vstd::prelude::*;

use crate::entry::{valid_message, valid_title, EntryView};
use crate::store::{
    contents_ok, create_spec, delete_spec, read_spec, update_spec, Contents, JournalError,
};

verus! {

/// A creation with a title and a message within their bounds, by a signer who can pay
/// the deposit and has no entry of that title yet, succeeds; a read then finds exactly
/// that owner, title and message.
pub proof fn lemma_create_then_read(
    m: Contents,
    deposit: nat,
    owner: Seq<u8>,
    lamports: nat,
    title: Seq<char>,
    message: Seq<char>,
)
    requires
        valid_title(title),
        valid_message(message),
        lamports >= deposit,
        !m.contains_key((title, owner)),
    ensures
        create_spec(m, deposit, owner, lamports, title, message).1 == Ok::<(), JournalError>(()),
        read_spec(create_spec(m, deposit, owner, lamports, title, message).0, owner, title)
            == Ok::<EntryView, JournalError>(EntryView { owner, title, message }),
{
}

/// Once an entry exists, or has just been created, a second creation with the same
/// title and owner fails with `AlreadyExists` and changes nothing, whatever its
/// message and funds.
pub proof fn lemma_create_twice(
    m: Contents,
    deposit: nat,
    owner: Seq<u8>,
    lamports: nat,
    title: Seq<char>,
    message: Seq<char>,
    lamports2: nat,
    message2: Seq<char>,
)
    requires
        m.contains_key((title, owner)) || create_spec(m, deposit, owner, lamports, title, message).1
            == Ok::<(), JournalError>(()),
    ensures
        ({
            let m1 = create_spec(m, deposit, owner, lamports, title, message).0;
            create_spec(m1, deposit, owner, lamports2, title, message2) == (
                m1,
                Err::<(), JournalError>(JournalError::AlreadyExists),
            )
        }),
{
}

/// An update by the owner, after a successful creation, replaces the message and keeps
/// the owner and the title.
pub proof fn lemma_update_after_create(
    m: Contents,
    deposit: nat,
    owner: Seq<u8>,
    lamports: nat,
    title: Seq<char>,
    message: Seq<char>,
    message2: Seq<char>,
)
    requires
        create_spec(m, deposit, owner, lamports, title, message).1 == Ok::<(), JournalError>(()),
        valid_message(message2),
    ensures
        ({
            let m1 = create_spec(m, deposit, owner, lamports, title, message).0;
            let (m2, r) = update_spec(m1, owner, title, message2);
            &&& r == Ok::<(), JournalError>(())
            &&& read_spec(m2, owner, title) == Ok::<EntryView, JournalError>(
                EntryView { owner, title, message: message2 },
            )
        }),
{
}

/// An update or a deletion by a signer other than the owner never touches the owner's
/// entry; where that signer has no entry of the same title, it fails with `NotFound` and
/// changes nothing.
pub proof fn lemma_other_signer(
    m: Contents,
    deposit: u64,
    owner: Seq<u8>,
    other: Seq<u8>,
    title: Seq<char>,
    message: Seq<char>,
)
    requires
        m.contains_key((title, owner)),
        other != owner,
    ensures
        update_spec(m, other, title, message).0.contains_key((title, owner)),
        update_spec(m, other, title, message).0[(title, owner)] == m[(title, owner)],
        delete_spec(m, deposit, other, title).0.contains_key((title, owner)),
        delete_spec(m, deposit, other, title).0[(title, owner)] == m[(title, owner)],
        !m.contains_key((title, other)) ==> update_spec(m, other, title, message) == (
            m,
            Err::<(), JournalError>(JournalError::NotFound),
        ),
        !m.contains_key((title, other)) ==> delete_spec(m, deposit, other, title) == (
            m,
            Err::<u64, JournalError>(JournalError::NotFound),
        ),
{
}

/// After a deletion, a creation with the same title and owner succeeds, by a signer who
/// can pay the deposit, and the new entry holds the new message only.
pub proof fn lemma_delete_then_create(
    m: Contents,
    deposit: u64,
    owner: Seq<u8>,
    lamports: nat,
    title: Seq<char>,
    message: Seq<char>,
)
    requires
        contents_ok(m),
        m.contains_key((title, owner)),
        lamports >= deposit,
        valid_message(message),
    ensures
        ({
            let (m1, r1) = delete_spec(m, deposit, owner, title);
            let (m2, r2) = create_spec(m1, deposit as nat, owner, lamports, title, message);
            &&& r1 == Ok::<u64, JournalError>(deposit)
            &&& r2 == Ok::<(), JournalError>(())
            &&& read_spec(m2, owner, title) == Ok::<EntryView, JournalError>(
                EntryView { owner, title, message },
            )
        }),
{
}

} // verus!

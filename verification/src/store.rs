//! A model of the persistence store.
//!
//! The store alone owns the durable subscriber rows; the library models
//! its content as the sequence of rows in write order.  Each successful
//! insert appends exactly one row, and nothing here deduplicates: two
//! writes with the same email give two rows.  The proof functions below
//! state these laws.

use vstd::prelude::*;
use crate::routes::subscriptions::form_view;

verus! {

/// One stored row as the library sees it: the subscriber's fields.  The
/// identifier and the timestamp are server-generated and carry no
/// promise the model could state.
pub struct RecordModel {
    pub email: Seq<char>,
    pub name: Seq<char>,
}

/// The store after one successful insert: the same rows with the new one
/// appended.
pub open spec fn apply_insert(
    store: Seq<RecordModel>,
    email: Seq<char>,
    name: Seq<char>,
) -> Seq<RecordModel> {
    store.push(RecordModel { email, name })
}

/// A successful write adds exactly one row, that row holds the submitted
/// email and name, and every earlier row is unchanged.
pub proof fn lemma_insert_adds_exactly_one(
    store: Seq<RecordModel>,
    email: Seq<char>,
    name: Seq<char>,
)
    ensures
        apply_insert(store, email, name).len() == store.len() + 1,
        apply_insert(store, email, name).last() == (RecordModel { email, name }),
        forall|i: int| 0 <= i < store.len() ==> apply_insert(store, email, name)[i] == store[i],
{
}

/// A decodable subscription body leads to exactly one new row holding
/// the decoded email and name, with every earlier row unchanged.
pub proof fn lemma_valid_submission_adds_row(
    store: Seq<RecordModel>,
    body: Seq<u8>,
    email: Seq<char>,
    name: Seq<char>,
)
    requires
        form_view(body) == Some((email, name)),
    ensures
        apply_insert(store, email, name).len() == store.len() + 1,
        apply_insert(store, email, name).last() == (RecordModel { email, name }),
        forall|i: int| 0 <= i < store.len() ==> apply_insert(store, email, name)[i] == store[i],
{
}

/// Two successful writes with the same email both land: the store grows
/// by two rows at distinct positions, each holding that email.  No
/// uniqueness constraint is assumed.
pub proof fn lemma_same_email_two_rows(
    store: Seq<RecordModel>,
    email: Seq<char>,
    name1: Seq<char>,
    name2: Seq<char>,
)
    ensures
        apply_insert(apply_insert(store, email, name1), email, name2).len() == store.len() + 2,
        apply_insert(apply_insert(store, email, name1), email, name2)[store.len() as int].email
            == email,
        apply_insert(apply_insert(store, email, name1), email, name2)[store.len() as int + 1].email
            == email,
{
}

} // verus!

//! The credential store: one record per registered identity, keyed by a
//! unique username.
//!
//! The store detects uniqueness violations in the insert itself rather than
//! by a separate read-then-write, so two racing signups for one username
//! resolve to exactly one success however they interleave.

use vstd::prelude::*;

use crate::text::str_eq;

verus! {

/// One registered identity: the sole lookup key, the per-record random
/// salt, and the self-describing encoded password hash.
pub struct CredentialRecord {
    pub username: String,
    pub salt: String,
    pub password_hash: String,
}

/// Why an insert was refused.
#[derive(Clone, Copy, Debug, PartialEq, Eq, Structural)]
pub enum StoreError {
    /// A record with this username already exists.
    Conflict,
}

/// Whether some record in `s` holds the username `u`.
pub open spec fn contains_username(s: Seq<CredentialRecord>, u: Seq<char>) -> bool {
    exists|i: int| 0 <= i < s.len() && s[i].username@ == u
}

/// No two records share a username.
pub open spec fn unique_usernames(s: Seq<CredentialRecord>) -> bool {
    forall|i: int, j: int| 0 <= i < j < s.len() ==> s[i].username@ != s[j].username@
}

/// The record holding username `u`; meaningful only when `u` is present,
/// and unique when usernames are unique.
pub open spec fn stored_record(s: Seq<CredentialRecord>, u: Seq<char>) -> CredentialRecord {
    s[choose|i: int| 0 <= i < s.len() && s[i].username@ == u]
}

/// An in-memory credential store, viewed as its record sequence in
/// insertion order.
pub struct CredentialStore {
    records: Vec<CredentialRecord>,
}

impl View for CredentialStore {
    type V = Seq<CredentialRecord>;

    closed spec fn view(&self) -> Seq<CredentialRecord> {
        self.records@
    }
}

impl CredentialStore {
    /// Usernames are unique across all records.
    pub open spec fn wf(&self) -> bool {
        unique_usernames(self@)
    }

    /// An empty store.
    pub fn new() -> (s: Self)
        ensures
            s@ == Seq::<CredentialRecord>::empty(),
            s.wf(),
    {
        CredentialStore { records: Vec::new() }
    }

    /// The position of the record holding `username`, if any.
    fn index_of(&self, username: &str) -> (r: Option<usize>)
        ensures
            match r {
                Some(i) => i < self@.len() && self@[i as int].username@ == username@,
                None => forall|j: int| 0 <= j < self@.len() ==> self@[j].username@ != username@,
            },
    {
        let mut i: usize = 0;
        while i < self.records.len()
            invariant
                0 <= i <= self.records@.len(),
                forall|j: int| 0 <= j < i ==> self.records@[j].username@ != username@,
            decreases self.records@.len() - i,
        {
            if str_eq(self.records[i].username.as_str(), username) {
                return Some(i);
            }
            i = i + 1;
        }
        None
    }

    /// Append `rec` unless its username is already taken; on a conflict the
    /// store is left exactly as it was.
    pub fn insert(&mut self, rec: CredentialRecord) -> (r: Result<(), StoreError>)
        requires
            old(self).wf(),
        ensures
            final(self).wf(),
            contains_username(old(self)@, rec.username@) ==> r == Err::<(), StoreError>(
                StoreError::Conflict,
            ) && final(self)@ == old(self)@,
            !contains_username(old(self)@, rec.username@) ==> r == Ok::<(), StoreError>(())
                && final(self)@ == old(self)@.push(rec),
    {
        match self.index_of(rec.username.as_str()) {
            Some(_) => Err(StoreError::Conflict),
            None => {
                self.records.push(rec);
                Ok(())
            },
        }
    }

    /// The record registered under `username`, if any.
    pub fn find_by_username(&self, username: &str) -> (r: Option<&CredentialRecord>)
        requires
            self.wf(),
        ensures
            match r {
                Some(rec) => contains_username(self@, username@) && *rec == stored_record(
                    self@,
                    username@,
                ) && rec.username@ == username@,
                None => !contains_username(self@, username@),
            },
    {
        match self.index_of(username) {
            Some(i) => {
                proof {
                    let k = choose|j: int|
                        0 <= j < self@.len() && self@[j].username@ == username@;
                    assert(k == i as int);
                }
                Some(&self.records[i])
            },
            None => None,
        }
    }
}

/// Law: once a signup has claimed a username, the store contains it, so by
/// `insert`'s contract any further insert of a record with that username is
/// refused with a conflict and leaves the store unchanged: of two racing
/// signups for one username, exactly one succeeds.
pub proof fn lemma_second_insert_conflicts(
    s: Seq<CredentialRecord>,
    first: CredentialRecord,
    second: CredentialRecord,
)
    requires
        second.username@ == first.username@,
    ensures
        contains_username(s.push(first), second.username@),
{
    assert(s.push(first)[s.len() as int] == first);
}

/// Law: when a store gains a record for a username it did not hold, that
/// username afterwards looks up exactly the record added: the record a
/// successful signup stores is the one its own request carried.
pub proof fn lemma_fresh_record_lookup(s: Seq<CredentialRecord>, rec: CredentialRecord)
    requires
        !contains_username(s, rec.username@),
    ensures
        contains_username(s.push(rec), rec.username@),
        stored_record(s.push(rec), rec.username@) == rec,
{
    assert(s.push(rec)[s.len() as int] == rec);
    let i = choose|i: int|
        0 <= i < s.push(rec).len() && s.push(rec)[i].username@ == rec.username@;
    if i < s.len() {
        assert(s[i] == s.push(rec)[i]);
    }
}

} // verus!

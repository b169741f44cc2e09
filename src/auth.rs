//! Login through the tracker: the table that ties a login attempt to its user, and
//! the request that the tracker's redirect delivers.
use vstd::prelude::*;

use crate::text::same_text;

verus! {

/// The parameters of the tracker's redirect after a login.
#[derive(Clone, Debug, PartialEq)]
pub struct AuthRequest {
    pub access_token: String,
    pub token_type: String,
    pub expires_in: u64,
    pub scope: String,
    /// The anti-forgery secret of the login attempt.
    pub state: String,
}

/// The user of the latest entry made with `secret`.
pub open spec fn user_of_secret(e: Seq<(String, i64)>, secret: Seq<char>) -> Option<i64>
    decreases e.len(),
{
    if e.len() == 0 {
        None
    } else if e.last().0@ == secret {
        Some(e.last().1)
    } else {
        user_of_secret(e.drop_last(), secret)
    }
}

/// The entries after recording `entry` in a table of `capacity` entries.
pub open spec fn after_record(e: Seq<(String, i64)>, capacity: nat, entry: (String, i64)) -> Seq<
    (String, i64),
> {
    if e.len() >= capacity && e.len() > 0 {
        e.drop_first().push(entry)
    } else {
        e.push(entry)
    }
}

/// Pending login attempts, oldest first: the anti-forgery secret of each and its user.
/// When full, the oldest attempt leaves.
pub struct CsrfTable {
    capacity: usize,
    entries: Vec<(String, i64)>,
}

impl CsrfTable {
    pub closed spec fn spec_capacity(&self) -> nat {
        self.capacity as nat
    }

    pub closed spec fn spec_entries(&self) -> Seq<(String, i64)> {
        self.entries@
    }

    pub open spec fn wf(&self) -> bool {
        self.spec_capacity() > 0 && self.spec_entries().len() <= self.spec_capacity()
    }

    pub fn new(capacity: usize) -> (r: Self)
        requires
            capacity > 0,
        ensures
            r.wf(),
            r.spec_capacity() == capacity,
            r.spec_entries() == Seq::<(String, i64)>::empty(),
    {
        CsrfTable { capacity, entries: Vec::new() }
    }

    /// Records that the login attempt with `secret` belongs to `uid`.
    pub fn record(&mut self, secret: String, uid: i64)
        requires
            old(self).wf(),
        ensures
            final(self).wf(),
            final(self).spec_capacity() == old(self).spec_capacity(),
            final(self).spec_entries() == after_record(
                old(self).spec_entries(),
                old(self).spec_capacity(),
                (secret, uid),
            ),
    {
        let ghost e0 = self.entries@;
        if self.entries.len() >= self.capacity && self.entries.len() > 0 {
            self.entries.remove(0);
            assert(self.entries@ =~= e0.drop_first());
        }
        self.entries.push((secret, uid));
    }

    /// The user whose latest login attempt carries `secret`.
    pub fn resolve(&self, secret: &str) -> (r: Option<i64>)
        ensures
            r == user_of_secret(self.spec_entries(), secret@),
    {
        let mut i: usize = self.entries.len();
        assert(self.entries@.take(i as int) =~= self.entries@);
        while i > 0
            invariant
                0 <= i <= self.entries@.len(),
                user_of_secret(self.entries@.take(i as int), secret@) == user_of_secret(
                    self.entries@,
                    secret@,
                ),
            decreases i,
        {
            assert(self.entries@.take(i as int).drop_last() =~= self.entries@.take(i - 1));
            if same_text(self.entries[i - 1].0.as_str(), secret) {
                return Some(self.entries[i - 1].1);
            }
            i = i - 1;
        }
        None
    }
}

} // verus!

//! The per-user session store and the rule for what is stored after a command.
use vstd::prelude::*;

use crate::decimal::{int_dec, push_int};
use crate::states::{Idle, Transition, UserState};
use crate::text::string_from_chars;
use std::collections::HashMap;

verus! {

broadcast use vstd::std_specs::hash::group_hash_axioms;

/// The state of a user who has no stored state.
pub open spec fn state_or_idle(m: Map<i64, UserState>, uid: i64) -> UserState {
    if m.contains_key(uid) {
        m[uid]
    } else {
        UserState::Idle(Idle {})
    }
}

/// The conversation state of each user, kept in process.
pub struct SessionStore {
    states: HashMap<i64, UserState>,
}

impl View for SessionStore {
    type V = Map<i64, UserState>;

    closed spec fn view(&self) -> Map<i64, UserState> {
        self.states@
    }
}

impl SessionStore {
    pub fn new() -> (r: Self)
        ensures
            r@ == Map::<i64, UserState>::empty(),
    {
        SessionStore { states: HashMap::new() }
    }

    /// The stored state of `uid`, if any; a user with no stored state is idle
    /// (`state_or_idle`). The state is lent, not copied.
    pub fn get(&self, uid: i64) -> (r: Option<&UserState>)
        ensures
            match r {
                Some(s) => self@.contains_key(uid) && *s == self@[uid],
                None => !self@.contains_key(uid),
            },
    {
        self.states.get(&uid)
    }

    /// Takes the state of `uid` out of the store; a user with no state is idle.
    pub fn take(&mut self, uid: i64) -> (r: UserState)
        ensures
            r == state_or_idle(old(self)@, uid),
            final(self)@ == old(self)@.remove(uid),
    {
        match self.states.remove(&uid) {
            Some(s) => s,
            None => UserState::idle(),
        }
    }

    /// Stores `state` as the state of `uid`, replacing what was there.
    pub fn set(&mut self, uid: i64, state: UserState)
        ensures
            final(self)@ == old(self)@.insert(uid, state),
    {
        self.states.insert(uid, state);
    }
}

/// What a durable store handed back for a user.
#[derive(Clone, Debug, PartialEq)]
pub enum StoredRecord {
    Absent,
    /// A record that could not be read as a state.
    Corrupt,
    Present(UserState),
}

/// The state that a stored record stands for: absent and unreadable records, and the
/// sentinel that is never stored, all read as idle.
pub fn state_from_record(record: StoredRecord) -> (r: UserState)
    ensures
        match record {
            StoredRecord::Present(s) => r == if s is Error {
                UserState::Idle(Idle {})
            } else {
                s
            },
            _ => r == UserState::Idle(Idle {}),
        },
{
    match record {
        StoredRecord::Present(UserState::Error) => UserState::idle(),
        StoredRecord::Present(s) => s,
        _ => UserState::idle(),
    }
}

/// The state to store once the intents of `t` have run: the new state when they all
/// succeeded and a rule applied; otherwise the state from before the command.
pub fn commit(prior: UserState, t: Transition, executed: bool) -> (r: UserState)
    ensures
        r == if executed && !(t.state is Error) {
            t.state
        } else {
            prior
        },
{
    if executed {
        match t.state {
            UserState::Error => prior,
            s => s,
        }
    } else {
        prior
    }
}

/// The key under which a durable store keeps the state of `uid`.
pub open spec fn state_key_text(uid: i64) -> Seq<char> {
    seq!['s', 't', 'a', 't', 'e', ':'] + int_dec(uid as int)
}

pub fn state_key(uid: i64) -> (r: String)
    ensures
        r@ == state_key_text(uid),
{
    let mut cs: Vec<char> = Vec::new();
    cs.push('s');
    cs.push('t');
    cs.push('a');
    cs.push('t');
    cs.push('e');
    cs.push(':');
    push_int(&mut cs, uid);
    assert(cs@ =~= state_key_text(uid));
    string_from_chars(&cs)
}

} // verus!

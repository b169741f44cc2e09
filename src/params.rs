//! Paging parameters of the backlog listing and the payloads carried by inline actions.
use vstd::prelude::*;

verus! {

/// One page of the backlog listing: `top` issues after skipping `skip` of them.
#[derive(Clone, Copy, Debug, PartialEq, Eq, Structural)]
pub struct BacklogParams {
    pub top: i32,
    pub skip: i32,
}

impl BacklogParams {
    /// Pages hold at least one issue, never start before the first issue, and start
    /// at a whole number of pages.
    pub open spec fn wf(self) -> bool {
        self.top > 0 && self.skip >= 0 && self.skip % self.top == 0
    }

    /// The page that follows this one.
    pub open spec fn spec_next(self) -> BacklogParams {
        BacklogParams { top: self.top, skip: (self.skip + self.top) as i32 }
    }

    /// The page that precedes this one, if the listing does not start here.
    pub open spec fn spec_prev(self) -> Option<BacklogParams> {
        if self.skip - self.top >= 0 {
            Some(BacklogParams { top: self.top, skip: (self.skip - self.top) as i32 })
        } else {
            None
        }
    }

    /// The first page of `top` issues.
    pub fn new(top: i32) -> (r: Self)
        ensures
            r == (BacklogParams { top, skip: 0 }),
    {
        Self { top, skip: 0 }
    }

    pub fn new_with_skip(top: i32, skip: i32) -> (r: Self)
        ensures
            r == (BacklogParams { top, skip }),
    {
        Self { top, skip }
    }

    pub fn next(&self) -> (r: Self)
        requires
            i32::MIN <= self.skip + self.top <= i32::MAX,
        ensures
            r == self.spec_next(),
            r.skip == self.skip + self.top,
    {
        Self { top: self.top, skip: self.skip + self.top }
    }

    pub fn prev(&self) -> (r: Option<Self>)
        requires
            i32::MIN <= self.skip - self.top <= i32::MAX,
        ensures
            r == self.spec_prev(),
    {
        if self.skip - self.top >= 0 {
            Some(Self { top: self.top, skip: self.skip - self.top })
        } else {
            None
        }
    }
}

/// The first page of a listing has no page before it.
pub proof fn lemma_first_page_has_no_prev(top: i32)
    requires
        top > 0,
    ensures
        (BacklogParams { top, skip: 0 }).spec_prev() is None,
{
}

/// Paging forward or back from a well-formed page gives a well-formed page.
pub proof fn lemma_paging_keeps_wf(p: BacklogParams)
    requires
        p.wf(),
        p.skip + p.top <= i32::MAX,
    ensures
        p.spec_next().wf(),
        p.spec_prev() matches Some(q) ==> q.wf(),
{
    vstd::arithmetic::div_mod::lemma_mod_add_multiples_vanish(p.skip as int, p.top as int);
    vstd::arithmetic::div_mod::lemma_mod_sub_multiples_vanish(p.skip as int, p.top as int);
}

/// Stepping forward one page and then back one page returns to the same page.
pub proof fn lemma_next_then_prev(p: BacklogParams)
    requires
        p.skip >= 0,
        p.skip + p.top <= i32::MAX,
        p.skip + p.top >= i32::MIN,
    ensures
        p.spec_next().spec_prev() == Some(p),
{
}

} // verus!

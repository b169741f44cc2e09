//! Layout of the inline and reply keyboards, and the text shown on their buttons.
use vstd::prelude::*;

use crate::commands::{CallbackParams, VoteForIssueParams};
use crate::models::Issue;
use crate::params::BacklogParams;
use crate::text::{chars_of, string_from_chars};
use crate::token::{encode_token, token_text, byte_len, EncodeError, TOKEN_LIMIT};

verus! {

/// `s` cut into rows of three, the last row holding what is left.
pub open spec fn chunks3<T>(s: Seq<T>) -> Seq<Seq<T>>
    decreases s.len(),
{
    if s.len() == 0 {
        seq![]
    } else if s.len() <= 3 {
        seq![s]
    } else {
        seq![s.take(3)] + chunks3(s.skip(3))
    }
}

/// The rows of a keyboard, as sequences.
pub open spec fn rows_view<T>(rows: Seq<Vec<T>>) -> Seq<Seq<T>> {
    rows.map_values(|r: Vec<T>| r@)
}

/// Lays `items` out in rows of three.
pub fn rows_of_three<T>(items: Vec<T>) -> (r: Vec<Vec<T>>)
    ensures
        rows_view(r@) == chunks3(items@),
{
    let ghost all = items@;
    let mut items = items;
    let mut rows: Vec<Vec<T>> = Vec::new();
    assert(rows_view(rows@) =~= Seq::<Seq<T>>::empty());
    while items.len() > 0
        invariant
            rows_view(rows@) + chunks3(items@) == chunks3(all),
        decreases items@.len(),
    {
        let ghost rest = items@;
        let k: usize = if items.len() < 3 {
            items.len()
        } else {
            3
        };
        let mut row: Vec<T> = Vec::new();
        let mut j: usize = 0;
        while j < k
            invariant
                0 <= j <= k <= rest.len(),
                k == if rest.len() < 3 {
                    rest.len() as int
                } else {
                    3
                },
                row@ == rest.take(j as int),
                items@ == rest.skip(j as int),
            decreases k - j,
        {
            let x = items.remove(0);
            row.push(x);
            assert(row@ =~= rest.take(j + 1));
            assert(items@ =~= rest.skip(j + 1));
            j = j + 1;
        }
        assert(chunks3(rest) == seq![rest.take(k as int)] + chunks3(rest.skip(k as int))) by {
            if rest.len() <= 3 {
                assert(rest.take(k as int) =~= rest);
                assert(rest.skip(k as int) =~= Seq::<T>::empty());
            }
        }
        let ghost before = rows_view(rows@);
        rows.push(row);
        assert(rows_view(rows@) =~= before.push(rest.take(k as int)));
        assert(rows_view(rows@) + chunks3(items@) =~= before + chunks3(rest));
    }
    assert(chunks3(items@) =~= Seq::<Seq<T>>::empty());
    assert(rows_view(rows@) =~= rows_view(rows@) + chunks3(items@));
    rows
}

/// The vote button of an issue.
pub open spec fn vote_button(i: Issue) -> CallbackParams {
    CallbackParams::VoteForIssue(VoteForIssueParams { id: i.id_readable, has_vote: i.voters.has_vote })
}

/// The navigation row under a backlog page of `n` issues. With issues: stop, the page
/// before if there is one, and the next page. With none: stop and the page two back
/// when there is a page before, and nothing otherwise.
pub open spec fn nav_row(n: nat, p: BacklogParams) -> Seq<CallbackParams> {
    if n > 0 {
        seq![CallbackParams::BacklogStop] + match p.spec_prev() {
            Some(q) => seq![CallbackParams::BacklogPrev(q)],
            None => seq![],
        } + seq![CallbackParams::BacklogNext(p.spec_next())]
    } else {
        match p.spec_prev() {
            Some(q) => seq![CallbackParams::BacklogStop] + match q.spec_prev() {
                Some(q2) => seq![CallbackParams::BacklogPrev(q2)],
                None => seq![],
            },
            None => seq![],
        }
    }
}

/// The inline keyboard of a backlog page: the issues' vote buttons in rows of three,
/// then a row with stop and the pages around this one. An empty page offers the way
/// back past the last page that had issues.
pub fn backlog_keyboard(issues: &Vec<Issue>, params: &BacklogParams) -> (r: Vec<Vec<CallbackParams>>)
    requires
        params.wf(),
        params.skip + params.top <= i32::MAX,
    ensures
        rows_view(r@) == chunks3(issues@.map_values(|i: Issue| vote_button(i))).push(
            nav_row(issues@.len(), *params),
        ),
{
    let mut buttons: Vec<CallbackParams> = Vec::new();
    let mut i: usize = 0;
    while i < issues.len()
        invariant
            0 <= i <= issues@.len(),
            buttons@ == issues@.take(i as int).map_values(|i: Issue| vote_button(i)),
        decreases issues@.len() - i,
    {
        let issue = &issues[i];
        buttons.push(
            CallbackParams::VoteForIssue(
                VoteForIssueParams {
                    id: issue.id_readable.clone(),
                    has_vote: issue.voters.has_vote,
                },
            ),
        );
        assert(buttons@ =~= issues@.take(i + 1).map_values(|i: Issue| vote_button(i)));
        i = i + 1;
    }
    assert(issues@.take(issues@.len() as int) =~= issues@);
    let mut rows = rows_of_three(buttons);
    let mut row: Vec<CallbackParams> = Vec::new();
    row.push(CallbackParams::BacklogStop);
    let prev = params.prev();
    match prev {
        Some(q) => row.push(CallbackParams::BacklogPrev(q)),
        None => {},
    }
    if issues.len() > 0 {
        row.push(CallbackParams::BacklogNext(params.next()));
    } else {
        row.pop();
        match prev {
            Some(q) => match q.prev() {
                Some(q2) => row.push(CallbackParams::BacklogPrev(q2)),
                None => {},
            },
            None => {},
        }
    }
    assert(row@ =~= nav_row(issues@.len(), *params));
    let ghost before = rows_view(rows@);
    rows.push(row);
    assert(rows_view(rows@) =~= before.push(nav_row(issues@.len(), *params)));
    rows
}

/// The glowing star shown beside issues the user has voted for.
pub open spec fn star() -> char {
    '\u{1F31F}'
}

/// The text on the button of an inline action.
pub open spec fn label_text(p: CallbackParams) -> Seq<char> {
    match p {
        CallbackParams::BacklogStop => seq!['s', 't', 'o', 'p'],
        CallbackParams::BacklogNext(_) => seq!['n', 'e', 'x', 't'],
        CallbackParams::BacklogPrev(_) => seq!['p', 'r', 'e', 'v'],
        CallbackParams::VoteForIssue(v) => if v.has_vote {
            seq![star(), ' '] + v.id@
        } else {
            v.id@
        },
    }
}

pub fn button_label(p: &CallbackParams) -> (r: String)
    ensures
        r@ == label_text(*p),
{
    let mut cs: Vec<char> = Vec::new();
    match p {
        CallbackParams::BacklogStop => {
            cs.push('s');
            cs.push('t');
            cs.push('o');
            cs.push('p');
        },
        CallbackParams::BacklogNext(_) => {
            cs.push('n');
            cs.push('e');
            cs.push('x');
            cs.push('t');
        },
        CallbackParams::BacklogPrev(_) => {
            cs.push('p');
            cs.push('r');
            cs.push('e');
            cs.push('v');
        },
        CallbackParams::VoteForIssue(v) => {
            if v.has_vote {
                cs.push('\u{1F31F}');
                cs.push(' ');
            }
            let id = chars_of(v.id.as_str());
            let ghost start = cs@;
            let mut i: usize = 0;
            while i < id.len()
                invariant
                    0 <= i <= id@.len(),
                    cs@ == start + id@.take(i as int),
                decreases id@.len() - i,
            {
                cs.push(id[i]);
                assert(cs@ =~= start + id@.take(i + 1));
                i = i + 1;
            }
            assert(id@.take(id@.len() as int) =~= id@);
        },
    }
    assert(cs@ =~= label_text(*p));
    string_from_chars(&cs)
}

/// A button of an inline keyboard: its text and its token. Fails when the token
/// would exceed `TOKEN_LIMIT` bytes.
pub fn callback_button(p: &CallbackParams) -> (r: Result<(String, String), EncodeError>)
    ensures
        match r {
            Ok((label, token)) => label@ == label_text(*p) && token@ == token_text(*p) && byte_len(
                token_text(*p),
            ) <= TOKEN_LIMIT,
            Err(e) => e == EncodeError::SizeExceeded && byte_len(token_text(*p)) > TOKEN_LIMIT,
        },
        !(*p is VoteForIssue) ==> r is Ok,
{
    match encode_token(p) {
        Ok(token) => Ok((button_label(p), token)),
        Err(e) => Err(e),
    }
}

/// Whether markdown gives `c` a meaning, so that it is escaped in shown text.
pub open spec fn is_markdown_special(c: char) -> bool {
    c == '_' || c == '*' || c == '`' || c == '['
}

/// `s` with a backslash before each character that markdown would interpret.
pub open spec fn markdown_escaped(s: Seq<char>) -> Seq<char>
    decreases s.len(),
{
    if s.len() == 0 {
        seq![]
    } else if is_markdown_special(s.last()) {
        markdown_escaped(s.drop_last()) + seq!['\\', s.last()]
    } else {
        markdown_escaped(s.drop_last()).push(s.last())
    }
}

pub fn markdown_escape(s: &str) -> (r: String)
    ensures
        r@ == markdown_escaped(s@),
{
    let cs = chars_of(s);
    let mut out: Vec<char> = Vec::new();
    let mut i: usize = 0;
    while i < cs.len()
        invariant
            0 <= i <= cs@.len(),
            out@ == markdown_escaped(cs@.take(i as int)),
        decreases cs@.len() - i,
    {
        let c = cs[i];
        assert(cs@.take(i + 1).drop_last() =~= cs@.take(i as int));
        if c == '_' || c == '*' || c == '`' || c == '[' {
            out.push('\\');
            out.push(c);
        } else {
            out.push(c);
        }
        assert(out@ =~= markdown_escaped(cs@.take(i + 1)));
        i = i + 1;
    }
    assert(cs@.take(cs@.len() as int) =~= cs@);
    string_from_chars(&out)
}

} // verus!

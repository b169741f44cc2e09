//! Correlation tokens: the text that an inline action carries and hands back.
//!
//! Two strategies are offered. A self-describing token spells the payload out as a
//! small JSON object tagged by `_t` (`{"_t":"bs"}`, `{"_t":"bn","t":5,"s":10}`,
//! `{"_t":"vi","i":"TP-1","v":true}`) and needs no shared state. An opaque handle is
//! the decimal text of an id under which a bounded store keeps the payload until it
//! is read back once.
use vstd::prelude::*;

use crate::commands::{CallbackParams, VoteForIssueParams};
use crate::decimal::{int_dec, lemma_int_dec_i32, lemma_parse_int_dec, parse_int, parse_i32_at, push_int};
use crate::decimal::chars_match;
use crate::jsonstr::{escaped, json_string, lemma_unescape_escaped, push_escaped, unescape_at};
use crate::params::BacklogParams;
use crate::text::{chars_of, string_from_chars};
use vstd::utf8::encode_utf8;

verus! {

/// The most bytes a token may take: the front end's limit on callback data.
pub const TOKEN_LIMIT: usize = 64;

#[derive(Clone, Copy, Debug, PartialEq, Eq, Structural)]
pub enum EncodeError {
    /// The token would not fit in `TOKEN_LIMIT` bytes.
    SizeExceeded,
}

#[derive(Clone, Copy, Debug, PartialEq, Eq, Structural)]
pub enum DecodeError {
    /// The handle is well formed but its payload is gone: read already, or evicted.
    NotFound,
    /// The text is not a token.
    Malformed,
    /// The text is framed as a token but names a kind of action that is not known.
    Unrecognized,
}

/// `{"_t":"ab"`: the opening of a token with the two-letter tag `ab`.
pub open spec fn tag_text(a: char, b: char) -> Seq<char> {
    seq!['{', '"', '_', 't', '"', ':', '"', a, b, '"']
}

/// `,"k":`: the start of the member named `k`.
pub open spec fn key_text(k: char) -> Seq<char> {
    seq![',', '"', k, '"', ':']
}

pub open spec fn bool_text(b: bool) -> Seq<char> {
    if b {
        seq!['t', 'r', 'u', 'e']
    } else {
        seq!['f', 'a', 'l', 's', 'e']
    }
}

pub open spec fn page_text(kind: char, p: BacklogParams) -> Seq<char> {
    tag_text('b', kind) + key_text('t') + int_dec(p.top as int) + key_text('s') + int_dec(
        p.skip as int,
    ) + seq!['}']
}

pub open spec fn vote_text(id: Seq<char>, has_vote: bool) -> Seq<char> {
    tag_text('v', 'i') + key_text('i') + json_string(id) + key_text('v') + bool_text(has_vote)
        + seq!['}']
}

/// The self-describing token of a payload.
pub open spec fn token_text(p: CallbackParams) -> Seq<char> {
    match p {
        CallbackParams::BacklogStop => tag_text('b', 's') + seq!['}'],
        CallbackParams::BacklogNext(b) => page_text('n', b),
        CallbackParams::BacklogPrev(b) => page_text('p', b),
        CallbackParams::VoteForIssue(v) => vote_text(v.id@, v.has_vote),
    }
}

/// Whether `s` is the token of some payload.
pub open spec fn is_token(s: Seq<char>) -> bool {
    exists|p: CallbackParams| token_text(p) == s
}

pub open spec fn is_tag_char(c: char) -> bool {
    'a' <= c <= 'z'
}

/// Whether `s` has the frame of a token: an object whose first member `_t` holds a
/// two-letter tag.
pub open spec fn is_framed(s: Seq<char>) -> bool {
    &&& s.len() >= 11
    &&& s.take(7) == seq!['{', '"', '_', 't', '"', ':', '"']
    &&& is_tag_char(s[7])
    &&& is_tag_char(s[8])
    &&& s[9] == '"'
    &&& (s[10] == '}' || s[10] == ',')
    &&& s.last() == '}'
}

/// Whether the tag of a framed text names a known kind of action.
pub open spec fn is_known_tag(s: Seq<char>) -> bool {
    (s[7] == 'b' && (s[8] == 's' || s[8] == 'n' || s[8] == 'p')) || (s[7] == 'v' && s[8] == 'i')
}

/// The size of a text in bytes.
pub open spec fn byte_len(s: Seq<char>) -> nat {
    encode_utf8(s).len()
}

/// A text takes at least one and at most four bytes per character.
proof fn lemma_byte_len_bounds(s: Seq<char>)
    ensures
        s.len() <= byte_len(s) <= 4 * s.len(),
    decreases s.len(),
{
    if s.len() > 0 {
        lemma_byte_len_bounds(s.drop_first());
        assert(encode_utf8(s) == vstd::utf8::encode_scalar(s[0] as u32) + encode_utf8(
            s.drop_first(),
        ));
    }
}

/// A text of ASCII characters takes one byte per character.
proof fn lemma_ascii_byte_len(s: Seq<char>)
    requires
        forall|i: int| 0 <= i < s.len() ==> ((#[trigger] s[i]) as u32) < 128,
    ensures
        byte_len(s) == s.len(),
    decreases s.len(),
{
    if s.len() > 0 {
        assert forall|i: int| 0 <= i < s.drop_first().len() implies ((
        #[trigger] s.drop_first()[i]) as u32) < 128 by {
            assert(s.drop_first()[i] == s[i + 1]);
        }
        lemma_ascii_byte_len(s.drop_first());
        assert(encode_utf8(s) == vstd::utf8::encode_scalar(s[0] as u32) + encode_utf8(
            s.drop_first(),
        ));
    }
}

proof fn lemma_page_fits(kind: char, b: BacklogParams)
    requires
        kind == 'n' || kind == 'p',
    ensures
        byte_len(page_text(kind, b)) <= 43,
{
    let s = page_text(kind, b);
    let top = int_dec(b.top as int);
    let skip = int_dec(b.skip as int);
    lemma_int_dec_i32(b.top as int);
    lemma_int_dec_i32(b.skip as int);
    let n1 = 15 + top.len();
    assert forall|i: int| 0 <= i < s.len() implies ((#[trigger] s[i]) as u32) < 128 by {
        if 15 <= i < n1 {
            assert(s[i] == top[i - 15]);
        } else if n1 + 5 <= i < n1 + 5 + skip.len() {
            assert(s[i] == skip[i - n1 - 5]);
        }
    }
    lemma_ascii_byte_len(s);
}

/// Tokens of pages and of the stop action always fit: only an issue id can make a
/// token too large.
pub proof fn lemma_navigation_tokens_fit(p: CallbackParams)
    requires
        !(p is VoteForIssue),
    ensures
        byte_len(token_text(p)) <= 44,
{
    match p {
        CallbackParams::BacklogNext(b) => lemma_page_fits('n', b),
        CallbackParams::BacklogPrev(b) => lemma_page_fits('p', b),
        _ => {
            lemma_byte_len_bounds(token_text(p));
        },
    }
}

fn push_tag(out: &mut Vec<char>, a: char, b: char)
    ensures
        final(out)@ == old(out)@ + tag_text(a, b),
{
    out.push('{');
    out.push('"');
    out.push('_');
    out.push('t');
    out.push('"');
    out.push(':');
    out.push('"');
    out.push(a);
    out.push(b);
    out.push('"');
    assert(final(out)@ =~= old(out)@ + tag_text(a, b));
}

fn push_key(out: &mut Vec<char>, k: char)
    ensures
        final(out)@ == old(out)@ + key_text(k),
{
    out.push(',');
    out.push('"');
    out.push(k);
    out.push('"');
    out.push(':');
    assert(final(out)@ =~= old(out)@ + key_text(k));
}

fn push_page(out: &mut Vec<char>, kind: char, b: &BacklogParams)
    ensures
        final(out)@ == old(out)@ + page_text(kind, *b),
{
    push_tag(out, 'b', kind);
    push_key(out, 't');
    push_int(out, b.top as i64);
    push_key(out, 's');
    push_int(out, b.skip as i64);
    out.push('}');
    assert(final(out)@ =~= old(out)@ + page_text(kind, *b));
}

fn push_vote(out: &mut Vec<char>, id: &Vec<char>, has_vote: bool)
    ensures
        final(out)@ == old(out)@ + vote_text(id@, has_vote),
{
    push_tag(out, 'v', 'i');
    push_key(out, 'i');
    out.push('"');
    push_escaped(out, id);
    out.push('"');
    push_key(out, 'v');
    if has_vote {
        out.push('t');
        out.push('r');
        out.push('u');
        out.push('e');
    } else {
        out.push('f');
        out.push('a');
        out.push('l');
        out.push('s');
        out.push('e');
    }
    out.push('}');
    assert(final(out)@ =~= old(out)@ + vote_text(id@, has_vote));
}

/// The characters of the self-describing token of `p`.
fn token_chars(p: &CallbackParams) -> (r: Vec<char>)
    ensures
        r@ == token_text(*p),
{
    let mut cs: Vec<char> = Vec::new();
    match p {
        CallbackParams::BacklogStop => {
            push_tag(&mut cs, 'b', 's');
            cs.push('}');
        },
        CallbackParams::BacklogNext(b) => push_page(&mut cs, 'n', b),
        CallbackParams::BacklogPrev(b) => push_page(&mut cs, 'p', b),
        CallbackParams::VoteForIssue(v) => {
            let id = chars_of(v.id.as_str());
            push_vote(&mut cs, &id, v.has_vote);
        },
    }
    assert(cs@ =~= token_text(*p));
    cs
}

/// Writes the self-describing token of `p`; fails when it would exceed `TOKEN_LIMIT` bytes.
pub fn encode_token(p: &CallbackParams) -> (r: Result<String, EncodeError>)
    ensures
        match r {
            Ok(t) => t@ == token_text(*p) && byte_len(token_text(*p)) <= TOKEN_LIMIT,
            Err(e) => e == EncodeError::SizeExceeded && byte_len(token_text(*p)) > TOKEN_LIMIT,
        },
        !(*p is VoteForIssue) ==> r is Ok,
{
    proof {
        if !(*p is VoteForIssue) {
            lemma_navigation_tokens_fit(*p);
        }
    }
    let cs = token_chars(p);
    proof {
        lemma_byte_len_bounds(cs@);
    }
    if cs.len() > TOKEN_LIMIT {
        return Err(EncodeError::SizeExceeded);
    }
    let t = string_from_chars(&cs);
    if t.as_str().len() > TOKEN_LIMIT {
        Err(EncodeError::SizeExceeded)
    } else {
        Ok(t)
    }
}

/// Index of the first `,` in `s[from..]`, if any.
fn find_comma(s: &Vec<char>, from: usize) -> (r: Option<usize>)
    requires
        from <= s@.len(),
    ensures
        match r {
            Some(k) => from <= k < s@.len() && s@[k as int] == ',' && forall|j: int|
                from <= j < k ==> s@[j] != ',',
            None => forall|j: int| from <= j < s@.len() ==> s@[j] != ',',
        },
{
    let mut k: usize = from;
    while k < s.len()
        invariant
            from <= k <= s@.len(),
            forall|j: int| from <= j < k ==> s@[j] != ',',
        decreases s@.len() - k,
    {
        if s[k] == ',' {
            return Some(k);
        }
        k = k + 1;
    }
    None
}

/// Where the two numbers of a page token lie.
proof fn lemma_page_split(kind: char, b: BacklogParams)
    ensures
        ({
            let s = page_text(kind, b);
            let k: int = 15 + int_dec(b.top as int).len() as int;
            &&& k + 6 <= s.len()
            &&& s[k] == ','
            &&& forall|j: int| 15 <= j < k ==> s[j] != ','
            &&& s.subrange(15, k) == int_dec(b.top as int)
            &&& s.subrange(k + 5, s.len() - 1) == int_dec(b.skip as int)
            &&& parse_int(s.subrange(15, k)) == Some(b.top as int)
            &&& parse_int(s.subrange(k + 5, s.len() - 1)) == Some(b.skip as int)
        }),
{
    let s = page_text(kind, b);
    let t = int_dec(b.top as int);
    let k: int = 15 + t.len() as int;
    lemma_parse_int_dec(b.top as int);
    assert forall|j: int| 15 <= j < k implies s[j] != ',' by {
        assert(s[j] == t[j - 15]);
    }
    assert(s.subrange(15, k) =~= t);
    assert(s.subrange(k + 5, s.len() - 1) =~= int_dec(b.skip as int));
    lemma_parse_int_dec(b.skip as int);
}

/// Reads the page of a `bn`/`bp` token.
#[verifier::rlimit(40)]
fn decode_page(s: &Vec<char>, kind: char) -> (r: Option<BacklogParams>)
    ensures
        match r {
            Some(b) => page_text(kind, b) == s@,
            None => forall|b: BacklogParams| page_text(kind, b) != s@,
        },
{
    let n = s.len();
    if n < 16 {
        proof {
            assert forall|b: BacklogParams| page_text(kind, b) != s@ by {
                lemma_page_split(kind, b);
            }
        }
        return None;
    }
    let found = find_comma(s, 15);
    let (top, skip) = match found {
        Some(k) => {
            if n - k >= 6 {
                (parse_i32_at(s, 15, k), parse_i32_at(s, k + 5, n - 1))
            } else {
                (None, None)
            }
        },
        None => (None, None),
    };
    match (top, skip) {
        (Some(t), Some(sk)) => {
            let b = BacklogParams { top: t, skip: sk };
            let mut built: Vec<char> = Vec::new();
            push_page(&mut built, kind, &b);
            assert(built@ =~= page_text(kind, b));
            assert(s@.subrange(0, n as int) =~= s@);
            if chars_match(s, 0, n, &built) {
                return Some(b);
            }
        },
        _ => {},
    }
    proof {
        assert forall|b: BacklogParams| page_text(kind, b) != s@ by {
            if page_text(kind, b) == s@ {
                lemma_page_split(kind, b);
                let k: int = 15 + int_dec(b.top as int).len() as int;
                assert(found == Some(k as usize));
            }
        }
    }
    None
}

/// Where the parts of a vote token lie.
proof fn lemma_vote_split(id: Seq<char>, has_vote: bool)
    ensures
        ({
            let s = vote_text(id, has_vote);
            let end: int = s.len() - if has_vote { 10int } else { 11int };
            &&& end == 15 + json_string(id).len()
            &&& end >= 17
            &&& s.subrange(16, end - 1) == escaped(id)
            &&& s.subrange(end, s.len() as int) == key_text('v') + bool_text(has_vote) + seq!['}']
            &&& has_vote ==> s[s.len() - 10] == ','
            &&& !has_vote ==> s[s.len() - 10] == '"'
        }),
{
    let s = vote_text(id, has_vote);
    let j = json_string(id);
    let end: int = 15 + j.len() as int;
    assert(s.subrange(16, end - 1) =~= escaped(id));
    assert(s.subrange(end, s.len() as int) =~= key_text('v') + bool_text(has_vote) + seq!['}']);
}

/// The characters of `,"v":true}` or `,"v":false}`.
fn vote_tail(has_vote: bool) -> (r: Vec<char>)
    ensures
        r@ == key_text('v') + bool_text(has_vote) + seq!['}'],
{
    let mut out: Vec<char> = Vec::new();
    push_key(&mut out, 'v');
    if has_vote {
        out.push('t');
        out.push('r');
        out.push('u');
        out.push('e');
    } else {
        out.push('f');
        out.push('a');
        out.push('l');
        out.push('s');
        out.push('e');
    }
    out.push('}');
    assert(out@ =~= key_text('v') + bool_text(has_vote) + seq!['}']);
    out
}

/// Reads the issue id and vote of a `vi` token.
fn decode_vote(s: &Vec<char>) -> (r: Option<(Vec<char>, bool)>)
    ensures
        match r {
            Some((id, v)) => vote_text(id@, v) == s@,
            None => forall|id: Seq<char>, v: bool| vote_text(id, v) != s@,
        },
{
    let n = s.len();
    let yes = vote_tail(true);
    let no = vote_tail(false);
    let has_vote = n >= 10 && chars_match(s, n - 10, n, &yes);
    let tail: usize = if has_vote {
        10
    } else {
        11
    };
    if n >= 17 + tail && (has_vote || chars_match(s, n - 11, n, &no)) {
        let end = n - tail;
        match unescape_at(s, 16, end - 1) {
            Some(id) => {
                let mut built: Vec<char> = Vec::new();
                push_vote(&mut built, &id, has_vote);
                assert(s@.subrange(0, n as int) =~= s@);
                if chars_match(s, 0, n, &built) {
                    return Some((id, has_vote));
                }
            },
            None => {},
        }
    }
    proof {
        assert forall|id: Seq<char>, v: bool| vote_text(id, v) != s@ by {
            if vote_text(id, v) == s@ {
                lemma_vote_split(id, v);
                lemma_unescape_escaped(id);
                assert(s@.subrange(0, n as int) =~= s@);
                if v {
                    assert(s@.subrange(n - 10, n as int) == yes@);
                } else {
                    assert(s@.subrange(n - 10, n as int)[0] != yes@[0]);
                    assert(s@.subrange(n - 11, n as int) == no@);
                }
            }
        }
    }
    None
}

/// Reads a self-describing token back into its payload.
pub fn decode_token(token: &str) -> (r: Result<CallbackParams, DecodeError>)
    ensures
        r is Ok <==> is_token(token@),
        r matches Ok(p) ==> token_text(p) == token@,
        r == Err::<CallbackParams, DecodeError>(DecodeError::Unrecognized) <==> (is_framed(token@)
            && !is_known_tag(token@)),
        r == Err::<CallbackParams, DecodeError>(DecodeError::Malformed) <==> (!is_token(token@)
            && !(is_framed(token@) && !is_known_tag(token@))),
{
    let s = chars_of(token);
    let n = s.len();
    let ghost t = token@;
    let framed = n >= 11 && s[0] == '{' && s[1] == '"' && s[2] == '_' && s[3] == 't' && s[4] == '"'
        && s[5] == ':' && s[6] == '"' && 'a' <= s[7] && s[7] <= 'z' && 'a' <= s[8] && s[8] <= 'z'
        && s[9] == '"' && (s[10] == '}' || s[10] == ',') && s[n - 1] == '}';
    proof {
        if n >= 11 {
            assert(is_framed(t) == framed) by {
                if framed {
                    assert(t.take(7) =~= seq!['{', '"', '_', 't', '"', ':', '"']);
                } else if t.take(7) == seq!['{', '"', '_', 't', '"', ':', '"'] {
                    assert(t[0] == t.take(7)[0] && t[1] == t.take(7)[1] && t[2] == t.take(7)[2]
                        && t[3] == t.take(7)[3] && t[4] == t.take(7)[4] && t[5] == t.take(7)[5]
                        && t[6] == t.take(7)[6]);
                }
            }
        }
    }
    if !framed {
        proof {
            assert forall|p: CallbackParams| token_text(p) != t by {
                lemma_token_framed(p);
            }
        }
        return Err(DecodeError::Malformed);
    }
    if s[7] == 'b' && s[8] == 's' {
        if n == 11 {
            assert(t[0] == t.take(7)[0] && t[1] == t.take(7)[1] && t[2] == t.take(7)[2]
                && t[3] == t.take(7)[3] && t[4] == t.take(7)[4] && t[5] == t.take(7)[5]
                && t[6] == t.take(7)[6]);
            assert(token_text(CallbackParams::BacklogStop) =~= t);
            return Ok(CallbackParams::BacklogStop);
        }
        proof {
            assert forall|p: CallbackParams| token_text(p) != t by {
                lemma_token_framed(p);
            }
        }
        return Err(DecodeError::Malformed);
    }
    if s[7] == 'b' && (s[8] == 'n' || s[8] == 'p') {
        let kind = s[8];
        match decode_page(&s, kind) {
            Some(b) => {
                if kind == 'n' {
                    assert(token_text(CallbackParams::BacklogNext(b)) == t);
                    return Ok(CallbackParams::BacklogNext(b));
                } else {
                    assert(token_text(CallbackParams::BacklogPrev(b)) == t);
                    return Ok(CallbackParams::BacklogPrev(b));
                }
            },
            None => {
                proof {
                    assert forall|p: CallbackParams| token_text(p) != t by {
                        lemma_token_framed(p);
                    }
                }
                return Err(DecodeError::Malformed);
            },
        }
    }
    if s[7] == 'v' && s[8] == 'i' {
        match decode_vote(&s) {
            Some((id, has_vote)) => {
                let v = VoteForIssueParams { id: string_from_chars(&id), has_vote };
                assert(token_text(CallbackParams::VoteForIssue(v)) == t);
                return Ok(CallbackParams::VoteForIssue(v));
            },
            None => {
                proof {
                    assert forall|p: CallbackParams| token_text(p) != t by {
                        lemma_token_framed(p);
                        if let CallbackParams::VoteForIssue(v) = p {
                            assert(vote_text(v.id@, v.has_vote) != t);
                        }
                    }
                }
                return Err(DecodeError::Malformed);
            },
        }
    }
    proof {
        assert forall|p: CallbackParams| token_text(p) != t by {
            lemma_token_framed(p);
        }
    }
    Err(DecodeError::Unrecognized)
}

/// Every token is framed, with a known tag that names its kind.
proof fn lemma_token_framed(p: CallbackParams)
    ensures
        is_framed(token_text(p)),
        is_known_tag(token_text(p)),
        p is BacklogStop <==> (token_text(p)[7] == 'b' && token_text(p)[8] == 's'),
        p is BacklogStop ==> token_text(p).len() == 11,
        p is BacklogNext <==> (token_text(p)[7] == 'b' && token_text(p)[8] == 'n'),
        p is BacklogPrev <==> (token_text(p)[7] == 'b' && token_text(p)[8] == 'p'),
        p is VoteForIssue <==> (token_text(p)[7] == 'v' && token_text(p)[8] == 'i'),
{
    let s = token_text(p);
    assert(s.take(7) =~= seq!['{', '"', '_', 't', '"', ':', '"']);
}

/// Whether two payloads carry the same values: same kind, same page, same issue id text
/// and vote.
pub open spec fn same_payload(p: CallbackParams, q: CallbackParams) -> bool {
    match (p, q) {
        (CallbackParams::BacklogStop, CallbackParams::BacklogStop) => true,
        (CallbackParams::BacklogNext(a), CallbackParams::BacklogNext(b)) => a == b,
        (CallbackParams::BacklogPrev(a), CallbackParams::BacklogPrev(b)) => a == b,
        (CallbackParams::VoteForIssue(a), CallbackParams::VoteForIssue(b)) => a.id@ == b.id@
            && a.has_vote == b.has_vote,
        _ => false,
    }
}

proof fn lemma_page_text_injective(kind: char, a: BacklogParams, b: BacklogParams)
    requires
        page_text(kind, a) == page_text(kind, b),
    ensures
        a == b,
{
    let s = page_text(kind, a);
    lemma_page_split(kind, a);
    lemma_page_split(kind, b);
    let ka: int = 15 + int_dec(a.top as int).len() as int;
    let kb: int = 15 + int_dec(b.top as int).len() as int;
    if ka < kb {
        assert(s[ka] == ',');
    } else if kb < ka {
        assert(s[kb] == ',');
    }
    lemma_parse_int_dec(a.top as int);
    lemma_parse_int_dec(b.top as int);
    lemma_parse_int_dec(a.skip as int);
    lemma_parse_int_dec(b.skip as int);
}

proof fn lemma_vote_text_injective(a: Seq<char>, va: bool, b: Seq<char>, vb: bool)
    requires
        vote_text(a, va) == vote_text(b, vb),
    ensures
        a == b,
        va == vb,
{
    let s = vote_text(a, va);
    lemma_vote_split(a, va);
    lemma_vote_split(b, vb);
    lemma_unescape_escaped(a);
    lemma_unescape_escaped(b);
}

/// A token is read back as the payload it was written from: every payload has a
/// token, and payloads with the same token carry the same values.
pub proof fn lemma_token_round_trip(p: CallbackParams, q: CallbackParams)
    ensures
        is_token(token_text(p)),
        token_text(q) == token_text(p) ==> same_payload(p, q),
{
    if token_text(q) == token_text(p) {
        lemma_token_framed(p);
        lemma_token_framed(q);
        match (p, q) {
            (CallbackParams::BacklogNext(a), CallbackParams::BacklogNext(b)) => {
                lemma_page_text_injective('n', a, b);
            },
            (CallbackParams::BacklogPrev(a), CallbackParams::BacklogPrev(b)) => {
                lemma_page_text_injective('p', a, b);
            },
            (CallbackParams::VoteForIssue(a), CallbackParams::VoteForIssue(b)) => {
                lemma_vote_text_injective(a.id@, a.has_vote, b.id@, b.has_vote);
            },
            _ => {},
        }
    }
}

} // verus!

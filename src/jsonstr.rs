//! JSON string literals: writing a text the way serde_json does, and reading it back.
use vstd::prelude::*;

use crate::decimal::digit_char;

verus! {

/// A lower-case hexadecimal digit (`0 <= d < 16`).
pub open spec fn hex_lower(d: int) -> char {
    if d < 10 {
        digit_char(d)
    } else if d == 10 {
        'a'
    } else if d == 11 {
        'b'
    } else if d == 12 {
        'c'
    } else if d == 13 {
        'd'
    } else if d == 14 {
        'e'
    } else {
        'f'
    }
}

/// The value of a lower-case hexadecimal digit.
pub open spec fn hex_value(c: char) -> Option<int> {
    if '0' <= c <= '9' {
        Some(c as int - '0' as int)
    } else if 'a' <= c <= 'f' {
        Some(c as int - 'a' as int + 10)
    } else {
        None
    }
}

/// The character of a code below 256.
pub open spec fn char_of_code(v: int) -> char {
    (v as u8) as char
}

/// The character that a one-letter escape stands for.
pub open spec fn short_escape(c: char) -> Option<char> {
    if c == '"' {
        Some('"')
    } else if c == '\\' {
        Some('\\')
    } else if c == 'b' {
        Some('\u{8}')
    } else if c == 'f' {
        Some('\u{c}')
    } else if c == 'n' {
        Some('\n')
    } else if c == 'r' {
        Some('\r')
    } else if c == 't' {
        Some('\t')
    } else {
        None
    }
}

/// How one character is written inside a JSON string literal.
pub open spec fn escape_char(c: char) -> Seq<char> {
    if c == '"' {
        seq!['\\', '"']
    } else if c == '\\' {
        seq!['\\', '\\']
    } else if c == '\u{8}' {
        seq!['\\', 'b']
    } else if c == '\u{c}' {
        seq!['\\', 'f']
    } else if c == '\n' {
        seq!['\\', 'n']
    } else if c == '\r' {
        seq!['\\', 'r']
    } else if c == '\t' {
        seq!['\\', 't']
    } else if (c as u32) < 32 {
        seq!['\\', 'u', '0', '0', hex_lower((c as u32 / 16) as int), hex_lower((c as u32 % 16) as int)]
    } else {
        seq![c]
    }
}

/// The body of the JSON string literal of `s`.
pub open spec fn escaped(s: Seq<char>) -> Seq<char>
    decreases s.len(),
{
    if s.len() == 0 {
        seq![]
    } else {
        escaped(s.drop_last()) + escape_char(s.last())
    }
}

/// The JSON string literal of `s`, quotes included.
pub open spec fn json_string(s: Seq<char>) -> Seq<char> {
    seq!['"'] + escaped(s) + seq!['"']
}

pub open spec fn prepend(c: char, o: Option<Seq<char>>) -> Option<Seq<char>> {
    match o {
        Some(r) => Some(seq![c] + r),
        None => None,
    }
}

/// The text whose string-literal body is `t`, if `t` is one.
pub open spec fn unescaped(t: Seq<char>) -> Option<Seq<char>>
    decreases t.len(),
{
    if t.len() == 0 {
        Some(seq![])
    } else if t[0] == '\\' {
        if t.len() >= 2 && short_escape(t[1]) is Some {
            prepend(short_escape(t[1])->0, unescaped(t.skip(2)))
        } else if t.len() >= 6 && t[1] == 'u' && t[2] == '0' && t[3] == '0' && hex_value(t[4]) is Some
            && hex_value(t[5]) is Some {
            prepend(
                char_of_code(16 * hex_value(t[4])->0 + hex_value(t[5])->0),
                unescaped(t.skip(6)),
            )
        } else {
            None
        }
    } else if t[0] == '"' {
        None
    } else {
        prepend(t[0], unescaped(t.drop_first()))
    }
}

proof fn lemma_escaped_concat(a: Seq<char>, b: Seq<char>)
    ensures
        escaped(a + b) == escaped(a) + escaped(b),
    decreases b.len(),
{
    if b.len() == 0 {
        assert(a + b =~= a);
        assert(escaped(a) + escaped(b) =~= escaped(a));
    } else {
        lemma_escaped_concat(a, b.drop_last());
        assert((a + b).drop_last() =~= a + b.drop_last());
        assert((a + b).last() == b.last());
        assert(escaped(a) + escaped(b) =~= escaped(a) + escaped(b.drop_last()) + escape_char(
            b.last(),
        ));
    }
}

proof fn lemma_hex(d: int)
    requires
        0 <= d < 16,
    ensures
        hex_value(hex_lower(d)) == Some(d),
{
}

proof fn lemma_unescape_char(c: char, rest: Seq<char>)
    ensures
        unescaped(escape_char(c) + rest) == prepend(c, unescaped(rest)),
{
    let t = escape_char(c) + rest;
    let e = escape_char(c);
    if (c as u32) < 32 && !(c == '\u{8}' || c == '\u{c}' || c == '\n' || c == '\r' || c == '\t') {
        let v = c as u32;
        lemma_hex((v / 16) as int);
        lemma_hex((v % 16) as int);
        assert(16 * (v / 16) + v % 16 == v);
        assert(char_of_code(v as int) == c) by {
            vstd::utf8::char_u32_cast(c, v);
        }
        assert(t.skip(6) =~= rest);
    } else if e.len() == 2 {
        assert(t.skip(2) =~= rest);
    } else {
        assert(t.drop_first() =~= rest);
    }
}

/// Reading back the body of a JSON string literal gives the text it was written from.
pub proof fn lemma_unescape_escaped(s: Seq<char>)
    ensures
        unescaped(escaped(s)) == Some(s),
    decreases s.len(),
{
    if s.len() > 0 {
        let r = s.drop_first();
        lemma_escaped_concat(seq![s[0]], r);
        assert(seq![s[0]] + r =~= s);
        assert(escaped(seq![s[0]]) =~= escape_char(s[0])) by {
            let one = seq![s[0]];
            assert(one.drop_last() =~= Seq::<char>::empty());
            assert(one.last() == s[0]);
            assert(escaped(one) == escaped(one.drop_last()) + escape_char(one.last()));
            assert(escaped(one.drop_last()) =~= Seq::<char>::empty());
        }
        lemma_unescape_char(s[0], escaped(r));
        lemma_unescape_escaped(r);
        assert(seq![s[0]] + r =~= s);
    }
}

/// Appends the string-literal body of `s` to `out`.
pub fn push_escaped(out: &mut Vec<char>, s: &Vec<char>)
    ensures
        final(out)@ == old(out)@ + escaped(s@),
{
    let ghost start = out@;
    let mut i: usize = 0;
    while i < s.len()
        invariant
            0 <= i <= s@.len(),
            out@ == start + escaped(s@.take(i as int)),
        decreases s@.len() - i,
    {
        let c = s[i];
        let ghost before = out@;
        if c == '"' {
            out.push('\\');
            out.push('"');
        } else if c == '\\' {
            out.push('\\');
            out.push('\\');
        } else if c == '\u{8}' {
            out.push('\\');
            out.push('b');
        } else if c == '\u{c}' {
            out.push('\\');
            out.push('f');
        } else if c == '\n' {
            out.push('\\');
            out.push('n');
        } else if c == '\r' {
            out.push('\\');
            out.push('r');
        } else if c == '\t' {
            out.push('\\');
            out.push('t');
        } else if (c as u32) < 32 {
            let v = c as u32;
            out.push('\\');
            out.push('u');
            out.push('0');
            out.push('0');
            out.push(hex_digit(v / 16));
            out.push(hex_digit(v % 16));
            assert(v == c as u32);
        } else {
            out.push(c);
        }
        assert(out@ =~= before + escape_char(c));
        assert(s@.take(i + 1).drop_last() =~= s@.take(i as int));
        assert(out@ =~= start + escaped(s@.take(i + 1)));
        i = i + 1;
    }
    assert(s@.take(s@.len() as int) =~= s@);
}

fn hex_digit(d: u32) -> (r: char)
    requires
        d < 16,
    ensures
        r == hex_lower(d as int),
{
    if d == 0 {
        '0'
    } else if d == 1 {
        '1'
    } else if d == 2 {
        '2'
    } else if d == 3 {
        '3'
    } else if d == 4 {
        '4'
    } else if d == 5 {
        '5'
    } else if d == 6 {
        '6'
    } else if d == 7 {
        '7'
    } else if d == 8 {
        '8'
    } else if d == 9 {
        '9'
    } else if d == 10 {
        'a'
    } else if d == 11 {
        'b'
    } else if d == 12 {
        'c'
    } else if d == 13 {
        'd'
    } else if d == 14 {
        'e'
    } else {
        'f'
    }
}

fn hex_value_of(c: char) -> (r: Option<u32>)
    ensures
        match hex_value(c) {
            Some(v) => r == Some(v as u32),
            None => r is None,
        },
{
    if '0' <= c && c <= '9' {
        Some(c as u32 - '0' as u32)
    } else if 'a' <= c && c <= 'f' {
        Some(c as u32 - 'a' as u32 + 10)
    } else {
        None
    }
}

pub open spec fn prepend_all(a: Seq<char>, o: Option<Seq<char>>) -> Option<Seq<char>> {
    match o {
        Some(r) => Some(a + r),
        None => None,
    }
}

/// Reads `s[lo..hi]` as the body of a JSON string literal.
pub fn unescape_at(s: &Vec<char>, lo: usize, hi: usize) -> (r: Option<Vec<char>>)
    requires
        lo <= hi <= s@.len(),
    ensures
        match unescaped(s@.subrange(lo as int, hi as int)) {
            Some(t) => r is Some && r->0@ == t,
            None => r is None,
        },
{
    let ghost seg = s@.subrange(lo as int, hi as int);
    let mut out: Vec<char> = Vec::new();
    let mut i: usize = lo;
    assert(out@ + Seq::<char>::empty() =~= Seq::<char>::empty());
    assert(prepend_all(out@, unescaped(s@.subrange(i as int, hi as int))) =~= unescaped(seg)) by {
        match unescaped(seg) {
            Some(t) => {
                assert(out@ + t =~= t);
            },
            None => {},
        }
    }
    while i < hi
        invariant
            lo <= i <= hi <= s@.len(),
            seg == s@.subrange(lo as int, hi as int),
            unescaped(seg) == prepend_all(out@, unescaped(s@.subrange(i as int, hi as int))),
        decreases hi - i,
    {
        let ghost t = s@.subrange(i as int, hi as int);
        let ghost before = out@;
        let c = s[i];
        if c == '\\' {
            if i + 1 < hi {
                let e = s[i + 1];
                let short = if e == '"' {
                    Some('"')
                } else if e == '\\' {
                    Some('\\')
                } else if e == 'b' {
                    Some('\u{8}')
                } else if e == 'f' {
                    Some('\u{c}')
                } else if e == 'n' {
                    Some('\n')
                } else if e == 'r' {
                    Some('\r')
                } else if e == 't' {
                    Some('\t')
                } else {
                    None
                };
                assert(short == short_escape(t[1]));
                match short {
                    Some(x) => {
                        out.push(x);
                        assert(t.skip(2) =~= s@.subrange(i + 2, hi as int));
                        proof {
                            lemma_prepend_step(before, x, unescaped(t.skip(2)));
                        }
                        i = i + 2;
                        continue ;
                    },
                    None => {},
                }
                if hi - i > 5 && e == 'u' && s[i + 2] == '0' && s[i + 3] == '0' {
                    match (hex_value_of(s[i + 4]), hex_value_of(s[i + 5])) {
                        (Some(h), Some(l)) => {
                            let x = (16 * h + l) as u8 as char;
                            out.push(x);
                            assert(t.skip(6) =~= s@.subrange(i + 6, hi as int));
                            proof {
                                lemma_prepend_step(before, x, unescaped(t.skip(6)));
                            }
                            i = i + 6;
                            continue ;
                        },
                        _ => {},
                    }
                }
            }
            return None;
        } else if c == '"' {
            return None;
        } else {
            out.push(c);
            assert(t.drop_first() =~= s@.subrange(i + 1, hi as int));
            proof {
                lemma_prepend_step(before, c, unescaped(t.drop_first()));
            }
            i = i + 1;
        }
    }
    assert(s@.subrange(i as int, hi as int) =~= Seq::<char>::empty());
    assert(out@ + Seq::<char>::empty() =~= out@);
    Some(out)
}

proof fn lemma_prepend_step(a: Seq<char>, c: char, o: Option<Seq<char>>)
    ensures
        prepend_all(a, prepend(c, o)) == prepend_all(a.push(c), o),
{
    match o {
        Some(r) => {
            assert(a + (seq![c] + r) =~= a.push(c) + r);
        },
        None => {},
    }
}

} // verus!

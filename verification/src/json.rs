//! The JSON form of the message bodies: string escaping and quoting for the
//! encoders, and a parser for the flat objects the server sends back.

use vstd::prelude::*;

use crate::bytes::hex_digit;

verus! {

use vstd::string::StringSliceAdditionalSpecFns;

/// The escaped form of one byte inside a JSON string: quote and backslash
/// get a backslash escape, control bytes their short escape or `\u00XX`,
/// everything else stands as it is.
pub open spec fn escape_byte(b: u8) -> Seq<u8> {
    if b == 34 {
        seq![92u8, 34u8]
    } else if b == 92 {
        seq![92u8, 92u8]
    } else if b == 8 {
        seq![92u8, 98u8]
    } else if b == 12 {
        seq![92u8, 102u8]
    } else if b == 10 {
        seq![92u8, 110u8]
    } else if b == 13 {
        seq![92u8, 114u8]
    } else if b == 9 {
        seq![92u8, 116u8]
    } else if b < 32 {
        seq![92u8, 117u8, 48u8, 48u8, hex_digit(b / 16), hex_digit(b % 16)]
    } else {
        seq![b]
    }
}

/// The escaped form of a whole byte string.
pub open spec fn json_escaped(s: Seq<u8>) -> Seq<u8>
    decreases s.len(),
{
    if s.len() == 0 {
        Seq::empty()
    } else {
        escape_byte(s[0]) + json_escaped(s.drop_first())
    }
}

/// A JSON string literal: quoted, escaped bytes.
pub open spec fn json_quoted(s: Seq<u8>) -> Seq<u8> {
    seq![34u8] + json_escaped(s) + seq![34u8]
}

proof fn lemma_json_escaped_push(s: Seq<u8>, x: u8)
    ensures
        json_escaped(s.push(x)) == json_escaped(s) + escape_byte(x),
    decreases s.len(),
{
    if s.len() == 0 {
        let t = s.push(x);
        assert(t[0] == x);
        assert(t.drop_first() =~= Seq::<u8>::empty());
        assert(json_escaped(t.drop_first()) == Seq::<u8>::empty());
        assert(json_escaped(s.push(x)) =~= json_escaped(s) + escape_byte(x));
    } else {
        assert(s.push(x).drop_first() =~= s.drop_first().push(x));
        lemma_json_escaped_push(s.drop_first(), x);
        assert(json_escaped(s.push(x)) =~= json_escaped(s) + escape_byte(x));
    }
}

/// Appends the escaped form of `s`.
fn push_escaped(out: &mut Vec<u8>, s: &[u8])
    ensures
        final(out)@ == old(out)@ + json_escaped(s@),
{
    let ghost start = out@;
    let mut i: usize = 0;
    assert(s@.take(0) =~= Seq::<u8>::empty());
    while i < s.len()
        invariant
            i <= s@.len(),
            out@ == start + json_escaped(s@.take(i as int)),
        decreases s@.len() - i,
    {
        let x = s[i];
        if x == 34 {
            out.push(92);
            out.push(34);
        } else if x == 92 {
            out.push(92);
            out.push(92);
        } else if x == 8 {
            out.push(92);
            out.push(98);
        } else if x == 12 {
            out.push(92);
            out.push(102);
        } else if x == 10 {
            out.push(92);
            out.push(110);
        } else if x == 13 {
            out.push(92);
            out.push(114);
        } else if x == 9 {
            out.push(92);
            out.push(116);
        } else if x < 32 {
            out.push(92);
            out.push(117);
            out.push(48);
            out.push(48);
            out.push(if x / 16 < 10 { 48 + x / 16 } else { 87 + x / 16 });
            out.push(if x % 16 < 10 { 48 + x % 16 } else { 87 + x % 16 });
        } else {
            out.push(x);
        }
        proof {
            lemma_json_escaped_push(s@.take(i as int), x);
            assert(s@.take(i as int).push(x) =~= s@.take(i as int + 1));
            assert(out@ =~= start + json_escaped(s@.take(i as int + 1)));
        }
        i = i + 1;
    }
    assert(s@.take(s@.len() as int) =~= s@);
}

/// Appends the quoted, escaped form of the byte string `s`.
pub fn push_quoted_bytes(out: &mut Vec<u8>, s: &[u8])
    ensures
        final(out)@ == old(out)@ + json_quoted(s@),
{
    out.push(34);
    push_escaped(out, s);
    out.push(34);
    assert(out@ =~= old(out)@ + json_quoted(s@));
}

/// Appends the quoted, escaped form of the UTF-8 bytes of `s`.
pub fn push_quoted_str(out: &mut Vec<u8>, s: &str)
    ensures
        final(out)@ == old(out)@ + json_quoted(s.spec_bytes()),
{
    push_quoted_bytes(out, s.as_bytes());
}

/// A parsed JSON value of the flat objects the server sends: a string, an
/// integer, a boolean, or null.
pub enum JVal {
    Str(Vec<u8>),
    Int(i64),
    Bool(bool),
    Null,
}

/// The mathematical form of a parsed value.
pub enum JsonVal {
    Str(Seq<u8>),
    Int(int),
    Bool(bool),
    Null,
}

/// The mathematical form of an executable value.
pub open spec fn jval_view(v: JVal) -> JsonVal {
    match v {
        JVal::Str(s) => JsonVal::Str(s@),
        JVal::Int(n) => JsonVal::Int(n as int),
        JVal::Bool(b) => JsonVal::Bool(b),
        JVal::Null => JsonVal::Null,
    }
}

/// The mathematical form of a parsed key/value list.
pub open spec fn pairs_view(ps: Seq<(Vec<u8>, JVal)>) -> Seq<(Seq<u8>, JsonVal)> {
    ps.map(|i: int, p: (Vec<u8>, JVal)| (p.0@, jval_view(p.1)))
}

/// The byte a short escape stands for, if the escape is recognized.
pub open spec fn unescape_byte(c: u8) -> Option<u8> {
    if c == 34 {
        Some(34u8)
    } else if c == 92 {
        Some(92u8)
    } else if c == 47 {
        Some(47u8)
    } else if c == 98 {
        Some(8u8)
    } else if c == 102 {
        Some(12u8)
    } else if c == 110 {
        Some(10u8)
    } else if c == 114 {
        Some(13u8)
    } else if c == 116 {
        Some(9u8)
    } else {
        None
    }
}

/// The value of a hex digit byte, if it is one.
pub open spec fn hex_val(c: u8) -> Option<u8> {
    if 48 <= c && c <= 57 {
        Some((c - 48) as u8)
    } else if 97 <= c && c <= 102 {
        Some((c - 87) as u8)
    } else if 65 <= c && c <= 70 {
        Some((c - 55) as u8)
    } else {
        None
    }
}

/// Parses the inside of a JSON string from position `i` up to its closing
/// quote: the unescaped content and the position after the quote. Escapes
/// `\uXXXX` are accepted for ASCII code points only.
pub open spec fn spec_parse_str_content(b: Seq<u8>, i: int) -> Option<(Seq<u8>, int)>
    decreases b.len() - i,
{
    if i < 0 || i >= b.len() {
        None
    } else if b[i] == 34 {
        Some((Seq::empty(), i + 1))
    } else if b[i] == 92 {
        if i + 1 >= b.len() {
            None
        } else if b[i + 1] == 117 {
            if i + 6 > b.len() {
                None
            } else {
                match (hex_val(b[i + 2]), hex_val(b[i + 3]), hex_val(b[i + 4]), hex_val(b[i + 5])) {
                    (Some(h1), Some(h2), Some(h3), Some(h4)) => {
                        let v = h1 * 4096 + h2 * 256 + h3 * 16 + h4;
                        if v < 128 {
                            match spec_parse_str_content(b, i + 6) {
                                Some((s, j)) => Some((seq![v as u8] + s, j)),
                                None => None,
                            }
                        } else {
                            None
                        }
                    },
                    _ => None,
                }
            }
        } else {
            match unescape_byte(b[i + 1]) {
                Some(c) => match spec_parse_str_content(b, i + 2) {
                    Some((s, j)) => Some((seq![c] + s, j)),
                    None => None,
                },
                None => None,
            }
        }
    } else {
        match spec_parse_str_content(b, i + 1) {
            Some((s, j)) => Some((seq![b[i]] + s, j)),
            None => None,
        }
    }
}

/// Parses a quoted string starting at `i`.
pub open spec fn spec_parse_string(b: Seq<u8>, i: int) -> Option<(Seq<u8>, int)> {
    if 0 <= i < b.len() && b[i] == 34 {
        spec_parse_str_content(b, i + 1)
    } else {
        None
    }
}

/// Position of the first non-digit byte at or after `i`.
pub open spec fn digits_end(b: Seq<u8>, i: int) -> int
    decreases b.len() - i,
{
    if 0 <= i < b.len() && 48 <= b[i] && b[i] <= 57 {
        digits_end(b, i + 1)
    } else {
        i
    }
}

/// Value of the digit run `b[i..j]`.
pub open spec fn digits_val(b: Seq<u8>, i: int, j: int) -> int
    decreases j - i,
{
    if j <= i {
        0
    } else {
        digits_val(b, i, j - 1) * 10 + (b[j - 1] - 48)
    }
}

/// Parses a JSON integer at `i`: an optional minus sign and a digit run,
/// within the range of 64-bit signed values.
pub open spec fn spec_parse_int(b: Seq<u8>, i: int) -> Option<(int, int)> {
    if i < 0 {
        None
    } else {
        let neg = i < b.len() && b[i] == 45;
        let d0 = if neg {
            i + 1
        } else {
            i
        };
        if d0 >= b.len() || !(48 <= b[d0] && b[d0] <= 57) {
            None
        } else {
            let j = digits_end(b, d0);
            let mag = digits_val(b, d0, j);
            if neg {
                if mag <= 9223372036854775808 {
                    Some((-mag, j))
                } else {
                    None
                }
            } else {
                if mag <= 9223372036854775807 {
                    Some((mag, j))
                } else {
                    None
                }
            }
        }
    }
}

/// Parses one JSON value at `i`: a string, integer, `null`, `true` or
/// `false`.
pub open spec fn spec_parse_value(b: Seq<u8>, i: int) -> Option<(JsonVal, int)> {
    if i < 0 || i >= b.len() {
        None
    } else if b[i] == 34 {
        match spec_parse_str_content(b, i + 1) {
            Some((s, j)) => Some((JsonVal::Str(s), j)),
            None => None,
        }
    } else if b[i] == 45 || (48 <= b[i] && b[i] <= 57) {
        match spec_parse_int(b, i) {
            Some((n, j)) => Some((JsonVal::Int(n), j)),
            None => None,
        }
    } else if b[i] == 110 {
        if i + 4 <= b.len() && b[i + 1] == 117 && b[i + 2] == 108 && b[i + 3] == 108 {
            Some((JsonVal::Null, i + 4))
        } else {
            None
        }
    } else if b[i] == 116 {
        if i + 4 <= b.len() && b[i + 1] == 114 && b[i + 2] == 117 && b[i + 3] == 101 {
            Some((JsonVal::Bool(true), i + 4))
        } else {
            None
        }
    } else if b[i] == 102 {
        if i + 5 <= b.len() && b[i + 1] == 97 && b[i + 2] == 108 && b[i + 3] == 115 && b[i + 4]
            == 101 {
            Some((JsonVal::Bool(false), i + 5))
        } else {
            None
        }
    } else {
        None
    }
}

/// A successful string parse moves the position forward, at most to the end.
proof fn lemma_content_advances(b: Seq<u8>, i: int)
    ensures
        spec_parse_str_content(b, i) matches Some((s, j)) ==> i < j <= b.len(),
    decreases b.len() - i,
{
    if 0 <= i < b.len() {
        if b[i] == 92 {
            if i + 1 < b.len() {
                if b[i + 1] == 117 {
                    if i + 6 <= b.len() {
                        lemma_content_advances(b, i + 6);
                    }
                } else {
                    lemma_content_advances(b, i + 2);
                }
            }
        } else if b[i] != 34 {
            lemma_content_advances(b, i + 1);
        }
    }
}

proof fn lemma_digits_end_bounds(b: Seq<u8>, i: int)
    requires
        0 <= i <= b.len(),
    ensures
        i <= digits_end(b, i) <= b.len(),
    decreases b.len() - i,
{
    if i < b.len() && 48 <= b[i] && b[i] <= 57 {
        lemma_digits_end_bounds(b, i + 1);
    }
}

/// A successful value parse moves the position forward, at most to the end.
proof fn lemma_value_advances(b: Seq<u8>, i: int)
    ensures
        spec_parse_value(b, i) matches Some((v, j)) ==> i < j <= b.len(),
{
    if 0 <= i < b.len() {
        if b[i] == 34 {
            lemma_content_advances(b, i + 1);
        } else if b[i] == 45 || (48 <= b[i] && b[i] <= 57) {
            let neg = b[i] == 45;
            let d0 = if neg {
                i + 1
            } else {
                i
            };
            if d0 < b.len() && 48 <= b[d0] && b[d0] <= 57 {
                assert(digits_end(b, d0) == digits_end(b, d0 + 1));
                lemma_digits_end_bounds(b, d0 + 1);
            }
        }
    }
}

/// Parses `"key":value` pairs from `i` up to and including the closing
/// brace: the pairs and the position after the brace.
pub open spec fn spec_parse_pairs(b: Seq<u8>, i: int) -> Option<(Seq<(Seq<u8>, JsonVal)>, int)>
    decreases b.len() - i,
    via spec_parse_pairs_decreases
{
    match spec_parse_string(b, i) {
        None => None,
        Some((k, j)) => {
            if j < b.len() && b[j] == 58 {
                match spec_parse_value(b, j + 1) {
                    None => None,
                    Some((v, m)) => {
                        if m < b.len() && b[m] == 125 {
                            Some((seq![(k, v)], m + 1))
                        } else if m < b.len() && b[m] == 44 {
                            match spec_parse_pairs(b, m + 1) {
                                Some((ps, e)) => Some((seq![(k, v)] + ps, e)),
                                None => None,
                            }
                        } else {
                            None
                        }
                    },
                }
            } else {
                None
            }
        },
    }
}

#[via_fn]
proof fn spec_parse_pairs_decreases(b: Seq<u8>, i: int) {
    lemma_content_advances(b, i + 1);
    if 0 <= i < b.len() && b[i] == 34 {
        match spec_parse_str_content(b, i + 1) {
            Some((k, j)) => {
                lemma_value_advances(b, j + 1);
            },
            None => {},
        }
    }
}

/// Parses a whole flat JSON object, compact form, spanning all of `b`.
pub open spec fn spec_parse_obj(b: Seq<u8>) -> Option<Seq<(Seq<u8>, JsonVal)>> {
    if b.len() < 2 || b[0] != 123 {
        None
    } else if b[1] == 125 {
        if b.len() == 2 {
            Some(Seq::empty())
        } else {
            None
        }
    } else {
        match spec_parse_pairs(b, 1) {
            Some((ps, e)) => if e == b.len() {
                Some(ps)
            } else {
                None
            },
            None => None,
        }
    }
}

/// First value stored under `key`, if any.
pub open spec fn spec_obj_get(ps: Seq<(Seq<u8>, JsonVal)>, key: Seq<u8>) -> Option<JsonVal>
    decreases ps.len(),
{
    if ps.len() == 0 {
        None
    } else if ps[0].0 == key {
        Some(ps[0].1)
    } else {
        spec_obj_get(ps.drop_first(), key)
    }
}

spec fn glue_content(prefix: Seq<u8>, r: Option<(Seq<u8>, int)>) -> Option<(Seq<u8>, int)> {
    match r {
        Some((s, j)) => Some((prefix + s, j)),
        None => None,
    }
}

fn parse_str_content(b: &[u8], start: usize) -> (r: Option<(Vec<u8>, usize)>)
    requires
        start <= b@.len(),
    ensures
        match r {
            Some((s, j)) => spec_parse_str_content(b@, start as int) == Some((s@, j as int)) && j
                <= b@.len(),
            None => spec_parse_str_content(b@, start as int) is None,
        },
{
    let mut acc: Vec<u8> = Vec::new();
    let mut i: usize = start;
    loop
        invariant
            start <= i <= b@.len(),
            spec_parse_str_content(b@, start as int) == glue_content(
                acc@,
                spec_parse_str_content(b@, i as int),
            ),
        decreases b@.len() - i,
    {
        if i >= b.len() {
            return None;
        }
        let c = b[i];
        if c == 34 {
            proof {
                assert(spec_parse_str_content(b@, i as int) == Some((Seq::<u8>::empty(), i + 1)));
                assert(acc@ + Seq::<u8>::empty() =~= acc@);
            }
            return Some((acc, i + 1));
        } else if c == 92 {
            if i + 1 >= b.len() {
                return None;
            }
            let e = b[i + 1];
            if e == 117 {
                if b.len() - i < 6 {
                    return None;
                }
                let h1 = match hex_val_exec(b[i + 2]) {
                    Some(h) => h,
                    None => {
                        return None;
                    },
                };
                let h2 = match hex_val_exec(b[i + 3]) {
                    Some(h) => h,
                    None => {
                        return None;
                    },
                };
                let h3 = match hex_val_exec(b[i + 4]) {
                    Some(h) => h,
                    None => {
                        return None;
                    },
                };
                let h4 = match hex_val_exec(b[i + 5]) {
                    Some(h) => h,
                    None => {
                        return None;
                    },
                };
                let v: u32 = (h1 as u32) * 4096 + (h2 as u32) * 256 + (h3 as u32) * 16 + (h4 as u32);
                if v >= 128 {
                    return None;
                }
                let ghost before = acc@;
                acc.push(v as u8);
                proof {
                    assert(acc@ + spec_content_rest(b@, i as int + 6) == before + (seq![v as u8]
                        + spec_content_rest(b@, i as int + 6)));
                }
                i = i + 6;
            } else {
                let u = match unescape_byte_exec(e) {
                    Some(u) => u,
                    None => {
                        return None;
                    },
                };
                let ghost before = acc@;
                acc.push(u);
                proof {
                    assert(acc@ + spec_content_rest(b@, i as int + 2) == before + (seq![u]
                        + spec_content_rest(b@, i as int + 2)));
                }
                i = i + 2;
            }
        } else {
            let ghost before = acc@;
            acc.push(c);
            proof {
                assert(acc@ + spec_content_rest(b@, i as int + 1) == before + (seq![c]
                    + spec_content_rest(b@, i as int + 1)));
            }
            i = i + 1;
        }
    }
}

/// The content from position `i`, when it parses.
spec fn spec_content_rest(b: Seq<u8>, i: int) -> Seq<u8> {
    match spec_parse_str_content(b, i) {
        Some((s, j)) => s,
        None => Seq::empty(),
    }
}

fn hex_val_exec(c: u8) -> (r: Option<u8>)
    ensures
        r == hex_val(c),
{
    if 48 <= c && c <= 57 {
        Some(c - 48)
    } else if 97 <= c && c <= 102 {
        Some(c - 87)
    } else if 65 <= c && c <= 70 {
        Some(c - 55)
    } else {
        None
    }
}

fn unescape_byte_exec(c: u8) -> (r: Option<u8>)
    ensures
        r == unescape_byte(c),
{
    if c == 34 {
        Some(34)
    } else if c == 92 {
        Some(92)
    } else if c == 47 {
        Some(47)
    } else if c == 98 {
        Some(8)
    } else if c == 102 {
        Some(12)
    } else if c == 110 {
        Some(10)
    } else if c == 114 {
        Some(13)
    } else if c == 116 {
        Some(9)
    } else {
        None
    }
}

fn parse_int_at(b: &[u8], start: usize) -> (r: Option<(i64, usize)>)
    requires
        start <= b@.len(),
    ensures
        match r {
            Some((n, j)) => spec_parse_int(b@, start as int) == Some((n as int, j as int)) && j
                <= b@.len(),
            None => spec_parse_int(b@, start as int) is None,
        },
{
    let mut i: usize = start;
    let neg = i < b.len() && b[i] == 45;
    if neg {
        i = i + 1;
    }
    if i >= b.len() || !(48 <= b[i] && b[i] <= 57) {
        return None;
    }
    let ghost d0 = i as int;
    let limit: u64 = if neg {
        9223372036854775808
    } else {
        9223372036854775807
    };
    let mut acc: u64 = 0;
    while i < b.len() && 48 <= b[i] && b[i] <= 57
        invariant
            d0 <= i as int <= b@.len(),
            start as int <= d0,
            start < b@.len(),
            neg == (b@[start as int] == 45),
            d0 == if neg {
                start as int + 1
            } else {
                start as int
            },
            d0 < b@.len() && 48 <= b@[d0] && b@[d0] <= 57,
            acc == digits_val(b@, d0, i as int),
            acc <= limit,
            limit == if neg {
                9223372036854775808u64
            } else {
                9223372036854775807u64
            },
            digits_end(b@, d0) == digits_end(b@, i as int),
        decreases b@.len() - i,
    {
        let d = b[i] - 48;
        if acc > (limit - d as u64) / 10 {
            proof {
                lemma_digits_run(b@, d0);
                assert(digits_end(b@, i as int) == digits_end(b@, i as int + 1));
                lemma_digits_end_bounds(b@, i as int + 1);
                lemma_digits_val_grows(b@, d0, i as int + 1, digits_end(b@, d0));
                assert(digits_val(b@, d0, i as int + 1) == acc * 10 + d);
                assert(acc * 10 + d > limit) by (nonlinear_arith)
                    requires
                        acc > (limit - d as u64) / 10,
                        d < 10,
                        acc <= limit,
                        limit >= 9223372036854775807u64,
                ;
            }
            return None;
        }
        acc = acc * 10 + d as u64;
        i = i + 1;
    }
    proof {
        assert(digits_end(b@, i as int) == i as int);
        assert(digits_val(b@, d0, digits_end(b@, d0)) == acc);
    }
    let val: i64 = if neg {
        if acc == 9223372036854775808 {
            i64::MIN
        } else {
            -(acc as i64)
        }
    } else {
        acc as i64
    };
    Some((val, i))
}

/// Every byte of a digit run up to its end is a digit.
proof fn lemma_digits_run(b: Seq<u8>, i: int)
    requires
        0 <= i,
    ensures
        forall|t: int| i <= t < digits_end(b, i) ==> 48 <= #[trigger] b[t] <= 57,
    decreases b.len() - i,
{
    if 0 <= i < b.len() && 48 <= b[i] && b[i] <= 57 {
        lemma_digits_run(b, i + 1);
    }
}

/// A digit run's value never shrinks as the run extends.
proof fn lemma_digits_val_grows(b: Seq<u8>, i: int, k: int, j: int)
    requires
        i <= k <= j,
        forall|t: int| i <= t < j ==> 48 <= #[trigger] b[t] <= 57,
    ensures
        digits_val(b, i, k) <= digits_val(b, i, j),
    decreases j - k,
{
    lemma_digits_val_nonneg(b, i, k);
    if k < j {
        lemma_digits_val_grows(b, i, k, j - 1);
        lemma_digits_val_nonneg(b, i, j - 1);
        assert(digits_val(b, i, j) == digits_val(b, i, j - 1) * 10 + (b[j - 1] - 48));
        assert(digits_val(b, i, j - 1) * 10 >= digits_val(b, i, j - 1)) by (nonlinear_arith)
            requires
                digits_val(b, i, j - 1) >= 0,
        ;
    }
}

proof fn lemma_digits_val_nonneg(b: Seq<u8>, i: int, j: int)
    requires
        forall|t: int| i <= t < j ==> 48 <= #[trigger] b[t] <= 57,
    ensures
        digits_val(b, i, j) >= 0,
    decreases j - i,
{
    if j > i {
        lemma_digits_val_nonneg(b, i, j - 1);
        assert(digits_val(b, i, j - 1) * 10 >= 0) by (nonlinear_arith)
            requires
                digits_val(b, i, j - 1) >= 0,
        ;
    }
}

fn parse_value_at(b: &[u8], start: usize) -> (r: Option<(JVal, usize)>)
    requires
        start <= b@.len(),
    ensures
        match r {
            Some((v, j)) => spec_parse_value(b@, start as int) == Some((jval_view(v), j as int))
                && j <= b@.len(),
            None => spec_parse_value(b@, start as int) is None,
        },
{
    if start >= b.len() {
        return None;
    }
    let c = b[start];
    if c == 34 {
        match parse_str_content(b, start + 1) {
            Some((s, j)) => Some((JVal::Str(s), j)),
            None => None,
        }
    } else if c == 45 || (48 <= c && c <= 57) {
        match parse_int_at(b, start) {
            Some((n, j)) => Some((JVal::Int(n), j)),
            None => None,
        }
    } else if c == 110 {
        if b.len() - start >= 4 && b[start + 1] == 117 && b[start + 2] == 108 && b[start + 3]
            == 108 {
            Some((JVal::Null, start + 4))
        } else {
            None
        }
    } else if c == 116 {
        if b.len() - start >= 4 && b[start + 1] == 114 && b[start + 2] == 117 && b[start + 3]
            == 101 {
            Some((JVal::Bool(true), start + 4))
        } else {
            None
        }
    } else if c == 102 {
        if b.len() - start >= 5 && b[start + 1] == 97 && b[start + 2] == 108 && b[start + 3] == 115
            && b[start + 4] == 101 {
            Some((JVal::Bool(false), start + 5))
        } else {
            None
        }
    } else {
        None
    }
}

spec fn glue_pairs(
    prefix: Seq<(Seq<u8>, JsonVal)>,
    r: Option<(Seq<(Seq<u8>, JsonVal)>, int)>,
) -> Option<(Seq<(Seq<u8>, JsonVal)>, int)> {
    match r {
        Some((ps, e)) => Some((prefix + ps, e)),
        None => None,
    }
}

fn parse_pairs_at(b: &[u8], start: usize) -> (r: Option<(Vec<(Vec<u8>, JVal)>, usize)>)
    requires
        start <= b@.len(),
    ensures
        match r {
            Some((ps, e)) => spec_parse_pairs(b@, start as int) == Some((pairs_view(ps@), e as int))
                && e <= b@.len(),
            None => spec_parse_pairs(b@, start as int) is None,
        },
{
    let mut acc: Vec<(Vec<u8>, JVal)> = Vec::new();
    let mut i: usize = start;
    loop
        invariant
            start <= i <= b@.len(),
            spec_parse_pairs(b@, start as int) == glue_pairs(
                pairs_view(acc@),
                spec_parse_pairs(b@, i as int),
            ),
        decreases b@.len() - i,
    {
        let ghost iter_in = i as int;
        if i >= b.len() || b[i] != 34 {
            return None;
        }
        let (k, j) = match parse_str_content(b, i + 1) {
            Some(kj) => kj,
            None => {
                return None;
            },
        };
        proof {
            lemma_content_advances(b@, i as int + 1);
        }
        if !(j < b.len() && b[j] == 58) {
            return None;
        }
        let (v, m) = match parse_value_at(b, j + 1) {
            Some(vm) => vm,
            None => {
                return None;
            },
        };
        proof {
            lemma_value_advances(b@, j as int + 1);
        }
        if m < b.len() && b[m] == 125 {
            let ghost before = pairs_view(acc@);
            acc.push((k, v));
            proof {
                assert(pairs_view(acc@) =~= before.push((k@, jval_view(v))));
                assert(spec_parse_pairs(b@, iter_in) == Some(
                    (seq![(k@, jval_view(v))], m + 1 as int),
                ));
                assert(before + seq![(k@, jval_view(v))] =~= pairs_view(acc@));
            }
            return Some((acc, m + 1));
        } else if m < b.len() && b[m] == 44 {
            let ghost before = pairs_view(acc@);
            acc.push((k, v));
            proof {
                assert(pairs_view(acc@) =~= before.push((k@, jval_view(v))));
                assert forall|rest: Seq<(Seq<u8>, JsonVal)>|
                    before + (seq![(k@, jval_view(v))] + rest) =~= pairs_view(acc@) + rest by {}
            }
            i = m + 1;
        } else {
            return None;
        }
    }
}

/// Parses a whole flat JSON object; the result's mathematical form is
/// exactly what [`spec_parse_obj`] gives for the input.
pub fn parse_obj(b: &[u8]) -> (r: Option<Vec<(Vec<u8>, JVal)>>)
    ensures
        match r {
            Some(ps) => spec_parse_obj(b@) == Some(pairs_view(ps@)),
            None => spec_parse_obj(b@) is None,
        },
{
    if b.len() < 2 || b[0] != 123 {
        return None;
    }
    if b[1] == 125 {
        if b.len() == 2 {
            let empty_pairs: Vec<(Vec<u8>, JVal)> = Vec::new();
            proof {
                assert(pairs_view(empty_pairs@) =~= Seq::<(Seq<u8>, JsonVal)>::empty());
            }
            return Some(empty_pairs);
        } else {
            return None;
        }
    }
    match parse_pairs_at(b, 1) {
        Some((ps, e)) => {
            if e == b.len() {
                Some(ps)
            } else {
                None
            }
        },
        None => None,
    }
}

/// Looks up the first value stored under `key`.
pub fn obj_get<'a>(ps: &'a Vec<(Vec<u8>, JVal)>, key: &str) -> (r: Option<&'a JVal>)
    ensures
        match r {
            Some(v) => spec_obj_get(pairs_view(ps@), key.spec_bytes()) == Some(jval_view(*v)),
            None => spec_obj_get(pairs_view(ps@), key.spec_bytes()) is None,
        },
{
    let kb = key.as_bytes();
    let mut i: usize = 0;
    proof {
        assert(pairs_view(ps@).skip(0) =~= pairs_view(ps@));
    }
    while i < ps.len()
        invariant
            i <= ps@.len(),
            kb@ == key.spec_bytes(),
            spec_obj_get(pairs_view(ps@), key.spec_bytes()) == spec_obj_get(
                pairs_view(ps@).skip(i as int),
                key.spec_bytes(),
            ),
            forall|j: int| 0 <= j < i ==> pairs_view(ps@)[j].0 != key.spec_bytes(),
        decreases ps@.len() - i,
    {
        proof {
            assert(pairs_view(ps@)[i as int] == (ps@[i as int].0@, jval_view(ps@[i as int].1)));
            assert(pairs_view(ps@).skip(i as int)[0] == pairs_view(ps@)[i as int]);
            assert(pairs_view(ps@).skip(i as int).drop_first() =~= pairs_view(ps@).skip(
                i as int + 1,
            ));
        }
        if crate::bytes::bytes_eq(ps[i].0.as_slice(), kb) {
            return Some(&ps[i].1);
        }
        i = i + 1;
    }
    proof {
        assert(pairs_view(ps@).skip(ps@.len() as int) =~= Seq::<(Seq<u8>, JsonVal)>::empty());
    }
    None
}

} // verus!

use vstd::prelude::*;

use crate::json::{
    JsonValue, SpecJson, char_digit, dec_digits, digit_char, digits_val, escape_char, hex_char,
    hex_digit_val, is_digit_char, is_ws_char, skip_ws, spec_encode, spec_encode_int,
    spec_encode_items, spec_encode_member, spec_encode_members, spec_escape, spec_parse_int,
    spec_parse_items, spec_parse_json, spec_parse_members, spec_parse_string, spec_parse_value,
    take_digits, unescape_char, parse_fuel,
};

verus! {

/// Relies on String::push: appends exactly the one character at the end.
#[verifier::external_body]
pub(crate) fn push_char(out: &mut String, c: char)
    ensures
        final(out)@ == old(out)@ + seq![c],
{
    out.push(c)
}

fn digit_char_exec(d: u64) -> (c: char)
    requires
        d <= 9,
    ensures
        c == digit_char(d as int),
{
    match d {
        0 => '0',
        1 => '1',
        2 => '2',
        3 => '3',
        4 => '4',
        5 => '5',
        6 => '6',
        7 => '7',
        8 => '8',
        _ => '9',
    }
}

fn hex_char_exec(d: u32) -> (c: char)
    requires
        d <= 15,
    ensures
        c == hex_char(d as int),
{
    match d {
        0 => '0',
        1 => '1',
        2 => '2',
        3 => '3',
        4 => '4',
        5 => '5',
        6 => '6',
        7 => '7',
        8 => '8',
        9 => '9',
        10 => 'a',
        11 => 'b',
        12 => 'c',
        13 => 'd',
        14 => 'e',
        _ => 'f',
    }
}

fn push_dec_digits(n: u64, out: &mut String)
    ensures
        final(out)@ == old(out)@ + dec_digits(n as nat),
    decreases n,
{
    if n < 10 {
        let c = digit_char_exec(n);
        push_char(out, c);
    } else {
        push_dec_digits(n / 10, out);
        let c = digit_char_exec(n % 10);
        push_char(out, c);
    }
}

pub(crate) fn push_int(i: i64, out: &mut String)
    ensures
        final(out)@ == old(out)@ + spec_encode_int(i as int),
{
    if i < 0 {
        push_char(out, '-');
        let n: u64 = if i == i64::MIN {
            0x8000_0000_0000_0000u64
        } else {
            (-i) as u64
        };
        assert(n == -(i as int));
        push_dec_digits(n, out);
        assert(old(out)@ + seq!['-'] + dec_digits(n as nat) =~= old(out)@ + (seq!['-']
            + dec_digits(n as nat)));
    } else {
        push_dec_digits(i as u64, out);
    }
}

/// The decimal text of a number.
pub fn u64_to_string(n: u64) -> (r: String)
    ensures
        r@ == dec_digits(n as nat),
{
    let mut s = String::new();
    push_dec_digits(n, &mut s);
    proof {
        assert(Seq::<char>::empty() + dec_digits(n as nat) =~= dec_digits(n as nat));
    }
    s
}

proof fn lemma_escape_one(c: char)
    ensures
        spec_escape(seq![c]) == escape_char(c),
{
    let s = seq![c];
    assert(s.subrange(1, 1) =~= Seq::<char>::empty());
    assert(spec_escape(s) == escape_char(c) + spec_escape(Seq::<char>::empty()));
    assert(escape_char(c) + Seq::<char>::empty() =~= escape_char(c));
}

proof fn lemma_escape_concat(a: Seq<char>, b: Seq<char>)
    ensures
        spec_escape(a + b) == spec_escape(a) + spec_escape(b),
    decreases a.len(),
{
    if a.len() == 0 {
        assert(a + b =~= b);
        assert(spec_escape(a) + spec_escape(b) =~= spec_escape(b));
    } else {
        let t = a.subrange(1, a.len() as int);
        lemma_escape_concat(t, b);
        assert((a + b).subrange(1, (a + b).len() as int) =~= t + b);
        assert((a + b)[0] == a[0]);
        assert(escape_char(a[0]) + (spec_escape(t) + spec_escape(b)) =~= (escape_char(a[0])
            + spec_escape(t)) + spec_escape(b));
    }
}

fn push_escaped(s: &str, out: &mut String)
    ensures
        final(out)@ == old(out)@ + spec_escape(s@),
{
    let len = s.unicode_len();
    let mut i: usize = 0;
    proof {
        assert(s@.subrange(0, 0) =~= Seq::<char>::empty());
        assert(old(out)@ + Seq::<char>::empty() =~= old(out)@);
    }
    while i < len
        invariant
            i <= len,
            len == s@.len(),
            out@ == old(out)@ + spec_escape(s@.subrange(0, i as int)),
        decreases len - i,
    {
        let c = s.get_char(i);
        let ghost pre = out@;
        if c == '"' {
            push_char(out, '\\');
            push_char(out, '"');
        } else if c == '\\' {
            push_char(out, '\\');
            push_char(out, '\\');
        } else if c == '\n' {
            push_char(out, '\\');
            push_char(out, 'n');
        } else if c == '\r' {
            push_char(out, '\\');
            push_char(out, 'r');
        } else if c == '\t' {
            push_char(out, '\\');
            push_char(out, 't');
        } else if (c as u32) < 32 {
            let cu = c as u32;
            push_char(out, '\\');
            push_char(out, 'u');
            push_char(out, '0');
            push_char(out, '0');
            let h1 = hex_char_exec(cu / 16);
            push_char(out, h1);
            let h2 = hex_char_exec(cu % 16);
            push_char(out, h2);
        } else {
            push_char(out, c);
        }
        proof {
            assert(out@ =~= pre + escape_char(c));
            lemma_escape_concat(s@.subrange(0, i as int), seq![c]);
            assert(s@.subrange(0, i as int) + seq![c] =~= s@.subrange(0, i as int + 1));
            lemma_escape_one(c);
            assert(out@ =~= old(out)@ + spec_escape(s@.subrange(0, i as int + 1)));
        }
        i += 1;
    }
    proof {
        assert(s@.subrange(0, len as int) =~= s@);
    }
}

/// Appends the canonical wire text of `v`.
pub fn encode_value(v: &JsonValue, out: &mut String)
    ensures
        final(out)@ == old(out)@ + spec_encode(v@),
    decreases v, 0int,
{
    match v {
        JsonValue::Null => {
            proof {
                reveal_strlit("null");
                assert("null"@ =~= seq!['n', 'u', 'l', 'l']);
            }
            out.append("null");
        },
        JsonValue::Bool(b) => {
            if *b {
                proof {
                    reveal_strlit("true");
                    assert("true"@ =~= seq!['t', 'r', 'u', 'e']);
                }
                out.append("true");
            } else {
                proof {
                    reveal_strlit("false");
                    assert("false"@ =~= seq!['f', 'a', 'l', 's', 'e']);
                }
                out.append("false");
            }
        },
        JsonValue::Int(i) => {
            push_int(*i, out);
        },
        JsonValue::Str(s) => {
            let ghost pre = out@;
            push_char(out, '"');
            push_escaped(s.as_str(), out);
            push_char(out, '"');
            proof {
                assert(out@ =~= pre + (seq!['"'] + spec_escape(s@) + seq!['"']));
            }
        },
        JsonValue::Arr(xs) => {
            let ghost pre = out@;
            push_char(out, '[');
            if xs.len() > 0 {
                proof {
                    assert(decreases_to!(*v => xs@));
                    assert(xs@.subrange(0, xs@.len() as int) =~= xs@);
                }
                encode_items(xs, 0, out);
            }
            push_char(out, ']');
            proof {
                if xs@.len() == 0 {
                    assert(out@ =~= pre + seq!['[', ']']);
                } else {
                    assert(xs@.subrange(0, xs@.len() as int) =~= xs@);
                    assert(out@ =~= pre + (seq!['['] + spec_encode_items(JsonValue::view_arr(xs@))
                        + seq![']']));
                }
            }
        },
        JsonValue::Obj(ps) => {
            let ghost pre = out@;
            push_char(out, '{');
            if ps.len() > 0 {
                proof {
                    assert(decreases_to!(*v => ps@));
                    assert(ps@.subrange(0, ps@.len() as int) =~= ps@);
                }
                encode_members(ps, 0, out);
            }
            push_char(out, '}');
            proof {
                if ps@.len() == 0 {
                    assert(out@ =~= pre + seq!['{', '}']);
                } else {
                    assert(ps@.subrange(0, ps@.len() as int) =~= ps@);
                    assert(out@ =~= pre + (seq!['{'] + spec_encode_members(JsonValue::view_obj(ps@))
                        + seq!['}']));
                }
            }
        },
    }
}

/// Appends the comma-separated encodings of the items from position `k` on.
fn encode_items(xs: &Vec<JsonValue>, k: usize, out: &mut String)
    requires
        k < xs@.len(),
    ensures
        final(out)@ == old(out)@ + spec_encode_items(
            JsonValue::view_arr(xs@.subrange(k as int, xs@.len() as int)),
        ),
    decreases xs@.subrange(k as int, xs@.len() as int), 1int,
{
    let ghost tail = xs@.subrange(k as int, xs@.len() as int);
    proof {
        assert(tail[0] == xs@[k as int]);
        assert(decreases_to!(tail => tail[0]));
    }
    let n = xs.len();
    encode_value(&xs[k], out);
    if k + 1 < n {
        push_char(out, ',');
        let ghost mid = out@;
        proof {
            assert(tail.subrange(1, tail.len() as int) =~= xs@.subrange(
                k as int + 1,
                xs@.len() as int,
            ));
            assert(decreases_to!(tail => tail.subrange(1, tail.len() as int)));
        }
        encode_items(xs, k + 1, out);
        proof {
            let tail1 = xs@.subrange(k as int + 1, xs@.len() as int);
            assert(tail.subrange(1, tail.len() as int) =~= tail1);
            assert(JsonValue::view_arr(tail).subrange(
                1,
                JsonValue::view_arr(tail).len() as int,
            ) =~= JsonValue::view_arr(tail1)) by {
                lemma_view_arr_len_index(tail);
                lemma_view_arr_len_index(tail1);
            }
            assert(JsonValue::view_arr(tail).len() == tail.len()) by {
                lemma_view_arr_len_index(tail);
            }
            assert(out@ =~= old(out)@ + (spec_encode(xs@[k as int]@) + seq![',']
                + spec_encode_items(JsonValue::view_arr(tail1))));
            assert(spec_encode_items(JsonValue::view_arr(tail)) == spec_encode(
                JsonValue::view_arr(tail)[0],
            ) + seq![','] + spec_encode_items(
                JsonValue::view_arr(tail).subrange(1, JsonValue::view_arr(tail).len() as int),
            ));
            assert(JsonValue::view_arr(tail)[0] == tail[0]@) by {
                lemma_view_arr_len_index(tail);
            }
        }
    } else {
        proof {
            assert(tail.len() == 1);
            assert(JsonValue::view_arr(tail).len() == 1) by {
                lemma_view_arr_len_index(tail);
            }
            assert(JsonValue::view_arr(tail)[0] == tail[0]@) by {
                lemma_view_arr_len_index(tail);
            }
            assert(spec_encode_items(JsonValue::view_arr(tail)) == spec_encode(tail[0]@));
        }
    }
}

/// Appends the comma-separated encodings of the members from position `k` on.
fn encode_members(ps: &Vec<(String, JsonValue)>, k: usize, out: &mut String)
    requires
        k < ps@.len(),
    ensures
        final(out)@ == old(out)@ + spec_encode_members(
            JsonValue::view_obj(ps@.subrange(k as int, ps@.len() as int)),
        ),
    decreases ps@.subrange(k as int, ps@.len() as int), 1int,
{
    let ghost tail = ps@.subrange(k as int, ps@.len() as int);
    proof {
        assert(tail[0] == ps@[k as int]);
        assert(decreases_to!(tail => tail[0]));
    }
    let ghost pre = out@;
    push_char(out, '"');
    push_escaped(ps[k].0.as_str(), out);
    push_char(out, '"');
    push_char(out, ':');
    encode_value(&ps[k].1, out);
    proof {
        assert(out@ =~= pre + (seq!['"'] + spec_escape(ps@[k as int].0@) + seq!['"', ':']
            + spec_encode(ps@[k as int].1@)));
        assert(out@ == pre + spec_encode_member((ps@[k as int].0@, ps@[k as int].1@)));
    }
    let n = ps.len();
    if k + 1 < n {
        push_char(out, ',');
        proof {
            assert(tail.subrange(1, tail.len() as int) =~= ps@.subrange(
                k as int + 1,
                ps@.len() as int,
            ));
            assert(decreases_to!(tail => tail.subrange(1, tail.len() as int)));
        }
        encode_members(ps, k + 1, out);
        proof {
            let tail1 = ps@.subrange(k as int + 1, ps@.len() as int);
            assert(tail.subrange(1, tail.len() as int) =~= tail1);
            lemma_view_obj_len_index(tail);
            lemma_view_obj_len_index(tail1);
            assert(JsonValue::view_obj(tail).subrange(
                1,
                JsonValue::view_obj(tail).len() as int,
            ) =~= JsonValue::view_obj(tail1));
            assert(JsonValue::view_obj(tail)[0] == (tail[0].0@, tail[0].1@));
            assert(out@ =~= old(out)@ + (spec_encode_member((ps@[k as int].0@, ps@[k as int].1@))
                + seq![','] + spec_encode_members(JsonValue::view_obj(tail1))));
        }
    } else {
        proof {
            assert(tail.len() == 1);
            lemma_view_obj_len_index(tail);
            assert(JsonValue::view_obj(tail)[0] == (tail[0].0@, tail[0].1@));
            assert(spec_encode_members(JsonValue::view_obj(tail)) == spec_encode_member(
                (ps@[k as int].0@, ps@[k as int].1@),
            ));
        }
    }
}

/// The length and the elements of a viewed item sequence.
pub proof fn lemma_view_arr_len_index(s: Seq<JsonValue>)
    ensures
        JsonValue::view_arr(s).len() == s.len(),
        forall|i: int| 0 <= i < s.len() ==> JsonValue::view_arr(s)[i] == #[trigger] s[i]@,
    decreases s.len(),
{
    if s.len() > 0 {
        lemma_view_arr_len_index(s.subrange(1, s.len() as int));
        assert forall|i: int| 0 <= i < s.len() implies JsonValue::view_arr(s)[i] == #[trigger] s[i]@
        by {
            if i > 0 {
                assert(s.subrange(1, s.len() as int)[i - 1] == s[i]);
            }
        }
    }
}

/// The length and the elements of a viewed member sequence.
pub proof fn lemma_view_obj_len_index(s: Seq<(String, JsonValue)>)
    ensures
        JsonValue::view_obj(s).len() == s.len(),
        forall|i: int| 0 <= i < s.len() ==> JsonValue::view_obj(s)[i] == (
            #[trigger] s[i].0@,
            s[i].1@,
        ),
    decreases s.len(),
{
    if s.len() > 0 {
        lemma_view_obj_len_index(s.subrange(1, s.len() as int));
        assert forall|i: int| 0 <= i < s.len() implies JsonValue::view_obj(s)[i] == (
            #[trigger] s[i].0@,
            s[i].1@,
        ) by {
            if i > 0 {
                assert(s.subrange(1, s.len() as int)[i - 1] == s[i]);
            }
        }
    }
}

// ---------------------------------------------------------------------------
// Decoding
// ---------------------------------------------------------------------------

/// The suffix of `s` from position `i` on.
pub open spec fn suffix(s: Seq<char>, i: int) -> Seq<char> {
    s.subrange(i, s.len() as int)
}

fn str_to_chars(s: &str) -> (r: Vec<char>)
    ensures
        r@ == s@,
{
    let len = s.unicode_len();
    let mut r: Vec<char> = Vec::new();
    let mut i: usize = 0;
    while i < len
        invariant
            i <= len,
            len == s@.len(),
            r@ == s@.subrange(0, i as int),
        decreases len - i,
    {
        r.push(s.get_char(i));
        proof {
            assert(r@ =~= s@.subrange(0, i as int + 1));
        }
        i += 1;
    }
    proof {
        assert(s@.subrange(0, len as int) =~= s@);
    }
    r
}

fn char_digit_exec(c: char) -> (d: i32)
    ensures
        d == char_digit(c),
{
    match c {
        '0' => 0,
        '1' => 1,
        '2' => 2,
        '3' => 3,
        '4' => 4,
        '5' => 5,
        '6' => 6,
        '7' => 7,
        '8' => 8,
        '9' => 9,
        _ => -1,
    }
}

fn hex_digit_val_exec(c: char) -> (d: i32)
    ensures
        d == hex_digit_val(c),
{
    let dd = char_digit_exec(c);
    if dd >= 0 {
        dd
    } else {
        match c {
            'a' | 'A' => 10,
            'b' | 'B' => 11,
            'c' | 'C' => 12,
            'd' | 'D' => 13,
            'e' | 'E' => 14,
            'f' | 'F' => 15,
            _ => -1,
        }
    }
}

fn is_ws_exec(c: char) -> (b: bool)
    ensures
        b == is_ws_char(c),
{
    c == ' ' || c == '\t' || c == '\n' || c == '\r'
}

fn skip_ws_exec(s: &Vec<char>, i: usize) -> (j: usize)
    requires
        i <= s@.len(),
    ensures
        i <= j <= s@.len(),
        skip_ws(suffix(s@, i as int)) == suffix(s@, j as int),
{
    let len = s.len();
    let mut j = i;
    while j < len && is_ws_exec(s[j])
        invariant
            i <= j <= len,
            len == s@.len(),
            skip_ws(suffix(s@, i as int)) == skip_ws(suffix(s@, j as int)),
        decreases len - j,
    {
        proof {
            assert(suffix(s@, j as int)[0] == s@[j as int]);
            assert(suffix(s@, j as int).subrange(1, suffix(s@, j as int).len() as int) =~= suffix(
                s@,
                j as int + 1,
            ));
        }
        j += 1;
    }
    proof {
        if j < len {
            assert(suffix(s@, j as int)[0] == s@[j as int]);
        }
    }
    j
}

/// Whether the cursor and accumulated text stand for the whole string parse.
pub open spec fn string_acc_ok(
    full: Option<(Seq<char>, Seq<char>)>,
    pre: Seq<char>,
    cur: Option<(Seq<char>, Seq<char>)>,
) -> bool {
    match cur {
        Some(tr) => full == Some((pre + tr.0, tr.1)),
        None => full is None,
    }
}

fn parse_string_exec(s: &Vec<char>, i: usize) -> (r: Option<(String, usize)>)
    requires
        i <= s@.len(),
    ensures
        match r {
            Some(p) => p.1 <= s@.len() && spec_parse_string(suffix(s@, i as int)) == Some(
                (p.0@, suffix(s@, p.1 as int)),
            ),
            None => spec_parse_string(suffix(s@, i as int)) is None,
        },
{
    let len = s.len();
    let mut out = String::new();
    let mut j = i;
    loop
        invariant
            i <= j <= len,
            len == s@.len(),
            string_acc_ok(
                spec_parse_string(suffix(s@, i as int)),
                out@,
                spec_parse_string(suffix(s@, j as int)),
            ),
        decreases len - j,
    {
        let ghost full = spec_parse_string(suffix(s@, i as int));
        let ghost curs = suffix(s@, j as int);
        if j == len {
            return None;
        }
        proof {
            assert(curs[0] == s@[j as int]);
        }
        let c = s[j];
        if c == '"' {
            proof {
                assert(curs.subrange(1, curs.len() as int) =~= suffix(s@, j as int + 1));
                assert(out@ + Seq::<char>::empty() =~= out@);
            }
            return Some((out, j + 1));
        } else if c == '\\' {
            if j + 1 == len {
                proof {
                    assert(curs.len() < 2);
                }
                return None;
            }
            proof {
                assert(curs[1] == s@[j as int + 1]);
            }
            let e = s[j + 1];
            if e == 'u' {
                if len - j < 6 {
                    proof {
                        assert(curs.len() < 6);
                    }
                    return None;
                }
                proof {
                    assert(curs[2] == s@[j as int + 2]);
                    assert(curs[3] == s@[j as int + 3]);
                    assert(curs[4] == s@[j as int + 4]);
                    assert(curs[5] == s@[j as int + 5]);
                }
                if s[j + 2] != '0' || s[j + 3] != '0' {
                    return None;
                }
                let h1 = hex_digit_val_exec(s[j + 4]);
                let h2 = hex_digit_val_exec(s[j + 5]);
                if h1 < 0 || h2 < 0 {
                    return None;
                }
                let c2 = ((h1 * 16 + h2) as u8) as char;
                let ghost pre = out@;
                push_char(&mut out, c2);
                proof {
                    assert(curs.subrange(6, curs.len() as int) =~= suffix(s@, j as int + 6));
                    match spec_parse_string(suffix(s@, j as int + 6)) {
                        Some(tr) => {
                            assert(pre + (seq![c2] + tr.0) =~= (pre + seq![c2]) + tr.0);
                        },
                        None => {},
                    }
                }
                j += 6;
            } else {
                let c2opt = match e {
                    '"' => Some('"'),
                    '\\' => Some('\\'),
                    '/' => Some('/'),
                    'b' => Some('\u{8}'),
                    'f' => Some('\u{c}'),
                    'n' => Some('\n'),
                    'r' => Some('\r'),
                    't' => Some('\t'),
                    _ => None,
                };
                proof {
                    assert(c2opt == unescape_char(e));
                }
                match c2opt {
                    Some(c2) => {
                        let ghost pre = out@;
                        push_char(&mut out, c2);
                        proof {
                            assert(curs.subrange(2, curs.len() as int) =~= suffix(
                                s@,
                                j as int + 2,
                            ));
                            match spec_parse_string(suffix(s@, j as int + 2)) {
                                Some(tr) => {
                                    assert(pre + (seq![c2] + tr.0) =~= (pre + seq![c2]) + tr.0);
                                },
                                None => {},
                            }
                        }
                        j += 2;
                    },
                    None => {
                        return None;
                    },
                }
            }
        } else if (c as u32) < 32 {
            return None;
        } else {
            let ghost pre = out@;
            push_char(&mut out, c);
            proof {
                assert(curs.subrange(1, curs.len() as int) =~= suffix(s@, j as int + 1));
                match spec_parse_string(suffix(s@, j as int + 1)) {
                    Some(tr) => {
                        assert(pre + (seq![c] + tr.0) =~= (pre + seq![c]) + tr.0);
                    },
                    None => {},
                }
            }
            j += 1;
        }
    }
}

proof fn lemma_digits_val_nonneg(d: Seq<char>)
    requires
        forall|k: int| 0 <= k < d.len() ==> is_digit_char(#[trigger] d[k]),
    ensures
        digits_val(d) >= 0,
    decreases d.len(),
{
    if d.len() > 0 {
        lemma_digits_val_nonneg(d.subrange(0, d.len() - 1));
    }
}

fn parse_int_exec(s: &Vec<char>, i: usize) -> (r: Option<(i64, usize)>)
    requires
        i <= s@.len(),
    ensures
        match r {
            Some(p) => p.1 <= s@.len() && spec_parse_int(suffix(s@, i as int)) == Some(
                (SpecJson::Int(p.0 as int), suffix(s@, p.1 as int)),
            ),
            None => spec_parse_int(suffix(s@, i as int)) is None,
        },
{
    let len = s.len();
    let neg = i < len && s[i] == '-';
    let start = if neg {
        i + 1
    } else {
        i
    };
    proof {
        if i < len {
            assert(suffix(s@, i as int)[0] == s@[i as int]);
        }
        if neg {
            assert(suffix(s@, i as int).subrange(
                1,
                suffix(s@, i as int).len() as int,
            ) =~= suffix(s@, start as int));
        }
    }
    let mut j = start;
    let mut val: u64 = 0;
    let mut big = false;
    while j < len && char_digit_exec(s[j]) >= 0
        invariant
            start <= j <= len,
            len == s@.len(),
            forall|k: int| start <= k < j ==> is_digit_char(#[trigger] s@[k]),
            !big ==> val == digits_val(s@.subrange(start as int, j as int)) && val
                <= 0x8000_0000_0000_0000u64,
            big ==> digits_val(s@.subrange(start as int, j as int)) > 0x8000_0000_0000_0000,
        decreases len - j,
    {
        let dg32 = char_digit_exec(s[j]);
        let dg = dg32 as u64;
        proof {
            let d = s@.subrange(start as int, j as int);
            let d1 = s@.subrange(start as int, j as int + 1);
            assert(d1.subrange(0, d1.len() - 1) =~= d);
            assert(d1[d1.len() - 1] == s@[j as int]);
            assert(digits_val(d1) == digits_val(d) * 10 + char_digit(s@[j as int]));
            if big {
                lemma_digits_val_nonneg(d);
            }
        }
        if big {
        } else if val > 922_337_203_685_477_580u64 {
            big = true;
        } else {
            let nv = val * 10 + dg;
            if nv > 0x8000_0000_0000_0000u64 {
                big = true;
            } else {
                val = nv;
            }
        }
        j += 1;
    }
    let ghost d = s@.subrange(start as int, j as int);
    proof {
        assert(suffix(s@, start as int) =~= d + suffix(s@, j as int));
        if j < len {
            assert(!is_digit_char(s@[j as int])) by {
                assert(char_digit(s@[j as int]) < 0);
            }
            assert(suffix(s@, j as int)[0] == s@[j as int]);
        }
        crate::json::lemma_take_digits_exact(d, suffix(s@, j as int));
    }
    if j == start {
        return None;
    }
    if neg {
        if big {
            return None;
        }
        let v: i64 = if val == 0x8000_0000_0000_0000u64 {
            i64::MIN
        } else {
            -(val as i64)
        };
        Some((v, j))
    } else {
        if big || val > 0x7fff_ffff_ffff_ffffu64 {
            return None;
        }
        Some((val as i64, j))
    }
}

fn parse_value_exec(s: &Vec<char>, i: usize, fuel: u64) -> (r: Option<(JsonValue, usize)>)
    requires
        i <= s@.len(),
    ensures
        match r {
            Some(p) => p.1 <= s@.len() && spec_parse_value(suffix(s@, i as int), fuel as nat)
                == Some((p.0@, suffix(s@, p.1 as int))),
            None => spec_parse_value(suffix(s@, i as int), fuel as nat) is None,
        },
    decreases fuel, 0int,
{
    if fuel == 0 {
        return None;
    }
    let len = s.len();
    let j0 = skip_ws_exec(s, i);
    let ghost t = suffix(s@, j0 as int);
    if j0 == len {
        return None;
    }
    proof {
        assert(t[0] == s@[j0 as int]);
        if j0 + 1 <= len {
            assert(t.subrange(1, t.len() as int) =~= suffix(s@, j0 as int + 1));
        }
    }
    let c = s[j0];
    if c == 'n' {
        if len - j0 >= 4 && s[j0 + 1] == 'u' && s[j0 + 2] == 'l' && s[j0 + 3] == 'l' {
            proof {
                assert(t[1] == s@[j0 as int + 1] && t[2] == s@[j0 as int + 2] && t[3] == s@[
                    j0 as int + 3]);
                assert(t.subrange(4, t.len() as int) =~= suffix(s@, j0 as int + 4));
            }
            Some((JsonValue::Null, j0 + 4))
        } else {
            proof {
                if t.len() >= 4 {
                    assert(t[1] == s@[j0 as int + 1] && t[2] == s@[j0 as int + 2] && t[3] == s@[
                        j0 as int + 3]);
                }
            }
            None
        }
    } else if c == 't' {
        if len - j0 >= 4 && s[j0 + 1] == 'r' && s[j0 + 2] == 'u' && s[j0 + 3] == 'e' {
            proof {
                assert(t[1] == s@[j0 as int + 1] && t[2] == s@[j0 as int + 2] && t[3] == s@[
                    j0 as int + 3]);
                assert(t.subrange(4, t.len() as int) =~= suffix(s@, j0 as int + 4));
            }
            Some((JsonValue::Bool(true), j0 + 4))
        } else {
            proof {
                if t.len() >= 4 {
                    assert(t[1] == s@[j0 as int + 1] && t[2] == s@[j0 as int + 2] && t[3] == s@[
                        j0 as int + 3]);
                }
            }
            None
        }
    } else if c == 'f' {
        if len - j0 >= 5 && s[j0 + 1] == 'a' && s[j0 + 2] == 'l' && s[j0 + 3] == 's' && s[j0 + 4]
            == 'e' {
            proof {
                assert(t[1] == s@[j0 as int + 1] && t[2] == s@[j0 as int + 2] && t[3] == s@[
                    j0 as int + 3] && t[4] == s@[j0 as int + 4]);
                assert(t.subrange(5, t.len() as int) =~= suffix(s@, j0 as int + 5));
            }
            Some((JsonValue::Bool(false), j0 + 5))
        } else {
            proof {
                if t.len() >= 5 {
                    assert(t[1] == s@[j0 as int + 1] && t[2] == s@[j0 as int + 2] && t[3] == s@[
                        j0 as int + 3] && t[4] == s@[j0 as int + 4]);
                }
            }
            None
        }
    } else if c == '"' {
        match parse_string_exec(s, j0 + 1) {
            Some((st, j1)) => Some((JsonValue::Str(st), j1)),
            None => None,
        }
    } else if c == '[' {
        let j1 = skip_ws_exec(s, j0 + 1);
        if j1 < len && s[j1] == ']' {
            proof {
                assert(suffix(s@, j1 as int)[0] == s@[j1 as int]);
                assert(suffix(s@, j1 as int).subrange(
                    1,
                    suffix(s@, j1 as int).len() as int,
                ) =~= suffix(s@, j1 as int + 1));
                assert(JsonValue::view_arr(Seq::<JsonValue>::empty()) =~= Seq::<
                    SpecJson,
                >::empty());
            }
            let vs: Vec<JsonValue> = Vec::new();
            Some((JsonValue::Arr(vs), j1 + 1))
        } else {
            proof {
                if j1 < len {
                    assert(suffix(s@, j1 as int)[0] == s@[j1 as int]);
                }
            }
            match parse_items_exec(s, j0 + 1, fuel - 1) {
                Some((vs, j2)) => Some((JsonValue::Arr(vs), j2)),
                None => None,
            }
        }
    } else if c == '{' {
        let j1 = skip_ws_exec(s, j0 + 1);
        if j1 < len && s[j1] == '}' {
            proof {
                assert(suffix(s@, j1 as int)[0] == s@[j1 as int]);
                assert(suffix(s@, j1 as int).subrange(
                    1,
                    suffix(s@, j1 as int).len() as int,
                ) =~= suffix(s@, j1 as int + 1));
                assert(JsonValue::view_obj(Seq::<(String, JsonValue)>::empty()) =~= Seq::<
                    (Seq<char>, SpecJson),
                >::empty());
            }
            let ps: Vec<(String, JsonValue)> = Vec::new();
            Some((JsonValue::Obj(ps), j1 + 1))
        } else {
            proof {
                if j1 < len {
                    assert(suffix(s@, j1 as int)[0] == s@[j1 as int]);
                }
            }
            match parse_members_exec(s, j0 + 1, fuel - 1) {
                Some((ps, j2)) => Some((JsonValue::Obj(ps), j2)),
                None => None,
            }
        }
    } else {
        let dd = char_digit_exec(c);
        if c == '-' || dd >= 0 {
            match parse_int_exec(s, j0) {
                Some((v, j1)) => Some((JsonValue::Int(v), j1)),
                None => None,
            }
        } else {
            None
        }
    }
}

fn parse_items_exec(s: &Vec<char>, i: usize, fuel: u64) -> (r: Option<(Vec<JsonValue>, usize)>)
    requires
        i <= s@.len(),
    ensures
        match r {
            Some(p) => p.1 <= s@.len() && spec_parse_items(suffix(s@, i as int), fuel as nat)
                == Some((JsonValue::view_arr(p.0@), suffix(s@, p.1 as int))),
            None => spec_parse_items(suffix(s@, i as int), fuel as nat) is None,
        },
    decreases fuel, 1int,
{
    if fuel == 0 {
        return None;
    }
    let len = s.len();
    match parse_value_exec(s, i, fuel - 1) {
        None => None,
        Some((v, j)) => {
            let j2 = skip_ws_exec(s, j);
            if j2 == len {
                return None;
            }
            proof {
                assert(suffix(s@, j2 as int)[0] == s@[j2 as int]);
                assert(suffix(s@, j2 as int).subrange(
                    1,
                    suffix(s@, j2 as int).len() as int,
                ) =~= suffix(s@, j2 as int + 1));
            }
            let c = s[j2];
            if c == ']' {
                let ghost vv = v;
                let mut vs: Vec<JsonValue> = Vec::new();
                vs.push(v);
                proof {
                    assert(vs@ =~= seq![vv]);
                    lemma_view_arr_len_index(seq![vv]);
                    assert(JsonValue::view_arr(seq![vv]) =~= seq![vv@]);
                }
                Some((vs, j2 + 1))
            } else if c == ',' {
                match parse_items_exec(s, j2 + 1, fuel - 1) {
                    Some((mut vs, j3)) => {
                        let ghost vv = v;
                        let ghost before = vs@;
                        vs.insert(0, v);
                        proof {
                            assert(vs@ =~= seq![vv] + before);
                            let whole = seq![vv] + before;
                            assert(whole.subrange(1, whole.len() as int) =~= before);
                            assert(JsonValue::view_arr(whole) =~= seq![vv@]
                                + JsonValue::view_arr(before));
                        }
                        Some((vs, j3))
                    },
                    None => None,
                }
            } else {
                None
            }
        },
    }
}

fn parse_members_exec(s: &Vec<char>, i: usize, fuel: u64) -> (r: Option<
    (Vec<(String, JsonValue)>, usize),
>)
    requires
        i <= s@.len(),
    ensures
        match r {
            Some(p) => p.1 <= s@.len() && spec_parse_members(suffix(s@, i as int), fuel as nat)
                == Some((JsonValue::view_obj(p.0@), suffix(s@, p.1 as int))),
            None => spec_parse_members(suffix(s@, i as int), fuel as nat) is None,
        },
    decreases fuel, 1int,
{
    if fuel == 0 {
        return None;
    }
    let len = s.len();
    let j0 = skip_ws_exec(s, i);
    if j0 == len {
        return None;
    }
    proof {
        assert(suffix(s@, j0 as int)[0] == s@[j0 as int]);
        assert(suffix(s@, j0 as int).subrange(1, suffix(s@, j0 as int).len() as int) =~= suffix(
            s@,
            j0 as int + 1,
        ));
    }
    if s[j0] != '"' {
        return None;
    }
    match parse_string_exec(s, j0 + 1) {
        None => None,
        Some((k, j1)) => {
            let j2 = skip_ws_exec(s, j1);
            if j2 == len {
                return None;
            }
            proof {
                assert(suffix(s@, j2 as int)[0] == s@[j2 as int]);
                assert(suffix(s@, j2 as int).subrange(
                    1,
                    suffix(s@, j2 as int).len() as int,
                ) =~= suffix(s@, j2 as int + 1));
            }
            if s[j2] != ':' {
                return None;
            }
            match parse_value_exec(s, j2 + 1, fuel - 1) {
                None => None,
                Some((v, j3)) => {
                    let j4 = skip_ws_exec(s, j3);
                    if j4 == len {
                        return None;
                    }
                    proof {
                        assert(suffix(s@, j4 as int)[0] == s@[j4 as int]);
                        assert(suffix(s@, j4 as int).subrange(
                            1,
                            suffix(s@, j4 as int).len() as int,
                        ) =~= suffix(s@, j4 as int + 1));
                    }
                    let c = s[j4];
                    if c == '}' {
                        let ghost kv = k;
                        let ghost vv = v;
                        let mut ps: Vec<(String, JsonValue)> = Vec::new();
                        ps.push((k, v));
                        proof {
                            assert(ps@ =~= seq![(kv, vv)]);
                            lemma_view_obj_len_index(seq![(kv, vv)]);
                            assert(JsonValue::view_obj(ps@) =~= seq![(kv@, vv@)]);
                        }
                        Some((ps, j4 + 1))
                    } else if c == ',' {
                        match parse_members_exec(s, j4 + 1, fuel - 1) {
                            Some((mut ps, j5)) => {
                                let ghost kv = k;
                                let ghost vv = v;
                                let ghost before = ps@;
                                ps.insert(0, (k, v));
                                proof {
                                    assert(ps@ =~= seq![(kv, vv)] + before);
                                    let whole = seq![(kv, vv)] + before;
                                    assert(whole.subrange(1, whole.len() as int) =~= before);
                                    assert(JsonValue::view_obj(whole) =~= seq![(kv@, vv@)]
                                        + JsonValue::view_obj(before));
                                }
                                Some((ps, j5))
                            },
                            None => None,
                        }
                    } else {
                        None
                    }
                },
            }
        },
    }
}

/// The value a whole document holds, if the text is well formed.
pub fn decode_json(text: &str) -> (r: Option<JsonValue>)
    requires
        text@.len() < 0x1000_0000_0000_0000,
    ensures
        match r {
            Some(v) => spec_parse_json(text@) == Some(v@),
            None => spec_parse_json(text@) is None,
        },
{
    let chars = str_to_chars(text);
    let len = chars.len();
    let fuel: u64 = 2 * (len as u64) + 2;
    proof {
        assert(fuel as nat == parse_fuel(text@));
        assert(suffix(chars@, 0) =~= text@);
    }
    match parse_value_exec(&chars, 0, fuel) {
        None => None,
        Some((v, j)) => {
            let j2 = skip_ws_exec(&chars, j);
            if j2 == len {
                Some(v)
            } else {
                None
            }
        },
    }
}

/// The canonical wire text of a value.
pub fn encode_json(v: &JsonValue) -> (r: String)
    ensures
        r@ == spec_encode(v@),
{
    let mut out = String::new();
    encode_value(v, &mut out);
    proof {
        assert(Seq::<char>::empty() + spec_encode(v@) =~= spec_encode(v@));
    }
    out
}

} // verus!

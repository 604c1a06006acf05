use vstd::prelude::*;

verus! {

/// Abstract form of a structured wire value: the mathematical object that
/// contracts and proofs speak of.
pub enum SpecJson {
    Null,
    Bool(bool),
    Int(int),
    Str(Seq<char>),
    Arr(Seq<SpecJson>),
    Obj(Seq<(Seq<char>, SpecJson)>),
}

/// A structured wire value: null, boolean, integer, string, array or object.
/// Objects keep their members in wire order; duplicate keys are kept as
/// received, and lookups take the first occurrence. Fractional numbers are
/// outside this core's data model.
#[derive(Debug)]
pub enum JsonValue {
    Null,
    Bool(bool),
    Int(i64),
    Str(String),
    Arr(Vec<JsonValue>),
    Obj(Vec<(String, JsonValue)>),
}

impl JsonValue {
    pub open spec fn view(self) -> SpecJson
        decreases self, 0int,
    {
        match self {
            JsonValue::Null => SpecJson::Null,
            JsonValue::Bool(b) => SpecJson::Bool(b),
            JsonValue::Int(i) => SpecJson::Int(i as int),
            JsonValue::Str(s) => SpecJson::Str(s@),
            JsonValue::Arr(xs) => SpecJson::Arr(Self::view_arr(xs@)),
            JsonValue::Obj(ps) => SpecJson::Obj(Self::view_obj(ps@)),
        }
    }

    pub open spec fn view_arr(s: Seq<JsonValue>) -> Seq<SpecJson>
        decreases s, 1int,
    {
        if s.len() == 0 {
            Seq::empty()
        } else {
            seq![s[0].view()] + Self::view_arr(s.subrange(1, s.len() as int))
        }
    }

    pub open spec fn view_obj(s: Seq<(String, JsonValue)>) -> Seq<(Seq<char>, SpecJson)>
        decreases s, 1int,
    {
        if s.len() == 0 {
            Seq::empty()
        } else {
            seq![(s[0].0@, s[0].1.view())] + Self::view_obj(s.subrange(1, s.len() as int))
        }
    }
}

/// A value is well formed when every integer in it fits the wire integer
/// width. Views of executable values are always well formed.
pub open spec fn wf_json(v: SpecJson) -> bool
    decreases v, 0int,
{
    match v {
        SpecJson::Null => true,
        SpecJson::Bool(_) => true,
        SpecJson::Int(i) => i64::MIN <= i <= i64::MAX,
        SpecJson::Str(_) => true,
        SpecJson::Arr(xs) => wf_json_arr(xs),
        SpecJson::Obj(ps) => wf_json_obj(ps),
    }
}

pub open spec fn wf_json_arr(xs: Seq<SpecJson>) -> bool
    decreases xs, 1int,
{
    if xs.len() == 0 {
        true
    } else {
        wf_json(xs[0]) && wf_json_arr(xs.subrange(1, xs.len() as int))
    }
}

pub open spec fn wf_json_obj(ps: Seq<(Seq<char>, SpecJson)>) -> bool
    decreases ps, 1int,
{
    if ps.len() == 0 {
        true
    } else {
        wf_json(ps[0].1) && wf_json_obj(ps.subrange(1, ps.len() as int))
    }
}

// ---------------------------------------------------------------------------
// Characters
// ---------------------------------------------------------------------------

pub open spec fn is_ws_char(c: char) -> bool {
    c == ' ' || c == '\t' || c == '\n' || c == '\r'
}

pub open spec fn digit_char(d: int) -> char {
    if d == 0 { '0' }
    else if d == 1 { '1' }
    else if d == 2 { '2' }
    else if d == 3 { '3' }
    else if d == 4 { '4' }
    else if d == 5 { '5' }
    else if d == 6 { '6' }
    else if d == 7 { '7' }
    else if d == 8 { '8' }
    else { '9' }
}

pub open spec fn char_digit(c: char) -> int {
    if c == '0' { 0 }
    else if c == '1' { 1 }
    else if c == '2' { 2 }
    else if c == '3' { 3 }
    else if c == '4' { 4 }
    else if c == '5' { 5 }
    else if c == '6' { 6 }
    else if c == '7' { 7 }
    else if c == '8' { 8 }
    else if c == '9' { 9 }
    else { -1 }
}

pub open spec fn is_digit_char(c: char) -> bool {
    char_digit(c) >= 0
}

pub open spec fn hex_char(d: int) -> char {
    if d < 10 { digit_char(d) }
    else if d == 10 { 'a' }
    else if d == 11 { 'b' }
    else if d == 12 { 'c' }
    else if d == 13 { 'd' }
    else if d == 14 { 'e' }
    else { 'f' }
}

pub open spec fn hex_digit_val(c: char) -> int {
    if is_digit_char(c) { char_digit(c) }
    else if c == 'a' || c == 'A' { 10 }
    else if c == 'b' || c == 'B' { 11 }
    else if c == 'c' || c == 'C' { 12 }
    else if c == 'd' || c == 'D' { 13 }
    else if c == 'e' || c == 'E' { 14 }
    else if c == 'f' || c == 'F' { 15 }
    else { -1 }
}

// ---------------------------------------------------------------------------
// Encoding
// ---------------------------------------------------------------------------

/// Decimal digits of a non-negative integer, most significant first.
pub open spec fn dec_digits(n: nat) -> Seq<char>
    decreases n,
{
    if n < 10 {
        seq![digit_char(n as int)]
    } else {
        dec_digits(n / 10) + seq![digit_char((n % 10) as int)]
    }
}

pub open spec fn spec_encode_int(i: int) -> Seq<char> {
    if i < 0 {
        seq!['-'] + dec_digits((-i) as nat)
    } else {
        dec_digits(i as nat)
    }
}

/// The characters a single string character is written as on the wire.
pub open spec fn escape_char(c: char) -> Seq<char> {
    if c == '"' { seq!['\\', '"'] }
    else if c == '\\' { seq!['\\', '\\'] }
    else if c == '\n' { seq!['\\', 'n'] }
    else if c == '\r' { seq!['\\', 'r'] }
    else if c == '\t' { seq!['\\', 't'] }
    else if (c as u32) < 32 {
        seq!['\\', 'u', '0', '0', hex_char((c as u32) as int / 16), hex_char((c as u32) as int % 16)]
    } else {
        seq![c]
    }
}

pub open spec fn spec_escape(s: Seq<char>) -> Seq<char>
    decreases s.len(),
{
    if s.len() == 0 {
        Seq::empty()
    } else {
        escape_char(s[0]) + spec_escape(s.subrange(1, s.len() as int))
    }
}

/// Canonical wire text of a value: no whitespace, members in order.
pub open spec fn spec_encode(v: SpecJson) -> Seq<char>
    decreases v, 0int,
{
    match v {
        SpecJson::Null => seq!['n', 'u', 'l', 'l'],
        SpecJson::Bool(b) => if b {
            seq!['t', 'r', 'u', 'e']
        } else {
            seq!['f', 'a', 'l', 's', 'e']
        },
        SpecJson::Int(i) => spec_encode_int(i),
        SpecJson::Str(s) => seq!['"'] + spec_escape(s) + seq!['"'],
        SpecJson::Arr(xs) => if xs.len() == 0 {
            seq!['[', ']']
        } else {
            seq!['['] + spec_encode_items(xs) + seq![']']
        },
        SpecJson::Obj(ps) => if ps.len() == 0 {
            seq!['{', '}']
        } else {
            seq!['{'] + spec_encode_members(ps) + seq!['}']
        },
    }
}

/// Comma-separated encodings of one or more array items.
pub open spec fn spec_encode_items(xs: Seq<SpecJson>) -> Seq<char>
    decreases xs, 1int,
{
    if xs.len() == 0 {
        Seq::empty()
    } else if xs.len() == 1 {
        spec_encode(xs[0])
    } else {
        spec_encode(xs[0]) + seq![','] + spec_encode_items(xs.subrange(1, xs.len() as int))
    }
}

/// Comma-separated encodings of one or more object members.
pub open spec fn spec_encode_members(ps: Seq<(Seq<char>, SpecJson)>) -> Seq<char>
    decreases ps, 1int,
{
    if ps.len() == 0 {
        Seq::empty()
    } else if ps.len() == 1 {
        spec_encode_member(ps[0])
    } else {
        spec_encode_member(ps[0]) + seq![','] + spec_encode_members(
            ps.subrange(1, ps.len() as int),
        )
    }
}

pub open spec fn spec_encode_member(p: (Seq<char>, SpecJson)) -> Seq<char>
    decreases p, 1int,
{
    seq!['"'] + spec_escape(p.0) + seq!['"', ':'] + spec_encode(p.1)
}

// ---------------------------------------------------------------------------
// Decoding
// ---------------------------------------------------------------------------

pub open spec fn skip_ws(s: Seq<char>) -> Seq<char>
    decreases s.len(),
{
    if s.len() > 0 && is_ws_char(s[0]) {
        skip_ws(s.subrange(1, s.len() as int))
    } else {
        s
    }
}

/// The character an escape sequence introducer is followed by, mapped to the
/// character it stands for; anything else is a decode error.
pub open spec fn unescape_char(e: char) -> Option<char> {
    if e == '"' { Some('"') }
    else if e == '\\' { Some('\\') }
    else if e == '/' { Some('/') }
    else if e == 'b' { Some('\u{8}') }
    else if e == 'f' { Some('\u{c}') }
    else if e == 'n' { Some('\n') }
    else if e == 'r' { Some('\r') }
    else if e == 't' { Some('\t') }
    else { None }
}

/// Body of a wire string after its opening quote: the decoded characters and
/// the text after the closing quote. Hex escapes are accepted in the form
/// `\u00XX`; raw control characters are refused.
pub open spec fn spec_parse_string(s: Seq<char>) -> Option<(Seq<char>, Seq<char>)>
    decreases s.len(),
{
    if s.len() == 0 {
        None
    } else if s[0] == '"' {
        Some((Seq::empty(), s.subrange(1, s.len() as int)))
    } else if s[0] == '\\' {
        if s.len() < 2 {
            None
        } else if s[1] == 'u' {
            if s.len() < 6 || s[2] != '0' || s[3] != '0' || hex_digit_val(s[4]) < 0
                || hex_digit_val(s[5]) < 0 {
                None
            } else {
                let c = ((hex_digit_val(s[4]) * 16 + hex_digit_val(s[5])) as u8) as char;
                match spec_parse_string(s.subrange(6, s.len() as int)) {
                    Some(tr) => Some((seq![c] + tr.0, tr.1)),
                    None => None,
                }
            }
        } else {
            match unescape_char(s[1]) {
                Some(c) => match spec_parse_string(s.subrange(2, s.len() as int)) {
                    Some(tr) => Some((seq![c] + tr.0, tr.1)),
                    None => None,
                },
                None => None,
            }
        }
    } else if (s[0] as u32) < 32 {
        None
    } else {
        match spec_parse_string(s.subrange(1, s.len() as int)) {
            Some(tr) => Some((seq![s[0]] + tr.0, tr.1)),
            None => None,
        }
    }
}

/// Longest digit prefix and the rest.
pub open spec fn take_digits(s: Seq<char>) -> (Seq<char>, Seq<char>)
    decreases s.len(),
{
    if s.len() > 0 && is_digit_char(s[0]) {
        let dr = take_digits(s.subrange(1, s.len() as int));
        (seq![s[0]] + dr.0, dr.1)
    } else {
        (Seq::empty(), s)
    }
}

/// Value of a digit string, most significant first.
pub open spec fn digits_val(d: Seq<char>) -> int
    decreases d.len(),
{
    if d.len() == 0 {
        0
    } else {
        digits_val(d.subrange(0, d.len() - 1)) * 10 + char_digit(d[d.len() - 1])
    }
}

/// A wire integer: an optional minus sign and decimal digits. Values outside
/// the wire integer width are refused.
pub open spec fn spec_parse_int(s: Seq<char>) -> Option<(SpecJson, Seq<char>)> {
    if s.len() > 0 && s[0] == '-' {
        let dr = take_digits(s.subrange(1, s.len() as int));
        if dr.0.len() == 0 {
            None
        } else if digits_val(dr.0) > 0x8000_0000_0000_0000 {
            None
        } else {
            Some((SpecJson::Int(-digits_val(dr.0)), dr.1))
        }
    } else {
        let dr = take_digits(s);
        if dr.0.len() == 0 {
            None
        } else if digits_val(dr.0) > 0x7fff_ffff_ffff_ffff {
            None
        } else {
            Some((SpecJson::Int(digits_val(dr.0)), dr.1))
        }
    }
}

/// One wire value, after optional whitespace, and the text after it.
/// The fuel bounds the work; `parse_fuel` below always suffices.
pub open spec fn spec_parse_value(s: Seq<char>, fuel: nat) -> Option<(SpecJson, Seq<char>)>
    decreases fuel,
{
    if fuel == 0 {
        None
    } else {
        let t = skip_ws(s);
        if t.len() == 0 {
            None
        } else if t[0] == 'n' {
            if t.len() >= 4 && t[1] == 'u' && t[2] == 'l' && t[3] == 'l' {
                Some((SpecJson::Null, t.subrange(4, t.len() as int)))
            } else {
                None
            }
        } else if t[0] == 't' {
            if t.len() >= 4 && t[1] == 'r' && t[2] == 'u' && t[3] == 'e' {
                Some((SpecJson::Bool(true), t.subrange(4, t.len() as int)))
            } else {
                None
            }
        } else if t[0] == 'f' {
            if t.len() >= 5 && t[1] == 'a' && t[2] == 'l' && t[3] == 's' && t[4] == 'e' {
                Some((SpecJson::Bool(false), t.subrange(5, t.len() as int)))
            } else {
                None
            }
        } else if t[0] == '"' {
            match spec_parse_string(t.subrange(1, t.len() as int)) {
                Some(cr) => Some((SpecJson::Str(cr.0), cr.1)),
                None => None,
            }
        } else if t[0] == '[' {
            let u = skip_ws(t.subrange(1, t.len() as int));
            if u.len() > 0 && u[0] == ']' {
                Some((SpecJson::Arr(Seq::empty()), u.subrange(1, u.len() as int)))
            } else {
                match spec_parse_items(t.subrange(1, t.len() as int), (fuel - 1) as nat) {
                    Some(xr) => Some((SpecJson::Arr(xr.0), xr.1)),
                    None => None,
                }
            }
        } else if t[0] == '{' {
            let u = skip_ws(t.subrange(1, t.len() as int));
            if u.len() > 0 && u[0] == '}' {
                Some((SpecJson::Obj(Seq::empty()), u.subrange(1, u.len() as int)))
            } else {
                match spec_parse_members(t.subrange(1, t.len() as int), (fuel - 1) as nat) {
                    Some(pr) => Some((SpecJson::Obj(pr.0), pr.1)),
                    None => None,
                }
            }
        } else if t[0] == '-' || is_digit_char(t[0]) {
            spec_parse_int(t)
        } else {
            None
        }
    }
}

/// One or more comma-separated array items followed by the closing bracket.
pub open spec fn spec_parse_items(s: Seq<char>, fuel: nat) -> Option<(Seq<SpecJson>, Seq<char>)>
    decreases fuel,
{
    if fuel == 0 {
        None
    } else {
        match spec_parse_value(s, (fuel - 1) as nat) {
            None => None,
            Some(vr) => {
                let r = skip_ws(vr.1);
                if r.len() == 0 {
                    None
                } else if r[0] == ']' {
                    Some((seq![vr.0], r.subrange(1, r.len() as int)))
                } else if r[0] == ',' {
                    match spec_parse_items(r.subrange(1, r.len() as int), (fuel - 1) as nat) {
                        Some(xr) => Some((seq![vr.0] + xr.0, xr.1)),
                        None => None,
                    }
                } else {
                    None
                }
            },
        }
    }
}

/// One or more comma-separated object members followed by the closing brace.
pub open spec fn spec_parse_members(s: Seq<char>, fuel: nat) -> Option<
    (Seq<(Seq<char>, SpecJson)>, Seq<char>),
>
    decreases fuel,
{
    if fuel == 0 {
        None
    } else {
        let t = skip_ws(s);
        if t.len() == 0 || t[0] != '"' {
            None
        } else {
            match spec_parse_string(t.subrange(1, t.len() as int)) {
                None => None,
                Some(kr) => {
                    let u = skip_ws(kr.1);
                    if u.len() == 0 || u[0] != ':' {
                        None
                    } else {
                        match spec_parse_value(
                            u.subrange(1, u.len() as int),
                            (fuel - 1) as nat,
                        ) {
                            None => None,
                            Some(vr) => {
                                let r = skip_ws(vr.1);
                                if r.len() == 0 {
                                    None
                                } else if r[0] == '}' {
                                    Some((seq![(kr.0, vr.0)], r.subrange(1, r.len() as int)))
                                } else if r[0] == ',' {
                                    match spec_parse_members(
                                        r.subrange(1, r.len() as int),
                                        (fuel - 1) as nat,
                                    ) {
                                        Some(pr) => Some((seq![(kr.0, vr.0)] + pr.0, pr.1)),
                                        None => None,
                                    }
                                } else {
                                    None
                                }
                            },
                        }
                    }
                },
            }
        }
    }
}

/// The fuel a whole document can need: two steps per character cover the
/// deepest possible nesting.
pub open spec fn parse_fuel(s: Seq<char>) -> nat {
    2 * s.len() + 2
}

/// A whole document: one value and nothing but whitespace after it.
pub open spec fn spec_parse_json(s: Seq<char>) -> Option<SpecJson> {
    match spec_parse_value(s, parse_fuel(s)) {
        None => None,
        Some(vr) => if skip_ws(vr.1).len() == 0 {
            Some(vr.0)
        } else {
            None
        },
    }
}

// ---------------------------------------------------------------------------
// Round trip: decoding the canonical text of a value gives the value back
// ---------------------------------------------------------------------------

/// Characters that may legally follow a complete value inside a document.
pub open spec fn sep_ok(rest: Seq<char>) -> bool {
    rest.len() == 0 || rest[0] == ',' || rest[0] == ']' || rest[0] == '}'
}

proof fn lemma_skip_ws_id(s: Seq<char>)
    requires
        s.len() == 0 || !is_ws_char(s[0]),
    ensures
        skip_ws(s) == s,
{
}

proof fn lemma_dec_digits_shape(n: nat)
    ensures
        dec_digits(n).len() >= 1,
        forall|i: int| 0 <= i < dec_digits(n).len() ==> is_digit_char(#[trigger] dec_digits(n)[i]),
    decreases n,
{
    if n >= 10 {
        lemma_dec_digits_shape(n / 10);
        assert forall|i: int| 0 <= i < dec_digits(n).len() implies is_digit_char(
            #[trigger] dec_digits(n)[i],
        ) by {
            if i < dec_digits(n / 10).len() {
                assert(dec_digits(n)[i] == dec_digits(n / 10)[i]);
            } else {
                assert(dec_digits(n)[i] == digit_char((n % 10) as int));
            }
        }
    }
}

proof fn lemma_digits_val_dec_digits(n: nat)
    ensures
        digits_val(dec_digits(n)) == n,
    decreases n,
{
    if n < 10 {
        assert(digits_val(dec_digits(n)) == digits_val(Seq::<char>::empty()) * 10 + char_digit(
            digit_char(n as int),
        )) by {
            assert(dec_digits(n).subrange(0, 0) =~= Seq::<char>::empty());
        }
    } else {
        lemma_digits_val_dec_digits(n / 10);
        let d = dec_digits(n);
        let front = dec_digits(n / 10);
        assert(d.subrange(0, d.len() - 1) =~= front);
        assert(d[d.len() - 1] == digit_char((n % 10) as int));
        assert(n / 10 * 10 + n % 10 == n) by {
            vstd::arithmetic::div_mod::lemma_fundamental_div_mod(n as int, 10);
        }
    }
}

/// Distinct numbers have distinct decimal texts.
pub proof fn lemma_dec_digits_injective(a: nat, b: nat)
    requires
        dec_digits(a) == dec_digits(b),
    ensures
        a == b,
{
    lemma_digits_val_dec_digits(a);
    lemma_digits_val_dec_digits(b);
}

pub(crate) proof fn lemma_take_digits_exact(d: Seq<char>, rest: Seq<char>)
    requires
        forall|i: int| 0 <= i < d.len() ==> is_digit_char(#[trigger] d[i]),
        rest.len() == 0 || !is_digit_char(rest[0]),
    ensures
        take_digits(d + rest) == (d, rest),
    decreases d.len(),
{
    if d.len() == 0 {
        assert(d + rest =~= rest);
        if rest.len() > 0 {
            assert(take_digits(rest) == (Seq::<char>::empty(), rest));
        }
        assert(take_digits(d + rest).0 =~= d);
    } else {
        let s = d + rest;
        assert(s[0] == d[0]);
        assert(s.subrange(1, s.len() as int) =~= d.subrange(1, d.len() as int) + rest);
        lemma_take_digits_exact(d.subrange(1, d.len() as int), rest);
        assert(seq![s[0]] + d.subrange(1, d.len() as int) =~= d);
    }
}

proof fn lemma_parse_string_escape(s: Seq<char>, rest: Seq<char>)
    ensures
        spec_parse_string(spec_escape(s) + seq!['"'] + rest) == Some((s, rest)),
    decreases s.len(),
{
    let w = spec_escape(s) + seq!['"'] + rest;
    if s.len() == 0 {
        assert(w =~= seq!['"'] + rest);
        assert(w[0] == '"');
        assert(w.subrange(1, w.len() as int) =~= rest);
    } else {
        let c = s[0];
        let tail = s.subrange(1, s.len() as int);
        let wt = spec_escape(tail) + seq!['"'] + rest;
        lemma_parse_string_escape(tail, rest);
        assert(w =~= escape_char(c) + wt);
        assert(seq![c] + tail =~= s);
        if c == '"' || c == '\\' || c == '\n' || c == '\r' || c == '\t' {
            assert(w[0] == '\\');
            assert(w.subrange(2, w.len() as int) =~= wt);
        } else if (c as u32) < 32 {
            let cu = (c as u32) as int;
            let h1 = hex_char(cu / 16);
            let h2 = hex_char(cu % 16);
            assert(w[0] == '\\' && w[1] == 'u' && w[2] == '0' && w[3] == '0');
            assert(w[4] == h1 && w[5] == h2);
            assert(0 <= cu / 16 < 2 && 0 <= cu % 16 < 16) by {
                vstd::arithmetic::div_mod::lemma_fundamental_div_mod(cu, 16);
            }
            assert(hex_digit_val(h1) == cu / 16 && hex_digit_val(h2) == cu % 16);
            assert(hex_digit_val(h1) * 16 + hex_digit_val(h2) == cu) by {
                vstd::arithmetic::div_mod::lemma_fundamental_div_mod(cu, 16);
            }
            assert(((cu as u8) as char) == c) by {
                vstd::utf8::char_u32_cast(c, c as u32);
            }
            assert(w.subrange(6, w.len() as int) =~= wt);
        } else {
            assert(w[0] == c);
            assert(w.subrange(1, w.len() as int) =~= wt);
        }
    }
}

proof fn lemma_parse_int_encode(i: int, rest: Seq<char>)
    requires
        i64::MIN <= i <= i64::MAX,
        rest.len() == 0 || !is_digit_char(rest[0]),
    ensures
        spec_parse_int(spec_encode_int(i) + rest) == Some((SpecJson::Int(i), rest)),
{
    if i < 0 {
        let n = (-i) as nat;
        let s = spec_encode_int(i) + rest;
        assert(s[0] == '-');
        assert(!is_digit_char('-'));
        lemma_dec_digits_shape(n);
        lemma_digits_val_dec_digits(n);
        assert(s.subrange(1, s.len() as int) =~= dec_digits(n) + rest);
        lemma_take_digits_exact(dec_digits(n), rest);
    } else {
        let n = i as nat;
        let s = spec_encode_int(i) + rest;
        lemma_dec_digits_shape(n);
        lemma_digits_val_dec_digits(n);
        assert(s =~= dec_digits(n) + rest);
        lemma_take_digits_exact(dec_digits(n), rest);
        assert(s[0] == dec_digits(n)[0]);
        assert(s[0] != '-') by {
            assert(is_digit_char(dec_digits(n)[0]));
        }
    }
}

/// The first character of a canonical encoding tells the value's kind apart;
/// it is never whitespace, a separator or a closer.
proof fn lemma_encode_first(v: SpecJson)
    ensures
        spec_encode(v).len() >= 1,
        ({
            let c = spec_encode(v)[0];
            (c == 'n' || c == 't' || c == 'f' || c == '"' || c == '[' || c == '{' || c == '-'
                || is_digit_char(c)) && !is_ws_char(c) && c != ']' && c != '}' && c != ','
                && c != ':'
        }),
{
    match v {
        SpecJson::Null => {},
        SpecJson::Bool(_) => {},
        SpecJson::Int(i) => {
            if i < 0 {
                lemma_dec_digits_shape((-i) as nat);
                assert(spec_encode(v)[0] == '-');
            } else {
                lemma_dec_digits_shape(i as nat);
                assert(spec_encode(v)[0] == dec_digits(i as nat)[0]);
            }
        },
        SpecJson::Str(s) => {
            assert(spec_encode(v)[0] == '"');
        },
        SpecJson::Arr(xs) => {
            if xs.len() == 0 {
                assert(spec_encode(v)[0] == '[');
            } else {
                assert(spec_encode(v)[0] == '[');
            }
        },
        SpecJson::Obj(ps) => {
            if ps.len() == 0 {
                assert(spec_encode(v)[0] == '{');
            } else {
                assert(spec_encode(v)[0] == '{');
            }
        },
    }
}

proof fn lemma_parse_encode_value(v: SpecJson, rest: Seq<char>, fuel: nat)
    requires
        wf_json(v),
        sep_ok(rest),
        fuel >= 2 * spec_encode(v).len(),
    ensures
        spec_parse_value(spec_encode(v) + rest, fuel) == Some((v, rest)),
    decreases v, 0int,
{
    let s = spec_encode(v) + rest;
    lemma_encode_first(v);
    assert(s[0] == spec_encode(v)[0]);
    lemma_skip_ws_id(s);
    match v {
        SpecJson::Null => {
            assert(s.subrange(4, s.len() as int) =~= rest);
        },
        SpecJson::Bool(b) => {
            if b {
                assert(s.subrange(4, s.len() as int) =~= rest);
            } else {
                assert(s.subrange(5, s.len() as int) =~= rest);
            }
        },
        SpecJson::Int(i) => {
            assert(s =~= spec_encode_int(i) + rest);
            lemma_parse_int_encode(i, rest);
        },
        SpecJson::Str(str) => {
            assert(s.subrange(1, s.len() as int) =~= spec_escape(str) + seq!['"'] + rest);
            lemma_parse_string_escape(str, rest);
        },
        SpecJson::Arr(xs) => {
            if xs.len() == 0 {
                let u = skip_ws(s.subrange(1, s.len() as int));
                assert(s.subrange(1, s.len() as int) =~= seq![']'] + rest);
                lemma_skip_ws_id(seq![']'] + rest);
                assert(u[0] == ']');
                assert(u.subrange(1, u.len() as int) =~= rest);
                assert(xs =~= Seq::<SpecJson>::empty());
            } else {
                let inner = spec_encode_items(xs) + seq![']'] + rest;
                assert(s.subrange(1, s.len() as int) =~= inner);
                lemma_encode_first(xs[0]);
                assert(spec_encode_items(xs)[0] == spec_encode(xs[0])[0]);
                assert(inner[0] == spec_encode(xs[0])[0]);
                lemma_skip_ws_id(inner);
                lemma_parse_encode_items(xs, rest, (fuel - 1) as nat);
            }
        },
        SpecJson::Obj(ps) => {
            if ps.len() == 0 {
                let u = skip_ws(s.subrange(1, s.len() as int));
                assert(s.subrange(1, s.len() as int) =~= seq!['}'] + rest);
                lemma_skip_ws_id(seq!['}'] + rest);
                assert(u[0] == '}');
                assert(u.subrange(1, u.len() as int) =~= rest);
                assert(ps =~= Seq::<(Seq<char>, SpecJson)>::empty());
            } else {
                let inner = spec_encode_members(ps) + seq!['}'] + rest;
                assert(s.subrange(1, s.len() as int) =~= inner);
                lemma_encode_member_first(ps[0]);
                assert(spec_encode_members(ps)[0] == spec_encode_member(ps[0])[0]);
                assert(inner[0] == '"');
                lemma_skip_ws_id(inner);
                lemma_parse_encode_members(ps, rest, (fuel - 1) as nat);
            }
        },
    }
}

proof fn lemma_encode_member_first(p: (Seq<char>, SpecJson))
    ensures
        spec_encode_member(p).len() >= 4,
        spec_encode_member(p)[0] == '"',
{
    lemma_encode_first(p.1);
}

#[verifier::rlimit(100)]
#[verifier::spinoff_prover]
proof fn lemma_parse_encode_items(xs: Seq<SpecJson>, rest: Seq<char>, fuel: nat)
    requires
        wf_json_arr(xs),
        xs.len() >= 1,
        fuel >= 2 * spec_encode_items(xs).len() + 2,
    ensures
        spec_parse_items(spec_encode_items(xs) + seq![']'] + rest, fuel) == Some((xs, rest)),
    decreases xs, 1int,
{
    let s = spec_encode_items(xs) + seq![']'] + rest;
    let x0 = xs[0];
    lemma_encode_first(x0);
    if xs.len() == 1 {
        let rest1 = seq![']'] + rest;
        assert(s =~= spec_encode(x0) + rest1);
        lemma_parse_encode_value(x0, rest1, (fuel - 1) as nat);
        lemma_skip_ws_id(rest1);
        assert(rest1.subrange(1, rest1.len() as int) =~= rest);
        assert(seq![x0] =~= xs);
    } else {
        let tail = xs.subrange(1, xs.len() as int);
        let rest1 = seq![','] + spec_encode_items(tail) + seq![']'] + rest;
        assert(s =~= spec_encode(x0) + rest1);
        lemma_parse_encode_value(x0, rest1, (fuel - 1) as nat);
        lemma_skip_ws_id(rest1);
        assert(rest1.subrange(1, rest1.len() as int) =~= spec_encode_items(tail) + seq![']']
            + rest);
        lemma_parse_encode_items(tail, rest, (fuel - 1) as nat);
        assert(seq![x0] + tail =~= xs);
    }
}

#[verifier::rlimit(100)]
#[verifier::spinoff_prover]
proof fn lemma_parse_encode_members(
    ps: Seq<(Seq<char>, SpecJson)>,
    rest: Seq<char>,
    fuel: nat,
)
    requires
        wf_json_obj(ps),
        ps.len() >= 1,
        fuel >= 2 * spec_encode_members(ps).len() + 2,
    ensures
        spec_parse_members(spec_encode_members(ps) + seq!['}'] + rest, fuel) == Some((ps, rest)),
    decreases ps, 1int,
{
    let s = spec_encode_members(ps) + seq!['}'] + rest;
    let k0 = ps[0].0;
    let v0 = ps[0].1;
    lemma_encode_first(v0);
    assert(spec_encode_member(ps[0]) == seq!['"'] + spec_escape(k0) + seq!['"', ':']
        + spec_encode(v0));
    if ps.len() == 1 {
        let vrest = seq!['}'] + rest;
        assert(s[0] == '"');
        lemma_skip_ws_id(s);
        assert(s.subrange(1, s.len() as int) =~= spec_escape(k0) + seq!['"'] + (seq![':']
            + spec_encode(v0) + vrest));
        lemma_parse_string_escape(k0, seq![':'] + spec_encode(v0) + vrest);
        let after_key = seq![':'] + spec_encode(v0) + vrest;
        lemma_skip_ws_id(after_key);
        assert(after_key.subrange(1, after_key.len() as int) =~= spec_encode(v0) + vrest);
        lemma_parse_encode_value(v0, vrest, (fuel - 1) as nat);
        lemma_skip_ws_id(vrest);
        assert(vrest.subrange(1, vrest.len() as int) =~= rest);
        assert(seq![(k0, v0)] =~= ps) by {
            assert(ps[0] == (k0, v0));
        }
    } else {
        let tail = ps.subrange(1, ps.len() as int);
        let vrest = seq![','] + spec_encode_members(tail) + seq!['}'] + rest;
        assert(s[0] == '"');
        lemma_skip_ws_id(s);
        assert(s.subrange(1, s.len() as int) =~= spec_escape(k0) + seq!['"'] + (seq![':']
            + spec_encode(v0) + vrest));
        lemma_parse_string_escape(k0, seq![':'] + spec_encode(v0) + vrest);
        let after_key = seq![':'] + spec_encode(v0) + vrest;
        lemma_skip_ws_id(after_key);
        assert(after_key.subrange(1, after_key.len() as int) =~= spec_encode(v0) + vrest);
        lemma_parse_encode_value(v0, vrest, (fuel - 1) as nat);
        lemma_skip_ws_id(vrest);
        assert(vrest.subrange(1, vrest.len() as int) =~= spec_encode_members(tail) + seq!['}']
            + rest);
        lemma_parse_encode_members(tail, rest, (fuel - 1) as nat);
        assert(seq![(k0, v0)] + tail =~= ps) by {
            assert(ps[0] == (k0, v0));
        }
    }
}

/// The view of an executable value is always well formed.
pub proof fn lemma_view_wf(v: JsonValue)
    ensures
        wf_json(v@),
    decreases v, 0int,
{
    match v {
        JsonValue::Arr(xs) => {
            lemma_view_wf_arr(xs@);
        },
        JsonValue::Obj(ps) => {
            lemma_view_wf_obj(ps@);
        },
        _ => {},
    }
}

proof fn lemma_view_wf_arr(s: Seq<JsonValue>)
    ensures
        wf_json_arr(JsonValue::view_arr(s)),
    decreases s, 1int,
{
    if s.len() > 0 {
        lemma_view_wf(s[0]);
        lemma_view_wf_arr(s.subrange(1, s.len() as int));
        let w = JsonValue::view_arr(s);
        assert(w.subrange(1, w.len() as int) =~= JsonValue::view_arr(
            s.subrange(1, s.len() as int),
        ));
    }
}

proof fn lemma_view_wf_obj(s: Seq<(String, JsonValue)>)
    ensures
        wf_json_obj(JsonValue::view_obj(s)),
    decreases s, 1int,
{
    if s.len() > 0 {
        lemma_view_wf(s[0].1);
        lemma_view_wf_obj(s.subrange(1, s.len() as int));
        let w = JsonValue::view_obj(s);
        assert(w.subrange(1, w.len() as int) =~= JsonValue::view_obj(
            s.subrange(1, s.len() as int),
        ));
    }
}

// ---------------------------------------------------------------------------
// Object member lookup
// ---------------------------------------------------------------------------

/// The value under the first member with the given key.
pub open spec fn obj_lookup(ps: Seq<(Seq<char>, SpecJson)>, k: Seq<char>) -> Option<SpecJson>
    decreases ps.len(),
{
    if ps.len() == 0 {
        None
    } else if ps[0].0 == k {
        Some(ps[0].1)
    } else {
        obj_lookup(ps.subrange(1, ps.len() as int), k)
    }
}

/// Member lookup on a value: something only for an object with the key.
pub open spec fn spec_get(v: SpecJson, k: Seq<char>) -> Option<SpecJson> {
    match v {
        SpecJson::Obj(ps) => obj_lookup(ps, k),
        _ => None,
    }
}

/// Relies on str's PartialEq: two string slices are equal exactly when their
/// character sequences are.
#[verifier::external_body]
pub fn str_eq(a: &str, b: &str) -> (r: bool)
    ensures
        r == (a@ == b@),
{
    a == b
}

impl JsonValue {
    /// The first member with the given key, if this is an object that has it.
    pub fn get<'a>(&'a self, key: &str) -> (r: Option<&'a JsonValue>)
        ensures
            match r {
                Some(w) => spec_get(self@, key@) == Some(w@),
                None => spec_get(self@, key@) is None,
            },
    {
        match self {
            JsonValue::Obj(ps) => {
                let ghost whole = ps@;
                proof {
                    assert(self@ == SpecJson::Obj(JsonValue::view_obj(whole)));
                    assert(whole.subrange(0, whole.len() as int) =~= whole);
                }
                let n = ps.len();
                let mut i: usize = 0;
                while i < n
                    invariant
                        i <= n,
                        n == ps@.len(),
                        ps@ == whole,
                        self@ == SpecJson::Obj(JsonValue::view_obj(whole)),
                        obj_lookup(JsonValue::view_obj(whole), key@) == obj_lookup(
                            JsonValue::view_obj(whole.subrange(i as int, whole.len() as int)),
                            key@,
                        ),
                    decreases n - i,
                {
                    proof {
                        crate::codec::lemma_view_obj_len_index(
                            whole.subrange(i as int, whole.len() as int),
                        );
                    }
                    if str_eq(ps[i].0.as_str(), key) {
                        proof {
                            let tail = whole.subrange(i as int, whole.len() as int);
                            crate::codec::lemma_view_obj_len_index(tail);
                            assert(tail[0] == whole[i as int]);
                            assert(JsonValue::view_obj(tail)[0] == (tail[0].0@, tail[0].1@));
                            assert(tail[0].0@ == key@);
                            assert(obj_lookup(JsonValue::view_obj(tail), key@) == Some(
                                tail[0].1@,
                            ));
                        }
                        return Some(&ps[i].1);
                    }
                    proof {
                        let tail = whole.subrange(i as int, whole.len() as int);
                        let w = JsonValue::view_obj(tail);
                        assert(w[0] == (tail[0].0@, tail[0].1@));
                        assert(w.subrange(1, w.len() as int) =~= JsonValue::view_obj(
                            tail.subrange(1, tail.len() as int),
                        )) by {
                            crate::codec::lemma_view_obj_len_index(tail);
                            crate::codec::lemma_view_obj_len_index(
                                tail.subrange(1, tail.len() as int),
                            );
                            assert(tail.subrange(1, tail.len() as int) =~= whole.subrange(
                                i as int + 1,
                                whole.len() as int,
                            ));
                        }
                        assert(tail.subrange(1, tail.len() as int) =~= whole.subrange(
                            i as int + 1,
                            whole.len() as int,
                        ));
                    }
                    i += 1;
                }
                proof {
                    assert(whole.subrange(n as int, whole.len() as int) =~= Seq::<
                        (String, JsonValue),
                    >::empty());
                    crate::codec::lemma_view_obj_len_index(Seq::<(String, JsonValue)>::empty());
                }
                None
            },
            _ => None,
        }
    }
}

/// A copy of a value with the same view.
pub fn clone_value(v: &JsonValue) -> (r: JsonValue)
    ensures
        r@ == v@,
    decreases v, 0int,
{
    match v {
        JsonValue::Null => JsonValue::Null,
        JsonValue::Bool(b) => JsonValue::Bool(*b),
        JsonValue::Int(i) => JsonValue::Int(*i),
        JsonValue::Str(s) => JsonValue::Str(s.clone()),
        JsonValue::Arr(xs) => {
            proof {
                assert(decreases_to!(*v => xs@));
            }
            JsonValue::Arr(clone_arr(xs))
        },
        JsonValue::Obj(ps) => {
            proof {
                assert(decreases_to!(*v => ps@));
            }
            JsonValue::Obj(clone_obj(ps))
        },
    }
}

pub(crate) fn clone_arr(xs: &Vec<JsonValue>) -> (r: Vec<JsonValue>)
    ensures
        JsonValue::view_arr(r@) == JsonValue::view_arr(xs@),
        r@.len() == xs@.len(),
        forall|i: int| 0 <= i < xs@.len() ==> #[trigger] r@[i]@ == xs@[i]@,
    decreases xs@, 1int,
{
    let mut r: Vec<JsonValue> = Vec::new();
    let n = xs.len();
    let mut i: usize = 0;
    while i < n
        invariant
            i <= n,
            n == xs@.len(),
            r@.len() == i,
            forall|k: int| 0 <= k < i ==> #[trigger] r@[k]@ == xs@[k]@,
        decreases n - i,
    {
        proof {
            assert(decreases_to!(xs@ => xs@[i as int]));
        }
        let c = clone_value(&xs[i]);
        r.push(c);
        i += 1;
    }
    proof {
        lemma_view_arr_eq(r@, xs@);
    }
    r
}

pub(crate) fn clone_obj(ps: &Vec<(String, JsonValue)>) -> (r: Vec<(String, JsonValue)>)
    ensures
        JsonValue::view_obj(r@) == JsonValue::view_obj(ps@),
        r@.len() == ps@.len(),
        forall|i: int| 0 <= i < ps@.len() ==> (#[trigger] r@[i]).0@ == ps@[i].0@ && r@[i].1@
            == ps@[i].1@,
    decreases ps@, 1int,
{
    let mut r: Vec<(String, JsonValue)> = Vec::new();
    let n = ps.len();
    let mut i: usize = 0;
    while i < n
        invariant
            i <= n,
            n == ps@.len(),
            r@.len() == i,
            forall|k: int| 0 <= k < i ==> (#[trigger] r@[k]).0@ == ps@[k].0@ && r@[k].1@
                == ps@[k].1@,
        decreases n - i,
    {
        proof {
            assert(decreases_to!(ps@ => ps@[i as int]));
            assert(decreases_to!(ps@[i as int] => ps@[i as int].1));
        }
        let k = ps[i].0.clone();
        let c = clone_value(&ps[i].1);
        r.push((k, c));
        i += 1;
    }
    proof {
        lemma_view_obj_eq(r@, ps@);
    }
    r
}

/// Two item sequences with pointwise equal views have equal views.
pub proof fn lemma_view_arr_eq(a: Seq<JsonValue>, b: Seq<JsonValue>)
    requires
        a.len() == b.len(),
        forall|i: int| 0 <= i < a.len() ==> #[trigger] a[i]@ == b[i]@,
    ensures
        JsonValue::view_arr(a) == JsonValue::view_arr(b),
{
    crate::codec::lemma_view_arr_len_index(a);
    crate::codec::lemma_view_arr_len_index(b);
    assert forall|i: int| 0 <= i < JsonValue::view_arr(a).len() implies JsonValue::view_arr(a)[i]
        == JsonValue::view_arr(b)[i] by {
        assert(a[i]@ == b[i]@);
    }
    assert(JsonValue::view_arr(a) =~= JsonValue::view_arr(b));
}

/// Two member sequences with pointwise equal views have equal views.
pub proof fn lemma_view_obj_eq(a: Seq<(String, JsonValue)>, b: Seq<(String, JsonValue)>)
    requires
        a.len() == b.len(),
        forall|i: int| 0 <= i < a.len() ==> (#[trigger] a[i]).0@ == b[i].0@ && a[i].1@ == b[i].1@,
    ensures
        JsonValue::view_obj(a) == JsonValue::view_obj(b),
{
    crate::codec::lemma_view_obj_len_index(a);
    crate::codec::lemma_view_obj_len_index(b);
    assert forall|i: int| 0 <= i < JsonValue::view_obj(a).len() implies JsonValue::view_obj(a)[i]
        == JsonValue::view_obj(b)[i] by {
        assert(a[i].0@ == b[i].0@ && a[i].1@ == b[i].1@);
    }
    assert(JsonValue::view_obj(a) =~= JsonValue::view_obj(b));
}

/// Appends one member, and says what that does to the member views.
pub fn push_member(ms: &mut Vec<(String, JsonValue)>, key: String, val: JsonValue)
    ensures
        JsonValue::view_obj(final(ms)@) == JsonValue::view_obj(old(ms)@).push((key@, val@)),
{
    let ghost kv = key;
    let ghost vv = val;
    let ghost prev = ms@;
    ms.push((key, val));
    proof {
        assert(ms@ =~= prev + seq![(kv, vv)]);
        crate::codec::lemma_view_obj_len_index(prev);
        crate::codec::lemma_view_obj_len_index(ms@);
        let w = JsonValue::view_obj(ms@);
        let t = JsonValue::view_obj(prev).push((kv@, vv@));
        assert forall|i: int| 0 <= i < w.len() implies w[i] == t[i] by {
            assert(w[i] == (ms@[i].0@, ms@[i].1@));
            if i < prev.len() {
                assert(ms@[i] == prev[i]);
                assert(JsonValue::view_obj(prev)[i] == (prev[i].0@, prev[i].1@));
            } else {
                assert(ms@[i] == (kv, vv));
            }
        }
        assert(w =~= t);
    }
}

// ---------------------------------------------------------------------------
// Shallow merge of object members
// ---------------------------------------------------------------------------

/// The position of the first member with the given key, or a negative value.
pub open spec fn find_key(ps: Seq<(Seq<char>, SpecJson)>, k: Seq<char>) -> int
    decreases ps.len(),
{
    if ps.len() == 0 {
        -1
    } else if ps[0].0 == k {
        0
    } else {
        let r = find_key(ps.subrange(1, ps.len() as int), k);
        if r < 0 {
            -1
        } else {
            r + 1
        }
    }
}

/// One incoming member merged in: it overwrites the member with its key in
/// place, or is appended when the key is new.
pub open spec fn merge_one(
    a: Seq<(Seq<char>, SpecJson)>,
    kv: (Seq<char>, SpecJson),
) -> Seq<(Seq<char>, SpecJson)> {
    let i = find_key(a, kv.0);
    if i < 0 {
        a.push(kv)
    } else {
        a.update(i, kv)
    }
}

/// Shallow union of two member lists: incoming keys overwrite, other existing
/// members survive in place.
pub open spec fn spec_merge(
    a: Seq<(Seq<char>, SpecJson)>,
    b: Seq<(Seq<char>, SpecJson)>,
) -> Seq<(Seq<char>, SpecJson)>
    decreases b.len(),
{
    if b.len() == 0 {
        a
    } else {
        spec_merge(merge_one(a, b[0]), b.subrange(1, b.len() as int))
    }
}

/// Merging one more incoming member merges it last.
pub proof fn lemma_merge_push(
    a: Seq<(Seq<char>, SpecJson)>,
    b: Seq<(Seq<char>, SpecJson)>,
    kv: (Seq<char>, SpecJson),
)
    ensures
        spec_merge(a, b.push(kv)) == merge_one(spec_merge(a, b), kv),
    decreases b.len(),
{
    if b.len() == 0 {
        assert(b.push(kv)[0] == kv);
        assert(b.push(kv).subrange(1, 1) =~= Seq::<(Seq<char>, SpecJson)>::empty());
        assert(spec_merge(a, b) == a);
        assert(spec_merge(merge_one(a, kv), Seq::<(Seq<char>, SpecJson)>::empty())
            == merge_one(a, kv));
    } else {
        assert(b.push(kv)[0] == b[0]);
        assert(b.push(kv).subrange(1, b.push(kv).len() as int) =~= b.subrange(
            1,
            b.len() as int,
        ).push(kv));
        lemma_merge_push(merge_one(a, b[0]), b.subrange(1, b.len() as int), kv);
    }
}

proof fn lemma_find_key_first(ps: Seq<(Seq<char>, SpecJson)>, k: Seq<char>, i: int)
    requires
        0 <= i < ps.len(),
        forall|m: int| 0 <= m < i ==> (#[trigger] ps[m]).0 != k,
        ps[i].0 == k,
    ensures
        find_key(ps, k) == i,
    decreases i,
{
    if i > 0 {
        let tail = ps.subrange(1, ps.len() as int);
        assert forall|m: int| 0 <= m < i - 1 implies (#[trigger] tail[m]).0 != k by {
            assert(tail[m] == ps[m + 1]);
        }
        assert(tail[i - 1] == ps[i]);
        lemma_find_key_first(tail, k, i - 1);
    }
}

proof fn lemma_find_key_none(ps: Seq<(Seq<char>, SpecJson)>, k: Seq<char>)
    requires
        forall|m: int| 0 <= m < ps.len() ==> (#[trigger] ps[m]).0 != k,
    ensures
        find_key(ps, k) == -1,
    decreases ps.len(),
{
    if ps.len() > 0 {
        let tail = ps.subrange(1, ps.len() as int);
        assert forall|m: int| 0 <= m < tail.len() implies (#[trigger] tail[m]).0 != k by {
            assert(tail[m] == ps[m + 1]);
        }
        lemma_find_key_none(tail, k);
    }
}

/// Overwrites the first member with the key, or appends a new member.
pub fn set_member(ms: &mut Vec<(String, JsonValue)>, key: String, val: JsonValue)
    ensures
        JsonValue::view_obj(final(ms)@) == merge_one(
            JsonValue::view_obj(old(ms)@),
            (key@, val@),
        ),
{
    let ghost whole = ms@;
    let ghost w = JsonValue::view_obj(whole);
    proof {
        crate::codec::lemma_view_obj_len_index(whole);
    }
    let n = ms.len();
    let mut i: usize = 0;
    while i < n
        invariant
            i <= n,
            n == ms@.len(),
            ms@ == whole,
            whole == old(ms)@,
            w == JsonValue::view_obj(whole),
            w.len() == whole.len(),
            forall|m: int| 0 <= m < whole.len() ==> #[trigger] w[m] == (
                whole[m].0@,
                whole[m].1@,
            ),
            forall|m: int| 0 <= m < i ==> (#[trigger] w[m]).0 != key@,
        decreases n - i,
    {
        if str_eq(ms[i].0.as_str(), key.as_str()) {
            proof {
                assert(w[i as int].0 == key@);
                lemma_find_key_first(w, key@, i as int);
            }
            let ghost kv = key;
            let ghost vv = val;
            ms.set(i, (key, val));
            proof {
                crate::codec::lemma_view_obj_len_index(ms@);
                let t = w.update(i as int, (kv@, vv@));
                assert forall|m: int| 0 <= m < JsonValue::view_obj(ms@).len() implies JsonValue::view_obj(
                    ms@,
                )[m] == t[m] by {
                    assert(JsonValue::view_obj(ms@)[m] == (ms@[m].0@, ms@[m].1@));
                    if m == i as int {
                        assert(ms@[m] == (kv, vv));
                    } else {
                        assert(ms@[m] == whole[m]);
                    }
                }
                assert(JsonValue::view_obj(ms@) =~= t);
            }
            return ;
        }
        proof {
            assert(w[i as int] == (whole[i as int].0@, whole[i as int].1@));
        }
        i += 1;
    }
    proof {
        lemma_find_key_none(w, key@);
    }
    push_member(ms, key, val);
}

/// Merges each incoming member in order: incoming keys overwrite, other
/// existing members survive.
pub fn merge_members(ms: &mut Vec<(String, JsonValue)>, patch: &Vec<(String, JsonValue)>)
    ensures
        JsonValue::view_obj(final(ms)@) == spec_merge(
            JsonValue::view_obj(old(ms)@),
            JsonValue::view_obj(patch@),
        ),
{
    let ghost a0 = JsonValue::view_obj(old(ms)@);
    let ghost bw = JsonValue::view_obj(patch@);
    proof {
        crate::codec::lemma_view_obj_len_index(patch@);
        assert(JsonValue::view_obj(patch@.subrange(0, 0)) =~= Seq::<
            (Seq<char>, SpecJson),
        >::empty());
        assert(patch@.subrange(0, 0) =~= Seq::<(String, JsonValue)>::empty());
    }
    let n = patch.len();
    let mut j: usize = 0;
    while j < n
        invariant
            j <= n,
            n == patch@.len(),
            bw == JsonValue::view_obj(patch@),
            bw.len() == patch@.len(),
            forall|m: int| 0 <= m < patch@.len() ==> #[trigger] bw[m] == (
                patch@[m].0@,
                patch@[m].1@,
            ),
            JsonValue::view_obj(ms@) == spec_merge(a0, bw.subrange(0, j as int)),
        decreases n - j,
    {
        let key = patch[j].0.clone();
        let val = crate::json::clone_value(&patch[j].1);
        set_member(ms, key, val);
        proof {
            assert(bw.subrange(0, j as int).push(bw[j as int]) =~= bw.subrange(0, j as int + 1));
            lemma_merge_push(a0, bw.subrange(0, j as int), bw[j as int]);
        }
        j += 1;
    }
    proof {
        assert(bw.subrange(0, n as int) =~= bw);
    }
}

impl Clone for JsonValue {
    fn clone(&self) -> (r: Self)
        ensures
            r@ == self@,
    {
        clone_value(self)
    }
}

/// Decoding the canonical text of any well-formed value gives the value back.
pub proof fn lemma_json_round_trip(v: SpecJson)
    requires
        wf_json(v),
    ensures
        spec_parse_json(spec_encode(v)) == Some(v),
{
    let s = spec_encode(v);
    assert(s =~= s + Seq::<char>::empty());
    lemma_parse_encode_value(v, Seq::empty(), parse_fuel(s));
}

/// Every executable value round-trips: its view is well formed, so decoding
/// its canonical text gives the view back.
pub proof fn lemma_value_round_trip(v: JsonValue)
    ensures
        spec_parse_json(spec_encode(v@)) == Some(v@),
{
    lemma_view_wf(v);
    lemma_json_round_trip(v@);
}

} // verus!

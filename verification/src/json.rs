//! JSON value model and codec.
//!
//! Text is carried as UTF-8 bytes throughout. String and number values
//! keep their lexical form: the bytes of a `Str` are the contents between
//! the quotes with escape sequences left intact, and a `Num` holds the
//! literal digits. This keeps serialization faithful to the source text
//! without committing to a numeric representation.
//!
//! The grammar is defined by the `spec` functions in this module; the
//! executable parser and serializer are proved to compute exactly what
//! those functions describe.
use vstd::prelude::*;

use crate::bytes::{is_ws, is_digit, is_hex, QUOTE, BACKSLASH, dec_of_u64, escape_from, escape_bytes, esc_byte};

verus! {

/// Mathematical model of a JSON value.
#[verifier::ext_equal]
pub enum JsonV {
    Null,
    Bool(bool),
    Num(Seq<u8>),
    Str(Seq<u8>),
    Arr(Seq<JsonV>),
    Obj(Seq<(Seq<u8>, JsonV)>),
}

/// Executable JSON value.
pub enum Json {
    Null,
    Bool(bool),
    Num(Vec<u8>),
    Str(Vec<u8>),
    Arr(Vec<Json>),
    Obj(Vec<(Vec<u8>, Json)>),
}

/// Model of one executable JSON value.
pub open spec fn view_json(j: Json) -> JsonV
    decreases j,
{
    match j {
        Json::Null => JsonV::Null,
        Json::Bool(b) => JsonV::Bool(b),
        Json::Num(n) => JsonV::Num(n@),
        Json::Str(s) => JsonV::Str(s@),
        Json::Arr(a) => JsonV::Arr(view_elems(a@)),
        Json::Obj(o) => JsonV::Obj(view_members(o@)),
    }
}

/// Model of a sequence of array elements.
pub open spec fn view_elems(s: Seq<Json>) -> Seq<JsonV>
    decreases s,
{
    Seq::new(
        s.len(),
        (|i: int|
            if 0 <= i < s.len() {
                view_json(s[i])
            } else {
                JsonV::Null
            }),
    )
}

/// Model of a sequence of object members.
pub open spec fn view_members(s: Seq<(Vec<u8>, Json)>) -> Seq<(Seq<u8>, JsonV)>
    decreases s,
{
    Seq::new(
        s.len(),
        (|i: int|
            if 0 <= i < s.len() {
                (s[i].0@, view_json(s[i].1))
            } else {
                (Seq::empty(), JsonV::Null)
            }),
    )
}

impl View for Json {
    type V = JsonV;

    open spec fn view(&self) -> JsonV {
        view_json(*self)
    }
}

// ------------------------------------------------------------------
// The grammar, as spec functions over byte sequences.
// ------------------------------------------------------------------

/// "null" as bytes.
pub open spec fn k_null() -> Seq<u8> {
    seq![110u8, 117, 108, 108]
}

/// "true" as bytes.
pub open spec fn k_true() -> Seq<u8> {
    seq![116u8, 114, 117, 101]
}

/// "false" as bytes.
pub open spec fn k_false() -> Seq<u8> {
    seq![102u8, 97, 108, 115, 101]
}

/// Whether the bytes of `lit` stand at position `i` of `s`.
pub open spec fn has_at(s: Seq<u8>, i: int, lit: Seq<u8>) -> bool {
    0 <= i && i + lit.len() <= s.len() && s.subrange(i, i + lit.len()) == lit
}

/// First position at or after `i` that does not hold whitespace.
pub open spec fn skip_ws(s: Seq<u8>, i: int) -> int
    decreases s.len() - i,
{
    if 0 <= i < s.len() && is_ws(s[i]) {
        skip_ws(s, i + 1)
    } else {
        i
    }
}

/// First position at or after `i` that does not hold a decimal digit.
pub open spec fn digits_end(s: Seq<u8>, i: int) -> int
    decreases s.len() - i,
{
    if 0 <= i < s.len() && is_digit(s[i]) {
        digits_end(s, i + 1)
    } else {
        i
    }
}

/// The escapes of one source byte: quote, backslash, slash, and the
/// letters of `\b \f \n \r \t`.
pub open spec fn is_simple_esc(b: u8) -> bool {
    b == QUOTE || b == BACKSLASH || b == 47 || b == 98 || b == 102 || b == 110 || b == 114 || b
        == 116
}

/// Position of the closing quote of a string whose contents start at `i`,
/// or `None` when the contents are not well formed: every escape must be
/// complete and no raw control byte or stray end of input may occur.
pub open spec fn string_end(s: Seq<u8>, i: int) -> Option<int>
    decreases s.len() - i,
{
    if i < 0 || i >= s.len() {
        None
    } else if s[i] == QUOTE {
        Some(i)
    } else if s[i] == BACKSLASH {
        if i + 1 < s.len() && is_simple_esc(s[i + 1]) {
            string_end(s, i + 2)
        } else if i + 5 < s.len() && s[i + 1] == 117 && is_hex(s[i + 2]) && is_hex(s[i + 3])
            && is_hex(s[i + 4]) && is_hex(s[i + 5]) {
            string_end(s, i + 6)
        } else {
            None
        }
    } else if s[i] >= 32 {
        string_end(s, i + 1)
    } else {
        None
    }
}

/// End (exclusive) of a number token starting at `i`, or `None` when no
/// well-formed number starts there: an optional minus, an integer part
/// without leading zeroes, an optional fraction and an optional exponent.
pub open spec fn number_end(s: Seq<u8>, i: int) -> Option<int> {
    let j = if 0 <= i < s.len() && s[i] == 45 {
        i + 1
    } else {
        i
    };
    if !(0 <= j < s.len() && is_digit(s[j])) {
        None
    } else {
        let k = if s[j] == 48 {
            j + 1
        } else {
            digits_end(s, j)
        };
        let after_frac = if k < s.len() && s[k] == 46 {
            if k + 1 < s.len() && is_digit(s[k + 1]) {
                Some(digits_end(s, k + 1))
            } else {
                None::<int>
            }
        } else {
            Some(k)
        };
        match after_frac {
            None => None,
            Some(m) => {
                if m < s.len() && (s[m] == 101 || s[m] == 69) {
                    let p = if m + 1 < s.len() && (s[m + 1] == 43 || s[m + 1] == 45) {
                        m + 2
                    } else {
                        m + 1
                    };
                    if p < s.len() && is_digit(s[p]) {
                        Some(digits_end(s, p))
                    } else {
                        None
                    }
                } else {
                    Some(m)
                }
            },
        }
    }
}

/// Outcome of parsing one value: the value and the position after it,
/// failure, or exhaustion of the recursion bound.
pub enum JParse {
    Parsed(JsonV, int),
    Fail,
    Short,
}

/// Outcome of parsing the members of an object.
pub enum MParse {
    Parsed(Seq<(Seq<u8>, JsonV)>, int),
    Fail,
    Short,
}

/// Outcome of parsing the elements of an array.
pub enum EParse {
    Parsed(Seq<JsonV>, int),
    Fail,
    Short,
}

/// Parses one JSON value at position `i` (leading whitespace allowed),
/// leaving whatever follows it unread. `f` bounds the recursion; parsing
/// with `f` at least twice the remaining length plus two never exhausts
/// it.
pub open spec fn spec_parse_value(s: Seq<u8>, i: int, f: int) -> JParse
    decreases f,
{
    if f <= 0 {
        JParse::Short
    } else {
        let a = skip_ws(s, i);
        if !(0 <= a < s.len()) {
            JParse::Fail
        } else {
            let b = s[a];
            if b == QUOTE {
                match string_end(s, a + 1) {
                    None => JParse::Fail,
                    Some(q) => JParse::Parsed(JsonV::Str(s.subrange(a + 1, q)), q + 1),
                }
            } else if b == 123 {
                match spec_parse_members(s, a + 1, true, f - 1) {
                    MParse::Parsed(ms, n) => JParse::Parsed(JsonV::Obj(ms), n),
                    MParse::Fail => JParse::Fail,
                    MParse::Short => JParse::Short,
                }
            } else if b == 91 {
                match spec_parse_elems(s, a + 1, true, f - 1) {
                    EParse::Parsed(es, n) => JParse::Parsed(JsonV::Arr(es), n),
                    EParse::Fail => JParse::Fail,
                    EParse::Short => JParse::Short,
                }
            } else if has_at(s, a, k_null()) {
                JParse::Parsed(JsonV::Null, a + 4)
            } else if has_at(s, a, k_true()) {
                JParse::Parsed(JsonV::Bool(true), a + 4)
            } else if has_at(s, a, k_false()) {
                JParse::Parsed(JsonV::Bool(false), a + 5)
            } else if b == 45 || is_digit(b) {
                match number_end(s, a) {
                    None => JParse::Fail,
                    Some(e) => JParse::Parsed(JsonV::Num(s.subrange(a, e)), e),
                }
            } else {
                JParse::Fail
            }
        }
    }
}

/// Parses object members from `i`, which stands right after the opening
/// brace (`first`) or right after a comma.
pub open spec fn spec_parse_members(s: Seq<u8>, i: int, first: bool, f: int) -> MParse
    decreases f,
{
    if f <= 0 {
        MParse::Short
    } else {
        let a = skip_ws(s, i);
        if first && 0 <= a < s.len() && s[a] == 125 {
            MParse::Parsed(Seq::empty(), a + 1)
        } else if !(0 <= a < s.len() && s[a] == QUOTE) {
            MParse::Fail
        } else {
            match string_end(s, a + 1) {
                None => MParse::Fail,
                Some(q) => {
                    let key = s.subrange(a + 1, q);
                    let c = skip_ws(s, q + 1);
                    if !(0 <= c < s.len() && s[c] == 58) {
                        MParse::Fail
                    } else {
                        match spec_parse_value(s, c + 1, f - 1) {
                            JParse::Parsed(v, n) => {
                                let t = skip_ws(s, n);
                                if 0 <= t < s.len() && s[t] == 44 {
                                    match spec_parse_members(s, t + 1, false, f - 1) {
                                        MParse::Parsed(rest, n2) => MParse::Parsed(
                                            seq![(key, v)] + rest,
                                            n2,
                                        ),
                                        MParse::Fail => MParse::Fail,
                                        MParse::Short => MParse::Short,
                                    }
                                } else if 0 <= t < s.len() && s[t] == 125 {
                                    MParse::Parsed(seq![(key, v)], t + 1)
                                } else {
                                    MParse::Fail
                                }
                            },
                            JParse::Fail => MParse::Fail,
                            JParse::Short => MParse::Short,
                        }
                    }
                },
            }
        }
    }
}

/// Parses array elements from `i`, which stands right after the opening
/// bracket (`first`) or right after a comma.
pub open spec fn spec_parse_elems(s: Seq<u8>, i: int, first: bool, f: int) -> EParse
    decreases f,
{
    if f <= 0 {
        EParse::Short
    } else {
        let a = skip_ws(s, i);
        if first && 0 <= a < s.len() && s[a] == 93 {
            EParse::Parsed(Seq::empty(), a + 1)
        } else {
            match spec_parse_value(s, i, f - 1) {
                JParse::Parsed(v, n) => {
                    let t = skip_ws(s, n);
                    if 0 <= t < s.len() && s[t] == 44 {
                        match spec_parse_elems(s, t + 1, false, f - 1) {
                            EParse::Parsed(rest, n2) => EParse::Parsed(seq![v] + rest, n2),
                            EParse::Fail => EParse::Fail,
                            EParse::Short => EParse::Short,
                        }
                    } else if 0 <= t < s.len() && s[t] == 93 {
                        EParse::Parsed(seq![v], t + 1)
                    } else {
                        EParse::Fail
                    }
                },
                JParse::Fail => EParse::Fail,
                JParse::Short => EParse::Short,
            }
        }
    }
}

/// The JSON document a byte string holds: one value surrounded by
/// whitespace and nothing else.
pub open spec fn spec_json(s: Seq<u8>) -> Option<JsonV> {
    match spec_parse_value(s, 0, 2 * (s.len() as int) + 2) {
        JParse::Parsed(v, n) => if skip_ws(s, n) == s.len() {
            Some(v)
        } else {
            None
        },
        JParse::Fail => None,
        JParse::Short => None,
    }
}

// ------------------------------------------------------------------
// Serialization, as spec functions.
// ------------------------------------------------------------------

/// Serialized bytes of a value. Arrays and objects are written without
/// any inter-token whitespace; strings and numbers are written from
/// their lexical form verbatim.
pub open spec fn ser_json(v: JsonV) -> Seq<u8>
    decreases v, 0int, 0int,
{
    match v {
        JsonV::Null => k_null(),
        JsonV::Bool(b) => if b {
            k_true()
        } else {
            k_false()
        },
        JsonV::Num(n) => n,
        JsonV::Str(c) => seq![QUOTE] + c + seq![QUOTE],
        JsonV::Arr(es) => seq![91u8] + ser_elems_from(es, 0) + seq![93u8],
        JsonV::Obj(ms) => seq![123u8] + ser_members_from(ms, 0) + seq![125u8],
    }
}

/// Serialized elements of an array from index `i` on, comma separated.
pub open spec fn ser_elems_from(es: Seq<JsonV>, i: int) -> Seq<u8>
    decreases es, 1int, es.len() - i,
{
    if i < 0 || i >= es.len() {
        Seq::empty()
    } else if i + 1 == es.len() {
        ser_json(es[i])
    } else {
        ser_json(es[i]) + seq![44u8] + ser_elems_from(es, i + 1)
    }
}

/// Serialized members of an object from index `i` on: quoted key, colon,
/// value, comma separated.
pub open spec fn ser_members_from(ms: Seq<(Seq<u8>, JsonV)>, i: int) -> Seq<u8>
    decreases ms, 1int, ms.len() - i,
{
    if i < 0 || i >= ms.len() {
        Seq::empty()
    } else {
        let one = seq![QUOTE] + ms[i].0 + seq![QUOTE, 58u8] + ser_json(ms[i].1);
        if i + 1 == ms.len() {
            one
        } else {
            one + seq![44u8] + ser_members_from(ms, i + 1)
        }
    }
}


// ------------------------------------------------------------------
// Bounds of the scanning functions.
// ------------------------------------------------------------------

/// `digits_end` stays between its argument and the end of the input.
pub proof fn lemma_digits_end_bounds(s: Seq<u8>, i: int)
    requires
        0 <= i <= s.len(),
    ensures
        i <= digits_end(s, i) <= s.len(),
    decreases s.len() - i,
{
    if i < s.len() && is_digit(s[i]) {
        lemma_digits_end_bounds(s, i + 1);
    }
}

// ------------------------------------------------------------------
// The executable parser. Each function computes exactly what the
// matching spec function describes.
// ------------------------------------------------------------------

/// Advances over whitespace.
fn skip_ws_at(s: &Vec<u8>, i: usize) -> (r: usize)
    requires
        i <= s@.len(),
    ensures
        r as int == skip_ws(s@, i as int),
        i <= r <= s@.len(),
{
    let mut j = i;
    while j < s.len() && (s[j] == 32 || s[j] == 9 || s[j] == 10 || s[j] == 13)
        invariant
            i <= j <= s@.len(),
            skip_ws(s@, i as int) == skip_ws(s@, j as int),
        decreases s@.len() - j,
    {
        j = j + 1;
    }
    j
}

/// Advances over decimal digits.
fn digits_end_at(s: &Vec<u8>, i: usize) -> (r: usize)
    requires
        i <= s@.len(),
    ensures
        r as int == digits_end(s@, i as int),
        i <= r <= s@.len(),
{
    let mut j = i;
    while j < s.len() && 48 <= s[j] && s[j] <= 57
        invariant
            i <= j <= s@.len(),
            digits_end(s@, i as int) == digits_end(s@, j as int),
        decreases s@.len() - j,
    {
        j = j + 1;
    }
    j
}

/// Finds the closing quote of string contents starting at `i`.
fn string_end_at(s: &Vec<u8>, i: usize) -> (r: Option<usize>)
    requires
        i <= s@.len(),
    ensures
        match r {
            Some(q) => string_end(s@, i as int) == Some(q as int) && i <= q < s@.len(),
            None => string_end(s@, i as int) is None,
        },
{
    let mut j = i;
    loop
        invariant
            i <= j <= s@.len(),
            string_end(s@, i as int) == string_end(s@, j as int),
        decreases s@.len() - j,
    {
        if j >= s.len() {
            return None;
        }
        let b = s[j];
        if b == QUOTE {
            return Some(j);
        } else if b == BACKSLASH {
            if j + 1 < s.len() && {
                let e = s[j + 1];
                e == QUOTE || e == BACKSLASH || e == 47 || e == 98 || e == 102 || e == 110 || e
                    == 114 || e == 116
            } {
                j = j + 2;
            } else if s.len() - j > 5 && s[j + 1] == 117 && hex_ok(s[j + 2]) && hex_ok(s[j + 3])
                && hex_ok(s[j + 4]) && hex_ok(s[j + 5]) {
                j = j + 6;
            } else {
                return None;
            }
        } else if b >= 32 {
            j = j + 1;
        } else {
            return None;
        }
    }
}

/// Executable twin of [`crate::bytes::is_hex`].
fn hex_ok(b: u8) -> (r: bool)
    ensures
        r == is_hex(b),
{
    (48 <= b && b <= 57) || (97 <= b && b <= 102) || (65 <= b && b <= 70)
}

/// Finds the end of a number token starting at `i`.
fn number_end_at(s: &Vec<u8>, i: usize) -> (r: Option<usize>)
    requires
        i <= s@.len(),
    ensures
        match r {
            Some(e) => number_end(s@, i as int) == Some(e as int) && i < e <= s@.len(),
            None => number_end(s@, i as int) is None,
        },
{
    let j = if i < s.len() && s[i] == 45 {
        i + 1
    } else {
        i
    };
    if !(j < s.len() && 48 <= s[j] && s[j] <= 57) {
        return None;
    }
    let k = if s[j] == 48 {
        j + 1
    } else {
        proof {
            lemma_digits_end_bounds(s@, j + 1);
        }
        digits_end_at(s, j)
    };
    let after_frac = if k < s.len() && s[k] == 46 {
        if k + 1 < s.len() && 48 <= s[k + 1] && s[k + 1] <= 57 {
            proof {
                lemma_digits_end_bounds(s@, k + 2);
            }
            Some(digits_end_at(s, k + 1))
        } else {
            None
        }
    } else {
        Some(k)
    };
    match after_frac {
        None => None,
        Some(m) => {
            if m < s.len() && (s[m] == 101 || s[m] == 69) {
                let p = if m + 1 < s.len() && (s[m + 1] == 43 || s[m + 1] == 45) {
                    m + 2
                } else {
                    m + 1
                };
                if p < s.len() && 48 <= s[p] && s[p] <= 57 {
                    proof {
                        lemma_digits_end_bounds(s@, p + 1);
                    }
                    Some(digits_end_at(s, p))
                } else {
                    None
                }
            } else {
                Some(m)
            }
        },
    }
}

/// Whether the given literal stands at position `i`.
fn lit_at(s: &Vec<u8>, i: usize, lit: &Vec<u8>) -> (r: bool)
    requires
        i <= s@.len(),
    ensures
        r == has_at(s@, i as int, lit@),
{
    let n = s.len();
    if lit.len() > n - i {
        proof {
            assert(!has_at(s@, i as int, lit@));
        }
        return false;
    }
    let mut j: usize = 0;
    while j < lit.len()
        invariant
            j <= lit@.len(),
            n == s@.len(),
            i + lit@.len() <= n,
            forall|t: int| 0 <= t < j ==> s@[i + t] == lit@[t],
        decreases lit@.len() - j,
    {
        if s[i + j] != lit[j] {
            proof {
                assert(s@.subrange(i as int, i + lit@.len())[j as int] != lit@[j as int]);
            }
            return false;
        }
        j = j + 1;
    }
    proof {
        assert(s@.subrange(i as int, i + lit@.len()) =~= lit@);
    }
    true
}

/// Copies the bytes of `s` between `a` and `b`.
pub(crate) fn copy_range(s: &Vec<u8>, a: usize, b: usize) -> (r: Vec<u8>)
    requires
        a <= b <= s@.len(),
    ensures
        r@ == s@.subrange(a as int, b as int),
{
    let mut out: Vec<u8> = Vec::new();
    let mut j = a;
    while j < b
        invariant
            a <= j <= b <= s@.len(),
            out@.len() == j - a,
            forall|t: int| 0 <= t < out@.len() ==> out@[t] == s@[a + t],
        decreases b - j,
    {
        out.push(s[j]);
        j = j + 1;
    }
    proof {
        assert(out@ =~= s@.subrange(a as int, b as int));
    }
    out
}

/// Parses one value at `i`.
fn parse_value_at(s: &Vec<u8>, i: usize, Ghost(f): Ghost<int>) -> (r: Option<(Json, usize)>)
    requires
        i <= s@.len(),
        f >= 2 * (s@.len() - i) + 2,
    ensures
        ({
            let sp = spec_parse_value(s@, i as int, f);
            match r {
                Some(p) => sp == JParse::Parsed(p.0@, p.1 as int) && i < p.1 <= s@.len(),
                None => sp is Fail,
            }
        }),
    decreases s@.len() - i, 0int,
{
    let a = skip_ws_at(s, i);
    if a >= s.len() {
        return None;
    }
    let b = s[a];
    if b == QUOTE {
        match string_end_at(s, a + 1) {
            None => None,
            Some(q) => {
                let content = copy_range(s, a + 1, q);
                Some((Json::Str(content), q + 1))
            },
        }
    } else if b == 123 {
        match parse_members_at(s, a + 1, true, Ghost(f - 1)) {
            None => None,
            Some(p) => Some((Json::Obj(p.0), p.1)),
        }
    } else if b == 91 {
        match parse_elems_at(s, a + 1, true, Ghost(f - 1)) {
            None => None,
            Some(p) => Some((Json::Arr(p.0), p.1)),
        }
    } else {
        let null_lit: Vec<u8> = vec![110u8, 117, 108, 108];
        let true_lit: Vec<u8> = vec![116u8, 114, 117, 101];
        let false_lit: Vec<u8> = vec![102u8, 97, 108, 115, 101];
        proof {
            assert(null_lit@ =~= k_null());
            assert(true_lit@ =~= k_true());
            assert(false_lit@ =~= k_false());
        }
        if lit_at(s, a, &null_lit) {
            Some((Json::Null, a + 4))
        } else if lit_at(s, a, &true_lit) {
            Some((Json::Bool(true), a + 4))
        } else if lit_at(s, a, &false_lit) {
            Some((Json::Bool(false), a + 5))
        } else if b == 45 || (48 <= b && b <= 57) {
            match number_end_at(s, a) {
                None => None,
                Some(e) => {
                    let lex = copy_range(s, a, e);
                    Some((Json::Num(lex), e))
                },
            }
        } else {
            None
        }
    }
}

/// Parses object members from `i`.
fn parse_members_at(s: &Vec<u8>, i: usize, first: bool, Ghost(f): Ghost<int>) -> (r: Option<
    (Vec<(Vec<u8>, Json)>, usize),
>)
    requires
        i <= s@.len(),
        f >= 2 * (s@.len() - i) + 3,
    ensures
        ({
            let sp = spec_parse_members(s@, i as int, first, f);
            match r {
                Some(p) => sp == MParse::Parsed(view_members(p.0@), p.1 as int) && i < p.1
                    <= s@.len(),
                None => sp is Fail,
            }
        }),
    decreases s@.len() - i, 1int,
{
    let a = skip_ws_at(s, i);
    if first && a < s.len() && s[a] == 125 {
        let out: Vec<(Vec<u8>, Json)> = Vec::new();
        proof {
            assert(view_members(out@) =~= Seq::<(Seq<u8>, JsonV)>::empty());
        }
        return Some((out, a + 1));
    }
    if !(a < s.len() && s[a] == QUOTE) {
        return None;
    }
    match string_end_at(s, a + 1) {
        None => None,
        Some(q) => {
            let key = copy_range(s, a + 1, q);
            let c = skip_ws_at(s, q + 1);
            if !(c < s.len() && s[c] == 58) {
                return None;
            }
            match parse_value_at(s, c + 1, Ghost(f - 1)) {
                None => None,
                Some(p) => {
                    let v = p.0;
                    let n = p.1;
                    let t = skip_ws_at(s, n);
                    if t < s.len() && s[t] == 44 {
                        match parse_members_at(s, t + 1, false, Ghost(f - 1)) {
                            None => None,
                            Some(pr) => {
                                let mut rest = pr.0;
                                let ghost rest_snap = rest@;
                                let mut out: Vec<(Vec<u8>, Json)> = Vec::new();
                                out.push((key, v));
                                out.append(&mut rest);
                                proof {
                                    assert(view_members(out@) =~= seq![
                                        (s@.subrange(a + 1, q as int), v@),
                                    ] + view_members(rest_snap));
                                }
                                Some((out, pr.1))
                            },
                        }
                    } else if t < s.len() && s[t] == 125 {
                        let mut out: Vec<(Vec<u8>, Json)> = Vec::new();
                        out.push((key, v));
                        proof {
                            assert(view_members(out@) =~= seq![
                                (s@.subrange(a + 1, q as int), v@),
                            ]);
                        }
                        Some((out, t + 1))
                    } else {
                        None
                    }
                },
            }
        },
    }
}

/// Parses array elements from `i`.
fn parse_elems_at(s: &Vec<u8>, i: usize, first: bool, Ghost(f): Ghost<int>) -> (r: Option<
    (Vec<Json>, usize),
>)
    requires
        i <= s@.len(),
        f >= 2 * (s@.len() - i) + 3,
    ensures
        ({
            let sp = spec_parse_elems(s@, i as int, first, f);
            match r {
                Some(p) => sp == EParse::Parsed(view_elems(p.0@), p.1 as int) && i < p.1
                    <= s@.len(),
                None => sp is Fail,
            }
        }),
    decreases s@.len() - i, 1int,
{
    let a = skip_ws_at(s, i);
    if first && a < s.len() && s[a] == 93 {
        let out: Vec<Json> = Vec::new();
        proof {
            assert(view_elems(out@) =~= Seq::<JsonV>::empty());
        }
        return Some((out, a + 1));
    }
    match parse_value_at(s, i, Ghost(f - 1)) {
        None => None,
        Some(p) => {
            let v = p.0;
            let n = p.1;
            let t = skip_ws_at(s, n);
            if t < s.len() && s[t] == 44 {
                match parse_elems_at(s, t + 1, false, Ghost(f - 1)) {
                    None => None,
                    Some(pr) => {
                        let ghost vv = v@;
                        let mut rest = pr.0;
                        let ghost rest_snap = rest@;
                        let mut out: Vec<Json> = Vec::new();
                        out.push(v);
                        out.append(&mut rest);
                        proof {
                            assert(view_elems(out@) =~= seq![vv] + view_elems(rest_snap));
                        }
                        Some((out, pr.1))
                    },
                }
            } else if t < s.len() && s[t] == 93 {
                let ghost vv = v@;
                let mut out: Vec<Json> = Vec::new();
                out.push(v);
                proof {
                    assert(view_elems(out@) =~= seq![vv]);
                }
                Some((out, t + 1))
            } else {
                None
            }
        },
    }
}

/// Parses a whole document: one value surrounded by whitespace.
pub fn parse_json(s: &Vec<u8>) -> (r: Option<Json>)
    ensures
        match r {
            Some(j) => spec_json(s@) == Some(j@),
            None => spec_json(s@) is None,
        },
{
    let ghost f = 2 * (s@.len() as int) + 2;
    match parse_value_at(s, 0, Ghost(f)) {
        None => None,
        Some(p) => {
            let t = skip_ws_at(s, p.1);
            if t == s.len() {
                Some(p.0)
            } else {
                None
            }
        },
    }
}


// ------------------------------------------------------------------
// The executable serializer.
// ------------------------------------------------------------------

/// Appends all bytes of `bytes` to `out`.
pub fn push_all(bytes: &Vec<u8>, out: &mut Vec<u8>)
    ensures
        final(out)@ == old(out)@ + bytes@,
{
    let ghost base: Seq<u8> = out@;
    let mut j: usize = 0;
    while j < bytes.len()
        invariant
            j <= bytes@.len(),
            out@ == base + bytes@.subrange(0, j as int),
        decreases bytes@.len() - j,
    {
        out.push(bytes[j]);
        proof {
            assert(out@ =~= base + bytes@.subrange(0, j + 1));
        }
        j = j + 1;
    }
    proof {
        assert(bytes@.subrange(0, j as int) =~= bytes@);
    }
}

/// Writes the serialized form of `v` after the bytes already in `out`.
pub fn write_json(v: &Json, out: &mut Vec<u8>)
    ensures
        final(out)@ == old(out)@ + ser_json(v@),
    decreases *v, 0int, 0int,
{
    match v {
        Json::Null => {
            out.push(110);
            out.push(117);
            out.push(108);
            out.push(108);
            proof {
                assert(out@ =~= old(out)@ + k_null());
            }
        },
        Json::Bool(b) => {
            if *b {
                out.push(116);
                out.push(114);
                out.push(117);
                out.push(101);
                proof {
                    assert(out@ =~= old(out)@ + k_true());
                }
            } else {
                out.push(102);
                out.push(97);
                out.push(108);
                out.push(115);
                out.push(101);
                proof {
                    assert(out@ =~= old(out)@ + k_false());
                }
            }
        },
        Json::Num(n) => {
            push_all(n, out);
        },
        Json::Str(c) => {
            out.push(QUOTE);
            push_all(c, out);
            out.push(QUOTE);
            proof {
                assert(out@ =~= old(out)@ + (seq![QUOTE] + c@ + seq![QUOTE]));
            }
        },
        Json::Arr(a) => {
            out.push(91);
            write_elems_from(a, 0, out);
            out.push(93);
            proof {
                assert(out@ =~= old(out)@ + (seq![91u8] + ser_elems_from(view_elems(a@), 0)
                    + seq![93u8]));
            }
        },
        Json::Obj(o) => {
            out.push(123);
            write_members_from(o, 0, out);
            out.push(125);
            proof {
                assert(out@ =~= old(out)@ + (seq![123u8] + ser_members_from(view_members(o@), 0)
                    + seq![125u8]));
            }
        },
    }
}

/// Writes the elements of an array from index `i` on.
fn write_elems_from(a: &Vec<Json>, i: usize, out: &mut Vec<u8>)
    requires
        i <= a@.len(),
    ensures
        final(out)@ == old(out)@ + ser_elems_from(view_elems(a@), i as int),
    decreases a@, 1int, a@.len() - i,
{
    if i < a.len() {
        write_json(&a[i], out);
        proof {
            assert(view_elems(a@)[i as int] == view_json(a@[i as int]));
        }
        if i + 1 < a.len() {
            out.push(44);
            let ghost mid: Seq<u8> = out@;
            write_elems_from(a, i + 1, out);
            proof {
                assert(out@ =~= old(out)@ + (ser_json(view_elems(a@)[i as int]) + seq![44u8]
                    + ser_elems_from(view_elems(a@), i + 1)));
            }
        }
    }
}

/// Writes the members of an object from index `i` on.
fn write_members_from(o: &Vec<(Vec<u8>, Json)>, i: usize, out: &mut Vec<u8>)
    requires
        i <= o@.len(),
    ensures
        final(out)@ == old(out)@ + ser_members_from(view_members(o@), i as int),
    decreases o@, 1int, o@.len() - i,
{
    if i < o.len() {
        out.push(QUOTE);
        push_all(&o[i].0, out);
        out.push(QUOTE);
        out.push(58);
        write_json(&o[i].1, out);
        proof {
            assert(view_members(o@)[i as int] == (o@[i as int].0@, view_json(o@[i as int].1)));
            assert(out@ =~= old(out)@ + (seq![QUOTE] + o@[i as int].0@ + seq![QUOTE, 58u8]
                + ser_json(view_json(o@[i as int].1))));
        }
        if i + 1 < o.len() {
            out.push(44);
            write_members_from(o, i + 1, out);
            proof {
                assert(out@ =~= old(out)@ + ((seq![QUOTE] + o@[i as int].0@ + seq![QUOTE, 58u8]
                    + ser_json(view_json(o@[i as int].1))) + seq![44u8] + ser_members_from(
                    view_members(o@),
                    i + 1,
                )));
            }
        }
    }
}

/// Serializes a value to fresh bytes.
pub fn json_to_bytes(v: &Json) -> (r: Vec<u8>)
    ensures
        r@ == ser_json(v@),
{
    let mut out: Vec<u8> = Vec::new();
    write_json(v, &mut out);
    proof {
        assert(out@ =~= ser_json(v@));
    }
    out
}


// ------------------------------------------------------------------
// Reading values.
// ------------------------------------------------------------------

/// The value bound to `key` among object members, first binding wins.
pub open spec fn obj_lookup(ms: Seq<(Seq<u8>, JsonV)>, key: Seq<u8>) -> Option<JsonV>
    decreases ms.len(),
{
    if ms.len() == 0 {
        None
    } else if ms[0].0 == key {
        Some(ms[0].1)
    } else {
        obj_lookup(ms.subrange(1, ms.len() as int), key)
    }
}

/// The value of field `key` when `v` is an object holding it.
pub open spec fn get_field(v: JsonV, key: Seq<u8>) -> Option<JsonV> {
    match v {
        JsonV::Obj(ms) => obj_lookup(ms, key),
        _ => None,
    }
}

/// The contents of a string value.
pub open spec fn as_str(v: JsonV) -> Option<Seq<u8>> {
    match v {
        JsonV::Str(c) => Some(c),
        _ => None,
    }
}

/// The lexeme of a number value.
pub open spec fn as_num(v: JsonV) -> Option<Seq<u8>> {
    match v {
        JsonV::Num(n) => Some(n),
        _ => None,
    }
}

/// Looks a field up in an object value.
pub fn json_get<'a>(j: &'a Json, key: &Vec<u8>) -> (r: Option<&'a Json>)
    ensures
        match r {
            Some(f) => get_field(j@, key@) == Some(f@),
            None => get_field(j@, key@) is None,
        },
{
    match j {
        Json::Obj(ms) => {
            proof {
                assert(view_members(ms@).subrange(0, ms@.len() as int) =~= view_members(ms@));
            }
            let mut i: usize = 0;
            while i < ms.len()
                invariant
                    i <= ms@.len(),
                    j@ == JsonV::Obj(view_members(ms@)),
                    obj_lookup(view_members(ms@), key@) == obj_lookup(
                        view_members(ms@).subrange(i as int, ms@.len() as int),
                        key@,
                    ),
                decreases ms@.len() - i,
            {
                let ghost rest = view_members(ms@).subrange(i as int, ms@.len() as int);
                proof {
                    assert(rest[0] == view_members(ms@)[i as int]);
                    assert(rest.subrange(1, rest.len() as int) =~= view_members(ms@).subrange(
                        i + 1,
                        ms@.len() as int,
                    ));
                }
                if crate::bytes::bytes_eq(&ms[i].0, key) {
                    let r = &ms[i].1;
                    proof {
                        assert(rest[0].0 == key@);
                        assert(obj_lookup(rest, key@) == Some(rest[0].1));
                        assert(rest[0].1 == view_json(ms@[i as int].1));
                        assert(r@ == view_json(ms@[i as int].1));
                    }
                    return Some(r);
                }
                i = i + 1;
            }
            None
        },
        _ => None,
    }
}

/// Reads a string value.
pub fn json_as_str<'a>(j: &'a Json) -> (r: Option<&'a Vec<u8>>)
    ensures
        match r {
            Some(c) => as_str(j@) == Some(c@),
            None => as_str(j@) is None,
        },
{
    match j {
        Json::Str(c) => Some(c),
        _ => None,
    }
}

/// Reads a number lexeme.
pub fn json_as_num<'a>(j: &'a Json) -> (r: Option<&'a Vec<u8>>)
    ensures
        match r {
            Some(n) => as_num(j@) == Some(n@),
            None => as_num(j@) is None,
        },
{
    match j {
        Json::Num(n) => Some(n),
        _ => None,
    }
}

/// Whether the value is `null`.
pub fn json_is_null(j: &Json) -> (r: bool)
    ensures
        r == (j@ is Null),
{
    match j {
        Json::Null => true,
        _ => false,
    }
}


/// Pointwise description of [`view_elems`]: its length.
pub broadcast proof fn lemma_view_elems_len(s: Seq<Json>)
    ensures
        #[trigger] view_elems(s).len() == s.len(),
{
}

/// Pointwise description of [`view_elems`]: its elements.
pub broadcast proof fn lemma_view_elems_index(s: Seq<Json>, i: int)
    requires
        0 <= i < s.len(),
    ensures
        #[trigger] view_elems(s)[i] == view_json(s[i]),
{
}

/// Pointwise description of [`view_members`]: its length.
pub broadcast proof fn lemma_view_members_len(s: Seq<(Vec<u8>, Json)>)
    ensures
        #[trigger] view_members(s).len() == s.len(),
{
}

/// Pointwise description of [`view_members`]: its elements.
pub broadcast proof fn lemma_view_members_index(s: Seq<(Vec<u8>, Json)>, i: int)
    requires
        0 <= i < s.len(),
    ensures
        #[trigger] view_members(s)[i] == (s[i].0@, view_json(s[i].1)),
{
}


/// Builds an object value of 1 member, with its exact model.
pub fn obj_1(k0: Vec<u8>, v0: Json) -> (r: Json)
    ensures
        r@ == JsonV::Obj(seq![(k0@, v0@)]),
{
    let ghost gk0 = k0@;
    let ghost gv0 = v0@;
    let mut ms: Vec<(Vec<u8>, Json)> = Vec::new();
    ms.push((k0, v0));
    let r = Json::Obj(ms);
    proof {
        broadcast use lemma_view_members_len;
        broadcast use lemma_view_members_index;

        let g = r@->Obj_0;
        assert(g.len() == 1);
        assert(g[0].0 == gk0);
        assert(g[0].1 == gv0);
        assert(g =~~= seq![(gk0, gv0)]);
        assert(r@ == JsonV::Obj(g));
    }
    r
}

/// Builds an object value of 2 members, with its exact model.
pub fn obj_2(k0: Vec<u8>, v0: Json, k1: Vec<u8>, v1: Json) -> (r: Json)
    ensures
        r@ == JsonV::Obj(seq![(k0@, v0@), (k1@, v1@)]),
{
    let ghost gk0 = k0@;
    let ghost gv0 = v0@;
    let ghost gk1 = k1@;
    let ghost gv1 = v1@;
    let mut ms: Vec<(Vec<u8>, Json)> = Vec::new();
    ms.push((k0, v0));
    ms.push((k1, v1));
    let r = Json::Obj(ms);
    proof {
        broadcast use lemma_view_members_len;
        broadcast use lemma_view_members_index;

        let g = r@->Obj_0;
        assert(g.len() == 2);
        assert(g[0].0 == gk0);
        assert(g[0].1 == gv0);
        assert(g[1].0 == gk1);
        assert(g[1].1 == gv1);
        assert(g =~~= seq![(gk0, gv0), (gk1, gv1)]);
        assert(r@ == JsonV::Obj(g));
    }
    r
}

/// Builds an object value of 3 members, with its exact model.
pub fn obj_3(k0: Vec<u8>, v0: Json, k1: Vec<u8>, v1: Json, k2: Vec<u8>, v2: Json) -> (r: Json)
    ensures
        r@ == JsonV::Obj(seq![(k0@, v0@), (k1@, v1@), (k2@, v2@)]),
{
    let ghost gk0 = k0@;
    let ghost gv0 = v0@;
    let ghost gk1 = k1@;
    let ghost gv1 = v1@;
    let ghost gk2 = k2@;
    let ghost gv2 = v2@;
    let mut ms: Vec<(Vec<u8>, Json)> = Vec::new();
    ms.push((k0, v0));
    ms.push((k1, v1));
    ms.push((k2, v2));
    let r = Json::Obj(ms);
    proof {
        broadcast use lemma_view_members_len;
        broadcast use lemma_view_members_index;

        let g = r@->Obj_0;
        assert(g.len() == 3);
        assert(g[0].0 == gk0);
        assert(g[0].1 == gv0);
        assert(g[1].0 == gk1);
        assert(g[1].1 == gv1);
        assert(g[2].0 == gk2);
        assert(g[2].1 == gv2);
        assert(g =~~= seq![(gk0, gv0), (gk1, gv1), (gk2, gv2)]);
        assert(r@ == JsonV::Obj(g));
    }
    r
}

/// Builds an object value of 4 members, with its exact model.
pub fn obj_4(k0: Vec<u8>, v0: Json, k1: Vec<u8>, v1: Json, k2: Vec<u8>, v2: Json, k3: Vec<u8>, v3: Json) -> (r: Json)
    ensures
        r@ == JsonV::Obj(seq![(k0@, v0@), (k1@, v1@), (k2@, v2@), (k3@, v3@)]),
{
    let ghost gk0 = k0@;
    let ghost gv0 = v0@;
    let ghost gk1 = k1@;
    let ghost gv1 = v1@;
    let ghost gk2 = k2@;
    let ghost gv2 = v2@;
    let ghost gk3 = k3@;
    let ghost gv3 = v3@;
    let mut ms: Vec<(Vec<u8>, Json)> = Vec::new();
    ms.push((k0, v0));
    ms.push((k1, v1));
    ms.push((k2, v2));
    ms.push((k3, v3));
    let r = Json::Obj(ms);
    proof {
        broadcast use lemma_view_members_len;
        broadcast use lemma_view_members_index;

        let g = r@->Obj_0;
        assert(g.len() == 4);
        assert(g[0].0 == gk0);
        assert(g[0].1 == gv0);
        assert(g[1].0 == gk1);
        assert(g[1].1 == gv1);
        assert(g[2].0 == gk2);
        assert(g[2].1 == gv2);
        assert(g[3].0 == gk3);
        assert(g[3].1 == gv3);
        assert(g =~~= seq![(gk0, gv0), (gk1, gv1), (gk2, gv2), (gk3, gv3)]);
        assert(r@ == JsonV::Obj(g));
    }
    r
}

/// Builds an array value of 1 element, with its exact model.
pub fn arr_1(v0: Json) -> (r: Json)
    ensures
        r@ == JsonV::Arr(seq![v0@]),
{
    let ghost gv0 = v0@;
    let mut es: Vec<Json> = Vec::new();
    es.push(v0);
    let r = Json::Arr(es);
    proof {
        broadcast use lemma_view_elems_len;
        broadcast use lemma_view_elems_index;

        let g = r@->Arr_0;
        assert(g.len() == 1);
        assert(g[0] == gv0);
        assert(g =~~= seq![gv0]);
        assert(r@ == JsonV::Arr(g));
    }
    r
}

/// Builds an array value of 2 elements, with its exact model.
pub fn arr_2(v0: Json, v1: Json) -> (r: Json)
    ensures
        r@ == JsonV::Arr(seq![v0@, v1@]),
{
    let ghost gv0 = v0@;
    let ghost gv1 = v1@;
    let mut es: Vec<Json> = Vec::new();
    es.push(v0);
    es.push(v1);
    let r = Json::Arr(es);
    proof {
        broadcast use lemma_view_elems_len;
        broadcast use lemma_view_elems_index;

        let g = r@->Arr_0;
        assert(g.len() == 2);
        assert(g[0] == gv0);
        assert(g[1] == gv1);
        assert(g =~~= seq![gv0, gv1]);
        assert(r@ == JsonV::Arr(g));
    }
    r
}

/// Builds an object value with no members.
pub fn obj_0() -> (r: Json)
    ensures
        r@ == JsonV::Obj(Seq::empty()),
{
    let r = Json::Obj(Vec::new());
    proof {
        assert(r@->Obj_0 =~= Seq::<(Seq<u8>, JsonV)>::empty());
        assert(r@ == JsonV::Obj(Seq::<(Seq<u8>, JsonV)>::empty()));
    }
    r
}

/// Builds an object value of 7 members, with its exact model.
pub fn obj_7(k0: Vec<u8>, v0: Json, k1: Vec<u8>, v1: Json, k2: Vec<u8>, v2: Json, k3: Vec<u8>, v3: Json, k4: Vec<u8>, v4: Json, k5: Vec<u8>, v5: Json, k6: Vec<u8>, v6: Json) -> (r: Json)
    ensures
        r@ == JsonV::Obj(seq![(k0@, v0@), (k1@, v1@), (k2@, v2@), (k3@, v3@), (k4@, v4@), (k5@, v5@), (k6@, v6@)]),
{
    let ghost gk0 = k0@;
    let ghost gv0 = v0@;
    let ghost gk1 = k1@;
    let ghost gv1 = v1@;
    let ghost gk2 = k2@;
    let ghost gv2 = v2@;
    let ghost gk3 = k3@;
    let ghost gv3 = v3@;
    let ghost gk4 = k4@;
    let ghost gv4 = v4@;
    let ghost gk5 = k5@;
    let ghost gv5 = v5@;
    let ghost gk6 = k6@;
    let ghost gv6 = v6@;
    let mut ms: Vec<(Vec<u8>, Json)> = Vec::new();
    ms.push((k0, v0));
    ms.push((k1, v1));
    ms.push((k2, v2));
    ms.push((k3, v3));
    ms.push((k4, v4));
    ms.push((k5, v5));
    ms.push((k6, v6));
    let r = Json::Obj(ms);
    proof {
        broadcast use lemma_view_members_len;
        broadcast use lemma_view_members_index;

        let g = r@->Obj_0;
        assert(g.len() == 7);
        assert(g[0].0 == gk0);
        assert(g[0].1 == gv0);
        assert(g[1].0 == gk1);
        assert(g[1].1 == gv1);
        assert(g[2].0 == gk2);
        assert(g[2].1 == gv2);
        assert(g[3].0 == gk3);
        assert(g[3].1 == gv3);
        assert(g[4].0 == gk4);
        assert(g[4].1 == gv4);
        assert(g[5].0 == gk5);
        assert(g[5].1 == gv5);
        assert(g[6].0 == gk6);
        assert(g[6].1 == gv6);
        assert(g =~~= seq![(gk0, gv0), (gk1, gv1), (gk2, gv2), (gk3, gv3), (gk4, gv4), (gk5, gv5), (gk6, gv6)]);
        assert(r@ == JsonV::Obj(g));
    }
    r
}

// ------------------------------------------------------------------
// The codec round trip: serialized well-formed values read back as
// themselves.
// ------------------------------------------------------------------

/// Well-formed string contents: scanning them with a closing quote
/// appended finds exactly that quote, so every escape is complete and
/// no raw quote or control byte occurs.
pub open spec fn wf_str_content(c: Seq<u8>) -> bool {
    string_end(c.push(QUOTE), 0) == Some(c.len() as int)
}

/// Well-formed number lexeme: a complete number token and nothing else.
pub open spec fn wf_num_lex(n: Seq<u8>) -> bool {
    n.len() > 0 && number_end(n, 0) == Some(n.len() as int)
}

/// Values whose serialized text reads back as the same value: string
/// contents and number lexemes are well formed, recursively.
pub open spec fn wf_json(v: JsonV) -> bool
    decreases v, 0int, 0int,
{
    match v {
        JsonV::Null => true,
        JsonV::Bool(_) => true,
        JsonV::Num(n) => wf_num_lex(n),
        JsonV::Str(c) => wf_str_content(c),
        JsonV::Arr(es) => wf_elems_from(es, 0),
        JsonV::Obj(ms) => wf_members_from(ms, 0),
    }
}

/// Well-formedness of array elements from index `i` on.
pub open spec fn wf_elems_from(es: Seq<JsonV>, i: int) -> bool
    decreases es, 1int, es.len() - i,
{
    if i < 0 || i >= es.len() {
        true
    } else {
        wf_json(es[i]) && wf_elems_from(es, i + 1)
    }
}

/// Well-formedness of object members from index `i` on.
pub open spec fn wf_members_from(ms: Seq<(Seq<u8>, JsonV)>, i: int) -> bool
    decreases ms, 1int, ms.len() - i,
{
    if i < 0 || i >= ms.len() {
        true
    } else {
        wf_str_content(ms[i].0) && wf_json(ms[i].1) && wf_members_from(ms, i + 1)
    }
}

/// A byte that could extend a number token.
pub open spec fn num_cont(b: u8) -> bool {
    is_digit(b) || b == 46 || b == 101 || b == 69 || b == 43 || b == 45
}

/// Position `e` of `s` does not continue a number token.
pub open spec fn num_boundary(s: Seq<u8>, e: int) -> bool {
    e >= s.len() || !num_cont(s[e])
}

/// Everything before `digits_end` is a digit, and the end position
/// holds none.
proof fn lemma_digits_end_chars(s: Seq<u8>, i: int)
    requires
        0 <= i <= s.len(),
    ensures
        i <= digits_end(s, i) <= s.len(),
        forall|t: int| i <= t < digits_end(s, i) ==> is_digit(s[t]),
        digits_end(s, i) == s.len() || !is_digit(s[digits_end(s, i)]),
    decreases s.len() - i,
{
    if i < s.len() && is_digit(s[i]) {
        lemma_digits_end_chars(s, i + 1);
    }
}

/// A digit run bounded on both sides pins `digits_end`.
proof fn lemma_digits_end_run(s: Seq<u8>, i: int, e: int)
    requires
        0 <= i <= e <= s.len(),
        forall|t: int| i <= t < e ==> is_digit(s[t]),
        e == s.len() || !is_digit(s[e]),
    ensures
        digits_end(s, i) == e,
    decreases e - i,
{
    if i < e {
        lemma_digits_end_run(s, i + 1, e);
    }
}

/// `digits_end` translated through a window: inside bytes agree with
/// the lexeme, and the byte after the window is no digit.
proof fn lemma_digits_end_window(n: Seq<u8>, s: Seq<u8>, i: int, j: int)
    requires
        0 <= j <= n.len(),
        has_at(s, i, n),
        num_boundary(s, i + n.len()),
    ensures
        digits_end(s, i + j) == i + digits_end(n, j),
{
    lemma_digits_end_chars(n, j);
    let e = digits_end(n, j);
    assert(forall|t: int| 0 <= t < n.len() ==> s[i + t] == #[trigger] n[t]) by {
        assert(forall|t: int|
            0 <= t < n.len() ==> s.subrange(i, i + n.len())[t] == #[trigger] s[i + t]);
    }
    assert(forall|t: int| i + j <= t < i + e ==> is_digit(s[t])) by {
        assert(forall|t: int| i + j <= t < i + e ==> s[t] == n[t - i]);
    }
    if e == n.len() {
        assert(i + e == s.len() || !is_digit(s[i + e]));
    } else {
        assert(s[i + e] == n[e]);
    }
    lemma_digits_end_run(s, i + j, i + e);
}

/// `number_end` translated through a window: a well-formed lexeme in
/// the middle of a longer text, with nothing number-like after it,
/// scans to exactly its own end.
proof fn lemma_number_end_window(n: Seq<u8>, s: Seq<u8>, i: int)
    requires
        wf_num_lex(n),
        has_at(s, i, n),
        num_boundary(s, i + n.len()),
    ensures
        number_end(s, i) == Some(i + n.len()),
{
    assert(forall|t: int| 0 <= t < n.len() ==> s[i + t] == #[trigger] n[t]) by {
        assert(forall|t: int|
            0 <= t < n.len() ==> s.subrange(i, i + n.len())[t] == #[trigger] s[i + t]);
    }
    let len = n.len() as int;
    let j = if n[0] == 45 {
        1int
    } else {
        0int
    };
    assert(0 <= j < len && is_digit(n[j]));
    assert(s[i + j] == n[j]);
    let k = if n[j] == 48 {
        j + 1
    } else {
        digits_end(n, j)
    };
    if n[j] != 48 {
        lemma_digits_end_window(n, s, i, j);
    }
    lemma_digits_end_chars(n, j);
    assert(k <= len);
    let sk = i + k;
    let after_frac_n = if k < len && n[k] == 46 {
        if k + 1 < len && is_digit(n[k + 1]) {
            Some(digits_end(n, k + 1))
        } else {
            None::<int>
        }
    } else {
        Some(k)
    };
    // The byte at position k, seen from s: inside the window it is
    // n[k]; at the window's end the boundary rules a fraction out.
    if k < len {
        assert(s[sk] == n[k]);
    }
    match after_frac_n {
        None => {
            assert(number_end(n, 0) is None);
        },
        Some(m) => {
            if k < len && n[k] == 46 {
                lemma_digits_end_window(n, s, i, k + 1);
                lemma_digits_end_chars(n, k + 1);
            }
            assert(m <= len);
            let sm = i + m;
            if m < len {
                assert(s[sm] == n[m]);
            }
            if m < len && (n[m] == 101 || n[m] == 69) {
                let p = if m + 1 < len && (n[m + 1] == 43 || n[m + 1] == 45) {
                    m + 2
                } else {
                    m + 1
                };
                if m + 1 < len {
                    assert(s[i + m + 1] == n[m + 1]);
                }
                if p < len && is_digit(n[p]) {
                    lemma_digits_end_window(n, s, i, p);
                    lemma_digits_end_chars(n, p);
                } else {
                    assert(number_end(n, 0) is None);
                }
            }
        },
    }
}


/// `string_end` translated through a window: well-formed contents
/// followed by a quote scan to exactly that quote, wherever they stand.
proof fn lemma_string_end_window(c: Seq<u8>, s: Seq<u8>, i: int, j: int)
    requires
        0 <= j <= c.len(),
        has_at(s, i, c.push(QUOTE)),
        string_end(c.push(QUOTE), j) == Some(c.len() as int),
    ensures
        string_end(s, i + j) == Some(i + c.len()),
    decreases c.len() - j,
{
    let w = c.push(QUOTE);
    assert(forall|t: int| 0 <= t < w.len() ==> s[i + t] == #[trigger] w[t]) by {
        assert(forall|t: int|
            0 <= t < w.len() ==> s.subrange(i, i + w.len())[t] == #[trigger] s[i + t]);
    }
    let clen = c.len() as int;
    assert(j < w.len());
    assert(s[i + j] == w[j]);
    if w[j] == QUOTE {
        assert(string_end(w, j) == Some(j));
        assert(j == clen);
    } else if w[j] == BACKSLASH {
        if j + 1 < w.len() && is_simple_esc(w[j + 1]) {
            assert(s[i + j + 1] == w[j + 1]);
            assert(string_end(w, j + 2) == Some(clen));
            if j + 2 > clen {
                assert(string_end(w, j + 2) is None);
            }
            lemma_string_end_window(c, s, i, j + 2);
        } else if j + 5 < w.len() && w[j + 1] == 117 && is_hex(w[j + 2]) && is_hex(w[j + 3])
            && is_hex(w[j + 4]) && is_hex(w[j + 5]) {
            assert(s[i + j + 1] == w[j + 1]);
            assert(s[i + j + 2] == w[j + 2]);
            assert(s[i + j + 3] == w[j + 3]);
            assert(s[i + j + 4] == w[j + 4]);
            assert(s[i + j + 5] == w[j + 5]);
            assert(string_end(w, j + 6) == Some(clen));
            if j + 6 > clen {
                assert(string_end(w, j + 6) is None);
            }
            lemma_string_end_window(c, s, i, j + 6);
        } else {
            assert(string_end(w, j) is None);
        }
    } else if w[j] >= 32 {
        lemma_string_end_window(c, s, i, j + 1);
    } else {
        assert(string_end(w, j) is None);
    }
}


/// Serialized well-formed values are never empty and never begin with
/// whitespace, a separator or a closing bracket.
proof fn lemma_ser_first(v: JsonV)
    requires
        wf_json(v),
    ensures
        ser_json(v).len() > 0,
        !is_ws(ser_json(v)[0]),
        ser_json(v)[0] != 93,
        ser_json(v)[0] != 125,
        ser_json(v)[0] != 44,
{
    match v {
        JsonV::Null => {
            assert(ser_json(v)[0] == 110);
        },
        JsonV::Bool(b) => {
            if b {
                assert(ser_json(v)[0] == 116);
            } else {
                assert(ser_json(v)[0] == 102);
            }
        },
        JsonV::Num(n) => {
            let j = if n[0] == 45 {
                1int
            } else {
                0int
            };
            assert(0 <= j < n.len() && is_digit(n[j]));
            assert(n[0] == 45 || is_digit(n[0]));
        },
        JsonV::Str(_) => {
            assert(ser_json(v)[0] == QUOTE);
        },
        JsonV::Arr(_) => {
            assert(ser_json(v)[0] == 91);
        },
        JsonV::Obj(_) => {
            assert(ser_json(v)[0] == 123);
        },
    }
}

/// Parsing at the start of a serialized well-formed value yields that
/// value and stops right after it, provided nothing number-like
/// follows.
proof fn lemma_parse_of_ser(v: JsonV, s: Seq<u8>, i: int, f: int)
    requires
        wf_json(v),
        has_at(s, i, ser_json(v)),
        num_boundary(s, i + ser_json(v).len()),
        f >= 2 * (s.len() - i) + 2,
    ensures
        spec_parse_value(s, i, f) == JParse::Parsed(v, i + ser_json(v).len()),
    decreases v, 0int, 0int,
{
    let ser = ser_json(v);
    assert(forall|t: int| 0 <= t < ser.len() ==> s[i + t] == #[trigger] ser[t]) by {
        assert(forall|t: int|
            0 <= t < ser.len() ==> s.subrange(i, i + ser.len())[t] == #[trigger] s[i + t]);
    }
    lemma_ser_first(v);
    assert(s[i] == ser[0]);
    assert(skip_ws(s, i) == i);
    match v {
        JsonV::Null => {
            assert(s.subrange(i, i + 4) =~= k_null());
        },
        JsonV::Bool(b) => {
            if b {
                assert(s[i] == 116);
                if has_at(s, i, k_null()) {
                    assert(s.subrange(i, i + 4)[0] == 110);
                }
                assert(s.subrange(i, i + 4) =~= k_true());
            } else {
                assert(s[i] == 102);
                if has_at(s, i, k_null()) {
                    assert(s.subrange(i, i + 4)[0] == 110);
                }
                if has_at(s, i, k_true()) {
                    assert(s.subrange(i, i + 4)[0] == 116);
                }
                assert(s.subrange(i, i + 5) =~= k_false());
            }
        },
        JsonV::Num(n) => {
            let j = if n[0] == 45 {
                1int
            } else {
                0int
            };
            assert(0 <= j < n.len() && is_digit(n[j]));
            assert(s[i] == 45 || is_digit(s[i]));
            if has_at(s, i, k_null()) {
                assert(s.subrange(i, i + 4)[0] == 110);
            }
            if has_at(s, i, k_true()) {
                assert(s.subrange(i, i + 4)[0] == 116);
            }
            if has_at(s, i, k_false()) {
                assert(s.subrange(i, i + 5)[0] == 102);
            }
            lemma_number_end_window(n, s, i);
            assert(s.subrange(i, i + n.len()) =~= n);
        },
        JsonV::Str(c) => {
            assert(s[i] == QUOTE);
            let w = c.push(QUOTE);
            assert(w =~= c + seq![QUOTE]);
            assert(forall|t: int| 0 <= t < w.len() ==> w[t] == ser[1 + t]);
            assert(s.subrange(i + 1, i + 1 + w.len()) =~= w) by {
                assert(forall|t: int|
                    0 <= t < w.len() ==> s.subrange(i + 1, i + 1 + w.len())[t] == #[trigger] s[i
                    + 1 + t]);
            }
            lemma_string_end_window(c, s, i + 1, 0);
            assert(s.subrange(i + 1, i + 1 + c.len()) =~= c);
        },
        JsonV::Arr(es) => {
            assert(s[i] == 91);
            let inner = ser_elems_from(es, 0);
            assert(ser =~= seq![91u8] + inner + seq![93u8]);
            assert(forall|t: int| 0 <= t < inner.len() ==> inner[t] == ser[1 + t]);
            assert(s[i + 1 + inner.len()] == ser[ser.len() - 1]);
            assert(s[i + 1 + inner.len()] == 93);
            if es.len() == 0 {
                assert(inner.len() == 0);
                assert(skip_ws(s, i + 1) == i + 1);
                assert(spec_parse_elems(s, i + 1, true, f - 1) == EParse::Parsed(
                    Seq::<JsonV>::empty(),
                    i + 2,
                ));
                assert(es =~= Seq::<JsonV>::empty());
            } else {
                assert(s.subrange(i + 1, i + 1 + inner.len()) =~= inner) by {
                    assert(forall|t: int|
                        0 <= t < inner.len() ==> s.subrange(i + 1, i + 1 + inner.len())[t]
                            == #[trigger] s[i + 1 + t]);
                }
                lemma_parse_of_ser_elems(es, 0, s, i + 1, true, f - 1);
                assert(es.subrange(0, es.len() as int) =~= es);
            }
        },
        JsonV::Obj(ms) => {
            assert(s[i] == 123);
            let inner = ser_members_from(ms, 0);
            assert(ser =~= seq![123u8] + inner + seq![125u8]);
            assert(forall|t: int| 0 <= t < inner.len() ==> inner[t] == ser[1 + t]);
            assert(s[i + 1 + inner.len()] == ser[ser.len() - 1]);
            assert(s[i + 1 + inner.len()] == 125);
            if ms.len() == 0 {
                assert(inner.len() == 0);
                assert(skip_ws(s, i + 1) == i + 1);
                assert(spec_parse_members(s, i + 1, true, f - 1) == MParse::Parsed(
                    Seq::<(Seq<u8>, JsonV)>::empty(),
                    i + 2,
                ));
                assert(ms =~= Seq::<(Seq<u8>, JsonV)>::empty());
            } else {
                assert(s.subrange(i + 1, i + 1 + inner.len()) =~= inner) by {
                    assert(forall|t: int|
                        0 <= t < inner.len() ==> s.subrange(i + 1, i + 1 + inner.len())[t]
                            == #[trigger] s[i + 1 + t]);
                }
                lemma_parse_of_ser_members(ms, 0, s, i + 1, true, f - 1);
                assert(ms.subrange(0, ms.len() as int) =~= ms);
            }
        },
    }
}

/// Parsing at the start of serialized array elements yields exactly
/// those elements and stops right after the closing bracket.
proof fn lemma_parse_of_ser_elems(
    es: Seq<JsonV>,
    idx: int,
    s: Seq<u8>,
    i: int,
    first: bool,
    f: int,
)
    requires
        0 <= idx < es.len(),
        wf_elems_from(es, idx),
        has_at(s, i, ser_elems_from(es, idx)),
        i + ser_elems_from(es, idx).len() < s.len(),
        s[i + ser_elems_from(es, idx).len()] == 93,
        f >= 2 * (s.len() - i) + 3,
    ensures
        spec_parse_elems(s, i, first, f) == EParse::Parsed(
            es.subrange(idx, es.len() as int),
            i + ser_elems_from(es, idx).len() + 1,
        ),
    decreases es, 1int, es.len() - idx,
{
    let ser = ser_elems_from(es, idx);
    assert(forall|t: int| 0 <= t < ser.len() ==> s[i + t] == #[trigger] ser[t]) by {
        assert(forall|t: int|
            0 <= t < ser.len() ==> s.subrange(i, i + ser.len())[t] == #[trigger] s[i + t]);
    }
    let v = es[idx];
    let vser = ser_json(v);
    lemma_ser_first(v);
    let last = idx + 1 == es.len();
    if last {
        assert(ser =~= vser);
    } else {
        assert(ser =~= vser + seq![44u8] + ser_elems_from(es, idx + 1));
    }
    assert(forall|t: int| 0 <= t < vser.len() ==> vser[t] == ser[t]);
    assert(s.subrange(i, i + vser.len()) =~= vser) by {
        assert(forall|t: int|
            0 <= t < vser.len() ==> s.subrange(i, i + vser.len())[t] == #[trigger] s[i + t]);
    }
    let n = i + vser.len();
    // The byte after the element: a comma before the next element, or
    // the closing bracket.
    if last {
        assert(s[n] == 93);
    } else {
        assert(s[n] == ser[vser.len() as int]);
        assert(s[n] == 44);
    }
    assert(num_boundary(s, n));
    lemma_parse_of_ser(v, s, i, f - 1);
    assert(s[i] == vser[0]);
    assert(skip_ws(s, i) == i);
    assert(s[i] != 93);
    assert(skip_ws(s, n) == n);
    if last {
        assert(spec_parse_elems(s, i, first, f) == EParse::Parsed(seq![v], n + 1));
        assert(es.subrange(idx, es.len() as int) =~= seq![v]);
    } else {
        let rest = ser_elems_from(es, idx + 1);
        assert(s.subrange(n + 1, n + 1 + rest.len()) =~= rest) by {
            assert(forall|t: int| 0 <= t < rest.len() ==> rest[t] == ser[vser.len() + 1 + t]);
            assert(forall|t: int|
                0 <= t < rest.len() ==> s.subrange(n + 1, n + 1 + rest.len())[t] == #[trigger] s[n
                + 1 + t]);
        }
        assert(n + 1 + rest.len() == i + ser.len());
        lemma_parse_of_ser_elems(es, idx + 1, s, n + 1, false, f - 1);
        assert(spec_parse_elems(s, i, first, f) == EParse::Parsed(
            seq![v] + es.subrange(idx + 1, es.len() as int),
            i + ser.len() + 1,
        ));
        assert(es.subrange(idx, es.len() as int) =~= seq![v] + es.subrange(
            idx + 1,
            es.len() as int,
        ));
    }
}

/// Parsing at the start of serialized object members yields exactly
/// those members and stops right after the closing brace.
proof fn lemma_parse_of_ser_members(
    ms: Seq<(Seq<u8>, JsonV)>,
    idx: int,
    s: Seq<u8>,
    i: int,
    first: bool,
    f: int,
)
    requires
        0 <= idx < ms.len(),
        wf_members_from(ms, idx),
        has_at(s, i, ser_members_from(ms, idx)),
        i + ser_members_from(ms, idx).len() < s.len(),
        s[i + ser_members_from(ms, idx).len()] == 125,
        f >= 2 * (s.len() - i) + 3,
    ensures
        spec_parse_members(s, i, first, f) == MParse::Parsed(
            ms.subrange(idx, ms.len() as int),
            i + ser_members_from(ms, idx).len() + 1,
        ),
    decreases ms, 1int, ms.len() - idx,
{
    let ser = ser_members_from(ms, idx);
    assert(forall|t: int| 0 <= t < ser.len() ==> s[i + t] == #[trigger] ser[t]) by {
        assert(forall|t: int|
            0 <= t < ser.len() ==> s.subrange(i, i + ser.len())[t] == #[trigger] s[i + t]);
    }
    let key = ms[idx].0;
    let v = ms[idx].1;
    let vser = ser_json(v);
    lemma_ser_first(v);
    let one = seq![QUOTE] + key + seq![QUOTE, 58u8] + vser;
    let last = idx + 1 == ms.len();
    if last {
        assert(ser =~= one);
    } else {
        assert(ser =~= one + seq![44u8] + ser_members_from(ms, idx + 1));
    }
    assert(forall|t: int| 0 <= t < one.len() ==> one[t] == ser[t]);
    assert(one[0] == QUOTE);
    assert(s[i] == QUOTE);
    assert(skip_ws(s, i) == i);
    // The key: its contents followed by the closing quote.
    let w = key.push(QUOTE);
    assert(w =~= key + seq![QUOTE]);
    assert(forall|t: int| 0 <= t < w.len() ==> w[t] == one[1 + t]);
    assert(s.subrange(i + 1, i + 1 + w.len()) =~= w) by {
        assert(forall|t: int|
            0 <= t < w.len() ==> s.subrange(i + 1, i + 1 + w.len())[t] == #[trigger] s[i + 1
            + t]);
    }
    lemma_string_end_window(key, s, i + 1, 0);
    let q = i + 1 + key.len();
    assert(s.subrange(i + 1, q) =~= key);
    assert(s[q + 1] == one[key.len() + 2 as int]);
    assert(s[q + 1] == 58);
    assert(skip_ws(s, q + 1) == q + 1);
    // The value.
    let vstart = q + 2;
    assert(forall|t: int| 0 <= t < vser.len() ==> vser[t] == one[key.len() + 3 + t]);
    assert(s.subrange(vstart, vstart + vser.len()) =~= vser) by {
        assert(forall|t: int|
            0 <= t < vser.len() ==> s.subrange(vstart, vstart + vser.len())[t]
                == #[trigger] s[vstart + t]);
    }
    let n = vstart + vser.len();
    if last {
        assert(s[n] == 125);
    } else {
        assert(s[n] == ser[one.len() as int]);
        assert(s[n] == 44);
    }
    assert(num_boundary(s, n));
    lemma_parse_of_ser(v, s, vstart, f - 1);
    assert(skip_ws(s, n) == n);
    if last {
        assert(spec_parse_members(s, i, first, f) == MParse::Parsed(seq![(key, v)], n + 1));
        assert(ms.subrange(idx, ms.len() as int) =~= seq![(key, v)]);
    } else {
        let rest = ser_members_from(ms, idx + 1);
        assert(s.subrange(n + 1, n + 1 + rest.len()) =~= rest) by {
            assert(forall|t: int| 0 <= t < rest.len() ==> rest[t] == ser[one.len() + 1 + t]);
            assert(forall|t: int|
                0 <= t < rest.len() ==> s.subrange(n + 1, n + 1 + rest.len())[t]
                    == #[trigger] s[n + 1 + t]);
        }
        assert(n + 1 + rest.len() == i + ser.len());
        lemma_parse_of_ser_members(ms, idx + 1, s, n + 1, false, f - 1);
        assert(spec_parse_members(s, i, first, f) == MParse::Parsed(
            seq![(key, v)] + ms.subrange(idx + 1, ms.len() as int),
            i + ser.len() + 1,
        ));
        assert(ms.subrange(idx, ms.len() as int) =~= seq![(key, v)] + ms.subrange(
            idx + 1,
            ms.len() as int,
        ));
    }
}

/// The codec round trip: a document holding the serialized form of a
/// well-formed value reads back as exactly that value.
pub proof fn lemma_parse_of_ser_json(v: JsonV)
    requires
        wf_json(v),
    ensures
        spec_json(ser_json(v)) == Some(v),
{
    let s = ser_json(v);
    lemma_ser_first(v);
    assert(s.subrange(0, s.len() as int) =~= s);
    lemma_parse_of_ser(v, s, 0, 2 * (s.len() as int) + 2);
}


/// The decimal notation of a `u64` is all digits, with a leading zero
/// only for zero itself.
proof fn lemma_dec_digits(n: u64)
    ensures
        dec_of_u64(n).len() > 0,
        forall|t: int| 0 <= t < dec_of_u64(n).len() ==> is_digit(#[trigger] dec_of_u64(n)[t]),
        n >= 1 ==> dec_of_u64(n)[0] != 48,
    decreases n,
{
    if n >= 10 {
        lemma_dec_digits(n / 10);
        assert(forall|t: int|
            0 <= t < dec_of_u64(n / 10).len() ==> dec_of_u64(n)[t] == #[trigger] dec_of_u64(
                n / 10,
            )[t]);
    }
}

/// The decimal notation of a `u64` is a well-formed number lexeme.
pub proof fn lemma_dec_wf(n: u64)
    ensures
        wf_num_lex(dec_of_u64(n)),
{
    lemma_dec_digits(n);
    let d = dec_of_u64(n);
    assert(is_digit(d[0]));
    if d[0] == 48 {
        assert(n < 10) by {
            if n >= 10 {
                assert(d[0] != 48);
            }
        }
        assert(d.len() == 1);
        assert(number_end(d, 0) == Some(1int));
    } else {
        lemma_digits_end_run(d, 0, d.len() as int);
        assert(number_end(d, 0) == Some(d.len() as int));
    }
}

/// Scanning escaped bytes inside a larger text consumes them whole and
/// stops at the quote that follows them.
proof fn lemma_escape_scan(raw: Seq<u8>, i: int, w: Seq<u8>, j: int)
    requires
        0 <= i <= raw.len(),
        0 <= j,
        w.len() == j + escape_from(raw, i).len() + 1,
        w.subrange(j, w.len() as int) == escape_from(raw, i).push(QUOTE),
    ensures
        string_end(w, j) == Some(w.len() - 1),
    decreases raw.len() - i,
{
    let suffix = escape_from(raw, i).push(QUOTE);
    assert forall|t: int| 0 <= t < suffix.len() implies w[j + t] == #[trigger] suffix[t] by {
        assert(w.subrange(j, w.len() as int)[t] == suffix[t]);
    }
    if i == raw.len() {
        assert(suffix[0] == QUOTE);
        assert(w[j + 0] == suffix[0]);
    } else {
        let b = raw[i];
        let esc = esc_byte(b);
        let rest = escape_from(raw, i + 1);
        assert(escape_from(raw, i) =~= esc + rest);
        let j2 = j + esc.len();
        assert(w.subrange(j2, w.len() as int) =~= rest.push(QUOTE)) by {
            assert forall|t: int|
                0 <= t < rest.len() + 1 implies w.subrange(j2, w.len() as int)[t] == rest.push(
                QUOTE,
            )[t] by {
                assert(w[j + (esc.len() + t)] == suffix[esc.len() + t]);
                assert(suffix[esc.len() + t] == rest.push(QUOTE)[t]);
            }
        }
        if b == QUOTE || b == BACKSLASH {
            assert(suffix[0] == BACKSLASH);
            assert(suffix[1] == b);
            assert(w[j + 0] == suffix[0]);
            assert(w[j + 1] == suffix[1]);
            assert(is_simple_esc(b));
            lemma_escape_scan(raw, i + 1, w, j2);
        } else if b < 32 {
            assert(suffix[0] == BACKSLASH);
            assert(suffix[1] == 117);
            assert(suffix[2] == 48);
            assert(suffix[3] == 48);
            assert(suffix[4] == crate::bytes::hex_digit(b / 16));
            assert(suffix[5] == crate::bytes::hex_digit(b % 16));
            assert(w[j + 0] == suffix[0]);
            assert(w[j + 1] == suffix[1]);
            assert(w[j + 2] == suffix[2]);
            assert(w[j + 3] == suffix[3]);
            assert(w[j + 4] == suffix[4]);
            assert(w[j + 5] == suffix[5]);
            assert(is_hex(crate::bytes::hex_digit(b / 16)));
            assert(is_hex(crate::bytes::hex_digit(b % 16)));
            assert(!is_simple_esc(117));
            lemma_escape_scan(raw, i + 1, w, j2);
        } else {
            assert(suffix[0] == b);
            assert(w[j + 0] == suffix[0]);
            lemma_escape_scan(raw, i + 1, w, j2);
        }
    }
}

/// Escaping any raw bytes yields well-formed string contents.
pub proof fn lemma_escape_wf(raw: Seq<u8>)
    ensures
        wf_str_content(escape_bytes(raw)),
{
    let c = escape_bytes(raw);
    assert(c.push(QUOTE).subrange(0, c.len() as int + 1) =~= c.push(QUOTE));
    lemma_escape_scan(raw, 0, c.push(QUOTE), 0);
}


/// A byte that stands for itself inside a string token.
pub open spec fn plain_byte(b: u8) -> bool {
    32 <= b && b != QUOTE && b != BACKSLASH
}

/// Plain bytes scan through to the closing quote.
proof fn lemma_plain_scan(c: Seq<u8>, j: int)
    requires
        0 <= j <= c.len(),
        forall|t: int| 0 <= t < c.len() ==> plain_byte(#[trigger] c[t]),
    ensures
        string_end(c.push(QUOTE), j) == Some(c.len() as int),
    decreases c.len() - j,
{
    let w = c.push(QUOTE);
    if j < c.len() {
        assert(w[j] == c[j]);
        lemma_plain_scan(c, j + 1);
    } else {
        assert(w[j] == QUOTE);
    }
}

/// Contents of plain bytes are well formed.
pub proof fn lemma_plain_wf(c: Seq<u8>)
    requires
        forall|t: int| 0 <= t < c.len() ==> plain_byte(#[trigger] c[t]),
    ensures
        wf_str_content(c),
{
    lemma_plain_scan(c, 0);
}

} // verus!

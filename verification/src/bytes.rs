//! Byte-level helpers shared by the codec and the message builders.
//!
//! All text in this crate is carried as UTF-8 bytes, so the helpers here
//! work on `u8` sequences: classification of JSON lexical characters,
//! ASCII case folding, JSON string escaping, and decimal conversion for
//! request identifiers.
use vstd::prelude::*;

verus! {

/// ASCII code of `"`.
pub const QUOTE: u8 = 34;

/// ASCII code of `\`.
pub const BACKSLASH: u8 = 92;

/// Whitespace accepted between JSON tokens: space, tab, line feed,
/// carriage return.
pub open spec fn is_ws(b: u8) -> bool {
    b == 32 || b == 9 || b == 10 || b == 13
}

/// Decimal digit.
pub open spec fn is_digit(b: u8) -> bool {
    48 <= b <= 57
}

/// Hexadecimal digit in either case.
pub open spec fn is_hex(b: u8) -> bool {
    is_digit(b) || (97 <= b <= 102) || (65 <= b <= 70)
}

/// An upper-case ASCII letter mapped to lower case; every other byte kept.
pub open spec fn lower_byte(b: u8) -> u8 {
    if 65 <= b <= 90 {
        (b + 32) as u8
    } else {
        b
    }
}

/// ASCII case folding of a byte string.
pub open spec fn lower_bytes(s: Seq<u8>) -> Seq<u8> {
    Seq::new(s.len(), |i: int| lower_byte(s[i]))
}

/// Folds a byte string to ASCII lower case.
pub fn to_lower(s: &Vec<u8>) -> (r: Vec<u8>)
    ensures
        r@ == lower_bytes(s@),
{
    let mut out: Vec<u8> = Vec::new();
    let mut i: usize = 0;
    while i < s.len()
        invariant
            i <= s.len(),
            out@.len() == i,
            forall|j: int| 0 <= j < i ==> out@[j] == lower_byte(s@[j]),
        decreases s.len() - i,
    {
        let b = s[i];
        if 65 <= b && b <= 90 {
            out.push(b + 32);
        } else {
            out.push(b);
        }
        i = i + 1;
    }
    proof {
        assert(out@ =~= lower_bytes(s@));
    }
    out
}

/// Whether two byte strings hold the same bytes.
pub fn bytes_eq(a: &Vec<u8>, b: &Vec<u8>) -> (r: bool)
    ensures
        r == (a@ == b@),
{
    if a.len() != b.len() {
        proof {
            assert(a@ !~= b@);
        }
        return false;
    }
    let mut i: usize = 0;
    while i < a.len()
        invariant
            i <= a.len(),
            a@.len() == b@.len(),
            forall|j: int| 0 <= j < i ==> a@[j] == b@[j],
        decreases a.len() - i,
    {
        if a[i] != b[i] {
            return false;
        }
        i = i + 1;
    }
    proof {
        assert(a@ =~= b@);
    }
    true
}

/// Hexadecimal digit for a value below sixteen, lower case.
pub open spec fn hex_digit(v: u8) -> u8 {
    if v < 10 {
        (48 + v) as u8
    } else {
        (87 + v) as u8
    }
}

/// How one byte appears inside a serialized JSON string: quote and
/// backslash are escaped, control characters become `\u00XX`, and every
/// other byte stands for itself.
pub open spec fn esc_byte(b: u8) -> Seq<u8> {
    if b == QUOTE {
        seq![BACKSLASH, QUOTE]
    } else if b == BACKSLASH {
        seq![BACKSLASH, BACKSLASH]
    } else if b < 32 {
        seq![BACKSLASH, 117u8, 48u8, 48u8, hex_digit(b / 16), hex_digit(b % 16)]
    } else {
        seq![b]
    }
}

/// The serialized JSON string contents for raw bytes, from position `i` on.
pub open spec fn escape_from(s: Seq<u8>, i: int) -> Seq<u8>
    decreases s.len() - i,
{
    if i < 0 || i >= s.len() {
        Seq::empty()
    } else {
        esc_byte(s[i]) + escape_from(s, i + 1)
    }
}

/// The serialized JSON string contents for raw bytes.
pub open spec fn escape_bytes(s: Seq<u8>) -> Seq<u8> {
    escape_from(s, 0)
}

/// Appends the escaped form of `s` to `out`.
pub fn push_escaped(s: &Vec<u8>, out: &mut Vec<u8>)
    ensures
        final(out)@ == old(out)@ + escape_bytes(s@),
{
    let ghost base: Seq<u8> = out@;
    let mut i: usize = 0;
    while i < s.len()
        invariant
            i <= s.len(),
            out@ + escape_from(s@, i as int) == base + escape_bytes(s@),
        decreases s.len() - i,
    {
        let ghost before: Seq<u8> = out@;
        let b = s[i];
        if b == QUOTE || b == BACKSLASH {
            out.push(BACKSLASH);
            out.push(b);
        } else if b < 32 {
            out.push(BACKSLASH);
            out.push(117);
            out.push(48);
            out.push(48);
            let hi = b / 16;
            let lo = b % 16;
            out.push(if hi < 10 { 48 + hi } else { 87 + hi });
            out.push(if lo < 10 { 48 + lo } else { 87 + lo });
        } else {
            out.push(b);
        }
        proof {
            assert(out@ =~= before + esc_byte(s@[i as int]));
            assert(out@ + escape_from(s@, i + 1) =~= before + escape_from(s@, i as int));
        }
        i = i + 1;
    }
    proof {
        assert(escape_from(s@, i as int) =~= Seq::<u8>::empty());
        assert(out@ =~= out@ + escape_from(s@, i as int));
        assert(out@ =~= base + escape_bytes(s@));
    }
}

/// Decimal notation of an unsigned number, most significant digit first.
pub open spec fn dec_of_u64(n: u64) -> Seq<u8>
    decreases n,
{
    if n < 10 {
        seq![(48 + n) as u8]
    } else {
        dec_of_u64(n / 10) + seq![(48 + n % 10) as u8]
    }
}

/// Appends the decimal notation of `n` to `out`.
pub fn push_u64_dec(n: u64, out: &mut Vec<u8>)
    ensures
        final(out)@ == old(out)@ + dec_of_u64(n),
    decreases n,
{
    if n < 10 {
        out.push(48 + (n as u8));
        proof {
            assert(out@ =~= old(out)@ + dec_of_u64(n));
        }
    } else {
        push_u64_dec(n / 10, out);
        out.push(48 + ((n % 10) as u8));
        proof {
            assert(out@ =~= old(out)@ + dec_of_u64(n));
        }
    }
}

/// The value of a decimal digit string, folded left; `acc` carries the
/// value read so far and the result is `None` once the value leaves `u64`.
pub open spec fn dec_val_from(s: Seq<u8>, i: int, acc: Option<u64>) -> Option<u64>
    decreases s.len() - i,
{
    if i < 0 || i >= s.len() {
        acc
    } else {
        match acc {
            None => None,
            Some(a) => {
                let d = (s[i] - 48) as u64;
                if a > (u64::MAX - d) / 10 {
                    dec_val_from(s, i + 1, None)
                } else {
                    dec_val_from(s, i + 1, Some((a * 10 + d) as u64))
                }
            },
        }
    }
}

/// The `u64` value of a byte string, defined when the string is a plain
/// run of decimal digits whose value fits in `u64`.
pub open spec fn u64_of_dec(s: Seq<u8>) -> Option<u64> {
    if s.len() == 0 || exists|i: int| 0 <= i < s.len() && !is_digit(s[i]) {
        None
    } else {
        dec_val_from(s, 0, Some(0))
    }
}

/// Reads a byte string as an unsigned decimal number.
pub fn parse_u64_dec(s: &Vec<u8>) -> (r: Option<u64>)
    ensures
        r == u64_of_dec(s@),
{
    if s.len() == 0 {
        return None;
    }
    let mut i: usize = 0;
    let mut acc: u64 = 0;
    let mut overflow: bool = false;
    while i < s.len()
        invariant
            i <= s.len(),
            forall|j: int| 0 <= j < i ==> is_digit(s@[j]),
            dec_val_from(s@, 0, Some(0)) == dec_val_from(
                s@,
                i as int,
                if overflow {
                    None::<u64>
                } else {
                    Some(acc)
                },
            ),
        decreases s.len() - i,
    {
        let b = s[i];
        if !(48 <= b && b <= 57) {
            proof {
                assert(!is_digit(s@[i as int]));
            }
            return None;
        }
        let d: u64 = (b - 48) as u64;
        if overflow {
        } else if acc > (u64::MAX - d) / 10 {
            overflow = true;
        } else {
            acc = acc * 10 + d;
        }
        i = i + 1;
    }
    proof {
        assert(forall|j: int| 0 <= j < s@.len() ==> is_digit(s@[j]));
    }
    if overflow {
        None
    } else {
        Some(acc)
    }
}


/// The mathematical integer a decimal lexeme denotes: digits with an
/// optional leading minus, absolute value within `u64`.
pub open spec fn int_of_dec(s: Seq<u8>) -> Option<int> {
    if s.len() >= 1 && s[0] == 45 {
        match u64_of_dec(s.subrange(1, s.len() as int)) {
            Some(v) => Some(-(v as int)),
            None => None,
        }
    } else {
        match u64_of_dec(s) {
            Some(v) => Some(v as int),
            None => None,
        }
    }
}

/// Reads a byte string as a signed decimal number within `i32`.
pub fn parse_i32_dec(s: &Vec<u8>) -> (r: Option<i32>)
    ensures
        match r {
            Some(c) => int_of_dec(s@) == Some(c as int),
            None => match int_of_dec(s@) {
                Some(v) => !(-0x8000_0000 <= v < 0x8000_0000),
                None => true,
            },
        },
{
    if s.len() >= 1 && s[0] == 45 {
        let rest = tail_from(s, 1);
        match parse_u64_dec(&rest) {
            Some(v) => {
                if v <= 0x8000_0000u64 {
                    Some((-(v as i64)) as i32)
                } else {
                    None
                }
            },
            None => None,
        }
    } else {
        match parse_u64_dec(s) {
            Some(v) => {
                if v <= 0x7fff_ffffu64 {
                    Some(v as i32)
                } else {
                    None
                }
            },
            None => None,
        }
    }
}

/// Copies the bytes of `s` from position `from` on.
pub fn tail_from(s: &Vec<u8>, from: usize) -> (r: Vec<u8>)
    requires
        from <= s@.len(),
    ensures
        r@ == s@.subrange(from as int, s@.len() as int),
{
    let mut out: Vec<u8> = Vec::new();
    let mut j = from;
    while j < s.len()
        invariant
            from <= j <= s@.len(),
            out@.len() == j - from,
            forall|t: int| 0 <= t < out@.len() ==> out@[t] == s@[from + t],
        decreases s@.len() - j,
    {
        out.push(s[j]);
        j = j + 1;
    }
    proof {
        assert(out@ =~= s@.subrange(from as int, s@.len() as int));
    }
    out
}


/// Decimal notation of an integer within `i32`: a minus sign for
/// negative values, then the digits of the absolute value.
pub open spec fn dec_of_i32(c: int) -> Seq<u8> {
    if c < 0 {
        seq![45u8] + dec_of_u64((-c) as u64)
    } else {
        dec_of_u64(c as u64)
    }
}

/// Appends the decimal notation of `c` to `out`.
pub fn push_i32_dec(c: i32, out: &mut Vec<u8>)
    ensures
        final(out)@ == old(out)@ + dec_of_i32(c as int),
{
    if c < 0 {
        out.push(45);
        let m: u64 = (-(c as i64)) as u64;
        let ghost mid = out@;
        push_u64_dec(m, out);
        proof {
            assert(out@ =~= old(out)@ + dec_of_i32(c as int));
        }
    } else {
        push_u64_dec(c as u64, out);
    }
}


/// Appending one digit multiplies the folded value by ten and adds it,
/// with the same overflow behaviour.
proof fn lemma_dec_val_append(s: Seq<u8>, d: u64, i: int, acc: Option<u64>)
    requires
        0 <= i <= s.len(),
        d < 10,
    ensures
        dec_val_from(s.push((48 + d) as u8), i, acc) == match dec_val_from(s, i, acc) {
            Some(v) => if v <= (u64::MAX - d) / 10 {
                Some((v * 10 + d) as u64)
            } else {
                None::<u64>
            },
            None => None::<u64>,
        },
    decreases s.len() - i,
{
    let ext = s.push((48 + d) as u8);
    if i == s.len() {
        assert(ext[i] == (48 + d) as u8);
        match acc {
            None => {
                assert(dec_val_from(ext, i, acc) == None::<u64>);
            },
            Some(a) => {
                if a > (u64::MAX - d) / 10 {
                    assert(dec_val_from(ext, i + 1, None::<u64>) == None::<u64>);
                } else {
                    assert(dec_val_from(ext, i + 1, Some((a * 10 + d) as u64)) == Some(
                        (a * 10 + d) as u64,
                    ));
                }
            },
        }
    } else {
        assert(ext[i] == s[i]);
        match acc {
            None => {
                lemma_dec_val_append(s, d, i + 1, None);
            },
            Some(a) => {
                let e = (s[i] - 48) as u64;
                if a > (u64::MAX - e) / 10 {
                    lemma_dec_val_append(s, d, i + 1, None);
                } else {
                    lemma_dec_val_append(s, d, i + 1, Some((a * 10 + e) as u64));
                }
            },
        }
    }
}

/// Reading the decimal notation of a number yields the number back.
pub proof fn lemma_u64_of_dec_roundtrip(n: u64)
    ensures
        u64_of_dec(dec_of_u64(n)) == Some(n),
    decreases n,
{
    let dec = dec_of_u64(n);
    if n < 10 {
        assert(dec =~= seq![(48 + n) as u8]);
        assert(is_digit(dec[0]));
        assert(dec_val_from(dec, 1, Some(n)) == Some(n));
        assert(dec_val_from(dec, 0, Some(0u64)) == Some(n));
        assert(!(exists|t: int| 0 <= t < dec.len() && !is_digit(dec[t]))) by {
            if exists|t: int| 0 <= t < dec.len() && !is_digit(dec[t]) {
                let w = choose|t: int| 0 <= t < dec.len() && !is_digit(dec[t]);
                assert(w == 0);
            }
        }
    } else {
        let q = n / 10;
        let d = n % 10;
        lemma_u64_of_dec_roundtrip(q);
        let prev = dec_of_u64(q);
        assert(dec =~= prev.push((48 + d) as u8));
        assert(forall|t: int| 0 <= t < prev.len() ==> is_digit(prev[t])) by {
            assert(forall|t: int|
                0 <= t < prev.len() && !is_digit(prev[t]) ==> u64_of_dec(prev) is None);
        }
        assert(forall|t: int| 0 <= t < dec.len() ==> is_digit(dec[t])) by {
            assert(forall|t: int| 0 <= t < prev.len() ==> dec[t] == prev[t]);
            assert(dec[prev.len() as int] == (48 + d) as u8);
        }
        lemma_dec_val_append(prev, d, 0, Some(0));
        vstd::arithmetic::div_mod::lemma_fundamental_div_mod(n as int, 10);
        assert(n == q * 10 + d);
        assert(q <= (u64::MAX - d) / 10) by {
            vstd::arithmetic::div_mod::lemma_div_multiples_vanish(q as int, 10);
            vstd::arithmetic::div_mod::lemma_div_is_ordered(
                10 * (q as int),
                u64::MAX - d,
                10,
            );
        }
        assert(dec_val_from(prev, 0, Some(0u64)) == Some(q));
        assert(dec_val_from(dec, 0, Some(0u64)) == Some(n));
        assert(!(exists|t: int| 0 <= t < dec.len() && !is_digit(dec[t]))) by {
            if exists|t: int| 0 <= t < dec.len() && !is_digit(dec[t]) {
                let w = choose|t: int| 0 <= t < dec.len() && !is_digit(dec[t]);
                assert(is_digit(dec[w]));
            }
        }
    }
}

} // verus!

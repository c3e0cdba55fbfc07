//! The grammar of post identifiers.
//!
//! A post identifier travels as text in the canonical hyphenated form
//! that the store emits: 36 characters, five groups of hexadecimal
//! digits of lengths 8-4-4-4-12 separated by `-`. Parsing maps such a
//! string to the 128-bit value its 32 digits denote; formatting maps a
//! value back to lowercase canonical text. Any other string is not a
//! valid identifier, and lookups treat it exactly like an absent row.

use vstd::prelude::*;

verus! {

use vstd::arithmetic::div_mod::{
    lemma_div_denominator,
    lemma_fundamental_div_mod,
    lemma_multiply_divide_lt,
};

/// 16 to the power `n`.
pub open spec fn pow16(n: nat) -> int
    decreases n,
{
    if n == 0 {
        1
    } else {
        16 * pow16((n - 1) as nat)
    }
}

/// The numeric value of a hexadecimal digit, upper or lower case;
/// `None` for any other character.
pub open spec fn hex_val(c: char) -> Option<int> {
    let n = c as u32;
    if 48 <= n <= 57 {
        Some(n - 48)
    } else if 97 <= n <= 102 {
        Some(n - 97 + 10)
    } else if 65 <= n <= 70 {
        Some(n - 65 + 10)
    } else {
        None
    }
}

/// The lowercase hexadecimal digit for a value below 16.
pub open spec fn digit_char(d: int) -> char {
    if d == 0 { '0' }
    else if d == 1 { '1' }
    else if d == 2 { '2' }
    else if d == 3 { '3' }
    else if d == 4 { '4' }
    else if d == 5 { '5' }
    else if d == 6 { '6' }
    else if d == 7 { '7' }
    else if d == 8 { '8' }
    else if d == 9 { '9' }
    else if d == 10 { 'a' }
    else if d == 11 { 'b' }
    else if d == 12 { 'c' }
    else if d == 13 { 'd' }
    else if d == 14 { 'e' }
    else { 'f' }
}

/// Positions that hold a `-` in the canonical form.
pub open spec fn is_hyphen_pos(i: int) -> bool {
    i == 8 || i == 13 || i == 18 || i == 23
}

/// The position in the canonical form of the `j`-th hexadecimal digit.
pub open spec fn digit_pos(j: int) -> int {
    if j < 8 {
        j
    } else if j < 12 {
        j + 1
    } else if j < 16 {
        j + 2
    } else if j < 20 {
        j + 3
    } else {
        j + 4
    }
}

/// Whether `s` has the shape of a canonical identifier: 36 characters,
/// hyphens exactly at positions 8, 13, 18 and 23, hexadecimal digits
/// everywhere else.
pub open spec fn id_shape_ok(s: Seq<char>) -> bool {
    &&& s.len() == 36
    &&& forall|i: int|
        0 <= i < 36 ==> (if is_hyphen_pos(i) {
            s[i] == '-'
        } else {
            hex_val(#[trigger] s[i]) is Some
        })
}

/// The 32 digit characters of a canonical identifier, in order.
pub open spec fn id_digits(s: Seq<char>) -> Seq<char> {
    Seq::new(32, |j: int| s[digit_pos(j)])
}

/// The value of a big-endian sequence of hexadecimal digits.
pub open spec fn val_of_digits(ds: Seq<char>) -> int
    decreases ds.len(),
{
    if ds.len() == 0 {
        0
    } else {
        val_of_digits(ds.drop_last()) * 16 + (match hex_val(ds.last()) {
            Some(d) => d,
            None => 0,
        })
    }
}

/// The value a string denotes as a post identifier: `Some` exactly for
/// the canonical hyphenated form.
pub open spec fn parse_id_spec(s: Seq<char>) -> Option<int> {
    if id_shape_ok(s) {
        Some(val_of_digits(id_digits(s)))
    } else {
        None
    }
}

/// The `n` low hexadecimal digits of `v`, big-endian, as characters.
pub open spec fn digits_of(v: int, n: nat) -> Seq<char>
    decreases n,
{
    if n == 0 {
        Seq::empty()
    } else {
        digits_of(v / 16, (n - 1) as nat).push(digit_char(v % 16))
    }
}

/// The canonical 36-character text of an identifier value.
pub open spec fn format_id_spec(v: int) -> Seq<char> {
    Seq::new(36, |i: int| if is_hyphen_pos(i) {
        '-'
    } else {
        digits_of(v, 32)[i - hyphens_before(i)]
    })
}

/// How many hyphens of the canonical form lie strictly before position `i`.
pub open spec fn hyphens_before(i: int) -> int {
    if i <= 8 {
        0
    } else if i <= 13 {
        1
    } else if i <= 18 {
        2
    } else if i <= 23 {
        3
    } else {
        4
    }
}

/// `pow16` is positive.
pub proof fn lemma_pow16_pos(n: nat)
    ensures
        pow16(n) >= 1,
    decreases n,
{
    if n > 0 {
        lemma_pow16_pos((n - 1) as nat);
    }
}

/// `pow16` is monotone.
pub proof fn lemma_pow16_mono(a: nat, b: nat)
    requires
        a <= b,
    ensures
        pow16(a) <= pow16(b),
    decreases b,
{
    if a < b {
        lemma_pow16_mono(a, (b - 1) as nat);
        lemma_pow16_pos((b - 1) as nat);
    }
}

/// `16^32` is one more than the largest 128-bit value.
pub proof fn lemma_pow16_32()
    ensures
        pow16(32) == 0x100000000000000000000000000000000,
{
    reveal_with_fuel(pow16, 33);
    assert(pow16(32) == 0x100000000000000000000000000000000);
}

/// The numeric value of one hexadecimal digit character, upper or
/// lower case.
pub fn hex_digit_val(c: char) -> (r: Option<u8>)
    ensures
        match r {
            Some(d) => hex_val(c) == Some(d as int),
            None => hex_val(c) is None,
        },
{
    let n = c as u32;
    if 48 <= n && n <= 57 {
        Some((n - 48) as u8)
    } else if 97 <= n && n <= 102 {
        Some((n - 97 + 10) as u8)
    } else if 65 <= n && n <= 70 {
        Some((n - 65 + 10) as u8)
    } else {
        None
    }
}

/// Parse a post identifier: `Some` of its 128-bit value exactly when
/// the string is in the canonical hyphenated form.
pub fn parse_id(s: &str) -> (r: Option<u128>)
    ensures
        match r {
            Some(v) => parse_id_spec(s@) == Some(v as int),
            None => parse_id_spec(s@) is None,
        },
{
    let len = s.unicode_len();
    if len != 36 {
        return None;
    }
    let mut acc: u128 = 0;
    let ghost mut dcount: int = 0;
    let mut i: usize = 0;
    while i < 36
        invariant
            s@.len() == 36,
            0 <= i <= 36,
            dcount == i - hyphens_before(i as int),
            0 <= dcount <= 32,
            forall|k: int| 0 <= k < i && is_hyphen_pos(k) ==> s@[k] == '-',
            forall|k: int| 0 <= k < i && !is_hyphen_pos(k) ==> hex_val(#[trigger] s@[k]) is Some,
            acc as int == val_of_digits(id_digits(s@).take(dcount)),
            (acc as int) < pow16(dcount as nat),
        decreases 36 - i,
    {
        let c = s.get_char(i);
        if i == 8 || i == 13 || i == 18 || i == 23 {
            if c != '-' {
                assert(!id_shape_ok(s@));
                return None;
            }
        } else {
            match hex_digit_val(c) {
                Some(d) => {
                    proof {
                        assert(digit_pos(dcount) == i);
                        let pre = id_digits(s@).take(dcount);
                        let ext = id_digits(s@).take(dcount + 1);
                        assert(ext.drop_last() =~= pre);
                        assert(ext.last() == s@[i as int]);
                        assert(val_of_digits(ext) == val_of_digits(pre) * 16 + d);
                        lemma_pow16_mono((dcount + 1) as nat, 32);
                        lemma_pow16_32();
                    }
                    acc = acc * 16 + (d as u128);
                    proof {
                        dcount = dcount + 1;
                    }
                },
                None => {
                    assert(!id_shape_ok(s@));
                    return None;
                },
            }
        }
        i += 1;
    }
    proof {
        assert(id_shape_ok(s@));
        assert(dcount == 32);
        assert(id_digits(s@).take(32) =~= id_digits(s@));
    }
    Some(acc)
}

/// `digits_of` produces exactly `n` characters.
pub proof fn lemma_digits_of_len(v: int, n: nat)
    ensures
        digits_of(v, n).len() == n,
    decreases n,
{
    if n > 0 {
        lemma_digits_of_len(v / 16, (n - 1) as nat);
    }
}

/// Each character of `digits_of` is the digit of the matching power of 16.
pub proof fn lemma_digits_of_index(v: int, n: nat, i: int)
    requires
        0 <= v,
        0 <= i < n,
    ensures
        digits_of(v, n)[i] == digit_char((v / pow16((n - 1 - i) as nat)) % 16),
    decreases n,
{
    lemma_digits_of_len(v, n);
    lemma_digits_of_len(v / 16, (n - 1) as nat);
    if i < n - 1 {
        lemma_digits_of_index(v / 16, (n - 1) as nat, i);
        lemma_pow16_pos((n - 2 - i) as nat);
        lemma_div_denominator(v, 16, pow16((n - 2 - i) as nat));
        assert(16 * pow16((n - 2 - i) as nat) == pow16((n - 1 - i) as nat));
    }
}

/// `digit_char` and `hex_val` are inverse on digit values.
pub proof fn lemma_hex_val_digit_char(d: int)
    requires
        0 <= d < 16,
    ensures
        hex_val(digit_char(d)) == Some(d),
{
}

/// A value below `16^n` is denoted by its own `n` digits.
pub proof fn lemma_val_digits_of(v: int, n: nat)
    requires
        0 <= v < pow16(n),
    ensures
        val_of_digits(digits_of(v, n)) == v,
    decreases n,
{
    if n == 0 {
    } else {
        lemma_digits_of_len(v / 16, (n - 1) as nat);
        assert(digits_of(v, n).drop_last() =~= digits_of(v / 16, (n - 1) as nat));
        lemma_pow16_pos((n - 1) as nat);
        lemma_multiply_divide_lt(v, 16, pow16((n - 1) as nat));
        lemma_val_digits_of(v / 16, (n - 1) as nat);
        lemma_hex_val_digit_char(v % 16);
        lemma_fundamental_div_mod(v, 16);
    }
}

/// Formatted identifiers have the canonical shape, and their digit
/// characters are exactly the digits of the value.
pub proof fn lemma_format_shape(v: int)
    requires
        0 <= v,
    ensures
        id_shape_ok(format_id_spec(v)),
        id_digits(format_id_spec(v)) =~= digits_of(v, 32),
{
    lemma_digits_of_len(v, 32);
    assert forall|i: int| 0 <= i < 36 && !is_hyphen_pos(i) implies hex_val(
        #[trigger] format_id_spec(v)[i],
    ) is Some by {
        let k = i - hyphens_before(i);
        lemma_digits_of_index(v, 32, k);
        lemma_pow16_pos((31 - k) as nat);
        lemma_hex_val_digit_char((v / pow16((31 - k) as nat)) % 16);
    };
    assert forall|j: int| 0 <= j < 32 implies #[trigger] id_digits(format_id_spec(v))[j]
        == digits_of(v, 32)[j] by {
        assert(!is_hyphen_pos(digit_pos(j)));
        assert(digit_pos(j) - hyphens_before(digit_pos(j)) == j);
    };
}

/// Round trip: parsing a formatted identifier returns the value.
pub proof fn lemma_parse_format_roundtrip(v: int)
    requires
        0 <= v < pow16(32),
    ensures
        parse_id_spec(format_id_spec(v)) == Some(v),
{
    lemma_format_shape(v);
    assert(id_digits(format_id_spec(v)) == digits_of(v, 32));
    lemma_val_digits_of(v, 32);
}

/// The one-character text of a hexadecimal digit value.
fn digit_str(d: u8) -> (r: &'static str)
    requires
        d < 16,
    ensures
        r@.len() == 1,
        r@[0] == digit_char(d as int),
{
    proof {
        reveal_strlit("0");
        reveal_strlit("1");
        reveal_strlit("2");
        reveal_strlit("3");
        reveal_strlit("4");
        reveal_strlit("5");
        reveal_strlit("6");
        reveal_strlit("7");
        reveal_strlit("8");
        reveal_strlit("9");
        reveal_strlit("a");
        reveal_strlit("b");
        reveal_strlit("c");
        reveal_strlit("d");
        reveal_strlit("e");
        reveal_strlit("f");
    }
    if d == 0 { "0" }
    else if d == 1 { "1" }
    else if d == 2 { "2" }
    else if d == 3 { "3" }
    else if d == 4 { "4" }
    else if d == 5 { "5" }
    else if d == 6 { "6" }
    else if d == 7 { "7" }
    else if d == 8 { "8" }
    else if d == 9 { "9" }
    else if d == 10 { "a" }
    else if d == 11 { "b" }
    else if d == 12 { "c" }
    else if d == 13 { "d" }
    else if d == 14 { "e" }
    else { "f" }
}

/// Format an identifier value as canonical lowercase hyphenated text.
pub fn format_id(v: u128) -> (r: String)
    ensures
        r@ == format_id_spec(v as int),
{
    let ghost vv: int = v as int;
    let mut ds: Vec<u8> = Vec::new();
    let mut rem: u128 = v;
    let mut j: usize = 0;
    while j < 32
        invariant
            0 <= j <= 32,
            ds@.len() == j,
            rem as int == vv / pow16(j as nat),
            vv == v as int,
            forall|k: int|
                0 <= k < j ==> (#[trigger] ds@[k]) as int == (vv / pow16(k as nat)) % 16,
        decreases 32 - j,
    {
        let d = (rem % 16) as u8;
        proof {
            lemma_pow16_pos(j as nat);
            lemma_div_denominator(vv, pow16(j as nat), 16);
            assert(pow16(j as nat) * 16 == pow16((j + 1) as nat));
        }
        ds.push(d);
        rem = rem / 16;
        j += 1;
    }
    let mut out = String::new();
    proof {
        lemma_digits_of_len(vv, 32);
    }
    let mut i: usize = 0;
    while i < 36
        invariant
            0 <= i <= 36,
            out@.len() == i,
            ds@.len() == 32,
            vv == v as int,
            0 <= vv,
            forall|k: int|
                0 <= k < 32 ==> (#[trigger] ds@[k]) as int == (vv / pow16(k as nat)) % 16,
            forall|k: int| 0 <= k < i ==> out@[k] == format_id_spec(vv)[k],
        decreases 36 - i,
    {
        if i == 8 || i == 13 || i == 18 || i == 23 {
            proof {
                reveal_strlit("-");
            }
            out.append("-");
        } else {
            let hb: usize = if i <= 8 { 0 } else if i <= 13 { 1 } else if i <= 18 { 2 }
            else if i <= 23 { 3 } else { 4 };
            proof {
                assert(hb as int == hyphens_before(i as int));
                lemma_pow16_pos((31 - (i - hb)) as nat);
            }
            let idx = 31 - (i - hb);
            let d = ds[idx];
            proof {
                lemma_digits_of_index(vv, 32, (i - hb) as int);
            }
            out.append(digit_str(d));
        }
        i += 1;
    }
    proof {
        assert(out@ =~= format_id_spec(vv));
    }
    out
}

} // verus!

//! Rendering identifiers and numbers as text.
//!
//! The wire protocol writes identifiers in the canonical 8-4-4-4-12
//! hexadecimal form and counters in plain decimal. Both renderings are
//! specified by recursive digit sequences and proved exact.

use vstd::prelude::*;
use vstd::string::StringExecFns;

verus! {

/// Relies on `String::push`: appends exactly one character.
#[verifier::external_body]
pub fn push_char(s: &mut String, c: char)
    ensures
        final (s)@ == old(s)@.push(c),
{
    s.push(c)
}

/// Relies on `str`'s `PartialEq`: equality of the character sequences.
#[verifier::external_body]
pub fn str_eq(a: &str, b: &str) -> (r: bool)
    ensures
        r == (a@ == b@),
{
    a == b
}

/// The lowercase hexadecimal digit for a value below sixteen.
pub open spec fn hex_digit(d: u8) -> char {
    if d == 0 {
        '0'
    } else if d == 1 {
        '1'
    } else if d == 2 {
        '2'
    } else if d == 3 {
        '3'
    } else if d == 4 {
        '4'
    } else if d == 5 {
        '5'
    } else if d == 6 {
        '6'
    } else if d == 7 {
        '7'
    } else if d == 8 {
        '8'
    } else if d == 9 {
        '9'
    } else if d == 10 {
        'a'
    } else if d == 11 {
        'b'
    } else if d == 12 {
        'c'
    } else if d == 13 {
        'd'
    } else if d == 14 {
        'e'
    } else {
        'f'
    }
}

pub fn hex_digit_char(d: u8) -> (r: char)
    requires
        d < 16,
    ensures
        r == hex_digit(d),
{
    match d {
        0 => '0',
        1 => '1',
        2 => '2',
        3 => '3',
        4 => '4',
        5 => '5',
        6 => '6',
        7 => '7',
        8 => '8',
        9 => '9',
        10 => 'a',
        11 => 'b',
        12 => 'c',
        13 => 'd',
        14 => 'e',
        _ => 'f',
    }
}

/// The last `n` hexadecimal digits of `v`, most significant first.
pub open spec fn hex_seq(v: u128, n: nat) -> Seq<char>
    decreases n,
{
    if n == 0 {
        Seq::<char>::empty()
    } else {
        hex_seq(v / 16, (n - 1) as nat) + seq![hex_digit((v % 16) as u8)]
    }
}

/// The canonical textual form of an identifier: thirty-two lowercase
/// hexadecimal digits in five dash-separated groups of 8, 4, 4, 4 and 12.
pub open spec fn uuid_chars(id: u128) -> Seq<char> {
    let h = hex_seq(id, 32);
    h.subrange(0, 8) + seq!['-'] + h.subrange(8, 12) + seq!['-'] + h.subrange(12, 16)
        + seq!['-'] + h.subrange(16, 20) + seq!['-'] + h.subrange(20, 32)
}

proof fn lemma_hex_seq_len(v: u128, n: nat)
    ensures
        hex_seq(v, n).len() == n,
    decreases n,
{
    if n > 0 {
        lemma_hex_seq_len(v / 16, (n - 1) as nat);
    }
}

/// The thirty-two hex digits of `id`, least significant digit first.
fn hex_digits_rev(id: u128) -> (r: Vec<char>)
    ensures
        r@.len() == 32,
        r@.reverse() == hex_seq(id, 32),
{
    let mut digits: Vec<char> = Vec::new();
    let mut v = id;
    let mut k: usize = 0;
    while k < 32
        invariant
            0 <= k <= 32,
            digits@.len() == k,
            hex_seq(id, 32) == hex_seq(v, (32 - k) as nat) + digits@.reverse(),
        decreases 32 - k,
    {
        let ghost old_digits = digits@;
        let ghost old_v = v;
        let d = (v % 16) as u8;
        digits.push(hex_digit_char(d));
        v = v / 16;
        k = k + 1;
        proof {
            assert(digits@ == old_digits.push(hex_digit((old_v % 16) as u8)));
            assert(digits@.reverse() =~= seq![hex_digit((old_v % 16) as u8)]
                + old_digits.reverse());
            assert(hex_seq(old_v, (33 - k) as nat) == hex_seq(v, (32 - k) as nat) + seq![
                hex_digit((old_v % 16) as u8)
            ]);
            assert(hex_seq(v, (32 - k) as nat) + digits@.reverse() =~= (hex_seq(
                v,
                (32 - k) as nat,
            ) + seq![hex_digit((old_v % 16) as u8)]) + old_digits.reverse());
        }
    }
    proof {
        assert(hex_seq(v, 0) == Seq::<char>::empty());
        assert(hex_seq(id, 32) =~= digits@.reverse());
        lemma_hex_seq_len(id, 32);
    }
    digits
}

/// Pushes digits `from..to` (most significant first) of a digit vector whose
/// reverse is `h`.
fn push_hex_range(s: &mut String, digits: &Vec<char>, from: usize, to: usize)
    requires
        digits@.len() == 32,
        from <= to <= 32,
    ensures
        final (s)@ == old(s)@ + digits@.reverse().subrange(from as int, to as int),
{
    let ghost h = digits@.reverse();
    let mut j = from;
    while j < to
        invariant
            digits@.len() == 32,
            h == digits@.reverse(),
            from <= j <= to <= 32,
            s@ == old(s)@ + h.subrange(from as int, j as int),
        decreases to - j,
    {
        let c = digits[31 - j];
        proof {
            assert(h[j as int] == digits@[31 - j as int]);
            assert(h.subrange(from as int, j + 1) =~= h.subrange(from as int, j as int).push(
                h[j as int],
            ));
        }
        push_char(s, c);
        j = j + 1;
    }
    proof {
        if from == to {
            assert(s@ =~= old(s)@ + h.subrange(from as int, to as int));
        }
    }
}

/// Renders an identifier in the canonical dash-separated hexadecimal form.
pub fn uuid_string(id: u128) -> (r: String)
    ensures
        r@ == uuid_chars(id),
        r@.len() == 36,
{
    let digits = hex_digits_rev(id);
    let ghost h = digits@.reverse();
    let mut s = String::new();
    push_hex_range(&mut s, &digits, 0, 8);
    push_char(&mut s, '-');
    push_hex_range(&mut s, &digits, 8, 12);
    push_char(&mut s, '-');
    push_hex_range(&mut s, &digits, 12, 16);
    push_char(&mut s, '-');
    push_hex_range(&mut s, &digits, 16, 20);
    push_char(&mut s, '-');
    push_hex_range(&mut s, &digits, 20, 32);
    proof {
        lemma_hex_seq_len(id, 32);
        assert(s@ =~= uuid_chars(id));
        assert(uuid_chars(id).len() == 36);
    }
    s
}

/// The decimal rendering of `v`, without leading zeros (`0` for zero).
pub open spec fn dec_seq(v: nat) -> Seq<char>
    decreases v,
{
    if v < 10 {
        seq![hex_digit(v as u8)]
    } else {
        dec_seq(v / 10) + seq![hex_digit((v % 10) as u8)]
    }
}

/// Renders an unsigned counter in decimal.
pub fn u64_string(v: u64) -> (r: String)
    ensures
        r@ == dec_seq(v as nat),
{
    let mut digits: Vec<char> = Vec::new();
    digits.push(hex_digit_char((v % 10) as u8));
    let mut w = v / 10;
    proof {
        assert(digits@.reverse() =~= seq![hex_digit((v % 10) as u8)]);
        if v < 10 {
            assert(dec_seq(v as nat) == digits@.reverse());
        } else {
            assert(dec_seq(v as nat) == dec_seq((v / 10) as nat) + seq![
                hex_digit((v % 10) as u8)
            ]);
            assert(dec_seq(v as nat) =~= dec_seq(w as nat) + digits@.reverse());
        }
    }
    while w > 0
        invariant
            digits@.len() >= 1,
            dec_seq(v as nat) == (if w == 0 {
                digits@.reverse()
            } else {
                dec_seq(w as nat) + digits@.reverse()
            }),
        decreases w,
    {
        let ghost old_digits = digits@;
        let ghost old_w = w;
        let d = (w % 10) as u8;
        digits.push(hex_digit_char(d));
        w = w / 10;
        proof {
            assert(digits@ == old_digits.push(hex_digit((old_w % 10) as u8)));
            assert(digits@.reverse() =~= seq![hex_digit((old_w % 10) as u8)]
                + old_digits.reverse());
            if old_w < 10 {
                assert(dec_seq(old_w as nat) == seq![hex_digit(old_w as u8)]);
                assert(dec_seq(v as nat) =~= digits@.reverse());
            } else {
                assert(dec_seq(old_w as nat) == dec_seq((old_w / 10) as nat) + seq![
                    hex_digit((old_w % 10) as u8)
                ]);
                assert(dec_seq(v as nat) =~= dec_seq(w as nat) + digits@.reverse());
            }
        }
    }
    let ghost h = digits@.reverse();
    let n = digits.len();
    let mut s = String::new();
    let mut j: usize = 0;
    while j < n
        invariant
            n == digits@.len(),
            h == digits@.reverse(),
            h == dec_seq(v as nat),
            0 <= j <= n,
            s@ == h.subrange(0, j as int),
        decreases n - j,
    {
        let c = digits[n - 1 - j];
        proof {
            assert(h[j as int] == digits@[n - 1 - j as int]);
            assert(h.subrange(0, j + 1) =~= h.subrange(0, j as int).push(h[j as int]));
        }
        push_char(&mut s, c);
        j = j + 1;
    }
    proof {
        assert(s@ =~= dec_seq(v as nat));
    }
    s
}

/// The decimal rendering of a signed counter: a minus sign and the
/// magnitude's digits for negative values.
pub open spec fn dec_seq_i64(v: int) -> Seq<char> {
    if v >= 0 {
        dec_seq(v as nat)
    } else {
        seq!['-'] + dec_seq((-v) as nat)
    }
}

/// Renders a signed counter in decimal.
pub fn i64_string(v: i64) -> (r: String)
    ensures
        r@ == dec_seq_i64(v as int),
{
    if v >= 0 {
        u64_string(v as u64)
    } else {
        let mag: u64 = if v == i64::MIN {
            9223372036854775808u64
        } else {
            (-v) as u64
        };
        let rest = u64_string(mag);
        let mut s = String::new();
        push_char(&mut s, '-');
        let r = s.concat(rest.as_str());
        proof {
            assert(r@ =~= dec_seq_i64(v as int));
        }
        r
    }
}

} // verus!

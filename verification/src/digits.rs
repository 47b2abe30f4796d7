//! Decimal representation of unsigned integers, used by the job codec and
//! by the configuration parser: formatting, parsing, and the proof that the
//! two invert each other.

use vstd::prelude::*;

verus! {

/// Whether a character is a decimal digit.
pub open spec fn is_digit_char(c: char) -> bool {
    c == '0' || c == '1' || c == '2' || c == '3' || c == '4' || c == '5' || c == '6' || c == '7'
        || c == '8' || c == '9'
}

/// Numeric value of a decimal digit character.
pub open spec fn digit_val(c: char) -> nat {
    if c == '0' {
        0
    } else if c == '1' {
        1
    } else if c == '2' {
        2
    } else if c == '3' {
        3
    } else if c == '4' {
        4
    } else if c == '5' {
        5
    } else if c == '6' {
        6
    } else if c == '7' {
        7
    } else if c == '8' {
        8
    } else {
        9
    }
}

/// Digit character for a value below ten.
pub open spec fn char_of_digit(d: nat) -> char {
    if d == 0 {
        '0'
    } else if d == 1 {
        '1'
    } else if d == 2 {
        '2'
    } else if d == 3 {
        '3'
    } else if d == 4 {
        '4'
    } else if d == 5 {
        '5'
    } else if d == 6 {
        '6'
    } else if d == 7 {
        '7'
    } else if d == 8 {
        '8'
    } else {
        '9'
    }
}

proof fn lemma_char_digit_inverse(d: nat)
    requires
        d < 10,
    ensures
        is_digit_char(char_of_digit(d)),
        digit_val(char_of_digit(d)) == d,
{
}

/// Decimal representation of a natural number, most significant digit first,
/// with no leading zero (the number zero is the single digit `'0'`).
pub open spec fn dec_rep(n: nat) -> Seq<char>
    decreases n,
{
    if n < 10 {
        seq![char_of_digit(n)]
    } else {
        dec_rep(n / 10) + seq![char_of_digit(n % 10)]
    }
}

/// Value of a sequence of decimal digit characters.
pub open spec fn dec_val(s: Seq<char>) -> nat
    decreases s.len(),
{
    if s.len() == 0 {
        0
    } else {
        dec_val(s.drop_last()) * 10 + digit_val(s.last())
    }
}

/// Whether every character of the sequence is a decimal digit.
pub open spec fn all_digits(s: Seq<char>) -> bool {
    forall|i: int| 0 <= i < s.len() ==> is_digit_char(s[i])
}

/// A decimal representation is a non-empty digit sequence.
pub proof fn lemma_dec_rep_digits(n: nat)
    ensures
        dec_rep(n).len() >= 1,
        all_digits(dec_rep(n)),
    decreases n,
{
    if n < 10 {
        lemma_char_digit_inverse(n);
        assert(dec_rep(n) =~= seq![char_of_digit(n)]);
    } else {
        lemma_dec_rep_digits(n / 10);
        lemma_char_digit_inverse(n % 10);
        let tail = seq![char_of_digit((n % 10) as nat)];
        assert forall|i: int| 0 <= i < dec_rep(n).len() implies is_digit_char(dec_rep(n)[i]) by {
            if i < dec_rep(n / 10).len() {
                assert(dec_rep(n)[i] == dec_rep(n / 10)[i]);
            } else {
                assert(dec_rep(n)[i] == tail[i - dec_rep(n / 10).len()]);
            }
        }
    }
}

/// Appending one digit multiplies the value by ten and adds the digit.
pub proof fn lemma_dec_val_push(s: Seq<char>, c: char)
    ensures
        dec_val(s.push(c)) == dec_val(s) * 10 + digit_val(c),
{
    assert(s.push(c).drop_last() =~= s);
    assert(s.push(c).last() == c);
}

/// Parsing the decimal representation of a number yields the number back.
pub proof fn lemma_dec_val_of_rep(n: nat)
    ensures
        dec_val(dec_rep(n)) == n,
    decreases n,
{
    if n < 10 {
        lemma_char_digit_inverse(n);
        let s = dec_rep(n);
        assert(s.drop_last() =~= Seq::<char>::empty());
        assert(dec_val(s) == dec_val(s.drop_last()) * 10 + digit_val(s.last()));
    } else {
        lemma_dec_val_of_rep(n / 10);
        lemma_char_digit_inverse(n % 10);
        let head = dec_rep(n / 10);
        let c = char_of_digit(n % 10);
        assert(dec_rep(n) =~= head.push(c));
        lemma_dec_val_push(head, c);
        assert(dec_val(dec_rep(n)) == (n / 10) * 10 + n % 10);
        assert((n / 10) * 10 + n % 10 == n) by (nonlinear_arith);
    }
}

/// Length of the longest digit prefix of a sequence.
pub open spec fn digit_prefix_len(s: Seq<char>) -> int
    decreases s.len(),
{
    if s.len() == 0 || !is_digit_char(s[0]) {
        0
    } else {
        1 + digit_prefix_len(s.drop_first())
    }
}

pub proof fn lemma_digit_prefix_len_bounds(s: Seq<char>)
    ensures
        0 <= digit_prefix_len(s) <= s.len(),
        all_digits(s.take(digit_prefix_len(s))),
        digit_prefix_len(s) < s.len() ==> !is_digit_char(s[digit_prefix_len(s)]),
    decreases s.len(),
{
    if s.len() == 0 || !is_digit_char(s[0]) {
        assert(s.take(0) =~= Seq::<char>::empty());
    } else {
        lemma_digit_prefix_len_bounds(s.drop_first());
        let p = digit_prefix_len(s);
        assert forall|i: int| 0 <= i < p implies is_digit_char(s.take(p)[i]) by {
            if i > 0 {
                assert(s.drop_first().take(p - 1)[i - 1] == s[i]);
            }
        }
    }
}

/// The digit prefix of a digit sequence followed by a non-digit covers
/// exactly the digit sequence.
pub proof fn lemma_digit_prefix_of_concat(d: Seq<char>, rest: Seq<char>)
    requires
        all_digits(d),
        rest.len() == 0 || !is_digit_char(rest[0]),
    ensures
        digit_prefix_len(d + rest) == d.len(),
        (d + rest).take(d.len() as int) =~= d,
        (d + rest).skip(d.len() as int) =~= rest,
    decreases d.len(),
{
    if d.len() == 0 {
        assert(d + rest =~= rest);
    } else {
        assert((d + rest)[0] == d[0]);
        assert((d + rest).drop_first() =~= d.drop_first() + rest);
        assert(all_digits(d.drop_first())) by {
            assert forall|i: int| 0 <= i < d.drop_first().len() implies is_digit_char(
                d.drop_first()[i],
            ) by {
                assert(d.drop_first()[i] == d[i + 1]);
            }
        }
        lemma_digit_prefix_of_concat(d.drop_first(), rest);
    }
}

/// Parse result for an unsigned decimal number at the front of a sequence:
/// the value, unbounded, and the number of characters consumed.
pub open spec fn spec_parse_nat(s: Seq<char>) -> Option<(nat, int)> {
    let p = digit_prefix_len(s);
    if p == 0 {
        None
    } else {
        Some((dec_val(s.take(p)), p))
    }
}

/// Parsing directly after formatting recovers the value, whatever follows,
/// as long as what follows does not begin with a digit.
pub proof fn lemma_parse_nat_of_rep(n: nat, rest: Seq<char>)
    requires
        rest.len() == 0 || !is_digit_char(rest[0]),
    ensures
        spec_parse_nat(dec_rep(n) + rest) == Some((n, dec_rep(n).len() as int)),
{
    lemma_dec_rep_digits(n);
    lemma_digit_prefix_of_concat(dec_rep(n), rest);
    lemma_dec_val_of_rep(n);
}

/// Formats a number in decimal, most significant digit first.
pub fn u128_to_chars(n: u128) -> (r: Vec<char>)
    ensures
        r@ == dec_rep(n as nat),
    decreases n,
{
    let d: u128 = n % 10;
    let c: char = if d == 0 {
        '0'
    } else if d == 1 {
        '1'
    } else if d == 2 {
        '2'
    } else if d == 3 {
        '3'
    } else if d == 4 {
        '4'
    } else if d == 5 {
        '5'
    } else if d == 6 {
        '6'
    } else if d == 7 {
        '7'
    } else if d == 8 {
        '8'
    } else {
        '9'
    };
    if n < 10 {
        let mut r: Vec<char> = Vec::new();
        r.push(c);
        assert(r@ =~= dec_rep(n as nat));
        r
    } else {
        let mut r = u128_to_chars(n / 10);
        r.push(c);
        assert(r@ =~= dec_rep(n as nat));
        r
    }
}

/// Parses the longest decimal digit prefix starting at index `i`, returning
/// the value and the index just past the digits. Returns `None` when no digit
/// is there or the value does not fit in `u128`.
pub fn parse_u128_at(s: &Vec<char>, i: usize) -> (r: Option<(u128, usize)>)
    requires
        i <= s@.len(),
    ensures
        match spec_parse_nat(s@.skip(i as int)) {
            Option::None => r is None,
            Option::Some((v, c)) => {
                if v <= u128::MAX {
                    r matches Some(p) && p.0 == v && p.1 == i + c
                } else {
                    r is None
                }
            },
        },
        r matches Some(p) ==> i < p.1 <= s@.len(),
{
    let ghost suf = s@.skip(i as int);
    proof {
        lemma_digit_prefix_len_bounds(suf);
    }
    let mut j: usize = i;
    let mut acc: u128 = 0;
    let mut overflowed: bool = false;
    let ghost p = digit_prefix_len(suf);
    while j < s.len() && is_digit(s[j])
        invariant
            i <= j <= s@.len(),
            digit_prefix_len(suf) == p,
            suf == s@.skip(i as int),
            0 <= p <= suf.len(),
            all_digits(suf.take(p)),
            p < suf.len() ==> !is_digit_char(suf[p]),
            j - i <= p,
            !overflowed ==> acc == dec_val(suf.take(j - i)),
            overflowed ==> dec_val(suf.take(j - i)) > u128::MAX,
            overflowed ==> j - i > 0,
        decreases s@.len() - j,
    {
        let c = s[j];
        let d: u128 = digit_value(c);
        let ghost taken = suf.take(j - i);
        proof {
            assert(suf[j - i] == s@[j as int]);
            assert(j - i < p);
            assert(suf.take(j + 1 - i) =~= taken.push(c)) by {
                assert(suf.take(j + 1 - i).drop_last() =~= taken);
            }
            lemma_dec_val_push(taken, c);
        }
        if !overflowed {
            if acc > (u128::MAX - d) / 10 {
                proof {
                    let m = u128::MAX as nat;
                    assert(acc * 10 + digit_val(c) > m) by (nonlinear_arith)
                        requires
                            acc > (m - digit_val(c)) / 10,
                            digit_val(c) < 10,
                            m == 340282366920938463463374607431768211455,
                    ;
                }
                overflowed = true;
            } else {
                proof {
                    let m = u128::MAX as nat;
                    assert(acc * 10 + digit_val(c) <= m) by (nonlinear_arith)
                        requires
                            acc <= (m - digit_val(c)) / 10,
                            digit_val(c) < 10,
                            m == 340282366920938463463374607431768211455,
                    ;
                }
                acc = acc * 10 + d;
            }
        } else {
            proof {
                assert(dec_val(taken.push(c)) >= dec_val(taken));
            }
        }
        j = j + 1;
    }
    proof {
        assert(j - i == p) by {
            if j - i < p {
                assert(suf.take(p)[j - i] == suf[j - i]);
                assert(suf[j - i] == s@[j as int]);
                assert(is_digit_char(s@[j as int]));
            }
        }
        assert(suf.take(p) == suf.take(j - i));
    }
    if j == i {
        None
    } else if overflowed {
        None
    } else {
        Some((acc, j))
    }
}

/// Whether a character is a decimal digit.
pub fn is_digit(c: char) -> (r: bool)
    ensures
        r == is_digit_char(c),
{
    c == '0' || c == '1' || c == '2' || c == '3' || c == '4' || c == '5' || c == '6' || c == '7'
        || c == '8' || c == '9'
}

/// Numeric value of a digit character.
pub fn digit_value(c: char) -> (r: u128)
    ensures
        r == digit_val(c),
        r < 10,
{
    if c == '0' {
        0
    } else if c == '1' {
        1
    } else if c == '2' {
        2
    } else if c == '3' {
        3
    } else if c == '4' {
        4
    } else if c == '5' {
        5
    } else if c == '6' {
        6
    } else if c == '7' {
        7
    } else if c == '8' {
        8
    } else {
        9
    }
}

} // verus!

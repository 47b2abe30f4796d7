//! Fixed-width hexadecimal representation of naturals, used for the job
//! identifier's wire form: formatting, parsing, and the proof that the two
//! invert each other.

use vstd::prelude::*;

verus! {

/// Whether a character is a lowercase hexadecimal digit.
pub open spec fn is_hex_char(c: char) -> bool {
    c == '0' || c == '1' || c == '2' || c == '3' || c == '4' || c == '5' || c == '6' || c == '7'
        || c == '8' || c == '9' || c == 'a' || c == 'b' || c == 'c' || c == 'd' || c == 'e'
        || c == 'f'
}

/// Numeric value of a hexadecimal digit character.
pub open spec fn hex_val(c: char) -> nat {
    if c == '0' {
        0
    } else if c == '1' {
        1
    } else if c == '2' {
        2
    } else if c == '3' {
        3
    } else if c == '4' {
        4
    } else if c == '5' {
        5
    } else if c == '6' {
        6
    } else if c == '7' {
        7
    } else if c == '8' {
        8
    } else if c == '9' {
        9
    } else if c == 'a' {
        10
    } else if c == 'b' {
        11
    } else if c == 'c' {
        12
    } else if c == 'd' {
        13
    } else if c == 'e' {
        14
    } else {
        15
    }
}

/// Hexadecimal digit character for a value below sixteen.
pub open spec fn hex_digit_char(d: nat) -> char {
    if d == 0 {
        '0'
    } else if d == 1 {
        '1'
    } else if d == 2 {
        '2'
    } else if d == 3 {
        '3'
    } else if d == 4 {
        '4'
    } else if d == 5 {
        '5'
    } else if d == 6 {
        '6'
    } else if d == 7 {
        '7'
    } else if d == 8 {
        '8'
    } else if d == 9 {
        '9'
    } else if d == 10 {
        'a'
    } else if d == 11 {
        'b'
    } else if d == 12 {
        'c'
    } else if d == 13 {
        'd'
    } else if d == 14 {
        'e'
    } else {
        'f'
    }
}

proof fn lemma_hex_char_inverse(d: nat)
    requires
        d < 16,
    ensures
        is_hex_char(hex_digit_char(d)),
        hex_val(hex_digit_char(d)) == d,
{
}

/// Sixteen to the given power.
pub open spec fn pow16(w: nat) -> nat
    decreases w,
{
    if w == 0 {
        1
    } else {
        16 * pow16((w - 1) as nat)
    }
}

/// Fixed-width hexadecimal representation, most significant digit first,
/// zero-padded.
pub open spec fn hex_rep(n: nat, w: nat) -> Seq<char>
    decreases w,
{
    if w == 0 {
        Seq::empty()
    } else {
        hex_rep(n / 16, (w - 1) as nat).push(hex_digit_char(n % 16))
    }
}

/// Value of a sequence of hexadecimal digit characters.
pub open spec fn hex_seq_val(s: Seq<char>) -> nat
    decreases s.len(),
{
    if s.len() == 0 {
        0
    } else {
        hex_seq_val(s.drop_last()) * 16 + hex_val(s.last())
    }
}

/// Whether every character of the sequence is a hexadecimal digit.
pub open spec fn all_hex(s: Seq<char>) -> bool {
    forall|i: int| 0 <= i < s.len() ==> is_hex_char(s[i])
}

/// A fixed-width representation has exactly that width, all digits.
pub proof fn lemma_hex_rep_props(n: nat, w: nat)
    ensures
        hex_rep(n, w).len() == w,
        all_hex(hex_rep(n, w)),
    decreases w,
{
    if w > 0 {
        lemma_hex_rep_props(n / 16, (w - 1) as nat);
        lemma_hex_char_inverse(n % 16);
        let head = hex_rep(n / 16, (w - 1) as nat);
        assert forall|i: int| 0 <= i < hex_rep(n, w).len() implies is_hex_char(
            hex_rep(n, w)[i],
        ) by {
            if i < head.len() {
                assert(hex_rep(n, w)[i] == head[i]);
            } else {
                assert(hex_rep(n, w)[i] == hex_digit_char(n % 16));
            }
        }
    }
}

/// Appending one digit multiplies the value by sixteen and adds the digit.
pub proof fn lemma_hex_val_push(s: Seq<char>, c: char)
    ensures
        hex_seq_val(s.push(c)) == hex_seq_val(s) * 16 + hex_val(c),
{
    assert(s.push(c).drop_last() =~= s);
    assert(s.push(c).last() == c);
}

/// Parsing a fixed-width representation of a value within range yields the
/// value back.
pub proof fn lemma_hex_val_of_rep(n: nat, w: nat)
    requires
        n < pow16(w),
    ensures
        hex_seq_val(hex_rep(n, w)) == n,
    decreases w,
{
    if w == 0 {
        assert(hex_rep(n, w) =~= Seq::<char>::empty());
    } else {
        let p = pow16((w - 1) as nat);
        assert(n / 16 < p) by (nonlinear_arith)
            requires
                n < 16 * p,
                p > 0,
        ;
        lemma_hex_val_of_rep(n / 16, (w - 1) as nat);
        lemma_hex_char_inverse(n % 16);
        lemma_hex_val_push(hex_rep(n / 16, (w - 1) as nat), hex_digit_char(n % 16));
        assert((n / 16) * 16 + n % 16 == n) by (nonlinear_arith);
    }
}

/// Concatenation weighs the left part by sixteen to the right part's length.
pub proof fn lemma_hex_concat(a: Seq<char>, b: Seq<char>)
    ensures
        hex_seq_val(a + b) == hex_seq_val(a) * pow16(b.len()) + hex_seq_val(b),
    decreases b.len(),
{
    if b.len() == 0 {
        assert(a + b =~= a);
        assert(pow16(b.len()) == 1);
        assert(hex_seq_val(b) == 0);
        assert(hex_seq_val(a) * 1 == hex_seq_val(a)) by (nonlinear_arith);
    } else {
        let b0 = b.drop_last();
        assert((a + b).drop_last() =~= a + b0);
        assert((a + b).last() == b.last());
        lemma_hex_concat(a, b0);
        let va = hex_seq_val(a);
        let v0 = hex_seq_val(b0);
        let hv = hex_val(b.last());
        let p0 = pow16(b0.len());
        assert(b0.len() == b.len() - 1);
        assert(pow16(b.len()) == 16 * p0);
        assert((a + b).len() > 0);
        assert(hex_seq_val(a + b) == hex_seq_val((a + b).drop_last()) * 16 + hex_val(
            (a + b).last(),
        ));
        assert(hex_seq_val((a + b).drop_last()) == hex_seq_val(a + b0));
        assert(hex_seq_val(a + b0) == va * p0 + v0);
        assert(hex_seq_val(a + b) == (va * p0 + v0) * 16 + hv);
        assert((va * p0 + v0) * 16 + hv == va * (16 * p0) + (v0 * 16 + hv)) by (nonlinear_arith);
        assert(va * pow16(b.len()) == va * (16 * p0)) by (nonlinear_arith)
            requires
                pow16(b.len()) == 16 * p0,
        ;
        assert(hex_seq_val(b) == v0 * 16 + hv);
        assert(hex_seq_val(a + b) == va * pow16(b.len()) + hex_seq_val(b));
    }
}

/// Sixteen to a smaller power is no larger.
pub proof fn lemma_pow16_le(a: nat, b: nat)
    requires
        a <= b,
    ensures
        pow16(a) <= pow16(b),
        pow16(a) >= 1,
    decreases b,
{
    if b > 0 {
        if a == b {
            lemma_pow16_le((b - 1) as nat, (b - 1) as nat);
        } else {
            lemma_pow16_le(a, (b - 1) as nat);
        }
    }
}

/// Whether a character is a hexadecimal digit.
pub fn is_hex(c: char) -> (r: bool)
    ensures
        r == is_hex_char(c),
{
    c == '0' || c == '1' || c == '2' || c == '3' || c == '4' || c == '5' || c == '6' || c == '7'
        || c == '8' || c == '9' || c == 'a' || c == 'b' || c == 'c' || c == 'd' || c == 'e'
        || c == 'f'
}

/// Numeric value of a hexadecimal digit character.
pub fn hex_value(c: char) -> (r: u64)
    ensures
        r == hex_val(c),
        r < 16,
{
    if c == '0' {
        0
    } else if c == '1' {
        1
    } else if c == '2' {
        2
    } else if c == '3' {
        3
    } else if c == '4' {
        4
    } else if c == '5' {
        5
    } else if c == '6' {
        6
    } else if c == '7' {
        7
    } else if c == '8' {
        8
    } else if c == '9' {
        9
    } else if c == 'a' {
        10
    } else if c == 'b' {
        11
    } else if c == 'c' {
        12
    } else if c == 'd' {
        13
    } else if c == 'e' {
        14
    } else {
        15
    }
}

/// Hexadecimal digit character for a value below sixteen.
fn hex_digit(d: u128) -> (r: char)
    requires
        d < 16,
    ensures
        r == hex_digit_char(d as nat),
{
    if d == 0 {
        '0'
    } else if d == 1 {
        '1'
    } else if d == 2 {
        '2'
    } else if d == 3 {
        '3'
    } else if d == 4 {
        '4'
    } else if d == 5 {
        '5'
    } else if d == 6 {
        '6'
    } else if d == 7 {
        '7'
    } else if d == 8 {
        '8'
    } else if d == 9 {
        '9'
    } else if d == 10 {
        'a'
    } else if d == 11 {
        'b'
    } else if d == 12 {
        'c'
    } else if d == 13 {
        'd'
    } else if d == 14 {
        'e'
    } else {
        'f'
    }
}

/// Formats a number at the given fixed width, zero-padded.
pub fn hex_chars_fixed(n: u128, width: usize) -> (r: Vec<char>)
    ensures
        r@ == hex_rep(n as nat, width as nat),
    decreases width,
{
    if width == 0 {
        let r: Vec<char> = Vec::new();
        proof {
            assert(r@ =~= hex_rep(n as nat, 0));
        }
        r
    } else {
        let mut r = hex_chars_fixed(n / 16, width - 1);
        r.push(hex_digit(n % 16));
        proof {
            assert(r@ =~= hex_rep(n as nat, width as nat));
        }
        r
    }
}

/// Parses a fixed-width hexadecimal group; fails exactly when some
/// character in the window is not a digit.
pub fn parse_hex_group(s: &Vec<char>, i: usize, width: usize) -> (r: Option<u64>)
    requires
        i + width <= s@.len(),
        width <= 15,
    ensures
        r is Some <==> all_hex(s@.subrange(i as int, i + width)),
        r matches Some(v) ==> v == hex_seq_val(s@.subrange(i as int, i + width)) && v < pow16(
            width as nat,
        ),
{
    let ghost sub = s@.subrange(i as int, i + width);
    let total = s.len();
    let mut acc: u64 = 0;
    let mut k: usize = 0;
    while k < width
        invariant
            i + width <= s@.len(),
            s@.len() == total,
            width <= 15,
            k <= width,
            sub == s@.subrange(i as int, i + width),
            forall|j: int| 0 <= j < k ==> is_hex_char(sub[j]),
            acc == hex_seq_val(sub.take(k as int)),
            acc < pow16(k as nat),
        decreases width - k,
    {
        let c = s[i + k];
        assert(sub[k as int] == c);
        if !is_hex(c) {
            assert(!all_hex(sub));
            return None;
        }
        let d = hex_value(c);
        proof {
            assert(sub.take(k + 1) =~= sub.take(k as int).push(c));
            lemma_hex_val_push(sub.take(k as int), c);
            lemma_pow16_le((k + 1) as nat, 15);
            reveal_with_fuel(pow16, 16);
            assert(pow16(15) == 1152921504606846976);
            assert(acc * 16 + hex_val(c) < pow16((k + 1) as nat)) by (nonlinear_arith)
                requires
                    acc < pow16(k as nat),
                    hex_val(c) < 16,
                    pow16((k + 1) as nat) == 16 * pow16(k as nat),
            ;
        }
        acc = acc * 16 + d;
        k = k + 1;
    }
    proof {
        assert(sub.take(width as int) =~= sub);
    }
    Some(acc)
}

} // verus!

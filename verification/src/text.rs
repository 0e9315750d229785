//! Decimal text: the canonical base-10 form of unsigned and signed integers,
//! with executable conversion in both directions.
//!
//! The canonical form has no sign for zero, no leading zeros, and a single
//! leading `-` for negative values. Virtual-node identifiers and the wire
//! codec both build on these functions.

use vstd::prelude::*;

verus! {

/// Numeric value of a decimal digit character; 10 for any non-digit.
pub open spec fn digit_val(c: char) -> nat {
    match c {
        '0' => 0,
        '1' => 1,
        '2' => 2,
        '3' => 3,
        '4' => 4,
        '5' => 5,
        '6' => 6,
        '7' => 7,
        '8' => 8,
        '9' => 9,
        _ => 10,
    }
}

/// Whether `c` is a decimal digit.
pub open spec fn is_digit(c: char) -> bool {
    digit_val(c) < 10
}

/// The digit character for a value below ten.
pub open spec fn digit_char(n: nat) -> char {
    if n == 0 {
        '0'
    } else if n == 1 {
        '1'
    } else if n == 2 {
        '2'
    } else if n == 3 {
        '3'
    } else if n == 4 {
        '4'
    } else if n == 5 {
        '5'
    } else if n == 6 {
        '6'
    } else if n == 7 {
        '7'
    } else if n == 8 {
        '8'
    } else {
        '9'
    }
}

/// Canonical decimal form of `n`: most significant digit first, no leading
/// zeros, `"0"` for zero.
pub open spec fn dec_u64(n: nat) -> Seq<char>
    decreases n,
{
    if n < 10 {
        seq![digit_char(n)]
    } else {
        dec_u64(n / 10) + seq![digit_char(n % 10)]
    }
}

/// Value of a digit string read most significant digit first.
pub open spec fn digits_val(s: Seq<char>) -> nat
    decreases s.len(),
{
    if s.len() == 0 {
        0
    } else {
        digits_val(s.drop_last()) * 10 + digit_val(s.last())
    }
}

/// Whether every character of `s` is a decimal digit.
pub open spec fn all_digits(s: Seq<char>) -> bool {
    forall|i: int| 0 <= i < s.len() ==> is_digit(#[trigger] s[i])
}

/// Whether `s` is a canonical digit string: non-empty, digits only, and no
/// leading zero unless it is exactly "0".
pub open spec fn canonical_digits(s: Seq<char>) -> bool {
    &&& s.len() > 0
    &&& all_digits(s)
    &&& (s[0] == '0' ==> s.len() == 1)
}

proof fn lemma_digits_val_single(c: char)
    ensures
        digits_val(seq![c]) == digit_val(c),
{
    let s = seq![c];
    assert(s.last() == c);
    assert(s.drop_last() =~= Seq::<char>::empty());
    assert(digits_val(Seq::<char>::empty()) == 0);
    assert(digits_val(s) == digits_val(s.drop_last()) * 10 + digit_val(s.last()));
}

proof fn lemma_digit_char_val(n: nat)
    requires
        n < 10,
    ensures
        digit_val(digit_char(n)) == n,
        is_digit(digit_char(n)),
{
}

/// The canonical form of every value is a canonical digit string, and zero is
/// the only value whose form starts with '0'.
pub proof fn lemma_dec_u64_canonical(n: nat)
    ensures
        canonical_digits(dec_u64(n)),
        n > 0 ==> dec_u64(n)[0] != '0',
        n < 10 ==> dec_u64(n).len() == 1,
    decreases n,
{
    if n < 10 {
        lemma_digit_char_val(n);
        assert(dec_u64(n) == seq![digit_char(n)]);
        assert(dec_u64(n)[0] == digit_char(n));
    } else {
        lemma_dec_u64_canonical(n / 10);
        lemma_digit_char_val(n % 10);
        let pre = dec_u64(n / 10);
        let whole = dec_u64(n);
        assert(whole == pre + seq![digit_char(n % 10)]);
        assert(n / 10 > 0) by {
            assert(n >= 10);
        }
        assert(whole[0] == pre[0]);
        assert forall|i: int| 0 <= i < whole.len() implies is_digit(#[trigger] whole[i]) by {
            if i < pre.len() {
                assert(whole[i] == pre[i]);
            } else {
                assert(whole[i] == digit_char(n % 10));
            }
        }
    }
}

/// Reading the canonical form of `n` back as a number gives `n`.
pub proof fn lemma_digits_val_dec_u64(n: nat)
    ensures
        digits_val(dec_u64(n)) == n,
    decreases n,
{
    if n < 10 {
        lemma_digit_char_val(n);
        lemma_digits_val_single(digit_char(n));
        assert(dec_u64(n) == seq![digit_char(n)]);
    } else {
        lemma_digits_val_dec_u64(n / 10);
        lemma_digit_char_val(n % 10);
        let s = dec_u64(n);
        let pre = dec_u64(n / 10);
        assert(s == pre + seq![digit_char(n % 10)]);
        assert(s.drop_last() =~= pre);
        assert(s.last() == digit_char(n % 10));
        assert(digits_val(s) == digits_val(pre) * 10 + digit_val(digit_char(n % 10)));
        assert((n / 10) * 10 + n % 10 == n) by (nonlinear_arith);
    }
}

/// A canonical digit string is the canonical form of its own value.
pub proof fn lemma_canonical_digits_roundtrip(s: Seq<char>)
    requires
        canonical_digits(s),
    ensures
        dec_u64(digits_val(s)) == s,
    decreases s.len(),
{
    if s.len() == 1 {
        let d = digit_val(s[0]);
        assert(s =~= seq![s[0]]);
        lemma_digits_val_single(s[0]);
        assert(digits_val(s) == d);
        assert(d < 10);
        // the single digit maps back to the same character
        assert(digit_char(d) == s[0]) by {
            assert(is_digit(s[0]));
        }
        assert(dec_u64(d) =~= s);
    } else {
        let pre = s.drop_last();
        assert(pre[0] == s[0]);
        assert(pre.len() > 0);
        assert(all_digits(pre)) by {
            assert(forall|i: int| 0 <= i < pre.len() ==> pre[i] == #[trigger] s[i]);
        }
        assert(canonical_digits(pre));
        lemma_canonical_digits_roundtrip(pre);
        let v = digits_val(s);
        let pv = digits_val(pre);
        assert(v == pv * 10 + digit_val(s.last()));
        assert(pv >= 1) by {
            if pv == 0 {
                lemma_digits_val_zero_form(pre);
            }
        }
        assert(v >= 10) by (nonlinear_arith)
            requires
                v == pv * 10 + digit_val(s.last()),
                pv >= 1,
        ;
        assert(v / 10 == pv && v % 10 == digit_val(s.last())) by (nonlinear_arith)
            requires
                v == pv * 10 + digit_val(s.last()),
                digit_val(s.last()) < 10,
        ;
        assert(digit_char(digit_val(s.last())) == s.last()) by {
            assert(is_digit(s.last()));
        }
        assert(dec_u64(v) == dec_u64(pv) + seq![digit_char(digit_val(s.last()))]);
        assert(dec_u64(v) =~= s) by {
            assert(dec_u64(pv) == pre);
            assert(pre + seq![s.last()] =~= s);
        }
    }
}

/// A canonical digit string with value zero is exactly "0".
proof fn lemma_digits_val_zero_form(s: Seq<char>)
    requires
        canonical_digits(s),
        digits_val(s) == 0,
    ensures
        s.len() == 1,
        s[0] == '0',
    decreases s.len(),
{
    assert(digit_val(s.last()) == 0);
    assert(is_digit(s.last()));
    assert(s.last() == '0');
    if s.len() > 1 {
        let pre = s.drop_last();
        assert(digits_val(pre) * 10 <= digits_val(s));
        assert(digits_val(pre) == 0);
        assert(pre[0] == s[0]);
        assert(all_digits(pre)) by {
            assert(forall|i: int| 0 <= i < pre.len() ==> pre[i] == #[trigger] s[i]);
        }
        lemma_digits_val_zero_form(pre);
        assert(s[0] == '0');
        assert(false);
    }
}

/// Appending digits never lowers the value.
pub proof fn lemma_digits_val_prefix_le(a: Seq<char>, b: Seq<char>)
    ensures
        digits_val(a) <= digits_val(a + b),
    decreases b.len(),
{
    if b.len() == 0 {
        assert(a + b =~= a);
    } else {
        lemma_digits_val_prefix_le(a, b.drop_last());
        let whole = a + b;
        assert(whole.drop_last() =~= a + b.drop_last());
        assert(digits_val(whole) == digits_val(a + b.drop_last()) * 10 + digit_val(whole.last()));
        assert(digits_val(a + b.drop_last()) <= digits_val(a + b.drop_last()) * 10) by (nonlinear_arith);
    }
}

/// Executable digit for a value below ten.
pub fn digit_to_char(d: u64) -> (r: char)
    requires
        d < 10,
    ensures
        r == digit_char(d as nat),
{
    if d == 0 {
        '0'
    } else if d == 1 {
        '1'
    } else if d == 2 {
        '2'
    } else if d == 3 {
        '3'
    } else if d == 4 {
        '4'
    } else if d == 5 {
        '5'
    } else if d == 6 {
        '6'
    } else if d == 7 {
        '7'
    } else if d == 8 {
        '8'
    } else {
        '9'
    }
}

/// Executable value of a digit character; 10 for any non-digit.
pub fn char_digit_val(c: char) -> (r: u64)
    ensures
        r == digit_val(c),
{
    match c {
        '0' => 0,
        '1' => 1,
        '2' => 2,
        '3' => 3,
        '4' => 4,
        '5' => 5,
        '6' => 6,
        '7' => 7,
        '8' => 8,
        '9' => 9,
        _ => 10,
    }
}

/// Canonical decimal form of `n` as characters.
pub fn u64_to_dec(n: u64) -> (r: Vec<char>)
    ensures
        r@ == dec_u64(n as nat),
    decreases n,
{
    if n < 10 {
        let mut r: Vec<char> = Vec::new();
        r.push(digit_to_char(n));
        proof {
            assert(r@ =~= seq![digit_char(n as nat)]);
        }
        r
    } else {
        let mut r = u64_to_dec(n / 10);
        r.push(digit_to_char(n % 10));
        proof {
            assert(r@ =~= dec_u64((n / 10) as nat) + seq![digit_char((n % 10) as nat)]);
        }
        r
    }
}

/// Relies on String::push: appends exactly the one character.
#[verifier::external_body]
pub fn push_char(s: &mut String, c: char)
    ensures
        final(s)@ == old(s)@ + seq![c],
{
    s.push(c);
}

/// Canonical decimal form of `n` as a string.
pub fn u64_to_string(n: u64) -> (r: String)
    ensures
        r@ == dec_u64(n as nat),
    decreases n,
{
    if n < 10 {
        let mut s = String::new();
        push_char(&mut s, digit_to_char(n));
        proof {
            assert(s@ =~= seq![digit_char(n as nat)]);
        }
        s
    } else {
        let mut s = u64_to_string(n / 10);
        push_char(&mut s, digit_to_char(n % 10));
        proof {
            assert(s@ =~= dec_u64((n / 10) as nat) + seq![digit_char((n % 10) as nat)]);
        }
        s
    }
}

} // verus!

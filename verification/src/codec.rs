//! The WebSocket wire codec: a JSON envelope `{"type":<tag>,"data":<payload>}`
//! in a fixed canonical form.
//!
//! `serialize_req` and `serialize_rsp` emit exactly the canonical encoding
//! described by the spec functions here: object keys in declaration order,
//! no inter-token spacing, strings with `"` and `\` escaped by a backslash,
//! integers in minimal decimal form. `parse_req` accepts exactly canonical
//! request frames: whenever it returns a message, the input is that
//! message's canonical encoding, and it never rejects a canonical encoding.

use vstd::prelude::*;

use crate::model::{
    CreateChannelReq, CreateMessageReq, GetUserInfoReq, JoinChannelReq, ListChannelDetailsReq,
    ListMessagesReq, LoginUserReq, RegisterUserReq,
};
use crate::text::{
    canonical_digits, char_digit_val, dec_u64, digit_val, digits_val, is_digit,
    lemma_canonical_digits_roundtrip, lemma_dec_u64_canonical, lemma_digits_val_dec_u64,
    lemma_digits_val_prefix_le, push_char, u64_to_string,
};

verus! {

/// Whether the wire escapes this character inside a string.
pub open spec fn is_escaped_char(c: char) -> bool {
    c == '"' || c == '\\'
}

/// Body of a wire string: `"` and `\` each get a preceding backslash.
pub open spec fn esc(s: Seq<char>) -> Seq<char>
    decreases s.len(),
{
    if s.len() == 0 {
        Seq::empty()
    } else {
        (if is_escaped_char(s[0]) {
            seq!['\\', s[0]]
        } else {
            seq![s[0]]
        }) + esc(s.skip(1))
    }
}

/// A wire string: the escaped body between double quotes.
pub open spec fn str_enc(s: Seq<char>) -> Seq<char> {
    seq!['"'] + esc(s) + seq!['"']
}

/// A wire integer: minimal decimal form, `-` ahead of a negative value.
pub open spec fn int_enc(x: int) -> Seq<char> {
    if x >= 0 {
        dec_u64(x as nat)
    } else {
        seq!['-'] + dec_u64((-x) as nat)
    }
}

/// `v` carries exactly `piece` at position `i`.
pub open spec fn piece_at(v: Seq<char>, i: int, piece: Seq<char>) -> bool {
    &&& 0 <= i
    &&& i + piece.len() <= v.len()
    &&& v.subrange(i, i + piece.len()) == piece
}

/// Escaping distributes over concatenation.
pub proof fn lemma_esc_append(a: Seq<char>, b: Seq<char>)
    ensures
        esc(a + b) == esc(a) + esc(b),
    decreases a.len(),
{
    if a.len() == 0 {
        assert(a + b =~= b);
        assert(esc(a) + esc(b) =~= esc(b));
    } else {
        assert((a + b)[0] == a[0]);
        assert((a + b).skip(1) =~= a.skip(1) + b);
        lemma_esc_append(a.skip(1), b);
        assert(esc(a + b) =~= esc(a) + esc(b));
    }
}

/// Escaping a single character.
pub proof fn lemma_esc_single(c: char)
    ensures
        !is_escaped_char(c) ==> esc(seq![c]) == seq![c],
        is_escaped_char(c) ==> esc(seq![c]) == seq!['\\', c],
{
    let s = seq![c];
    assert(s.len() == 1);
    assert(s[0] == c);
    assert(s.skip(1) =~= Seq::<char>::empty());
    assert(esc(s.skip(1)) == Seq::<char>::empty());
    if is_escaped_char(c) {
        assert(esc(s) =~= seq!['\\', c]);
    } else {
        assert(esc(s) =~= seq![c]);
    }
}

/// A region holding `a + b` splits into a region of `a` and one of `b`.
pub proof fn lemma_piece_split(v: Seq<char>, i: int, a: Seq<char>, b: Seq<char>)
    requires
        piece_at(v, i, a + b),
    ensures
        piece_at(v, i, a),
        piece_at(v, i + a.len(), b),
{
    let whole = v.subrange(i, i + a.len() + b.len());
    assert(whole == a + b);
    assert forall|x: int| 0 <= x < a.len() implies v.subrange(i, i + a.len())[x] == a[x] by {
        assert(whole[x] == (a + b)[x]);
    }
    assert(v.subrange(i, i + a.len()) =~= a);
    assert forall|x: int| 0 <= x < b.len() implies v.subrange(
        i + a.len(),
        i + a.len() + b.len(),
    )[x] == b[x] by {
        assert(whole[a.len() + x] == (a + b)[a.len() + x]);
    }
    assert(v.subrange(i + a.len(), i + a.len() + b.len()) =~= b);
}

/// Adjacent regions of `a` and `b` join into one of `a + b`.
pub proof fn lemma_piece_join(v: Seq<char>, i: int, a: Seq<char>, b: Seq<char>)
    requires
        piece_at(v, i, a),
        piece_at(v, i + a.len(), b),
    ensures
        piece_at(v, i, a + b),
{
    assert forall|x: int| 0 <= x < a.len() + b.len() implies v.subrange(
        i,
        i + a.len() + b.len(),
    )[x] == (a + b)[x] by {
        if x < a.len() {
            assert(v.subrange(i, i + a.len())[x] == a[x]);
        } else {
            assert(v.subrange(i + a.len(), i + a.len() + b.len())[x - a.len()] == b[x - a.len()]);
        }
    }
    assert(v.subrange(i, i + a.len() + b.len()) =~= a + b);
}

/// The characters of `s`, in order.
pub fn str_chars(s: &str) -> (r: Vec<char>)
    ensures
        r@ == s@,
{
    let n = s.unicode_len();
    let mut r: Vec<char> = Vec::new();
    for i in 0..n
        invariant
            n == s@.len(),
            r@ == s@.take(i as int),
    {
        let c = s.get_char(i);
        r.push(c);
        proof {
            assert(r@ =~= s@.take(i as int + 1));
        }
    }
    proof {
        assert(s@.take(n as int) =~= s@);
    }
    r
}

/// A string holding exactly the given characters.
pub fn chars_to_string(v: &Vec<char>) -> (r: String)
    ensures
        r@ == v@,
{
    let mut r = String::new();
    let n = v.len();
    for i in 0..n
        invariant
            n == v@.len(),
            r@ == v@.take(i as int),
    {
        push_char(&mut r, v[i]);
        proof {
            assert(r@ =~= v@.take(i as int + 1));
        }
    }
    proof {
        assert(v@.take(n as int) =~= v@);
    }
    r
}

/// Consumes `lit` at position `i`: succeeds exactly when the input carries
/// `lit` there, and then stands right after it.
fn expect_lit(v: &Vec<char>, i: usize, lit: &str) -> (r: Option<usize>)
    requires
        i <= v@.len(),
    ensures
        r matches Some(j) ==> i + lit@.len() == j <= v@.len() && piece_at(v@, i as int, lit@),
        piece_at(v@, i as int, lit@) ==> r is Some,
{
    let lc = str_chars(lit);
    let m = lc.len();
    let n = v.len();
    if m > n - i {
        return None;
    }
    for k in 0..m
        invariant
            m == lit@.len(),
            n == v@.len(),
            i + m <= n,
            lc@ == lit@,
            forall|t: int| 0 <= t < k ==> v@[i + t] == lit@[t],
    {
        if v[i + k] != lc[k] {
            proof {
                if piece_at(v@, i as int, lit@) {
                    assert(v@.subrange(i as int, i + lit@.len())[k as int] == lit@[k as int]);
                    assert(v@[i + k] == lit@[k as int]);
                }
            }
            return None;
        }
    }
    proof {
        assert(v@.subrange(i as int, i + lit@.len()) =~= lit@);
    }
    Some(i + m)
}

/// Scans the escaped body of a wire string from `k` up to and including its
/// closing quote. Sound: what was consumed reads `esc(out) + '"'`. Complete:
/// any body standing at `k` is found, whole.
fn scan_str(v: &Vec<char>, k: usize) -> (r: Option<(Vec<char>, usize)>)
    requires
        k <= v@.len(),
    ensures
        r matches Some(p) ==> k < p.1 <= v@.len() && piece_at(
            v@,
            k as int,
            esc(p.0@) + seq!['"'],
        ) && p.1 == k + esc(p.0@).len() + 1,
        forall|s0: Seq<char>|
            #[trigger] piece_at(v@, k as int, esc(s0) + seq!['"']) ==> (r matches Some(p) && p.0@
                == s0),
    decreases v@.len() - k,
{
    if k == v.len() {
        proof {
            assert forall|s0: Seq<char>| #[trigger]
                piece_at(v@, k as int, esc(s0) + seq!['"']) implies false by {}
        }
        return None;
    }
    let c = v[k];
    if c == '"' {
        let out: Vec<char> = Vec::new();
        proof {
            assert(esc(out@) + seq!['"'] =~= seq!['"']);
            assert(v@.subrange(k as int, k as int + 1) =~= seq!['"']);
            assert(piece_at(v@, k as int, esc(out@) + seq!['"']));
            assert forall|s0: Seq<char>| #[trigger]
                piece_at(v@, k as int, esc(s0) + seq!['"']) implies out@ == s0 by {
                if s0.len() != 0 {
                    assert(v@.subrange(k as int, k + esc(s0).len() + 1)[0] == v@[k as int]);
                    assert((esc(s0) + seq!['"'])[0] == esc(s0)[0]);
                    if is_escaped_char(s0[0]) {
                        assert(esc(s0)[0] == '\\');
                    } else {
                        assert(esc(s0)[0] == s0[0]);
                    }
                    assert(false);
                }
            }
        }
        return Some((out, k + 1));
    }
    // a region for some s0 must start with esc(s0)'s first character
    proof {
        assert forall|s0: Seq<char>| #[trigger]
            piece_at(v@, k as int, esc(s0) + seq!['"']) implies s0.len() > 0 && esc(s0)[0] == c by {
            assert(v@.subrange(k as int, k + esc(s0).len() + 1)[0] == v@[k as int]);
            assert((esc(s0) + seq!['"'])[0] == v@[k as int]);
            if s0.len() == 0 {
                assert((esc(s0) + seq!['"'])[0] == '"');
            }
        }
    }
    if c == '\\' {
        if k + 1 == v.len() {
            proof {
                assert forall|s0: Seq<char>| #[trigger]
                    piece_at(v@, k as int, esc(s0) + seq!['"']) implies false by {
                    if is_escaped_char(s0[0]) {
                        assert(esc(s0).len() >= 2) by {
                            assert(esc(s0) == seq!['\\', s0[0]] + esc(s0.skip(1)));
                        }
                    } else {
                        assert(esc(s0)[0] == s0[0]);
                    }
                }
            }
            return None;
        }
        let c2 = v[k + 1];
        if c2 == '"' || c2 == '\\' {
            // every candidate region escapes exactly c2 here
            proof {
                assert forall|s0: Seq<char>| #[trigger]
                    piece_at(v@, k as int, esc(s0) + seq!['"']) implies is_escaped_char(s0[0])
                    && s0[0] == c2 && piece_at(
                    v@,
                    k as int + 2,
                    esc(s0.skip(1)) + seq!['"'],
                ) by {
                    if !is_escaped_char(s0[0]) {
                        assert(esc(s0)[0] == s0[0]);
                        assert(false);
                    }
                    let t0 = s0.skip(1);
                    assert(esc(s0) == seq!['\\', s0[0]] + esc(t0));
                    assert(esc(s0) + seq!['"'] =~= seq!['\\', s0[0]] + (esc(t0) + seq!['"']));
                    lemma_piece_split(v@, k as int, seq!['\\', s0[0]], esc(t0) + seq!['"']);
                    assert(v@.subrange(k as int, k as int + 2)[1] == v@[k + 1]);
                    assert(s0[0] == c2);
                }
            }
            match scan_str(v, k + 2) {
                None => None,
                Some((mut rest, j)) => {
                    let ghost tail = rest@;
                    rest.insert(0, c2);
                    proof {
                        assert(rest@ =~= seq![c2] + tail);
                        assert(rest@[0] == c2);
                        assert(rest@.skip(1) =~= tail);
                        assert(esc(rest@) == seq!['\\', c2] + esc(tail));
                        assert(v@.subrange(k as int, k as int + 2) =~= seq!['\\', c2]);
                        lemma_piece_join(v@, k as int, seq!['\\', c2], esc(tail) + seq!['"']);
                        assert(seq!['\\', c2] + (esc(tail) + seq!['"']) =~= esc(rest@)
                            + seq!['"']);
                        assert(piece_at(v@, k as int, esc(rest@) + seq!['"']));
                        assert forall|s0: Seq<char>| #[trigger]
                            piece_at(v@, k as int, esc(s0) + seq!['"']) implies rest@ == s0 by {
                            assert(s0.skip(1) == tail);
                            assert(rest@ =~= s0);
                        }
                    }
                    Some((rest, j))
                },
            }
        } else {
            proof {
                assert forall|s0: Seq<char>| #[trigger]
                    piece_at(v@, k as int, esc(s0) + seq!['"']) implies false by {
                    if is_escaped_char(s0[0]) {
                        let t0 = s0.skip(1);
                        assert(esc(s0) == seq!['\\', s0[0]] + esc(t0));
                        assert(esc(s0) + seq!['"'] =~= seq!['\\', s0[0]] + (esc(t0) + seq!['"']));
                        lemma_piece_split(v@, k as int, seq!['\\', s0[0]], esc(t0) + seq!['"']);
                        assert(v@.subrange(k as int, k as int + 2)[1] == v@[k + 1]);
                        assert(is_escaped_char(s0[0]));
                    } else {
                        assert(esc(s0)[0] == s0[0]);
                    }
                }
            }
            None
        }
    } else {
        // every candidate region starts with this plain character
        proof {
            assert forall|s0: Seq<char>| #[trigger]
                piece_at(v@, k as int, esc(s0) + seq!['"']) implies !is_escaped_char(s0[0]) && s0[0]
                == c && piece_at(v@, k as int + 1, esc(s0.skip(1)) + seq!['"']) by {
                if is_escaped_char(s0[0]) {
                    assert(esc(s0)[0] == '\\');
                    assert(false);
                }
                let t0 = s0.skip(1);
                assert(esc(s0) == seq![s0[0]] + esc(t0));
                assert(esc(s0) + seq!['"'] =~= seq![s0[0]] + (esc(t0) + seq!['"']));
                lemma_piece_split(v@, k as int, seq![s0[0]], esc(t0) + seq!['"']);
            }
        }
        match scan_str(v, k + 1) {
            None => None,
            Some((mut rest, j)) => {
                let ghost tail = rest@;
                rest.insert(0, c);
                proof {
                    assert(rest@ =~= seq![c] + tail);
                    assert(rest@[0] == c);
                    assert(rest@.skip(1) =~= tail);
                    assert(esc(rest@) == seq![c] + esc(tail));
                    assert(v@.subrange(k as int, k as int + 1) =~= seq![c]);
                    lemma_piece_join(v@, k as int, seq![c], esc(tail) + seq!['"']);
                    assert(seq![c] + (esc(tail) + seq!['"']) =~= esc(rest@) + seq!['"']);
                    assert(piece_at(v@, k as int, esc(rest@) + seq!['"']));
                    assert forall|s0: Seq<char>| #[trigger]
                        piece_at(v@, k as int, esc(s0) + seq!['"']) implies rest@ == s0 by {
                        assert(s0.skip(1) == tail);
                        assert(rest@ =~= s0);
                    }
                }
                Some((rest, j))
            },
        }
    }
}

/// `v` carries the canonical decimal of `n` at `i`, with no digit following.
pub open spec fn uint_at(v: Seq<char>, i: int, n: nat) -> bool {
    &&& piece_at(v, i, dec_u64(n))
    &&& (i + dec_u64(n).len() == v.len() || !is_digit(v[i + dec_u64(n).len()]))
}

/// `v` carries the canonical signed decimal of `x` at `i`, with no digit
/// following.
pub open spec fn int_at(v: Seq<char>, i: int, x: int) -> bool {
    &&& piece_at(v, i, int_enc(x))
    &&& (i + int_enc(x).len() == v.len() || !is_digit(v[i + int_enc(x).len()]))
}

/// First position at or after `i` that does not hold a digit.
fn scan_digits(v: &Vec<char>, i: usize) -> (j: usize)
    requires
        i <= v@.len(),
    ensures
        i <= j <= v@.len(),
        forall|t: int| i <= t < j ==> is_digit(v@[t]),
        j == v@.len() || !is_digit(v@[j as int]),
{
    let n = v.len();
    let mut j = i;
    while j < n
        invariant
            i <= j <= n,
            n == v@.len(),
            forall|t: int| i <= t < j ==> is_digit(v@[t]),
        decreases n - j,
    {
        if char_digit_val(v[j]) >= 10 {
            return j;
        }
        j = j + 1;
    }
    j
}

/// Parses a canonical unsigned decimal at `i`: greedy over digits, no
/// leading zero, value within range.
fn parse_u64(v: &Vec<char>, i: usize) -> (r: Option<(u64, usize)>)
    requires
        i <= v@.len(),
    ensures
        r matches Some(p) ==> piece_at(v@, i as int, dec_u64(p.0 as nat)) && p.1 == i + dec_u64(
            p.0 as nat,
        ).len() && (p.1 == v@.len() || !is_digit(v@[p.1 as int])),
        forall|n: u64| #[trigger] uint_at(v@, i as int, n as nat) ==> (r matches Some(p) && p.0
            == n),
{
    let j = scan_digits(v, i);
    proof {
        assert forall|n: u64| #[trigger] uint_at(v@, i as int, n as nat) implies i < j && j == i
            + dec_u64(n as nat).len() && v@.subrange(i as int, j as int) == dec_u64(n as nat) by {
            lemma_dec_u64_canonical(n as nat);
            let d = dec_u64(n as nat);
            assert forall|t: int| i <= t < i + d.len() implies is_digit(v@[t]) by {
                assert(v@.subrange(i as int, i + d.len())[t - i] == d[t - i]);
            }
            if j < i + d.len() {
                assert(is_digit(v@[j as int]));
                assert(false);
            }
            if j > i + d.len() {
                assert(is_digit(v@[i + d.len()]));
                assert(false);
            }
        }
    }
    if j == i {
        return None;
    }
    if char_digit_val(v[i]) == 0 && j - i > 1 {
        proof {
            assert forall|n: u64| #[trigger] uint_at(v@, i as int, n as nat) implies false by {
                lemma_dec_u64_canonical(n as nat);
                let d = dec_u64(n as nat);
                assert(v@.subrange(i as int, j as int)[0] == d[0]);
                assert(v@[i as int] == d[0]);
                assert(digit_val(d[0]) == 0);
                assert(d[0] == '0') by {
                    assert(is_digit(d[0]));
                }
                assert(d.len() == 1);
            }
        }
        return None;
    }
    let ghost d = v@.subrange(i as int, j as int);
    proof {
        assert(canonical_digits(d)) by {
            assert(forall|t: int| 0 <= t < d.len() ==> d[t] == v@[i + t] && is_digit(#[trigger] d[
                t
            ]));
            assert(d[0] == v@[i as int]);
            if d[0] == '0' {
                assert(digit_val(v@[i as int]) == 0);
            }
        }
    }
    let mut acc: u64 = 0;
    let mut k = i;
    while k < j
        invariant
            i <= k <= j <= v@.len(),
            d == v@.subrange(i as int, j as int),
            canonical_digits(d),
            forall|t: int| i <= t < j ==> is_digit(v@[t]),
            j == v@.len() || !is_digit(v@[j as int]),
            acc == digits_val(v@.subrange(i as int, k as int)),
            forall|n: u64| #[trigger]
                uint_at(v@, i as int, n as nat) ==> i < j && j == i + dec_u64(n as nat).len()
                    && v@.subrange(i as int, j as int) == dec_u64(n as nat),
        decreases j - k,
    {
        let dv = char_digit_val(v[k]);
        proof {
            assert(is_digit(v@[k as int]));
        }
        if acc > (u64::MAX - dv) / 10 {
            proof {
                assert(acc * 10 + dv > u64::MAX) by (nonlinear_arith)
                    requires
                        acc > (u64::MAX - dv) / 10,
                        dv < 10,
                        acc <= u64::MAX,
                ;
                assert forall|n: u64| #[trigger] uint_at(v@, i as int, n as nat) implies false by {
                    lemma_digits_val_dec_u64(n as nat);
                    assert(digits_val(d) == n as nat);
                    let pre = v@.subrange(i as int, k as int + 1);
                    let rest = v@.subrange(k as int + 1, j as int);
                    assert(pre + rest =~= d);
                    lemma_digits_val_prefix_le(pre, rest);
                    assert(pre.drop_last() =~= v@.subrange(i as int, k as int));
                    assert(pre.last() == v@[k as int]);
                    assert(digits_val(pre) == acc * 10 + dv);
                    assert(digits_val(pre) <= n as nat);
                }
            }
            return None;
        }
        proof {
            assert(acc * 10 + dv <= u64::MAX) by (nonlinear_arith)
                requires
                    acc <= (u64::MAX - dv) / 10,
                    dv < 10,
            ;
        }
        acc = acc * 10 + dv;
        k = k + 1;
        proof {
            let pre = v@.subrange(i as int, k as int);
            assert(pre.drop_last() =~= v@.subrange(i as int, k as int - 1));
            assert(pre.last() == v@[k as int - 1]);
        }
    }
    proof {
        assert(acc == digits_val(d));
        lemma_canonical_digits_roundtrip(d);
        assert(dec_u64(acc as nat) == d);
        assert forall|n: u64| #[trigger] uint_at(v@, i as int, n as nat) implies acc == n by {
            lemma_digits_val_dec_u64(n as nat);
            assert(d == dec_u64(n as nat));
        }
    }
    Some((acc, j))
}

/// Parses a canonical signed decimal at `i`.
fn parse_i64(v: &Vec<char>, i: usize) -> (r: Option<(i64, usize)>)
    requires
        i <= v@.len(),
    ensures
        r matches Some(p) ==> piece_at(v@, i as int, int_enc(p.0 as int)) && p.1 == i + int_enc(
            p.0 as int,
        ).len() && (p.1 == v@.len() || !is_digit(v@[p.1 as int])),
        forall|x: i64| #[trigger] int_at(v@, i as int, x as int) ==> (r matches Some(p) && p.0
            == x),
{
    proof {
        assert forall|x: i64| #[trigger] int_at(v@, i as int, x as int) && x < 0 implies i
            < v@.len() && v@[i as int] == '-' && uint_at(v@, i as int + 1, (-(x as int)) as nat) by {
            let mag = (-(x as int)) as nat;
            assert(int_enc(x as int) == seq!['-'] + dec_u64(mag));
            lemma_piece_split(v@, i as int, seq!['-'], dec_u64(mag));
            assert(v@.subrange(i as int, i as int + 1)[0] == v@[i as int]);
        }
        assert forall|x: i64| #[trigger] int_at(v@, i as int, x as int) && x >= 0 implies uint_at(
            v@,
            i as int,
            x as nat,
        ) by {
            assert(int_enc(x as int) == dec_u64(x as nat));
        }
        assert forall|x: i64| #[trigger] int_at(v@, i as int, x as int) implies i < v@.len() by {
            if x >= 0 {
                lemma_dec_u64_canonical(x as nat);
            }
        }
    }
    if i < v.len() && char_digit_val(v[i]) == 10 {
        // possibly a sign; everything else fails here
        if v[i] != '-' {
            proof {
                assert forall|x: i64| #[trigger] int_at(v@, i as int, x as int) implies false by {
                    if x >= 0 {
                        lemma_dec_u64_canonical(x as nat);
                        let d = dec_u64(x as nat);
                        assert(v@.subrange(i as int, i + d.len())[0] == d[0]);
                        assert(v@[i as int] == d[0]);
                        assert(is_digit(d[0]));
                    }
                }
            }
            return None;
        }
        match parse_u64(v, i + 1) {
            None => {
                proof {
                    assert forall|x: i64| #[trigger]
                        int_at(v@, i as int, x as int) implies false by {
                        if x >= 0 {
                            lemma_dec_u64_canonical(x as nat);
                            let d = dec_u64(x as nat);
                            assert(v@.subrange(i as int, i + d.len())[0] == d[0]);
                            assert(v@[i as int] == d[0]);
                            assert(is_digit(d[0]));
                            assert(digit_val('-') == 10);
                        } else {
                            let mag = ((-(x as int)) as nat) as u64;
                            assert(uint_at(v@, i as int + 1, mag as nat));
                        }
                    }
                }
                None
            },
            Some((m, j)) => {
                if m == 0 {
                    proof {
                        assert forall|x: i64| #[trigger]
                            int_at(v@, i as int, x as int) implies false by {
                            if x >= 0 {
                                lemma_dec_u64_canonical(x as nat);
                                let d = dec_u64(x as nat);
                                assert(v@.subrange(i as int, i + d.len())[0] == d[0]);
                                assert(v@[i as int] == d[0]);
                                assert(is_digit(d[0]));
                                assert(digit_val('-') == 10);
                            } else {
                                let mag = ((-(x as int)) as nat) as u64;
                                assert(uint_at(v@, i as int + 1, mag as nat));
                                assert(mag != 0);
                            }
                        }
                    }
                    None
                } else if m <= 9223372036854775807u64 {
                    let x: i64 = -(m as i64);
                    proof {
                        assert(int_enc(x as int) == seq!['-'] + dec_u64(m as nat));
                        assert(v@.subrange(i as int, i as int + 1) =~= seq!['-']);
                        lemma_piece_join(v@, i as int, seq!['-'], dec_u64(m as nat));
                        assert forall|x0: i64| #[trigger]
                            int_at(v@, i as int, x0 as int) implies x0 == x by {
                            if x0 >= 0 {
                                lemma_dec_u64_canonical(x0 as nat);
                                let d = dec_u64(x0 as nat);
                                assert(v@.subrange(i as int, i + d.len())[0] == d[0]);
                                assert(v@[i as int] == d[0]);
                                assert(is_digit(d[0]));
                                assert(digit_val('-') == 10);
                                assert(false);
                            } else {
                                let mag = ((-(x0 as int)) as nat) as u64;
                                assert(uint_at(v@, i as int + 1, mag as nat));
                                assert(mag == m);
                            }
                        }
                    }
                    Some((x, j))
                } else if m == 9223372036854775808u64 {
                    let x: i64 = i64::MIN;
                    proof {
                        assert(int_enc(x as int) == seq!['-'] + dec_u64(m as nat));
                        assert(v@.subrange(i as int, i as int + 1) =~= seq!['-']);
                        lemma_piece_join(v@, i as int, seq!['-'], dec_u64(m as nat));
                        assert forall|x0: i64| #[trigger]
                            int_at(v@, i as int, x0 as int) implies x0 == x by {
                            if x0 >= 0 {
                                lemma_dec_u64_canonical(x0 as nat);
                                let d = dec_u64(x0 as nat);
                                assert(v@.subrange(i as int, i + d.len())[0] == d[0]);
                                assert(v@[i as int] == d[0]);
                                assert(is_digit(d[0]));
                                assert(digit_val('-') == 10);
                                assert(false);
                            } else {
                                let mag = ((-(x0 as int)) as nat) as u64;
                                assert(uint_at(v@, i as int + 1, mag as nat));
                                assert(mag == m);
                            }
                        }
                    }
                    Some((x, j))
                } else {
                    proof {
                        assert forall|x: i64| #[trigger]
                            int_at(v@, i as int, x as int) implies false by {
                            if x >= 0 {
                                lemma_dec_u64_canonical(x as nat);
                                let d = dec_u64(x as nat);
                                assert(v@.subrange(i as int, i + d.len())[0] == d[0]);
                                assert(v@[i as int] == d[0]);
                                assert(is_digit(d[0]));
                                assert(digit_val('-') == 10);
                            } else {
                                let mag = ((-(x as int)) as nat) as u64;
                                assert(uint_at(v@, i as int + 1, mag as nat));
                                assert(mag == m);
                                assert(mag <= 9223372036854775808u64);
                            }
                        }
                    }
                    None
                }
            },
        }
    } else {
        match parse_u64(v, i) {
            None => {
                proof {
                    assert forall|x: i64| #[trigger]
                        int_at(v@, i as int, x as int) implies false by {
                        if x >= 0 {
                            assert(uint_at(v@, i as int, x as nat));
                        } else {
                            assert(v@[i as int] == '-');
                            assert(digit_val('-') == 10);
                        }
                    }
                }
                None
            },
            Some((m, j)) => {
                if m <= 9223372036854775807u64 {
                    let x: i64 = m as i64;
                    proof {
                        assert(int_enc(x as int) == dec_u64(m as nat));
                        assert forall|x0: i64| #[trigger]
                            int_at(v@, i as int, x0 as int) implies x0 == x by {
                            if x0 < 0 {
                                assert(v@[i as int] == '-');
                                assert(digit_val('-') == 10);
                                assert(false);
                            } else {
                                assert(uint_at(v@, i as int, x0 as nat));
                            }
                        }
                    }
                    Some((x, j))
                } else {
                    proof {
                        assert forall|x: i64| #[trigger]
                            int_at(v@, i as int, x as int) implies false by {
                            if x < 0 {
                                assert(v@[i as int] == '-');
                                assert(digit_val('-') == 10);
                            } else {
                                assert(uint_at(v@, i as int, x as nat));
                            }
                        }
                    }
                    None
                }
            },
        }
    }
}

/// Parses a canonical unsigned decimal at `i` into a `usize`.
fn parse_usize(v: &Vec<char>, i: usize) -> (r: Option<(usize, usize)>)
    requires
        i <= v@.len(),
    ensures
        r matches Some(p) ==> piece_at(v@, i as int, dec_u64(p.0 as nat)) && p.1 == i + dec_u64(
            p.0 as nat,
        ).len() && (p.1 == v@.len() || !is_digit(v@[p.1 as int])),
        forall|n: usize| #[trigger] uint_at(v@, i as int, n as nat) ==> (r matches Some(p) && p.0
            == n),
{
    match parse_u64(v, i) {
        None => {
            proof {
                assert forall|n: usize| #[trigger]
                    uint_at(v@, i as int, n as nat) implies false by {
                    assert(uint_at(v@, i as int, (n as u64) as nat));
                }
            }
            None
        },
        Some((m, j)) => {
            if m <= usize::MAX as u64 {
                proof {
                    assert forall|n: usize| #[trigger]
                        uint_at(v@, i as int, n as nat) implies (m as usize) == n by {
                        assert(uint_at(v@, i as int, (n as u64) as nat));
                    }
                }
                Some((m as usize, j))
            } else {
                proof {
                    assert forall|n: usize| #[trigger]
                        uint_at(v@, i as int, n as nat) implies false by {
                        assert(uint_at(v@, i as int, (n as u64) as nat));
                        assert(n as u64 == m);
                    }
                }
                None
            }
        },
    }
}

/// Parses a complete wire string at `i`, quotes included.
fn parse_string(v: &Vec<char>, i: usize) -> (r: Option<(String, usize)>)
    requires
        i <= v@.len(),
    ensures
        r matches Some(p) ==> i < p.1 <= v@.len() && piece_at(v@, i as int, str_enc(p.0@)) && p.1
            == i + str_enc(p.0@).len(),
        forall|s0: Seq<char>|
            #[trigger] piece_at(v@, i as int, str_enc(s0)) ==> (r matches Some(p) && p.0@ == s0),
{
    proof {
        assert forall|s0: Seq<char>| #[trigger] piece_at(v@, i as int, str_enc(s0)) implies i
            < v@.len() && v@[i as int] == '"' && piece_at(
            v@,
            i as int + 1,
            esc(s0) + seq!['"'],
        ) by {
            assert(str_enc(s0) =~= seq!['"'] + (esc(s0) + seq!['"']));
            lemma_piece_split(v@, i as int, seq!['"'], esc(s0) + seq!['"']);
            assert(v@.subrange(i as int, i as int + 1)[0] == v@[i as int]);
        }
    }
    if i == v.len() || v[i] != '"' {
        return None;
    }
    match scan_str(v, i + 1) {
        None => None,
        Some((body, j)) => {
            let out = chars_to_string(&body);
            proof {
                assert(v@.subrange(i as int, i as int + 1) =~= seq!['"']);
                lemma_piece_join(v@, i as int, seq!['"'], esc(body@) + seq!['"']);
                assert(seq!['"'] + (esc(body@) + seq!['"']) =~= str_enc(body@));
                assert(piece_at(v@, i as int, str_enc(out@)));
            }
            Some((out, j))
        },
    }
}

/// A one-string-field object body, key literal included.
pub open spec fn obj1(k1: Seq<char>, a: Seq<char>) -> Seq<char> {
    k1 + str_enc(a) + seq!['}']
}

/// A two-string-field object body.
pub open spec fn obj2(k1: Seq<char>, k2: Seq<char>, a: Seq<char>, b: Seq<char>) -> Seq<char> {
    k1 + str_enc(a) + k2 + str_enc(b) + seq!['}']
}

/// A three-string-field object body.
pub open spec fn obj3(
    k1: Seq<char>,
    k2: Seq<char>,
    k3: Seq<char>,
    a: Seq<char>,
    b: Seq<char>,
    c: Seq<char>,
) -> Seq<char> {
    k1 + str_enc(a) + k2 + str_enc(b) + k3 + str_enc(c) + seq!['}']
}

/// An object body of one string, one unsigned and one signed field.
pub open spec fn obj_sui(
    k1: Seq<char>,
    k2: Seq<char>,
    k3: Seq<char>,
    a: Seq<char>,
    n: usize,
    t: i64,
) -> Seq<char> {
    k1 + str_enc(a) + k2 + dec_u64(n as nat) + k3 + int_enc(t as int) + seq!['}']
}

proof fn lemma_obj1_pieces(v: Seq<char>, i: int, k1: Seq<char>, a: Seq<char>)
    requires
        piece_at(v, i, obj1(k1, a)),
    ensures
        piece_at(v, i, k1),
        piece_at(v, i + k1.len(), str_enc(a)),
        piece_at(v, i + k1.len() + str_enc(a).len(), seq!['}']),
{
    assert(obj1(k1, a) =~= k1 + (str_enc(a) + seq!['}']));
    lemma_piece_split(v, i, k1, str_enc(a) + seq!['}']);
    lemma_piece_split(v, i + k1.len(), str_enc(a), seq!['}']);
}

proof fn lemma_obj2_pieces(v: Seq<char>, i: int, k1: Seq<char>, k2: Seq<char>, a: Seq<char>, b: Seq<char>)
    requires
        piece_at(v, i, obj2(k1, k2, a, b)),
    ensures
        piece_at(v, i, k1),
        piece_at(v, i + k1.len(), str_enc(a)),
        piece_at(v, i + k1.len() + str_enc(a).len(), k2),
        piece_at(v, i + k1.len() + str_enc(a).len() + k2.len(), str_enc(b)),
        piece_at(v, i + k1.len() + str_enc(a).len() + k2.len() + str_enc(b).len(), seq!['}']),
{
    assert(obj2(k1, k2, a, b) =~= k1 + (str_enc(a) + (k2 + (str_enc(b) + seq!['}']))));
    lemma_piece_split(v, i, k1, str_enc(a) + (k2 + (str_enc(b) + seq!['}'])));
    lemma_piece_split(v, i + k1.len(), str_enc(a), k2 + (str_enc(b) + seq!['}']));
    lemma_piece_split(v, i + k1.len() + str_enc(a).len(), k2, str_enc(b) + seq!['}']);
    lemma_piece_split(v, i + k1.len() + str_enc(a).len() + k2.len(), str_enc(b), seq!['}']);
}

proof fn lemma_obj3_pieces(
    v: Seq<char>,
    i: int,
    k1: Seq<char>,
    k2: Seq<char>,
    k3: Seq<char>,
    a: Seq<char>,
    b: Seq<char>,
    c: Seq<char>,
)
    requires
        piece_at(v, i, obj3(k1, k2, k3, a, b, c)),
    ensures
        piece_at(v, i, k1),
        piece_at(v, i + k1.len(), str_enc(a)),
        piece_at(v, i + k1.len() + str_enc(a).len(), k2),
        piece_at(v, i + k1.len() + str_enc(a).len() + k2.len(), str_enc(b)),
        piece_at(v, i + k1.len() + str_enc(a).len() + k2.len() + str_enc(b).len(), k3),
        piece_at(
            v,
            i + k1.len() + str_enc(a).len() + k2.len() + str_enc(b).len() + k3.len(),
            str_enc(c),
        ),
        piece_at(
            v,
            i + k1.len() + str_enc(a).len() + k2.len() + str_enc(b).len() + k3.len() + str_enc(
                c,
            ).len(),
            seq!['}'],
        ),
{
    assert(obj3(k1, k2, k3, a, b, c) =~= k1 + (str_enc(a) + (k2 + (str_enc(b) + (k3 + (str_enc(c)
        + seq!['}']))))));
    lemma_piece_split(v, i, k1, str_enc(a) + (k2 + (str_enc(b) + (k3 + (str_enc(c) + seq!['}'])))));
    lemma_piece_split(v, i + k1.len(), str_enc(a), k2 + (str_enc(b) + (k3 + (str_enc(c)
        + seq!['}']))));
    lemma_piece_split(v, i + k1.len() + str_enc(a).len(), k2, str_enc(b) + (k3 + (str_enc(c)
        + seq!['}'])));
    lemma_piece_split(v, i + k1.len() + str_enc(a).len() + k2.len(), str_enc(b), k3 + (str_enc(c)
        + seq!['}']));
    lemma_piece_split(v, i + k1.len() + str_enc(a).len() + k2.len() + str_enc(b).len(), k3, str_enc(
        c,
    ) + seq!['}']);
    lemma_piece_split(
        v,
        i + k1.len() + str_enc(a).len() + k2.len() + str_enc(b).len() + k3.len(),
        str_enc(c),
        seq!['}'],
    );
}

proof fn lemma_obj_sui_pieces(
    v: Seq<char>,
    i: int,
    k1: Seq<char>,
    k2: Seq<char>,
    k3: Seq<char>,
    a: Seq<char>,
    n: usize,
    t: i64,
)
    requires
        piece_at(v, i, obj_sui(k1, k2, k3, a, n, t)),
        k2.len() > 0,
        k3.len() > 0 && !is_digit(k3[0]),
    ensures
        piece_at(v, i, k1),
        piece_at(v, i + k1.len(), str_enc(a)),
        piece_at(v, i + k1.len() + str_enc(a).len(), k2),
        uint_at(v, i + k1.len() + str_enc(a).len() + k2.len(), n as nat),
        piece_at(
            v,
            i + k1.len() + str_enc(a).len() + k2.len() + dec_u64(n as nat).len(),
            k3,
        ),
        int_at(
            v,
            i + k1.len() + str_enc(a).len() + k2.len() + dec_u64(n as nat).len() + k3.len(),
            t as int,
        ),
        piece_at(
            v,
            i + k1.len() + str_enc(a).len() + k2.len() + dec_u64(n as nat).len() + k3.len()
                + int_enc(t as int).len(),
            seq!['}'],
        ),
{
    assert(obj_sui(k1, k2, k3, a, n, t) =~= k1 + (str_enc(a) + (k2 + (dec_u64(n as nat) + (k3 + (
    int_enc(t as int) + seq!['}']))))));
    lemma_piece_split(v, i, k1, str_enc(a) + (k2 + (dec_u64(n as nat) + (k3 + (int_enc(t as int)
        + seq!['}'])))));
    lemma_piece_split(v, i + k1.len(), str_enc(a), k2 + (dec_u64(n as nat) + (k3 + (int_enc(
        t as int,
    ) + seq!['}']))));
    lemma_piece_split(v, i + k1.len() + str_enc(a).len(), k2, dec_u64(n as nat) + (k3 + (int_enc(
        t as int,
    ) + seq!['}'])));
    let p_num = i + k1.len() + str_enc(a).len() + k2.len();
    lemma_piece_split(v, p_num, dec_u64(n as nat), k3 + (int_enc(t as int) + seq!['}']));
    let p_k3 = p_num + dec_u64(n as nat).len();
    lemma_piece_split(v, p_k3, k3, int_enc(t as int) + seq!['}']);
    let p_int = p_k3 + k3.len();
    lemma_piece_split(v, p_int, int_enc(t as int), seq!['}']);
    // the key after the unsigned number starts with a non-digit
    assert(v.subrange(p_k3, p_k3 + k3.len())[0] == v[p_k3]);
    assert(v[p_k3] == k3[0]);
    assert(uint_at(v, p_num, n as nat));
    // the closing brace after the signed number is a non-digit
    let p_end = p_int + int_enc(t as int).len();
    assert(v.subrange(p_end, p_end + 1)[0] == v[p_end]);
    assert(v[p_end] == '}');
    assert(digit_val('}') == 10);
    assert(int_at(v, p_int, t as int));
}

/// Consumes the closing brace of an object at `i`.
fn expect_close(v: &Vec<char>, i: usize) -> (r: Option<usize>)
    requires
        i <= v@.len(),
    ensures
        r matches Some(j) ==> j == i + 1 && j <= v@.len() && piece_at(v@, i as int, seq!['}']),
        piece_at(v@, i as int, seq!['}']) ==> r is Some,
{
    proof {
        if piece_at(v@, i as int, seq!['}']) {
            assert(v@.subrange(i as int, i as int + 1)[0] == v@[i as int]);
        }
    }
    if i < v.len() && v[i] == '}' {
        proof {
            assert(v@.subrange(i as int, i as int + 1) =~= seq!['}']);
        }
        Some(i + 1)
    } else {
        None
    }
}

/// Parses a one-string-field object body at `i`.
fn parse_obj1(v: &Vec<char>, i: usize, k1: &str) -> (r: Option<(String, usize)>)
    requires
        i <= v@.len(),
    ensures
        r matches Some(p) ==> piece_at(v@, i as int, obj1(k1@, p.0@)) && p.1 == i + obj1(
            k1@,
            p.0@,
        ).len(),
        forall|a: Seq<char>|
            #[trigger] piece_at(v@, i as int, obj1(k1@, a)) ==> (r matches Some(p) && p.0@ == a),
{
    proof {
        assert forall|a: Seq<char>| #[trigger] piece_at(v@, i as int, obj1(k1@, a)) implies
            piece_at(v@, i as int, k1@) && piece_at(v@, i + k1@.len(), str_enc(a)) && piece_at(
            v@,
            i + k1@.len() + str_enc(a).len(),
            seq!['}'],
        ) by {
            lemma_obj1_pieces(v@, i as int, k1@, a);
        }
    }
    let i1 = match expect_lit(v, i, k1) {
        None => {
            return None;
        },
        Some(x) => x,
    };
    let (s1, i2) = match parse_string(v, i1) {
        None => {
            return None;
        },
        Some(x) => x,
    };
    let i3 = match expect_close(v, i2) {
        None => {
            return None;
        },
        Some(x) => x,
    };
    proof {
        lemma_piece_join(v@, i1 as int, str_enc(s1@), seq!['}']);
        lemma_piece_join(v@, i as int, k1@, str_enc(s1@) + seq!['}']);
        assert(k1@ + (str_enc(s1@) + seq!['}']) =~= obj1(k1@, s1@));
    }
    Some((s1, i3))
}

/// Parses a two-string-field object body at `i`.
fn parse_obj2(v: &Vec<char>, i: usize, k1: &str, k2: &str) -> (r: Option<(String, String, usize)>)
    requires
        i <= v@.len(),
    ensures
        r matches Some(p) ==> piece_at(v@, i as int, obj2(k1@, k2@, p.0@, p.1@)) && p.2 == i
            + obj2(k1@, k2@, p.0@, p.1@).len(),
        forall|a: Seq<char>, b: Seq<char>|
            #[trigger] piece_at(v@, i as int, obj2(k1@, k2@, a, b)) ==> (r matches Some(p) && p.0@
                == a && p.1@ == b),
{
    proof {
        assert forall|a: Seq<char>, b: Seq<char>| #[trigger]
            piece_at(v@, i as int, obj2(k1@, k2@, a, b)) implies piece_at(v@, i as int, k1@)
            && piece_at(v@, i + k1@.len(), str_enc(a)) && piece_at(
            v@,
            i + k1@.len() + str_enc(a).len(),
            k2@,
        ) && piece_at(v@, i + k1@.len() + str_enc(a).len() + k2@.len(), str_enc(b)) && piece_at(
            v@,
            i + k1@.len() + str_enc(a).len() + k2@.len() + str_enc(b).len(),
            seq!['}'],
        ) by {
            lemma_obj2_pieces(v@, i as int, k1@, k2@, a, b);
        }
    }
    let i1 = match expect_lit(v, i, k1) {
        None => {
            return None;
        },
        Some(x) => x,
    };
    let (s1, i2) = match parse_string(v, i1) {
        None => {
            return None;
        },
        Some(x) => x,
    };
    let i3 = match expect_lit(v, i2, k2) {
        None => {
            return None;
        },
        Some(x) => x,
    };
    let (s2, i4) = match parse_string(v, i3) {
        None => {
            return None;
        },
        Some(x) => x,
    };
    let i5 = match expect_close(v, i4) {
        None => {
            return None;
        },
        Some(x) => x,
    };
    proof {
        lemma_piece_join(v@, i3 as int, str_enc(s2@), seq!['}']);
        lemma_piece_join(v@, i2 as int, k2@, str_enc(s2@) + seq!['}']);
        lemma_piece_join(v@, i1 as int, str_enc(s1@), k2@ + (str_enc(s2@) + seq!['}']));
        lemma_piece_join(v@, i as int, k1@, str_enc(s1@) + (k2@ + (str_enc(s2@) + seq!['}'])));
        assert(k1@ + (str_enc(s1@) + (k2@ + (str_enc(s2@) + seq!['}']))) =~= obj2(
            k1@,
            k2@,
            s1@,
            s2@,
        ));
    }
    Some((s1, s2, i5))
}

/// Parses a three-string-field object body at `i`.
fn parse_obj3(v: &Vec<char>, i: usize, k1: &str, k2: &str, k3: &str) -> (r: Option<
    (String, String, String, usize),
>)
    requires
        i <= v@.len(),
    ensures
        r matches Some(p) ==> piece_at(v@, i as int, obj3(k1@, k2@, k3@, p.0@, p.1@, p.2@)) && p.3
            == i + obj3(k1@, k2@, k3@, p.0@, p.1@, p.2@).len(),
        forall|a: Seq<char>, b: Seq<char>, c: Seq<char>|
            #[trigger] piece_at(v@, i as int, obj3(k1@, k2@, k3@, a, b, c)) ==> (r matches Some(p)
                && p.0@ == a && p.1@ == b && p.2@ == c),
{
    proof {
        assert forall|a: Seq<char>, b: Seq<char>, c: Seq<char>| #[trigger]
            piece_at(v@, i as int, obj3(k1@, k2@, k3@, a, b, c)) implies piece_at(
            v@,
            i as int,
            k1@,
        ) && piece_at(v@, i + k1@.len(), str_enc(a)) && piece_at(
            v@,
            i + k1@.len() + str_enc(a).len(),
            k2@,
        ) && piece_at(v@, i + k1@.len() + str_enc(a).len() + k2@.len(), str_enc(b)) && piece_at(
            v@,
            i + k1@.len() + str_enc(a).len() + k2@.len() + str_enc(b).len(),
            k3@,
        ) && piece_at(
            v@,
            i + k1@.len() + str_enc(a).len() + k2@.len() + str_enc(b).len() + k3@.len(),
            str_enc(c),
        ) && piece_at(
            v@,
            i + k1@.len() + str_enc(a).len() + k2@.len() + str_enc(b).len() + k3@.len() + str_enc(
                c,
            ).len(),
            seq!['}'],
        ) by {
            lemma_obj3_pieces(v@, i as int, k1@, k2@, k3@, a, b, c);
        }
    }
    let i1 = match expect_lit(v, i, k1) {
        None => {
            return None;
        },
        Some(x) => x,
    };
    let (s1, i2) = match parse_string(v, i1) {
        None => {
            return None;
        },
        Some(x) => x,
    };
    let i3 = match expect_lit(v, i2, k2) {
        None => {
            return None;
        },
        Some(x) => x,
    };
    let (s2, i4) = match parse_string(v, i3) {
        None => {
            return None;
        },
        Some(x) => x,
    };
    let i5 = match expect_lit(v, i4, k3) {
        None => {
            return None;
        },
        Some(x) => x,
    };
    let (s3, i6) = match parse_string(v, i5) {
        None => {
            return None;
        },
        Some(x) => x,
    };
    let i7 = match expect_close(v, i6) {
        None => {
            return None;
        },
        Some(x) => x,
    };
    proof {
        lemma_piece_join(v@, i5 as int, str_enc(s3@), seq!['}']);
        lemma_piece_join(v@, i4 as int, k3@, str_enc(s3@) + seq!['}']);
        lemma_piece_join(v@, i3 as int, str_enc(s2@), k3@ + (str_enc(s3@) + seq!['}']));
        lemma_piece_join(v@, i2 as int, k2@, str_enc(s2@) + (k3@ + (str_enc(s3@) + seq!['}'])));
        lemma_piece_join(
            v@,
            i1 as int,
            str_enc(s1@),
            k2@ + (str_enc(s2@) + (k3@ + (str_enc(s3@) + seq!['}']))),
        );
        lemma_piece_join(
            v@,
            i as int,
            k1@,
            str_enc(s1@) + (k2@ + (str_enc(s2@) + (k3@ + (str_enc(s3@) + seq!['}'])))),
        );
        assert(k1@ + (str_enc(s1@) + (k2@ + (str_enc(s2@) + (k3@ + (str_enc(s3@) + seq!['}'])))))
            =~= obj3(k1@, k2@, k3@, s1@, s2@, s3@));
    }
    Some((s1, s2, s3, i7))
}

/// Parses an object body of one string, one unsigned and one signed field.
fn parse_obj_sui(v: &Vec<char>, i: usize, k1: &str, k2: &str, k3: &str) -> (r: Option<
    (String, usize, i64, usize),
>)
    requires
        i <= v@.len(),
        k2@.len() > 0,
        k3@.len() > 0 && !is_digit(k3@[0]),
    ensures
        r matches Some(p) ==> piece_at(v@, i as int, obj_sui(k1@, k2@, k3@, p.0@, p.1, p.2)) && p.3
            == i + obj_sui(k1@, k2@, k3@, p.0@, p.1, p.2).len(),
        forall|a: Seq<char>, n: usize, t: i64|
            #[trigger] piece_at(v@, i as int, obj_sui(k1@, k2@, k3@, a, n, t)) ==> (r matches Some(
                p,
            ) && p.0@ == a && p.1 == n && p.2 == t),
{
    proof {
        assert forall|a: Seq<char>, n: usize, t: i64| #[trigger]
            piece_at(v@, i as int, obj_sui(k1@, k2@, k3@, a, n, t)) implies piece_at(
            v@,
            i as int,
            k1@,
        ) && piece_at(v@, i + k1@.len(), str_enc(a)) && piece_at(
            v@,
            i + k1@.len() + str_enc(a).len(),
            k2@,
        ) && uint_at(v@, i + k1@.len() + str_enc(a).len() + k2@.len(), n as nat) && piece_at(
            v@,
            i + k1@.len() + str_enc(a).len() + k2@.len() + dec_u64(n as nat).len(),
            k3@,
        ) && int_at(
            v@,
            i + k1@.len() + str_enc(a).len() + k2@.len() + dec_u64(n as nat).len() + k3@.len(),
            t as int,
        ) && piece_at(
            v@,
            i + k1@.len() + str_enc(a).len() + k2@.len() + dec_u64(n as nat).len() + k3@.len()
                + int_enc(t as int).len(),
            seq!['}'],
        ) by {
            lemma_obj_sui_pieces(v@, i as int, k1@, k2@, k3@, a, n, t);
        }
    }
    let i1 = match expect_lit(v, i, k1) {
        None => {
            return None;
        },
        Some(x) => x,
    };
    let (s1, i2) = match parse_string(v, i1) {
        None => {
            return None;
        },
        Some(x) => x,
    };
    let i3 = match expect_lit(v, i2, k2) {
        None => {
            return None;
        },
        Some(x) => x,
    };
    let (n1, i4) = match parse_usize(v, i3) {
        None => {
            return None;
        },
        Some(x) => x,
    };
    let i5 = match expect_lit(v, i4, k3) {
        None => {
            return None;
        },
        Some(x) => x,
    };
    let (t1, i6) = match parse_i64(v, i5) {
        None => {
            return None;
        },
        Some(x) => x,
    };
    let i7 = match expect_close(v, i6) {
        None => {
            return None;
        },
        Some(x) => x,
    };
    proof {
        lemma_piece_join(v@, i5 as int, int_enc(t1 as int), seq!['}']);
        lemma_piece_join(v@, i4 as int, k3@, int_enc(t1 as int) + seq!['}']);
        lemma_piece_join(v@, i3 as int, dec_u64(n1 as nat), k3@ + (int_enc(t1 as int) + seq!['}']));
        lemma_piece_join(
            v@,
            i2 as int,
            k2@,
            dec_u64(n1 as nat) + (k3@ + (int_enc(t1 as int) + seq!['}'])),
        );
        lemma_piece_join(
            v@,
            i1 as int,
            str_enc(s1@),
            k2@ + (dec_u64(n1 as nat) + (k3@ + (int_enc(t1 as int) + seq!['}']))),
        );
        lemma_piece_join(
            v@,
            i as int,
            k1@,
            str_enc(s1@) + (k2@ + (dec_u64(n1 as nat) + (k3@ + (int_enc(t1 as int)
                + seq!['}'])))),
        );
        assert(k1@ + (str_enc(s1@) + (k2@ + (dec_u64(n1 as nat) + (k3@ + (int_enc(t1 as int)
            + seq!['}']))))) =~= obj_sui(k1@, k2@, k3@, s1@, n1, t1));
    }
    Some((s1, n1, t1, i7))
}

/// Appends the wire form of a string, quotes and escapes included.
pub(crate) fn write_json_string(out: &mut String, s: &str)
    ensures
        final(out)@ == old(out)@ + str_enc(s@),
{
    push_char(out, '"');
    let n = s.unicode_len();
    for i in 0..n
        invariant
            n == s@.len(),
            out@ == old(out)@ + seq!['"'] + esc(s@.take(i as int)),
    {
        let c = s.get_char(i);
        if c == '"' || c == '\\' {
            push_char(out, '\\');
        }
        push_char(out, c);
        proof {
            assert(s@.take(i as int + 1) =~= s@.take(i as int) + seq![c]);
            lemma_esc_append(s@.take(i as int), seq![c]);
            lemma_esc_single(c);
            assert(out@ =~= old(out)@ + seq!['"'] + esc(s@.take(i as int + 1)));
        }
    }
    push_char(out, '"');
    proof {
        assert(s@.take(n as int) =~= s@);
        assert(out@ =~= old(out)@ + str_enc(s@));
    }
}

/// Appends the minimal decimal form of an unsigned value.
pub(crate) fn write_usize(out: &mut String, n: usize)
    ensures
        final(out)@ == old(out)@ + dec_u64(n as nat),
{
    let d = u64_to_string(n as u64);
    out.append(d.as_str());
}

/// Appends the minimal decimal form of a signed value.
pub(crate) fn write_i64(out: &mut String, x: i64)
    ensures
        final(out)@ == old(out)@ + int_enc(x as int),
{
    if x >= 0 {
        let d = u64_to_string(x as u64);
        out.append(d.as_str());
    } else {
        push_char(out, '-');
        let mag: u64 = if x == i64::MIN {
            9223372036854775808u64
        } else {
            (-x) as u64
        };
        proof {
            assert(mag as nat == (-(x as int)) as nat);
        }
        let d = u64_to_string(mag);
        out.append(d.as_str());
        proof {
            assert(out@ =~= old(out)@ + int_enc(x as int));
        }
    }
}

/// A typed request frame received from a user.
#[derive(Debug, Clone, PartialEq, Eq)]
pub enum ReqMessage {
    RegisterUser(RegisterUserReq),
    LoginUser(LoginUserReq),
    GetUserInfo(GetUserInfoReq),
    CreateChannel(CreateChannelReq),
    ListChannelDetails(ListChannelDetailsReq),
    JoinChannel(JoinChannelReq),
    CreateMessage(CreateMessageReq),
    ListMessages(ListMessagesReq),
}

pub open spec fn spec_ser_register_user(p: RegisterUserReq) -> Seq<char> {
    obj2("{\"username\":"@, ",\"password\":"@, p.username@, p.password@)
}

pub open spec fn spec_ser_login_user(p: LoginUserReq) -> Seq<char> {
    obj2("{\"username\":"@, ",\"password\":"@, p.username@, p.password@)
}

pub open spec fn spec_ser_get_user_info(p: GetUserInfoReq) -> Seq<char> {
    obj1("{\"user_id\":"@, p.user_id@)
}

pub open spec fn spec_ser_create_channel(p: CreateChannelReq) -> Seq<char> {
    obj2("{\"name\":"@, ",\"creator_id\":"@, p.name@, p.creator_id@)
}

pub open spec fn spec_ser_list_channel_details(p: ListChannelDetailsReq) -> Seq<char> {
    obj1("{\"user_id\":"@, p.user_id@)
}

pub open spec fn spec_ser_join_channel(p: JoinChannelReq) -> Seq<char> {
    obj2("{\"channel_id\":"@, ",\"user_id\":"@, p.channel_id@, p.user_id@)
}

pub open spec fn spec_ser_create_message(p: CreateMessageReq) -> Seq<char> {
    obj3(
        "{\"channel_id\":"@,
        ",\"user_id\":"@,
        ",\"content\":"@,
        p.channel_id@,
        p.user_id@,
        p.content@,
    )
}

pub open spec fn spec_ser_list_messages(p: ListMessagesReq) -> Seq<char> {
    obj_sui(
        "{\"channel_id\":"@,
        ",\"limit\":"@,
        ",\"latest_time\":"@,
        p.channel_id@,
        p.limit,
        p.latest_time,
    )
}

/// The canonical wire form of a request frame.
pub open spec fn spec_ser_req(m: ReqMessage) -> Seq<char> {
    match m {
        ReqMessage::RegisterUser(p) => "{\"type\":\"register_user\",\"data\":"@
            + spec_ser_register_user(p) + seq!['}'],
        ReqMessage::LoginUser(p) => "{\"type\":\"login_user\",\"data\":"@ + spec_ser_login_user(p)
            + seq!['}'],
        ReqMessage::GetUserInfo(p) => "{\"type\":\"get_user_info\",\"data\":"@
            + spec_ser_get_user_info(p) + seq!['}'],
        ReqMessage::CreateChannel(p) => "{\"type\":\"create_channel\",\"data\":"@
            + spec_ser_create_channel(p) + seq!['}'],
        ReqMessage::ListChannelDetails(p) => "{\"type\":\"list_channel_details\",\"data\":"@
            + spec_ser_list_channel_details(p) + seq!['}'],
        ReqMessage::JoinChannel(p) => "{\"type\":\"join_channel\",\"data\":"@
            + spec_ser_join_channel(p) + seq!['}'],
        ReqMessage::CreateMessage(p) => "{\"type\":\"create_message\",\"data\":"@
            + spec_ser_create_message(p) + seq!['}'],
        ReqMessage::ListMessages(p) => "{\"type\":\"list_messages\",\"data\":"@
            + spec_ser_list_messages(p) + seq!['}'],
    }
}

/// `s` is the canonical wire form of `m`.
pub open spec fn is_wire_req(s: Seq<char>, m: ReqMessage) -> bool {
    s == spec_ser_req(m)
}

proof fn lemma_envelope_pieces(v: Seq<char>, pre: Seq<char>, payload: Seq<char>)
    requires
        v == pre + payload + seq!['}'],
    ensures
        piece_at(v, 0, pre),
        piece_at(v, pre.len() as int, payload),
        piece_at(v, (pre.len() + payload.len()) as int, seq!['}']),
        v.len() == pre.len() + payload.len() + 1,
{
    assert(v =~= pre + (payload + seq!['}']));
    assert(v.subrange(0, v.len() as int) =~= v);
    assert(piece_at(v, 0, pre + (payload + seq!['}'])));
    lemma_piece_split(v, 0, pre, payload + seq!['}']);
    lemma_piece_split(v, pre.len() as int, payload, seq!['}']);
}

fn try_register_user(v: &Vec<char>) -> (r: Option<ReqMessage>)
    ensures
        r matches Some(m) ==> v@ == spec_ser_req(m),
        forall|q: RegisterUserReq| #[trigger] is_wire_req(v@, ReqMessage::RegisterUser(q)) ==> r is Some,
{
    proof {
        assert forall|q: RegisterUserReq| #[trigger] is_wire_req(v@, ReqMessage::RegisterUser(q)) implies
            piece_at(v@, 0, "{\"type\":\"register_user\",\"data\":"@) && piece_at(v@, "{\"type\":\"register_user\",\"data\":"@.len() as int, spec_ser_register_user(q))
            && v@.len() == "{\"type\":\"register_user\",\"data\":"@.len() + spec_ser_register_user(q).len() + 1
            && piece_at(v@, ("{\"type\":\"register_user\",\"data\":"@.len() + spec_ser_register_user(q).len()) as int, seq!['}']) by {
            lemma_envelope_pieces(v@, "{\"type\":\"register_user\",\"data\":"@, spec_ser_register_user(q));
        }
    }
    let i0 = match expect_lit(v, 0, "{\"type\":\"register_user\",\"data\":") {
        None => {
            return None;
        },
        Some(x) => x,
    };
    let (f1, f2, i1) = match parse_obj2(v, i0, "{\"username\":", ",\"password\":") {
        None => {
            return None;
        },
        Some(x) => x,
    };
    let i2 = match expect_close(v, i1) {
        None => {
            return None;
        },
        Some(x) => x,
    };
    if i2 != v.len() {
        return None;
    }
    let p = RegisterUserReq { username: f1, password: f2 };
    let m = ReqMessage::RegisterUser(p);
    proof {
        lemma_piece_join(v@, i0 as int, spec_ser_register_user(p), seq!['}']);
        lemma_piece_join(v@, 0, "{\"type\":\"register_user\",\"data\":"@, spec_ser_register_user(p) + seq!['}']);
        assert(v@.subrange(0, v@.len() as int) =~= v@);
        assert(spec_ser_req(m) =~= "{\"type\":\"register_user\",\"data\":"@ + (spec_ser_register_user(p) + seq!['}']));
        assert(v@ == spec_ser_req(m));
    }
    Some(m)
}

fn try_login_user(v: &Vec<char>) -> (r: Option<ReqMessage>)
    ensures
        r matches Some(m) ==> v@ == spec_ser_req(m),
        forall|q: LoginUserReq| #[trigger] is_wire_req(v@, ReqMessage::LoginUser(q)) ==> r is Some,
{
    proof {
        assert forall|q: LoginUserReq| #[trigger] is_wire_req(v@, ReqMessage::LoginUser(q)) implies
            piece_at(v@, 0, "{\"type\":\"login_user\",\"data\":"@) && piece_at(v@, "{\"type\":\"login_user\",\"data\":"@.len() as int, spec_ser_login_user(q))
            && v@.len() == "{\"type\":\"login_user\",\"data\":"@.len() + spec_ser_login_user(q).len() + 1
            && piece_at(v@, ("{\"type\":\"login_user\",\"data\":"@.len() + spec_ser_login_user(q).len()) as int, seq!['}']) by {
            lemma_envelope_pieces(v@, "{\"type\":\"login_user\",\"data\":"@, spec_ser_login_user(q));
        }
    }
    let i0 = match expect_lit(v, 0, "{\"type\":\"login_user\",\"data\":") {
        None => {
            return None;
        },
        Some(x) => x,
    };
    let (f1, f2, i1) = match parse_obj2(v, i0, "{\"username\":", ",\"password\":") {
        None => {
            return None;
        },
        Some(x) => x,
    };
    let i2 = match expect_close(v, i1) {
        None => {
            return None;
        },
        Some(x) => x,
    };
    if i2 != v.len() {
        return None;
    }
    let p = LoginUserReq { username: f1, password: f2 };
    let m = ReqMessage::LoginUser(p);
    proof {
        lemma_piece_join(v@, i0 as int, spec_ser_login_user(p), seq!['}']);
        lemma_piece_join(v@, 0, "{\"type\":\"login_user\",\"data\":"@, spec_ser_login_user(p) + seq!['}']);
        assert(v@.subrange(0, v@.len() as int) =~= v@);
        assert(spec_ser_req(m) =~= "{\"type\":\"login_user\",\"data\":"@ + (spec_ser_login_user(p) + seq!['}']));
        assert(v@ == spec_ser_req(m));
    }
    Some(m)
}

fn try_get_user_info(v: &Vec<char>) -> (r: Option<ReqMessage>)
    ensures
        r matches Some(m) ==> v@ == spec_ser_req(m),
        forall|q: GetUserInfoReq| #[trigger] is_wire_req(v@, ReqMessage::GetUserInfo(q)) ==> r is Some,
{
    proof {
        assert forall|q: GetUserInfoReq| #[trigger] is_wire_req(v@, ReqMessage::GetUserInfo(q)) implies
            piece_at(v@, 0, "{\"type\":\"get_user_info\",\"data\":"@) && piece_at(v@, "{\"type\":\"get_user_info\",\"data\":"@.len() as int, spec_ser_get_user_info(q))
            && v@.len() == "{\"type\":\"get_user_info\",\"data\":"@.len() + spec_ser_get_user_info(q).len() + 1
            && piece_at(v@, ("{\"type\":\"get_user_info\",\"data\":"@.len() + spec_ser_get_user_info(q).len()) as int, seq!['}']) by {
            lemma_envelope_pieces(v@, "{\"type\":\"get_user_info\",\"data\":"@, spec_ser_get_user_info(q));
        }
    }
    let i0 = match expect_lit(v, 0, "{\"type\":\"get_user_info\",\"data\":") {
        None => {
            return None;
        },
        Some(x) => x,
    };
    let (f1, i1) = match parse_obj1(v, i0, "{\"user_id\":") {
        None => {
            return None;
        },
        Some(x) => x,
    };
    let i2 = match expect_close(v, i1) {
        None => {
            return None;
        },
        Some(x) => x,
    };
    if i2 != v.len() {
        return None;
    }
    let p = GetUserInfoReq { user_id: f1 };
    let m = ReqMessage::GetUserInfo(p);
    proof {
        lemma_piece_join(v@, i0 as int, spec_ser_get_user_info(p), seq!['}']);
        lemma_piece_join(v@, 0, "{\"type\":\"get_user_info\",\"data\":"@, spec_ser_get_user_info(p) + seq!['}']);
        assert(v@.subrange(0, v@.len() as int) =~= v@);
        assert(spec_ser_req(m) =~= "{\"type\":\"get_user_info\",\"data\":"@ + (spec_ser_get_user_info(p) + seq!['}']));
        assert(v@ == spec_ser_req(m));
    }
    Some(m)
}

fn try_create_channel(v: &Vec<char>) -> (r: Option<ReqMessage>)
    ensures
        r matches Some(m) ==> v@ == spec_ser_req(m),
        forall|q: CreateChannelReq| #[trigger] is_wire_req(v@, ReqMessage::CreateChannel(q)) ==> r is Some,
{
    proof {
        assert forall|q: CreateChannelReq| #[trigger] is_wire_req(v@, ReqMessage::CreateChannel(q)) implies
            piece_at(v@, 0, "{\"type\":\"create_channel\",\"data\":"@) && piece_at(v@, "{\"type\":\"create_channel\",\"data\":"@.len() as int, spec_ser_create_channel(q))
            && v@.len() == "{\"type\":\"create_channel\",\"data\":"@.len() + spec_ser_create_channel(q).len() + 1
            && piece_at(v@, ("{\"type\":\"create_channel\",\"data\":"@.len() + spec_ser_create_channel(q).len()) as int, seq!['}']) by {
            lemma_envelope_pieces(v@, "{\"type\":\"create_channel\",\"data\":"@, spec_ser_create_channel(q));
        }
    }
    let i0 = match expect_lit(v, 0, "{\"type\":\"create_channel\",\"data\":") {
        None => {
            return None;
        },
        Some(x) => x,
    };
    let (f1, f2, i1) = match parse_obj2(v, i0, "{\"name\":", ",\"creator_id\":") {
        None => {
            return None;
        },
        Some(x) => x,
    };
    let i2 = match expect_close(v, i1) {
        None => {
            return None;
        },
        Some(x) => x,
    };
    if i2 != v.len() {
        return None;
    }
    let p = CreateChannelReq { name: f1, creator_id: f2 };
    let m = ReqMessage::CreateChannel(p);
    proof {
        lemma_piece_join(v@, i0 as int, spec_ser_create_channel(p), seq!['}']);
        lemma_piece_join(v@, 0, "{\"type\":\"create_channel\",\"data\":"@, spec_ser_create_channel(p) + seq!['}']);
        assert(v@.subrange(0, v@.len() as int) =~= v@);
        assert(spec_ser_req(m) =~= "{\"type\":\"create_channel\",\"data\":"@ + (spec_ser_create_channel(p) + seq!['}']));
        assert(v@ == spec_ser_req(m));
    }
    Some(m)
}

fn try_list_channel_details(v: &Vec<char>) -> (r: Option<ReqMessage>)
    ensures
        r matches Some(m) ==> v@ == spec_ser_req(m),
        forall|q: ListChannelDetailsReq| #[trigger] is_wire_req(v@, ReqMessage::ListChannelDetails(q)) ==> r is Some,
{
    proof {
        assert forall|q: ListChannelDetailsReq| #[trigger] is_wire_req(v@, ReqMessage::ListChannelDetails(q)) implies
            piece_at(v@, 0, "{\"type\":\"list_channel_details\",\"data\":"@) && piece_at(v@, "{\"type\":\"list_channel_details\",\"data\":"@.len() as int, spec_ser_list_channel_details(q))
            && v@.len() == "{\"type\":\"list_channel_details\",\"data\":"@.len() + spec_ser_list_channel_details(q).len() + 1
            && piece_at(v@, ("{\"type\":\"list_channel_details\",\"data\":"@.len() + spec_ser_list_channel_details(q).len()) as int, seq!['}']) by {
            lemma_envelope_pieces(v@, "{\"type\":\"list_channel_details\",\"data\":"@, spec_ser_list_channel_details(q));
        }
    }
    let i0 = match expect_lit(v, 0, "{\"type\":\"list_channel_details\",\"data\":") {
        None => {
            return None;
        },
        Some(x) => x,
    };
    let (f1, i1) = match parse_obj1(v, i0, "{\"user_id\":") {
        None => {
            return None;
        },
        Some(x) => x,
    };
    let i2 = match expect_close(v, i1) {
        None => {
            return None;
        },
        Some(x) => x,
    };
    if i2 != v.len() {
        return None;
    }
    let p = ListChannelDetailsReq { user_id: f1 };
    let m = ReqMessage::ListChannelDetails(p);
    proof {
        lemma_piece_join(v@, i0 as int, spec_ser_list_channel_details(p), seq!['}']);
        lemma_piece_join(v@, 0, "{\"type\":\"list_channel_details\",\"data\":"@, spec_ser_list_channel_details(p) + seq!['}']);
        assert(v@.subrange(0, v@.len() as int) =~= v@);
        assert(spec_ser_req(m) =~= "{\"type\":\"list_channel_details\",\"data\":"@ + (spec_ser_list_channel_details(p) + seq!['}']));
        assert(v@ == spec_ser_req(m));
    }
    Some(m)
}

fn try_join_channel(v: &Vec<char>) -> (r: Option<ReqMessage>)
    ensures
        r matches Some(m) ==> v@ == spec_ser_req(m),
        forall|q: JoinChannelReq| #[trigger] is_wire_req(v@, ReqMessage::JoinChannel(q)) ==> r is Some,
{
    proof {
        assert forall|q: JoinChannelReq| #[trigger] is_wire_req(v@, ReqMessage::JoinChannel(q)) implies
            piece_at(v@, 0, "{\"type\":\"join_channel\",\"data\":"@) && piece_at(v@, "{\"type\":\"join_channel\",\"data\":"@.len() as int, spec_ser_join_channel(q))
            && v@.len() == "{\"type\":\"join_channel\",\"data\":"@.len() + spec_ser_join_channel(q).len() + 1
            && piece_at(v@, ("{\"type\":\"join_channel\",\"data\":"@.len() + spec_ser_join_channel(q).len()) as int, seq!['}']) by {
            lemma_envelope_pieces(v@, "{\"type\":\"join_channel\",\"data\":"@, spec_ser_join_channel(q));
        }
    }
    let i0 = match expect_lit(v, 0, "{\"type\":\"join_channel\",\"data\":") {
        None => {
            return None;
        },
        Some(x) => x,
    };
    let (f1, f2, i1) = match parse_obj2(v, i0, "{\"channel_id\":", ",\"user_id\":") {
        None => {
            return None;
        },
        Some(x) => x,
    };
    let i2 = match expect_close(v, i1) {
        None => {
            return None;
        },
        Some(x) => x,
    };
    if i2 != v.len() {
        return None;
    }
    let p = JoinChannelReq { channel_id: f1, user_id: f2 };
    let m = ReqMessage::JoinChannel(p);
    proof {
        lemma_piece_join(v@, i0 as int, spec_ser_join_channel(p), seq!['}']);
        lemma_piece_join(v@, 0, "{\"type\":\"join_channel\",\"data\":"@, spec_ser_join_channel(p) + seq!['}']);
        assert(v@.subrange(0, v@.len() as int) =~= v@);
        assert(spec_ser_req(m) =~= "{\"type\":\"join_channel\",\"data\":"@ + (spec_ser_join_channel(p) + seq!['}']));
        assert(v@ == spec_ser_req(m));
    }
    Some(m)
}

fn try_create_message(v: &Vec<char>) -> (r: Option<ReqMessage>)
    ensures
        r matches Some(m) ==> v@ == spec_ser_req(m),
        forall|q: CreateMessageReq| #[trigger] is_wire_req(v@, ReqMessage::CreateMessage(q)) ==> r is Some,
{
    proof {
        assert forall|q: CreateMessageReq| #[trigger] is_wire_req(v@, ReqMessage::CreateMessage(q)) implies
            piece_at(v@, 0, "{\"type\":\"create_message\",\"data\":"@) && piece_at(v@, "{\"type\":\"create_message\",\"data\":"@.len() as int, spec_ser_create_message(q))
            && v@.len() == "{\"type\":\"create_message\",\"data\":"@.len() + spec_ser_create_message(q).len() + 1
            && piece_at(v@, ("{\"type\":\"create_message\",\"data\":"@.len() + spec_ser_create_message(q).len()) as int, seq!['}']) by {
            lemma_envelope_pieces(v@, "{\"type\":\"create_message\",\"data\":"@, spec_ser_create_message(q));
        }
    }
    let i0 = match expect_lit(v, 0, "{\"type\":\"create_message\",\"data\":") {
        None => {
            return None;
        },
        Some(x) => x,
    };
    let (f1, f2, f3, i1) = match parse_obj3(v, i0, "{\"channel_id\":", ",\"user_id\":", ",\"content\":") {
        None => {
            return None;
        },
        Some(x) => x,
    };
    let i2 = match expect_close(v, i1) {
        None => {
            return None;
        },
        Some(x) => x,
    };
    if i2 != v.len() {
        return None;
    }
    let p = CreateMessageReq { channel_id: f1, user_id: f2, content: f3 };
    let m = ReqMessage::CreateMessage(p);
    proof {
        lemma_piece_join(v@, i0 as int, spec_ser_create_message(p), seq!['}']);
        lemma_piece_join(v@, 0, "{\"type\":\"create_message\",\"data\":"@, spec_ser_create_message(p) + seq!['}']);
        assert(v@.subrange(0, v@.len() as int) =~= v@);
        assert(spec_ser_req(m) =~= "{\"type\":\"create_message\",\"data\":"@ + (spec_ser_create_message(p) + seq!['}']));
        assert(v@ == spec_ser_req(m));
    }
    Some(m)
}

fn try_list_messages(v: &Vec<char>) -> (r: Option<ReqMessage>)
    ensures
        r matches Some(m) ==> v@ == spec_ser_req(m),
        forall|q: ListMessagesReq| #[trigger] is_wire_req(v@, ReqMessage::ListMessages(q)) ==> r is Some,
{
    proof {
        reveal_strlit(",\"limit\":");
        reveal_strlit(",\"latest_time\":");
        assert(",\"latest_time\":"@[0] == ',');
        assert forall|q: ListMessagesReq| #[trigger] is_wire_req(v@, ReqMessage::ListMessages(q)) implies
            piece_at(v@, 0, "{\"type\":\"list_messages\",\"data\":"@) && piece_at(v@, "{\"type\":\"list_messages\",\"data\":"@.len() as int, spec_ser_list_messages(q))
            && v@.len() == "{\"type\":\"list_messages\",\"data\":"@.len() + spec_ser_list_messages(q).len() + 1
            && piece_at(v@, ("{\"type\":\"list_messages\",\"data\":"@.len() + spec_ser_list_messages(q).len()) as int, seq!['}']) by {
            lemma_envelope_pieces(v@, "{\"type\":\"list_messages\",\"data\":"@, spec_ser_list_messages(q));
        }
    }
    let i0 = match expect_lit(v, 0, "{\"type\":\"list_messages\",\"data\":") {
        None => {
            return None;
        },
        Some(x) => x,
    };
    let (f1, f2, f3, i1) = match parse_obj_sui(v, i0, "{\"channel_id\":", ",\"limit\":", ",\"latest_time\":") {
        None => {
            return None;
        },
        Some(x) => x,
    };
    let i2 = match expect_close(v, i1) {
        None => {
            return None;
        },
        Some(x) => x,
    };
    if i2 != v.len() {
        return None;
    }
    let p = ListMessagesReq { channel_id: f1, limit: f2, latest_time: f3 };
    let m = ReqMessage::ListMessages(p);
    proof {
        lemma_piece_join(v@, i0 as int, spec_ser_list_messages(p), seq!['}']);
        lemma_piece_join(v@, 0, "{\"type\":\"list_messages\",\"data\":"@, spec_ser_list_messages(p) + seq!['}']);
        assert(v@.subrange(0, v@.len() as int) =~= v@);
        assert(spec_ser_req(m) =~= "{\"type\":\"list_messages\",\"data\":"@ + (spec_ser_list_messages(p) + seq!['}']));
        assert(v@ == spec_ser_req(m));
    }
    Some(m)
}

/// Parses a request frame. Sound: a returned message reads back to the
/// input exactly. Complete: a canonical frame is never rejected.
pub fn parse_req(s: &str) -> (r: Option<ReqMessage>)
    ensures
        r matches Some(m) ==> s@ == spec_ser_req(m),
        forall|m: ReqMessage| #[trigger] is_wire_req(s@, m) ==> r is Some,
{
    let v = str_chars(s);
    if let Some(m) = try_register_user(&v) {
        return Some(m);
    }
    if let Some(m) = try_login_user(&v) {
        return Some(m);
    }
    if let Some(m) = try_get_user_info(&v) {
        return Some(m);
    }
    if let Some(m) = try_create_channel(&v) {
        return Some(m);
    }
    if let Some(m) = try_list_channel_details(&v) {
        return Some(m);
    }
    if let Some(m) = try_join_channel(&v) {
        return Some(m);
    }
    if let Some(m) = try_create_message(&v) {
        return Some(m);
    }
    if let Some(m) = try_list_messages(&v) {
        return Some(m);
    }
    proof {
        assert forall|m: ReqMessage| #[trigger] is_wire_req(s@, m) implies false by {
            match m {
                ReqMessage::RegisterUser(q) => {
                    assert(is_wire_req(v@, ReqMessage::RegisterUser(q)));
                },
                ReqMessage::LoginUser(q) => {
                    assert(is_wire_req(v@, ReqMessage::LoginUser(q)));
                },
                ReqMessage::GetUserInfo(q) => {
                    assert(is_wire_req(v@, ReqMessage::GetUserInfo(q)));
                },
                ReqMessage::CreateChannel(q) => {
                    assert(is_wire_req(v@, ReqMessage::CreateChannel(q)));
                },
                ReqMessage::ListChannelDetails(q) => {
                    assert(is_wire_req(v@, ReqMessage::ListChannelDetails(q)));
                },
                ReqMessage::JoinChannel(q) => {
                    assert(is_wire_req(v@, ReqMessage::JoinChannel(q)));
                },
                ReqMessage::CreateMessage(q) => {
                    assert(is_wire_req(v@, ReqMessage::CreateMessage(q)));
                },
                ReqMessage::ListMessages(q) => {
                    assert(is_wire_req(v@, ReqMessage::ListMessages(q)));
                },
            }
        }
    }
    None
}

/// Writes the canonical wire form of a request frame.
pub fn serialize_req(m: &ReqMessage) -> (r: String)
    ensures
        r@ == spec_ser_req(*m),
{
    match m {
        ReqMessage::RegisterUser(p) => {
            let mut out = String::from_str("{\"type\":\"register_user\",\"data\":");
            out.append("{\"username\":");
            write_json_string(&mut out, p.username.as_str());
            out.append(",\"password\":");
            write_json_string(&mut out, p.password.as_str());
            push_char(&mut out, '}');
            push_char(&mut out, '}');
            proof {
                assert(out@ =~= spec_ser_req(*m));
            }
            out
        },
        ReqMessage::LoginUser(p) => {
            let mut out = String::from_str("{\"type\":\"login_user\",\"data\":");
            out.append("{\"username\":");
            write_json_string(&mut out, p.username.as_str());
            out.append(",\"password\":");
            write_json_string(&mut out, p.password.as_str());
            push_char(&mut out, '}');
            push_char(&mut out, '}');
            proof {
                assert(out@ =~= spec_ser_req(*m));
            }
            out
        },
        ReqMessage::GetUserInfo(p) => {
            let mut out = String::from_str("{\"type\":\"get_user_info\",\"data\":");
            out.append("{\"user_id\":");
            write_json_string(&mut out, p.user_id.as_str());
            push_char(&mut out, '}');
            push_char(&mut out, '}');
            proof {
                assert(out@ =~= spec_ser_req(*m));
            }
            out
        },
        ReqMessage::CreateChannel(p) => {
            let mut out = String::from_str("{\"type\":\"create_channel\",\"data\":");
            out.append("{\"name\":");
            write_json_string(&mut out, p.name.as_str());
            out.append(",\"creator_id\":");
            write_json_string(&mut out, p.creator_id.as_str());
            push_char(&mut out, '}');
            push_char(&mut out, '}');
            proof {
                assert(out@ =~= spec_ser_req(*m));
            }
            out
        },
        ReqMessage::ListChannelDetails(p) => {
            let mut out = String::from_str("{\"type\":\"list_channel_details\",\"data\":");
            out.append("{\"user_id\":");
            write_json_string(&mut out, p.user_id.as_str());
            push_char(&mut out, '}');
            push_char(&mut out, '}');
            proof {
                assert(out@ =~= spec_ser_req(*m));
            }
            out
        },
        ReqMessage::JoinChannel(p) => {
            let mut out = String::from_str("{\"type\":\"join_channel\",\"data\":");
            out.append("{\"channel_id\":");
            write_json_string(&mut out, p.channel_id.as_str());
            out.append(",\"user_id\":");
            write_json_string(&mut out, p.user_id.as_str());
            push_char(&mut out, '}');
            push_char(&mut out, '}');
            proof {
                assert(out@ =~= spec_ser_req(*m));
            }
            out
        },
        ReqMessage::CreateMessage(p) => {
            let mut out = String::from_str("{\"type\":\"create_message\",\"data\":");
            out.append("{\"channel_id\":");
            write_json_string(&mut out, p.channel_id.as_str());
            out.append(",\"user_id\":");
            write_json_string(&mut out, p.user_id.as_str());
            out.append(",\"content\":");
            write_json_string(&mut out, p.content.as_str());
            push_char(&mut out, '}');
            push_char(&mut out, '}');
            proof {
                assert(out@ =~= spec_ser_req(*m));
            }
            out
        },
        ReqMessage::ListMessages(p) => {
            let mut out = String::from_str("{\"type\":\"list_messages\",\"data\":");
            out.append("{\"channel_id\":");
            write_json_string(&mut out, p.channel_id.as_str());
            out.append(",\"limit\":");
            write_usize(&mut out, p.limit);
            out.append(",\"latest_time\":");
            write_i64(&mut out, p.latest_time);
            push_char(&mut out, '}');
            push_char(&mut out, '}');
            proof {
                assert(out@ =~= spec_ser_req(*m));
            }
            out
        },
    }
}

/// Law: serialization round-trips through the parser. Whatever the parser
/// accepts reserializes to the very input, and a canonical frame is never
/// rejected; composing serialize, parse and serialize again changes nothing.
pub fn reserialize_req(s: &str) -> (r: Option<String>)
    ensures
        r matches Some(t) ==> t@ == s@,
        forall|m: ReqMessage| #[trigger] is_wire_req(s@, m) ==> r is Some,
{
    match parse_req(s) {
        None => None,
        Some(m) => Some(serialize_req(&m)),
    }
}

} // verus!

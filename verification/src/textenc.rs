//! Character-level building blocks of the wire format: decimal rendering of
//! unsigned integers, escaped string bodies, and exact-literal parsing.
//!
//! Every parser carries a two-sided contract: whatever it accepts is exactly
//! an encoding of the returned value (soundness), and every encoding placed
//! at the parse position is accepted and returns the encoded value
//! (completeness).

use vstd::prelude::*;

verus! {

// ---------------------------------------------------------------------------
// Decimal digits
// ---------------------------------------------------------------------------

pub open spec fn is_digit(c: char) -> bool {
    c == '0' || c == '1' || c == '2' || c == '3' || c == '4' || c == '5' || c == '6' || c == '7'
        || c == '8' || c == '9'
}

pub open spec fn digit_val(c: char) -> nat {
    if c == '0' {
        0
    } else if c == '1' {
        1
    } else if c == '2' {
        2
    } else if c == '3' {
        3
    } else if c == '4' {
        4
    } else if c == '5' {
        5
    } else if c == '6' {
        6
    } else if c == '7' {
        7
    } else if c == '8' {
        8
    } else {
        9
    }
}

pub open spec fn digit_char(d: nat) -> char {
    if d == 0 {
        '0'
    } else if d == 1 {
        '1'
    } else if d == 2 {
        '2'
    } else if d == 3 {
        '3'
    } else if d == 4 {
        '4'
    } else if d == 5 {
        '5'
    } else if d == 6 {
        '6'
    } else if d == 7 {
        '7'
    } else if d == 8 {
        '8'
    } else {
        '9'
    }
}

/// The canonical decimal rendering of `n`: no sign, no leading zero except
/// for `n == 0` itself.
pub open spec fn dec_nat(n: nat) -> Seq<char>
    decreases n,
{
    if n < 10 {
        seq![digit_char(n)]
    } else {
        dec_nat(n / 10).push(digit_char(n % 10))
    }
}

pub open spec fn all_digits(s: Seq<char>) -> bool {
    forall|i: int| 0 <= i < s.len() ==> is_digit(#[trigger] s[i])
}

/// The numeric value of a digit sequence, most significant digit first.
pub open spec fn seq_dec_val(s: Seq<char>) -> nat
    decreases s.len(),
{
    if s.len() == 0 {
        0
    } else {
        seq_dec_val(s.drop_last()) * 10 + digit_val(s.last())
    }
}

pub proof fn lemma_dec_nat_props(n: nat)
    ensures
        dec_nat(n).len() >= 1,
        all_digits(dec_nat(n)),
        seq_dec_val(dec_nat(n)) == n,
        dec_nat(n)[0] == '0' <==> n == 0,
    decreases n,
{
    if n < 10 {
        let d = seq![digit_char(n)];
        assert(d.drop_last() =~= Seq::<char>::empty());
        assert(d.last() == digit_char(n));
        assert(seq_dec_val(d) == seq_dec_val(Seq::<char>::empty()) * 10 + digit_val(
            digit_char(n),
        ));
        assert(digit_val(digit_char(n)) == n);
    } else {
        lemma_dec_nat_props(n / 10);
        let d = dec_nat(n);
        assert(d.drop_last() =~= dec_nat(n / 10));
        assert(d.last() == digit_char(n % 10));
        assert(seq_dec_val(d) == (n / 10) * 10 + n % 10);
        assert(d[0] == dec_nat(n / 10)[0]);
    }
}

/// A digit sequence with no leading zero (or the single digit `0`) is the
/// canonical rendering of its value.
pub proof fn lemma_dec_canonical(s: Seq<char>)
    requires
        s.len() >= 1,
        all_digits(s),
        s[0] != '0' || s.len() == 1,
    ensures
        dec_nat(seq_dec_val(s)) == s,
    decreases s.len(),
{
    if s.len() == 1 {
        assert(seq_dec_val(s) == seq_dec_val(s.drop_last()) * 10 + digit_val(s.last()));
        assert(s.drop_last().len() == 0);
        assert(seq_dec_val(s) == digit_val(s[0]));
        assert(digit_char(digit_val(s[0])) == s[0]);
        assert(dec_nat(seq_dec_val(s)) =~= s);
    } else {
        let b = s.drop_last();
        assert(b[0] == s[0]);
        assert(all_digits(b));
        lemma_dec_canonical(b);
        lemma_val_nonzero(b);
        let vb = seq_dec_val(b);
        let dl = digit_val(s.last());
        assert(vb >= 1);
        let v = seq_dec_val(s);
        assert(v == vb * 10 + dl);
        assert(v >= 10) by (nonlinear_arith)
            requires
                vb >= 1,
                dl >= 0,
                v == vb * 10 + dl,
        ;
        assert(v / 10 == vb && v % 10 == dl) by (nonlinear_arith)
            requires
                0 <= dl < 10,
                v == vb * 10 + dl,
        ;
        assert(digit_char(digit_val(s.last())) == s.last());
        assert(dec_nat(v) =~= dec_nat(vb).push(digit_char(dl)));
        assert(dec_nat(v) =~= b.push(s.last()));
        assert(b.push(s.last()) =~= s);
    }
}

/// A digit sequence whose first digit is not `0` has a non-zero value.
pub proof fn lemma_val_nonzero(s: Seq<char>)
    requires
        s.len() >= 1,
        all_digits(s),
        s[0] != '0',
    ensures
        seq_dec_val(s) >= 1,
    decreases s.len(),
{
    if s.len() == 1 {
        assert(seq_dec_val(s) == seq_dec_val(s.drop_last()) * 10 + digit_val(s.last()));
        assert(s.last() == s[0]);
        assert(digit_val(s[0]) >= 1);
    } else {
        let b = s.drop_last();
        assert(b[0] == s[0]);
        assert(all_digits(b));
        lemma_val_nonzero(b);
        assert(seq_dec_val(s) == seq_dec_val(b) * 10 + digit_val(s.last()));
        assert(seq_dec_val(b) * 10 >= 10) by (nonlinear_arith)
            requires
                seq_dec_val(b) >= 1,
        ;
    }
}

/// The value of a prefix of a digit sequence never exceeds the value of the
/// whole sequence.
pub proof fn lemma_val_prefix(s: Seq<char>, k: int)
    requires
        all_digits(s),
        0 <= k <= s.len(),
    ensures
        seq_dec_val(s.take(k)) <= seq_dec_val(s),
    decreases s.len() - k,
{
    if k == s.len() {
        assert(s.take(k) =~= s);
    } else {
        lemma_val_prefix(s, k + 1);
        let p = s.take(k);
        let q = s.take(k + 1);
        assert(q.drop_last() =~= p);
        assert(q.last() == s[k]);
        assert(seq_dec_val(q) == seq_dec_val(p) * 10 + digit_val(s[k]));
        assert(seq_dec_val(p) <= seq_dec_val(p) * 10) by (nonlinear_arith)
            requires
                seq_dec_val(p) >= 0,
        ;
    }
}

// ---------------------------------------------------------------------------
// Escaped string bodies
// ---------------------------------------------------------------------------

/// One character of a string body on the wire: quote and backslash are
/// escaped with a backslash, everything else stands for itself.
pub open spec fn esc_char(c: char) -> Seq<char> {
    if c == '"' {
        seq!['\\', '"']
    } else if c == '\\' {
        seq!['\\', '\\']
    } else {
        seq![c]
    }
}

/// The escaped body of a string.
pub open spec fn esc_str(s: Seq<char>) -> Seq<char>
    decreases s.len(),
{
    if s.len() == 0 {
        Seq::<char>::empty()
    } else {
        esc_char(s[0]) + esc_str(s.skip(1))
    }
}

/// A complete string on the wire: quote, escaped body, quote.
pub open spec fn enc_str(s: Seq<char>) -> Seq<char> {
    seq!['"'] + esc_str(s) + seq!['"']
}

pub proof fn lemma_esc_app(a: Seq<char>, b: Seq<char>)
    ensures
        esc_str(a + b) == esc_str(a) + esc_str(b),
    decreases a.len(),
{
    if a.len() == 0 {
        assert(a + b =~= b);
        assert(esc_str(a) + esc_str(b) =~= esc_str(b));
    } else {
        lemma_esc_app(a.skip(1), b);
        assert((a + b).skip(1) =~= a.skip(1) + b);
        assert((a + b)[0] == a[0]);
        assert(esc_char(a[0]) + (esc_str(a.skip(1)) + esc_str(b)) =~= (esc_char(a[0]) + esc_str(
            a.skip(1),
        )) + esc_str(b));
    }
}

pub proof fn lemma_esc_push(a: Seq<char>, c: char)
    ensures
        esc_str(a.push(c)) == esc_str(a) + esc_char(c),
{
    lemma_esc_app(a, seq![c]);
    assert(a.push(c) =~= a + seq![c]);
    assert(esc_str(seq![c]) =~= esc_char(c) + esc_str(seq![c].skip(1)));
    assert(seq![c].skip(1) =~= Seq::<char>::empty());
    assert(esc_char(c) + Seq::<char>::empty() =~= esc_char(c));
}

// ---------------------------------------------------------------------------
// Prefix placement
// ---------------------------------------------------------------------------

/// `p` occupies the positions of `s` starting at `i`.
pub open spec fn prefix_at(s: Seq<char>, i: int, p: Seq<char>) -> bool {
    &&& 0 <= i
    &&& i + p.len() <= s.len()
    &&& s.subrange(i, i + p.len() as int) == p
}

pub proof fn lemma_prefix_split(s: Seq<char>, i: int, a: Seq<char>, b: Seq<char>)
    requires
        prefix_at(s, i, a + b),
    ensures
        prefix_at(s, i, a),
        prefix_at(s, i + a.len(), b),
{
    let n = a.len() as int;
    let m = b.len() as int;
    assert(s.subrange(i, i + n) =~= a) by {
        assert forall|q: int| 0 <= q < n implies s.subrange(i, i + n)[q] == a[q] by {
            assert((a + b)[q] == s.subrange(i, i + n + m)[q]);
        }
    }
    assert(s.subrange(i + n, i + n + m) =~= b) by {
        assert forall|q: int| 0 <= q < m implies s.subrange(i + n, i + n + m)[q] == b[q] by {
            assert((a + b)[n + q] == s.subrange(i, i + n + m)[n + q]);
        }
    }
}

pub proof fn lemma_prefix_join(s: Seq<char>, i: int, a: Seq<char>, b: Seq<char>)
    requires
        prefix_at(s, i, a),
        prefix_at(s, i + a.len(), b),
    ensures
        prefix_at(s, i, a + b),
{
    let n = a.len() as int;
    let m = b.len() as int;
    assert forall|q: int| 0 <= q < n + m implies s.subrange(i, i + n + m)[q] == (a + b)[q] by {
        assert(s.subrange(i, i + n + m)[q] == s[i + q]);
        if q < n {
            assert(a[q] == s.subrange(i, i + n)[q]);
        } else {
            assert(b[q - n] == s.subrange(i + n, i + n + m)[q - n]);
        }
    }
    assert(s.subrange(i, i + n + m) =~= a + b);
}

pub proof fn lemma_prefix_whole(s: Seq<char>, p: Seq<char>)
    requires
        prefix_at(s, 0, p),
        p.len() == s.len(),
    ensures
        p == s,
{
    assert(s.subrange(0, s.len() as int) =~= s);
}

// ---------------------------------------------------------------------------
// Executable helpers on characters
// ---------------------------------------------------------------------------

pub fn digit_of(c: char) -> (r: Option<u64>)
    ensures
        r is Some <==> is_digit(c),
        r matches Some(d) ==> d == digit_val(c) && d < 10,
{
    match c {
        '0' => Some(0),
        '1' => Some(1),
        '2' => Some(2),
        '3' => Some(3),
        '4' => Some(4),
        '5' => Some(5),
        '6' => Some(6),
        '7' => Some(7),
        '8' => Some(8),
        '9' => Some(9),
        _ => None,
    }
}

pub fn char_of_digit(d: u64) -> (r: char)
    requires
        d < 10,
    ensures
        r == digit_char(d as nat),
{
    match d {
        0 => '0',
        1 => '1',
        2 => '2',
        3 => '3',
        4 => '4',
        5 => '5',
        6 => '6',
        7 => '7',
        8 => '8',
        _ => '9',
    }
}

/// Relies on `core::iter::Iterator::collect` to assemble a `String` from its
/// characters in order.
#[verifier::external_body]
pub fn chars_to_string(v: &Vec<char>) -> (r: String)
    ensures
        r@ == v@,
{
    v.iter().collect()
}

/// The characters of a string slice, in order.
pub fn str_chars(s: &str) -> (r: Vec<char>)
    ensures
        r@ == s@,
{
    let n = s.unicode_len();
    let mut out: Vec<char> = Vec::new();
    let mut k: usize = 0;
    while k < n
        invariant
            n == s@.len(),
            k <= n,
            out@ == s@.take(k as int),
        decreases n - k,
    {
        let c = s.get_char(k);
        out.push(c);
        proof {
            assert(s@.take(k + 1 as int) =~= s@.take(k as int).push(s@[k as int]));
        }
        k = k + 1;
    }
    proof {
        assert(s@.take(n as int) =~= s@);
    }
    out
}

// ---------------------------------------------------------------------------
// Executable encoders
// ---------------------------------------------------------------------------

fn push_dec(out: &mut Vec<char>, n: u64)
    ensures
        final(out)@ == old(out)@ + dec_nat(n as nat),
    decreases n,
{
    if n >= 10 {
        push_dec(out, n / 10);
        let c = char_of_digit(n % 10);
        out.push(c);
        proof {
            assert(old(out)@ + dec_nat((n / 10) as nat).push(digit_char((n % 10) as nat)) =~= (old(
                out,
            )@ + dec_nat((n / 10) as nat)).push(digit_char((n % 10) as nat)));
        }
    } else {
        let c = char_of_digit(n);
        out.push(c);
        proof {
            assert(old(out)@ + seq![digit_char(n as nat)] =~= old(out)@.push(
                digit_char(n as nat),
            ));
        }
    }
}

/// The canonical decimal rendering of `n`.
pub fn u64_to_string(n: u64) -> (r: String)
    ensures
        r@ == dec_nat(n as nat),
{
    let mut out: Vec<char> = Vec::new();
    push_dec(&mut out, n);
    proof {
        assert(Seq::<char>::empty() + dec_nat(n as nat) =~= dec_nat(n as nat));
    }
    chars_to_string(&out)
}

/// The wire form of a string value: quoted, with quote and backslash escaped.
pub fn escape_string(s: &str) -> (r: String)
    ensures
        r@ == enc_str(s@),
{
    let n = s.unicode_len();
    let mut out: Vec<char> = Vec::new();
    out.push('"');
    let mut k: usize = 0;
    while k < n
        invariant
            n == s@.len(),
            k <= n,
            out@ == seq!['"'] + esc_str(s@.take(k as int)),
        decreases n - k,
    {
        let c = s.get_char(k);
        proof {
            lemma_esc_push(s@.take(k as int), s@[k as int]);
            assert(s@.take(k + 1 as int) =~= s@.take(k as int).push(s@[k as int]));
        }
        if c == '"' {
            out.push('\\');
            out.push('"');
            proof {
                assert((seq!['"'] + esc_str(s@.take(k as int))).push('\\').push('"') =~= seq!['"']
                    + esc_str(s@.take(k + 1 as int)));
            }
        } else if c == '\\' {
            out.push('\\');
            out.push('\\');
            proof {
                assert((seq!['"'] + esc_str(s@.take(k as int))).push('\\').push('\\') =~= seq!['"']
                    + esc_str(s@.take(k + 1 as int)));
            }
        } else {
            out.push(c);
            proof {
                assert((seq!['"'] + esc_str(s@.take(k as int))).push(s@[k as int]) =~= seq!['"']
                    + esc_str(s@.take(k + 1 as int)));
            }
        }
        k = k + 1;
    }
    out.push('"');
    proof {
        assert(s@.take(n as int) =~= s@);
        assert((seq!['"'] + esc_str(s@)).push('"') =~= enc_str(s@));
    }
    chars_to_string(&out)
}

// ---------------------------------------------------------------------------
// Executable parsers
// ---------------------------------------------------------------------------

/// Accept exactly the characters of `lit` at position `i`.
pub fn parse_lit(v: &Vec<char>, i: usize, lit: &str) -> (r: Option<usize>)
    requires
        i <= v@.len(),
    ensures
        r matches Some(j) ==> j == i + lit@.len() && prefix_at(v@, i as int, lit@),
        prefix_at(v@, i as int, lit@) ==> r is Some,
{
    let n = lit.unicode_len();
    if n > v.len() - i {
        proof {
            assert(!prefix_at(v@, i as int, lit@));
        }
        return None;
    }
    let mut k: usize = 0;
    while k < n
        invariant
            n == lit@.len(),
            i + n <= v@.len(),
            i + n <= usize::MAX,
            k <= n,
            v@.subrange(i as int, i + k as int) =~= lit@.take(k as int),
        decreases n - k,
    {
        let c = v[i + k];
        let l = lit.get_char(k);
        if c != l {
            proof {
                if prefix_at(v@, i as int, lit@) {
                    assert(v@.subrange(i as int, i + n as int)[k as int] == lit@[k as int]);
                    assert(false);
                }
            }
            return None;
        }
        proof {
            assert(v@.subrange(i as int, i + (k + 1) as int) =~= v@.subrange(
                i as int,
                i + k as int,
            ).push(v@[i + k as int]));
            assert(lit@.take((k + 1) as int) =~= lit@.take(k as int).push(lit@[k as int]));
        }
        k = k + 1;
    }
    proof {
        assert(lit@.take(n as int) =~= lit@);
    }
    Some(i + n)
}

/// Accept the canonical decimal rendering of a `u64` at position `i`,
/// stopping at the first non-digit.
pub fn parse_u64(v: &Vec<char>, i: usize) -> (r: Option<(u64, usize)>)
    requires
        i <= v@.len(),
    ensures
        r matches Some((x, j)) ==> i <= j <= v@.len() && prefix_at(
            v@,
            i as int,
            dec_nat(x as nat),
        ) && j == i + dec_nat(x as nat).len(),
        forall|x: u64|
            {
                &&& prefix_at(v@, i as int, #[trigger] dec_nat(x as nat))
                &&& (i + dec_nat(x as nat).len() == v@.len() || !is_digit(
                    v@[i + dec_nat(x as nat).len()],
                ))
            } ==> (r matches Some((y, j)) && y == x && j == i + dec_nat(x as nat).len()),
{
    if i == v.len() {
        proof {
            assert forall|x: u64| !prefix_at(v@, i as int, #[trigger] dec_nat(x as nat)) by {
                lemma_dec_nat_props(x as nat);
            }
        }
        return None;
    }
    let d0 = match digit_of(v[i]) {
        Some(d) => d,
        None => {
            proof {
                assert forall|x: u64| !prefix_at(v@, i as int, #[trigger] dec_nat(x as nat)) by {
                    lemma_dec_nat_props(x as nat);
                    if prefix_at(v@, i as int, dec_nat(x as nat)) {
                        assert(v@[i as int] == dec_nat(x as nat)[0]);
                    }
                }
            }
            return None;
        },
    };
    if d0 == 0 {
        // A leading zero closes the number: the canonical rendering of zero
        // is the single digit.
        proof {
            assert(v@.subrange(i as int, i + 1 as int) =~= seq![v@[i as int]]);
            assert(dec_nat(0) =~= seq!['0']);
            assert(digit_char(digit_val(v@[i as int])) == v@[i as int]);
            assert forall|x: u64|
                {
                    &&& prefix_at(v@, i as int, #[trigger] dec_nat(x as nat))
                    &&& (i + dec_nat(x as nat).len() == v@.len() || !is_digit(
                        v@[i + dec_nat(x as nat).len()],
                    ))
                } implies x == 0 by {
                lemma_dec_nat_props(x as nat);
                if x != 0 {
                    assert(dec_nat(x as nat)[0] == v@[i as int]);
                }
            }
        }
        return Some((0, i + 1));
    }
    let ghost s = v@;
    let mut acc: u64 = d0;
    let mut j: usize = i + 1;
    proof {
        let one = seq![s[i as int]];
        assert(s.subrange(i as int, i + 1 as int) =~= one);
        assert(one.drop_last() =~= Seq::<char>::empty());
        assert(one.last() == s[i as int]);
        assert(seq_dec_val(Seq::<char>::empty()) == 0);
        assert(seq_dec_val(one) == seq_dec_val(one.drop_last()) * 10 + digit_val(one.last()));
        assert(seq_dec_val(one) == digit_val(s[i as int]));
        assert(s[i as int] != '0') by {
            if s[i as int] == '0' {
                assert(digit_val(s[i as int]) == 0);
            }
        }
    }
    loop
        invariant
            i < j <= s.len(),
            s == v@,
            all_digits(s.subrange(i as int, j as int)),
            s[i as int] != '0',
            acc as nat == seq_dec_val(s.subrange(i as int, j as int)),
        ensures
            i < j <= s.len(),
            all_digits(s.subrange(i as int, j as int)),
            s[i as int] != '0',
            acc as nat == seq_dec_val(s.subrange(i as int, j as int)),
            j == s.len() || !is_digit(s[j as int]),
        decreases s.len() - j,
    {
        proof {
            assert(s.subrange(i as int, j as int)[0] == s[i as int]);
        }
        if j == v.len() {
            break ;
        }
        let d = match digit_of(v[j]) {
            Some(d) => d,
            None => {
                break ;
            },
        };
        // The next digit would overflow a `u64`: no canonical rendering of a
        // `u64` can extend to this digit, so the guarded completeness claim
        // is vacuous and the number is rejected.
        if acc > (u64::MAX - d) / 10 {
            proof {
                let consumed = s.subrange(i as int, j as int).push(s[j as int]);
                assert(consumed =~= s.subrange(i as int, j + 1 as int));
                assert(all_digits(consumed));
                assert(consumed.drop_last() =~= s.subrange(i as int, j as int));
                assert(seq_dec_val(consumed) == (acc as nat) * 10 + (d as nat));
                assert(seq_dec_val(consumed) > u64::MAX) by (nonlinear_arith)
                    requires
                        acc > (u64::MAX - d) / 10,
                        d < 10,
                        seq_dec_val(consumed) == (acc as nat) * 10 + (d as nat),
                ;
                assert forall|x: u64|
                    !({
                        &&& prefix_at(s, i as int, #[trigger] dec_nat(x as nat))
                        &&& (i + dec_nat(x as nat).len() == s.len() || !is_digit(
                            s[i + dec_nat(x as nat).len()],
                        ))
                    }) by {
                    if prefix_at(s, i as int, dec_nat(x as nat)) && (i + dec_nat(x as nat).len()
                        == s.len() || !is_digit(s[i + dec_nat(x as nat).len()])) {
                        lemma_dec_nat_props(x as nat);
                        let e = dec_nat(x as nat);
                        // the scanned digits lie inside the rendering of x
                        assert(j + 1 - i <= e.len()) by {
                            if j + 1 - i > e.len() {
                                assert(i + e.len() <= j);
                                assert(i + e.len() < s.len());
                                assert(s[i + e.len()] == s.subrange(i as int, j + 1 as int)[
                                    e.len() as int]);
                                assert(is_digit(s[i + e.len()]));
                            }
                        }
                        assert(consumed =~= e.take(j + 1 - i as int)) by {
                            assert forall|q: int| 0 <= q < j + 1 - i implies consumed[q] == e[q]
                            by {
                                assert(e[q] == s.subrange(i as int, i + e.len() as int)[q]);
                            }
                        }
                        lemma_val_prefix(e, j + 1 - i as int);
                        assert(seq_dec_val(consumed) <= x as nat);
                        assert(false);
                    }
                }
            }
            return None;
        }
        acc = acc * 10 + d;
        proof {
            assert(s.subrange(i as int, j + 1 as int) =~= s.subrange(i as int, j as int).push(
                s[j as int],
            ));
            assert(s.subrange(i as int, j + 1 as int).drop_last() =~= s.subrange(
                i as int,
                j as int,
            ));
        }
        j = j + 1;
    }
    // Scanned a maximal digit run with no leading zero: it is canonical.
    proof {
        let consumed = s.subrange(i as int, j as int);
        assert(consumed[0] == s[i as int]);
        lemma_dec_canonical(consumed);
        assert(prefix_at(s, i as int, dec_nat(acc as nat)));
        assert forall|x: u64|
            {
                &&& prefix_at(s, i as int, #[trigger] dec_nat(x as nat))
                &&& (i + dec_nat(x as nat).len() == s.len() || !is_digit(
                    s[i + dec_nat(x as nat).len()],
                ))
            } implies x == acc && i + dec_nat(x as nat).len() == j by {
            lemma_dec_nat_props(x as nat);
            let e = dec_nat(x as nat);
            // maximal runs coincide: j - i == e.len()
            assert(j - i <= e.len()) by {
                if j - i > e.len() {
                    assert(i + e.len() < j <= s.len());
                    assert(s[i + e.len()] == consumed[e.len() as int]);
                    assert(is_digit(s[i + e.len()]));
                }
            }
            assert(j - i >= e.len()) by {
                if j - i < e.len() {
                    // position j is a digit inside e, but the loop stopped there
                    assert(s[j as int] == s.subrange(i as int, i + e.len() as int)[j - i]);
                    assert(is_digit(s[j as int]));
                    assert(j < s.len());
                    assert(!is_digit(s[j as int]));
                }
            }
            assert(consumed =~= e) by {
                assert forall|q: int| 0 <= q < j - i implies consumed[q] == e[q] by {
                    assert(e[q] == s.subrange(i as int, i + e.len() as int)[q]);
                }
            }
            assert(seq_dec_val(e) == x as nat);
        }
    }
    Some((acc, j))
}

/// Accept the escaped body of a string followed by the closing quote,
/// starting just after the opening quote.
#[verifier::rlimit(60)]
fn parse_str_tail(v: &Vec<char>, i: usize) -> (r: Option<(Vec<char>, usize)>)
    requires
        i <= v@.len(),
    ensures
        r matches Some((x, j)) ==> i <= j <= v@.len() && prefix_at(
            v@,
            i as int,
            esc_str(x@) + seq!['"'],
        ) && j == i + esc_str(x@).len() + 1,
        forall|x: Seq<char>|
            prefix_at(v@, i as int, #[trigger] esc_str(x) + seq!['"']) ==> (r matches Some(
                (y, j),
            ) && y@ == x && j == i + esc_str(x).len() + 1),
    decreases v@.len() - i,
{
    if i == v.len() {
        proof {
            assert forall|x: Seq<char>|
                !prefix_at(v@, i as int, #[trigger] esc_str(x) + seq!['"']) by {
                assert((esc_str(x) + seq!['"']).len() >= 1);
            }
        }
        return None;
    }
    let c = v[i];
    if c == '"' {
        // Only the empty body places a quote first: a non-empty body starts
        // with its first escaped character, never a bare quote.
        proof {
            assert(v@.subrange(i as int, i + 1 as int) =~= seq![v@[i as int]]);
            assert(esc_str(Seq::<char>::empty()) + seq!['"'] =~= seq!['"']);
            assert forall|x: Seq<char>|
                prefix_at(v@, i as int, #[trigger] esc_str(x) + seq!['"']) implies x
                =~= Seq::<char>::empty() by {
                if x.len() > 0 {
                    assert((esc_str(x) + seq!['"'])[0] == esc_char(x[0])[0]);
                    assert(v@[i as int] == esc_char(x[0])[0]);
                }
            }
        }
        return Some((Vec::new(), i + 1));
    }
    if c == '\\' {
        if i + 1 == v.len() {
            proof {
                assert forall|x: Seq<char>|
                    !prefix_at(v@, i as int, #[trigger] esc_str(x) + seq!['"']) by {
                    if prefix_at(v@, i as int, esc_str(x) + seq!['"']) {
                        if x.len() == 0 {
                            assert(v@[i as int] == (esc_str(x) + seq!['"'])[0]);
                        } else {
                            assert((esc_str(x) + seq!['"'])[0] == esc_char(x[0])[0]);
                            assert(esc_char(x[0]).len() == 2);
                            assert((esc_str(x) + seq!['"']).len() >= 3);
                        }
                    }
                }
            }
            return None;
        }
        let c2 = v[i + 1];
        if c2 == '"' || c2 == '\\' {
            match parse_str_tail(v, i + 2) {
                Some((tail, j)) => {
                    let mut out: Vec<char> = Vec::new();
                    out.push(c2);
                    let mut t: usize = 0;
                    while t < tail.len()
                        invariant
                            t <= tail@.len(),
                            out@ == seq![c2].add(tail@.take(t as int)),
                        decreases tail@.len() - t,
                    {
                        out.push(tail[t]);
                        proof {
                            assert(tail@.take(t + 1 as int) =~= tail@.take(t as int).push(
                                tail@[t as int],
                            ));
                            assert(seq![c2].add(tail@.take(t as int)).push(tail@[t as int])
                                =~= seq![c2].add(tail@.take(t + 1 as int)));
                        }
                        t = t + 1;
                    }
                    proof {
                        assert(tail@.take(tail@.len() as int) =~= tail@);
                        let full = seq![c2] + tail@;
                        assert(out@ == full);
                        assert(esc_str(full) =~= esc_char(c2) + esc_str(tail@)) by {
                            assert(full[0] == c2);
                            assert(full.skip(1) =~= tail@);
                        }
                        assert(esc_char(c2) =~= seq!['\\', c2]);
                        assert(v@.subrange(i as int, i + 2 as int) =~= seq![
                            v@[i as int],
                            v@[i + 1 as int],
                        ]);
                        assert(prefix_at(v@, i as int, seq!['\\', c2]));
                        lemma_prefix_join(v@, i as int, esc_char(c2), esc_str(tail@) + seq!['"']);
                        assert(esc_char(c2) + (esc_str(tail@) + seq!['"']) =~= esc_str(full)
                            + seq!['"']);
                        // completeness: any body placed here starts with the same unit
                        assert forall|x: Seq<char>|
                            prefix_at(v@, i as int, #[trigger] esc_str(x) + seq!['"']) implies (
                        out@ == x && j == i + esc_str(x).len() + 1) by {
                            if x.len() == 0 {
                                assert(v@[i as int] == (esc_str(x) + seq!['"'])[0]);
                                assert(false);
                            } else {
                                let u = esc_char(x[0]);
                                assert(esc_str(x) == u + esc_str(x.skip(1)));
                                if u.len() == 1 {
                                    assert(u[0] == x[0]);
                                    assert(x[0] != '"' && x[0] != '\\');
                                    assert(v@[i as int] == (esc_str(x) + seq!['"'])[0]);
                                    assert((esc_str(x) + seq!['"'])[0] == x[0]);
                                    assert(false);
                                } else {
                                    assert(u =~= seq!['\\', x[0]]);
                                    assert((esc_str(x) + seq!['"'])[1] == x[0]);
                                    assert(v@[i + 1 as int] == x[0]);
                                    assert(x[0] == c2);
                                    assert(esc_str(x) + seq!['"'] =~= u + (esc_str(x.skip(1))
                                        + seq!['"']));
                                    lemma_prefix_split(
                                        v@,
                                        i as int,
                                        u,
                                        esc_str(x.skip(1)) + seq!['"'],
                                    );
                                    assert(prefix_at(
                                        v@,
                                        i + 2,
                                        esc_str(x.skip(1)) + seq!['"'],
                                    ));
                                    assert(tail@ == x.skip(1));
                                    assert(seq![c2] + tail@ =~= x);
                                }
                            }
                        }
                    }
                    Some((out, j))
                },
                None => {
                    proof {
                        assert forall|x: Seq<char>|
                            !prefix_at(v@, i as int, #[trigger] esc_str(x) + seq!['"']) by {
                            if prefix_at(v@, i as int, esc_str(x) + seq!['"']) {
                                if x.len() == 0 {
                                    assert(v@[i as int] == (esc_str(x) + seq!['"'])[0]);
                                } else {
                                    let u = esc_char(x[0]);
                                    assert(esc_str(x) == u + esc_str(x.skip(1)));
                                    if u.len() == 1 {
                                        assert(u[0] == x[0]);
                                        assert(v@[i as int] == (esc_str(x) + seq!['"'])[0]);
                                        assert((esc_str(x) + seq!['"'])[0] == x[0]);
                                    } else {
                                        assert(esc_str(x) + seq!['"'] =~= u + (esc_str(x.skip(1))
                                            + seq!['"']));
                                        lemma_prefix_split(
                                            v@,
                                            i as int,
                                            u,
                                            esc_str(x.skip(1)) + seq!['"'],
                                        );
                                    }
                                }
                            }
                        }
                    }
                    None
                },
            }
        } else {
            // A backslash must be followed by a quote or a backslash.
            proof {
                assert forall|x: Seq<char>|
                    !prefix_at(v@, i as int, #[trigger] esc_str(x) + seq!['"']) by {
                    if prefix_at(v@, i as int, esc_str(x) + seq!['"']) {
                        if x.len() == 0 {
                            assert(v@[i as int] == (esc_str(x) + seq!['"'])[0]);
                        } else {
                            let u = esc_char(x[0]);
                            assert(esc_str(x) == u + esc_str(x.skip(1)));
                            if u.len() == 1 {
                                assert(u[0] == x[0]);
                                assert(v@[i as int] == (esc_str(x) + seq!['"'])[0]);
                                assert((esc_str(x) + seq!['"'])[0] == x[0]);
                            } else {
                                assert(u =~= seq!['\\', x[0]]);
                                assert((esc_str(x) + seq!['"'])[1] == x[0]);
                                assert(v@[i + 1 as int] == x[0]);
                                assert(x[0] == '"' || x[0] == '\\');
                            }
                        }
                    }
                }
            }
            None
        }
    } else {
        // An unescaped ordinary character stands for itself.
        match parse_str_tail(v, i + 1) {
            Some((tail, j)) => {
                let mut out: Vec<char> = Vec::new();
                out.push(c);
                let mut t: usize = 0;
                while t < tail.len()
                    invariant
                        t <= tail@.len(),
                        out@ == seq![c].add(tail@.take(t as int)),
                    decreases tail@.len() - t,
                {
                    out.push(tail[t]);
                    proof {
                        assert(tail@.take(t + 1 as int) =~= tail@.take(t as int).push(
                            tail@[t as int],
                        ));
                        assert(seq![c].add(tail@.take(t as int)).push(tail@[t as int])
                            =~= seq![c].add(tail@.take(t + 1 as int)));
                    }
                    t = t + 1;
                }
                proof {
                    assert(tail@.take(tail@.len() as int) =~= tail@);
                    let full = seq![c] + tail@;
                    assert(out@ == full);
                    assert(esc_str(full) =~= esc_char(c) + esc_str(tail@)) by {
                        assert(full[0] == c);
                        assert(full.skip(1) =~= tail@);
                    }
                    assert(esc_char(c) =~= seq![c]);
                    assert(v@.subrange(i as int, i + 1 as int) =~= seq![v@[i as int]]);
                    assert(prefix_at(v@, i as int, seq![c]));
                    lemma_prefix_join(v@, i as int, esc_char(c), esc_str(tail@) + seq!['"']);
                    assert(esc_char(c) + (esc_str(tail@) + seq!['"']) =~= esc_str(full)
                        + seq!['"']);
                    assert forall|x: Seq<char>|
                        prefix_at(v@, i as int, #[trigger] esc_str(x) + seq!['"']) implies (out@
                        == x && j == i + esc_str(x).len() + 1) by {
                        if x.len() == 0 {
                            assert(v@[i as int] == (esc_str(x) + seq!['"'])[0]);
                            assert(false);
                        } else {
                            let u = esc_char(x[0]);
                            assert(esc_str(x) == u + esc_str(x.skip(1)));
                            if u.len() == 2 {
                                assert(u =~= seq!['\\', x[0]]);
                                assert(v@[i as int] == (esc_str(x) + seq!['"'])[0]);
                                assert((esc_str(x) + seq!['"'])[0] == '\\');
                                assert(false);
                            } else {
                                assert(u[0] == x[0]);
                                assert(v@[i as int] == (esc_str(x) + seq!['"'])[0]);
                                assert((esc_str(x) + seq!['"'])[0] == x[0]);
                                assert(x[0] == c);
                                assert(esc_str(x) + seq!['"'] =~= u + (esc_str(x.skip(1))
                                    + seq!['"']));
                                lemma_prefix_split(
                                    v@,
                                    i as int,
                                    u,
                                    esc_str(x.skip(1)) + seq!['"'],
                                );
                                assert(prefix_at(v@, i + 1, esc_str(x.skip(1)) + seq!['"']));
                                assert(tail@ == x.skip(1));
                                assert(seq![c] + tail@ =~= x);
                            }
                        }
                    }
                }
                Some((out, j))
            },
            None => {
                proof {
                    assert forall|x: Seq<char>|
                        !prefix_at(v@, i as int, #[trigger] esc_str(x) + seq!['"']) by {
                        if prefix_at(v@, i as int, esc_str(x) + seq!['"']) {
                            if x.len() == 0 {
                                assert(v@[i as int] == (esc_str(x) + seq!['"'])[0]);
                            } else {
                                let u = esc_char(x[0]);
                                assert(esc_str(x) == u + esc_str(x.skip(1)));
                                if u.len() == 2 {
                                    assert(u =~= seq!['\\', x[0]]);
                                    assert(v@[i as int] == (esc_str(x) + seq!['"'])[0]);
                                    assert((esc_str(x) + seq!['"'])[0] == '\\');
                                } else {
                                    assert(u[0] == x[0]);
                                    assert(esc_str(x) + seq!['"'] =~= u + (esc_str(x.skip(1))
                                        + seq!['"']));
                                    lemma_prefix_split(
                                        v@,
                                        i as int,
                                        u,
                                        esc_str(x.skip(1)) + seq!['"'],
                                    );
                                }
                            }
                        }
                    }
                }
                None
            },
        }
    }
}

/// Accept a complete string value — quote, escaped body, quote — at
/// position `i`.
pub fn parse_string(v: &Vec<char>, i: usize) -> (r: Option<(String, usize)>)
    requires
        i <= v@.len(),
    ensures
        r matches Some((s, j)) ==> i <= j <= v@.len() && prefix_at(v@, i as int, enc_str(s@)) && j
            == i + enc_str(s@).len(),
        forall|x: Seq<char>|
            prefix_at(v@, i as int, #[trigger] enc_str(x)) ==> (r matches Some((s, j)) && s@ == x
                && j == i + enc_str(x).len()),
{
    if i == v.len() {
        proof {
            assert forall|x: Seq<char>| !prefix_at(v@, i as int, #[trigger] enc_str(x)) by {
                assert(enc_str(x).len() >= 2);
            }
        }
        return None;
    }
    let c = v[i];
    if c != '"' {
        proof {
            assert forall|x: Seq<char>| !prefix_at(v@, i as int, #[trigger] enc_str(x)) by {
                if prefix_at(v@, i as int, enc_str(x)) {
                    assert(v@[i as int] == enc_str(x)[0]);
                    assert(enc_str(x)[0] == '"');
                }
            }
        }
        return None;
    }
    match parse_str_tail(v, i + 1) {
        Some((body, j)) => {
            proof {
                assert(v@.subrange(i as int, i + 1 as int) =~= seq![v@[i as int]]);
                assert(prefix_at(v@, i as int, seq!['"']));
                lemma_prefix_join(v@, i as int, seq!['"'], esc_str(body@) + seq!['"']);
                assert(seq!['"'] + (esc_str(body@) + seq!['"']) =~= enc_str(body@));
                assert forall|x: Seq<char>|
                    prefix_at(v@, i as int, #[trigger] enc_str(x)) implies (body@ == x && j == i
                    + enc_str(x).len()) by {
                    assert(enc_str(x) =~= seq!['"'] + (esc_str(x) + seq!['"']));
                    lemma_prefix_split(v@, i as int, seq!['"'], esc_str(x) + seq!['"']);
                    assert(prefix_at(v@, i + 1, esc_str(x) + seq!['"']));
                }
            }
            let s = chars_to_string(&body);
            Some((s, j))
        },
        None => {
            proof {
                assert forall|x: Seq<char>| !prefix_at(v@, i as int, #[trigger] enc_str(x)) by {
                    if prefix_at(v@, i as int, enc_str(x)) {
                        assert(enc_str(x) =~= seq!['"'] + (esc_str(x) + seq!['"']));
                        lemma_prefix_split(v@, i as int, seq!['"'], esc_str(x) + seq!['"']);
                    }
                }
            }
            None
        },
    }
}

} // verus!

//! Decimal rendering and reading of unsigned numbers, used for JSON numbers,
//! `Content-Length` values and the numeric part of callback and token ids.

use vstd::prelude::*;

verus! {

/// True when `b` is an ASCII decimal digit.
pub open spec fn is_digit(b: u8) -> bool {
    48 <= b <= 57
}

/// The decimal digits of `n`, most significant first, without sign or padding.
pub open spec fn dec_digits(n: nat) -> Seq<u8>
    decreases n,
{
    if n < 10 {
        seq![(48 + n) as u8]
    } else {
        dec_digits(n / 10).push((48 + n % 10) as u8)
    }
}

/// Reads digits of `s` from position `i` with accumulator `acc`;
/// returns the accumulated value and the first position that holds no digit.
pub open spec fn read_digits(s: Seq<u8>, i: int, acc: nat) -> (nat, int)
    decreases s.len() - i,
{
    if 0 <= i < s.len() && is_digit(s[i]) {
        read_digits(s, i + 1, acc * 10 + (s[i] - 48) as nat)
    } else {
        (acc, i)
    }
}

/// Every byte of a decimal rendering is a digit, and there is at least one.
pub proof fn lemma_dec_digits_shape(n: nat)
    ensures
        dec_digits(n).len() >= 1,
        forall|i: int| 0 <= i < dec_digits(n).len() ==> is_digit(#[trigger] dec_digits(n)[i]),
        n >= 10 ==> dec_digits(n).len() >= 2,
    decreases n,
{
    if n >= 10 {
        lemma_dec_digits_shape(n / 10);
    }
}

/// Reading digits never returns a smaller value than the accumulator it
/// started with, and never moves the position backwards or past the end.
pub proof fn lemma_read_digits_bounds(s: Seq<u8>, i: int, acc: nat)
    requires
        0 <= i <= s.len(),
    ensures
        read_digits(s, i, acc).0 >= acc,
        i <= read_digits(s, i, acc).1 <= s.len(),
    decreases s.len() - i,
{
    if i < s.len() && is_digit(s[i]) {
        lemma_read_digits_bounds(s, i + 1, acc * 10 + (s[i] - 48) as nat);
    }
}

/// Appending one digit to a fully-digit sequence extends the value read by
/// one decimal place.
proof fn lemma_read_digits_push(s: Seq<u8>, d: u8, i: int, acc: nat)
    requires
        0 <= i <= s.len(),
        is_digit(d),
        read_digits(s, i, acc).1 == s.len(),
    ensures
        read_digits(s.push(d), i, acc).0 == read_digits(s, i, acc).0 * 10 + (d - 48) as nat,
        read_digits(s.push(d), i, acc).1 == s.len() + 1,
    decreases s.len() - i,
{
    let t = s.push(d);
    if i < s.len() && is_digit(s[i]) {
        assert(t[i] == s[i]);
        lemma_read_digits_push(s, d, i + 1, acc * 10 + (s[i] - 48) as nat);
    } else {
        assert(i == s.len());
        assert(t[i] == d);
        assert(read_digits(t, i + 1, acc * 10 + (d - 48) as nat) == (
            acc * 10 + (d - 48) as nat,
            i + 1,
        ));
    }
}

/// Reading back the decimal rendering of `n` yields `n` and consumes it all.
pub proof fn lemma_dec_digits_read_back(n: nat)
    ensures
        read_digits(dec_digits(n), 0, 0) == (n, dec_digits(n).len() as int),
    decreases n,
{
    if n < 10 {
        let s = dec_digits(n);
        assert(s[0] == (48 + n) as u8);
        assert(read_digits(s, 1, n) == (n, 1int));
        assert(read_digits(s, 0, 0) == read_digits(s, 1, (s[0] - 48) as nat));
    } else {
        lemma_dec_digits_read_back(n / 10);
        lemma_dec_digits_shape(n / 10);
        lemma_read_digits_push(dec_digits(n / 10), (48 + n % 10) as u8, 0, 0);
    }
}

/// Distinct numbers have distinct decimal renderings.
pub proof fn lemma_dec_digits_injective(a: nat, b: nat)
    requires
        dec_digits(a) == dec_digits(b),
    ensures
        a == b,
{
    lemma_dec_digits_read_back(a);
    lemma_dec_digits_read_back(b);
}

/// Renders `n` in decimal, matching `dec_digits`.
pub fn render_u64(n: u64) -> (v: Vec<u8>)
    ensures
        v@ == dec_digits(n as nat),
    decreases n,
{
    if n < 10 {
        let mut v: Vec<u8> = Vec::new();
        v.push(48 + n as u8);
        assert(v@ =~= dec_digits(n as nat));
        v
    } else {
        let mut v = render_u64(n / 10);
        v.push(48 + (n % 10) as u8);
        assert(v@ =~= dec_digits(n as nat));
        v
    }
}

/// Reads the digits of `s` from `from` to the end as a `u64`.
/// Returns `None` when `from` is at the end, when a non-digit byte occurs
/// before the end, or when the value does not fit in a `u64`.
pub fn parse_u64_to_end(s: &Vec<u8>, from: usize) -> (r: Option<u64>)
    requires
        from <= s@.len(),
    ensures
        match r {
            Some(n) => {
                &&& from < s@.len()
                &&& read_digits(s@, from as int, 0) == (n as nat, s@.len() as int)
            },
            None => {
                ||| from >= s@.len()
                ||| read_digits(s@, from as int, 0).1 != s@.len()
                ||| read_digits(s@, from as int, 0).0 > u64::MAX
            },
        },
{
    if from >= s.len() {
        return None;
    }
    let mut i: usize = from;
    let mut acc: u64 = 0;
    loop
        invariant
            from <= i <= s@.len(),
            from < s@.len(),
            read_digits(s@, i as int, acc as nat) == read_digits(s@, from as int, 0),
        decreases s@.len() - i,
    {
        if i >= s.len() {
            assert(read_digits(s@, i as int, acc as nat) == (acc as nat, i as int));
            return Some(acc);
        }
        let b = s[i];
        if b < 48 || b > 57 {
            // a non-digit before the end: the read stops short of the end
            assert(read_digits(s@, i as int, acc as nat) == (acc as nat, i as int));
            return None;
        }
        let d = (b - 48) as u64;
        proof {
            assert(read_digits(s@, i as int, acc as nat) == read_digits(
                s@,
                i as int + 1,
                acc as nat * 10 + (s@[i as int] - 48) as nat,
            ));
            lemma_read_digits_bounds(s@, i as int + 1, acc as nat * 10 + (b - 48) as nat);
        }
        if acc > (u64::MAX - d) / 10 {
            // the full value is at least acc * 10 + d, which exceeds u64::MAX
            assert(acc as nat * 10 + (d as nat) > u64::MAX) by {
                assert(acc as nat >= (u64::MAX - d) as nat / 10 + 1);
                assert(((u64::MAX - d) as nat / 10 + 1) * 10 >= (u64::MAX - d) as nat + 1)
                    by (nonlinear_arith);
                assert(acc as nat * 10 >= ((u64::MAX - d) as nat / 10 + 1) * 10)
                    by (nonlinear_arith)
                    requires
                        acc as nat >= (u64::MAX - d) as nat / 10 + 1,
                ;
            }
            return None;
        }
        acc = acc * 10 + d;
        i = i + 1;
    }
}


/// Where a digit scan stops does not depend on the accumulator.
pub proof fn lemma_read_digits_end_indep(s: Seq<u8>, i: int, a: nat, b: nat)
    requires
        0 <= i <= s.len(),
    ensures
        read_digits(s, i, a).1 == read_digits(s, i, b).1,
    decreases s.len() - i,
{
    if i < s.len() && is_digit(s[i]) {
        lemma_read_digits_end_indep(
            s,
            i + 1,
            a * 10 + (s[i] - 48) as nat,
            b * 10 + (s[i] - 48) as nat,
        );
    }
}

/// Scans the digits at `from`: yields where they end, and their value when
/// it fits in a `u64`.
pub fn scan_u64(s: &Vec<u8>, from: usize) -> (r: (Option<u64>, usize))
    requires
        from <= s@.len(),
    ensures
        r.1 as int == read_digits(s@, from as int, 0).1,
        from <= r.1 <= s@.len(),
        match r.0 {
            Some(n) => read_digits(s@, from as int, 0).0 == n as nat,
            None => read_digits(s@, from as int, 0).0 > u64::MAX,
        },
{
    let mut j: usize = from;
    let mut acc: u64 = 0;
    let mut over = false;
    loop
        invariant
            from <= j <= s@.len(),
            !over ==> read_digits(s@, j as int, acc as nat) == read_digits(s@, from as int, 0),
            over ==> read_digits(s@, from as int, 0).0 > u64::MAX,
            over ==> read_digits(s@, from as int, 0).1 == read_digits(s@, j as int, 0).1,
        decreases s@.len() - j,
    {
        if j >= s.len() {
            assert(read_digits(s@, j as int, acc as nat) == (acc as nat, j as int));
            assert(read_digits(s@, j as int, 0) == (0nat, j as int));
            if over {
                return (None, j);
            }
            return (Some(acc), j);
        }
        let b = s[j];
        if b < 48 || b > 57 {
            assert(read_digits(s@, j as int, acc as nat) == (acc as nat, j as int));
            assert(read_digits(s@, j as int, 0) == (0nat, j as int));
            if over {
                return (None, j);
            }
            return (Some(acc), j);
        }
        let d = (b - 48) as u64;
        proof {
            assert(read_digits(s@, j as int, acc as nat) == read_digits(
                s@,
                j as int + 1,
                acc as nat * 10 + (s@[j as int] - 48) as nat,
            ));
            assert(read_digits(s@, j as int, 0) == read_digits(
                s@,
                j as int + 1,
                (s@[j as int] - 48) as nat,
            ));
            lemma_read_digits_end_indep(
                s@,
                j as int + 1,
                (s@[j as int] - 48) as nat,
                0,
            );
            lemma_read_digits_bounds(s@, j as int + 1, acc as nat * 10 + (b - 48) as nat);
        }
        if !over {
            if acc > (u64::MAX - d) / 10 {
                assert(acc as nat * 10 + (d as nat) > u64::MAX) by {
                    assert(acc as nat >= (u64::MAX - d) as nat / 10 + 1);
                    assert(((u64::MAX - d) as nat / 10 + 1) * 10 >= (u64::MAX - d) as nat + 1)
                        by (nonlinear_arith);
                    assert(acc as nat * 10 >= ((u64::MAX - d) as nat / 10 + 1) * 10)
                        by (nonlinear_arith)
                        requires
                            acc as nat >= (u64::MAX - d) as nat / 10 + 1,
                    ;
                }
                over = true;
            } else {
                acc = acc * 10 + d;
            }
        }
        proof {
            if over {
                lemma_read_digits_end_indep(s@, j as int + 1, 0, (s@[j as int] - 48) as nat);
                lemma_read_digits_end_indep(
                    s@,
                    j as int + 1,
                    acc as nat * 10 + (s@[j as int] - 48) as nat,
                    0,
                );
            }
        }
        j = j + 1;
    }
}



/// A digit read that stops inside its input is unchanged by appending a
/// tail.
pub proof fn lemma_read_digits_prefix(s: Seq<u8>, tail: Seq<u8>, i: int, acc: nat)
    requires
        0 <= i <= s.len(),
        read_digits(s, i, acc).1 < s.len(),
    ensures
        read_digits(s + tail, i, acc) == read_digits(s, i, acc),
    decreases s.len() - i,
{
    let t = s + tail;
    if i < s.len() && is_digit(s[i]) {
        assert(t[i] == s[i]);
        lemma_read_digits_prefix(s, tail, i + 1, acc * 10 + (s[i] - 48) as nat);
    } else {
        assert(t[i] == s[i]);
    }
}

/// Reading digits at an offset agrees with reading the suffix from zero.
pub proof fn lemma_read_digits_offset(s: Seq<u8>, p: int, i: int, acc: nat)
    requires
        0 <= p <= i <= s.len(),
    ensures
        read_digits(s, i, acc).0 == read_digits(s.skip(p), i - p, acc).0,
        read_digits(s, i, acc).1 == read_digits(s.skip(p), i - p, acc).1 + p,
    decreases s.len() - i,
{
    assert(s.skip(p).len() == s.len() - p);
    if i < s.len() {
        assert(s.skip(p)[i - p] == s[i]);
        if is_digit(s[i]) {
            lemma_read_digits_offset(s, p, i + 1, acc * 10 + (s[i] - 48) as nat);
        }
    }
}

/// A digit read that consumes its whole input is unchanged by appending a
/// tail that starts with no digit.
pub proof fn lemma_read_digits_tail(s: Seq<u8>, tail: Seq<u8>, i: int, acc: nat)
    requires
        0 <= i <= s.len(),
        read_digits(s, i, acc).1 == s.len(),
        tail.len() == 0 || !is_digit(tail[0]),
    ensures
        read_digits(s + tail, i, acc) == read_digits(s, i, acc),
    decreases s.len() - i,
{
    let t = s + tail;
    if i < s.len() && is_digit(s[i]) {
        assert(t[i] == s[i]);
        lemma_read_digits_tail(s, tail, i + 1, acc * 10 + (s[i] - 48) as nat);
    } else {
        assert(i == s.len());
        if i < t.len() {
            assert(t[i] == tail[0]);
        }
    }
}

} // verus!

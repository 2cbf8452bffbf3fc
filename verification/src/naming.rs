//! Collision-proof stored-file naming: the upload timestamp in milliseconds
//! is spliced into the file name just before its last `.` (or appended when
//! there is no extension), and the path prefix is joined in front. Distinct
//! timestamps give distinct stored paths by construction; that is the only
//! collision-avoidance mechanism.

use vstd::prelude::*;

verus! {

use crate::bytes::{last_index_of, lemma_last_index_of, rfind_byte, copy_range, append_bytes};

/// Decimal ASCII digits of `n`, most significant first, without leading
/// zeros (`0` is written as the single digit `0`).
pub open spec fn dec_digits(n: nat) -> Seq<u8>
    decreases n,
{
    if n < 10 {
        seq![(48 + n) as u8]
    } else {
        dec_digits(n / 10).push((48 + n % 10) as u8)
    }
}

pub proof fn lemma_dec_digits_len(n: nat)
    ensures
        dec_digits(n).len() >= 1,
    decreases n,
{
    if n >= 10 {
        lemma_dec_digits_len(n / 10);
    }
}

/// Distinct numbers have distinct decimal representations.
pub proof fn lemma_dec_digits_injective(m: nat, n: nat)
    requires
        m != n,
    ensures
        dec_digits(m) != dec_digits(n),
    decreases m + n,
{
    if dec_digits(m) == dec_digits(n) {
        if m < 10 && n < 10 {
            assert(dec_digits(m)[0] == (48 + m) as u8);
            assert(dec_digits(n)[0] == (48 + n) as u8);
        } else if m < 10 && n >= 10 {
            lemma_dec_digits_len(n / 10);
            assert(dec_digits(m).len() == 1);
            assert(dec_digits(n).len() >= 2);
        } else if m >= 10 && n < 10 {
            lemma_dec_digits_len(m / 10);
            assert(dec_digits(m).len() >= 2);
            assert(dec_digits(n).len() == 1);
        } else {
            assert(dec_digits(m).last() == (48 + m % 10) as u8);
            assert(dec_digits(n).last() == (48 + n % 10) as u8);
            assert(m % 10 == n % 10);
            assert(dec_digits(m).drop_last() =~= dec_digits(m / 10));
            assert(dec_digits(n).drop_last() =~= dec_digits(n / 10));
            assert(m / 10 != n / 10);
            lemma_dec_digits_injective(m / 10, n / 10);
        }
        assert(false);
    }
}

/// Writes `n` in decimal.
pub fn u64_digits(n: u64) -> (r: Vec<u8>)
    ensures
        r@ == dec_digits(n as nat),
    decreases n,
{
    if n < 10 {
        let mut r: Vec<u8> = Vec::new();
        r.push(48 + n as u8);
        r
    } else {
        let mut r = u64_digits(n / 10);
        r.push(48 + (n % 10) as u8);
        r
    }
}

/// The file name with `_` and the upload timestamp spliced in just before
/// the last `.`, or appended when the name has no `.`.
pub open spec fn timestamped_name(filename: Seq<u8>, ts: u64) -> Seq<u8> {
    let dot = last_index_of(filename, 46u8);
    if dot >= 0 {
        filename.take(dot) + seq![95u8] + dec_digits(ts as nat) + filename.skip(dot)
    } else {
        filename + seq![95u8] + dec_digits(ts as nat)
    }
}

pub fn make_timestamped_name(filename: &Vec<u8>, ts: u64) -> (r: Vec<u8>)
    ensures
        r@ == timestamped_name(filename@, ts),
{
    let digits = u64_digits(ts);
    match rfind_byte(filename, 46u8) {
        Some(pos) => {
            let mut r = copy_range(filename, 0, pos);
            r.push(95u8);
            append_bytes(&mut r, &digits);
            let tail = copy_range(filename, pos, filename.len());
            append_bytes(&mut r, &tail);
            proof {
                assert(filename@.subrange(0, pos as int) =~= filename@.take(pos as int));
                assert(filename@.subrange(pos as int, filename@.len() as int) =~= filename@.skip(
                    pos as int,
                ));
                assert(filename@.take(pos as int).push(95u8) =~= filename@.take(pos as int)
                    + seq![95u8]);
            }
            r
        },
        None => {
            let mut r = copy_range(filename, 0, filename.len());
            r.push(95u8);
            append_bytes(&mut r, &digits);
            proof {
                assert(filename@.subrange(0, filename@.len() as int) =~= filename@);
                assert(filename@.push(95u8) =~= filename@ + seq![95u8]);
            }
            r
        },
    }
}

/// The path prefix with every trailing `/` removed, as the upload form's
/// prefix field is cleaned before joining.
pub open spec fn trim_trailing_slashes(s: Seq<u8>) -> Seq<u8>
    decreases s.len(),
{
    if s.len() > 0 && s.last() == 47u8 {
        trim_trailing_slashes(s.drop_last())
    } else {
        s
    }
}

proof fn lemma_trim_is_take(s: Seq<u8>, n: int)
    requires
        0 <= n <= s.len(),
        forall|k: int| n <= k < s.len() ==> s[k] == 47u8,
        n > 0 ==> s[n - 1] != 47u8,
    ensures
        trim_trailing_slashes(s) == s.take(n),
    decreases s.len(),
{
    if s.len() == 0 {
        assert(s.take(0) =~= s);
    } else if s.last() == 47u8 {
        assert(n < s.len());
        assert forall|k: int| n <= k < s.drop_last().len() implies s.drop_last()[k] == 47u8 by {
            assert(s.drop_last()[k] == s[k]);
        }
        lemma_trim_is_take(s.drop_last(), n);
        assert(s.drop_last().take(n) =~= s.take(n));
    } else {
        assert(n == s.len());
        assert(s.take(n) =~= s);
    }
}

pub fn trim_trailing(s: &Vec<u8>) -> (r: Vec<u8>)
    ensures
        r@ == trim_trailing_slashes(s@),
{
    let mut n: usize = s.len();
    while n > 0 && s[n - 1] == 47u8
        invariant
            n <= s@.len(),
            forall|k: int| n <= k < s@.len() ==> s@[k] == 47u8,
        decreases n,
    {
        n = n - 1;
    }
    proof {
        lemma_trim_is_take(s@, n as int);
    }
    copy_range(s, 0, n)
}

/// Where the committed file goes: the cleaned prefix, a `/`, and the
/// timestamped name; with an empty prefix, the timestamped name alone.
pub open spec fn stored_path(prefix: Seq<u8>, filename: Seq<u8>, ts: u64) -> Seq<u8> {
    if prefix.len() == 0 {
        timestamped_name(filename, ts)
    } else {
        trim_trailing_slashes(prefix) + seq![47u8] + timestamped_name(filename, ts)
    }
}

pub fn make_stored_path(prefix: &Vec<u8>, filename: &Vec<u8>, ts: u64) -> (r: Vec<u8>)
    ensures
        r@ == stored_path(prefix@, filename@, ts),
{
    let name = make_timestamped_name(filename, ts);
    if prefix.len() == 0 {
        name
    } else {
        let mut r = trim_trailing(prefix);
        r.push(47u8);
        append_bytes(&mut r, &name);
        proof {
            assert(trim_trailing_slashes(prefix@).push(47u8) =~= trim_trailing_slashes(prefix@)
                + seq![47u8]);
        }
        r
    }
}

proof fn lemma_mid_cancel(a: Seq<u8>, d1: Seq<u8>, d2: Seq<u8>, b: Seq<u8>)
    requires
        a + d1 + b == a + d2 + b,
    ensures
        d1 == d2,
{
    assert((a + d1 + b).len() == a.len() + d1.len() + b.len());
    assert((a + d2 + b).len() == a.len() + d2.len() + b.len());
    assert(d1.len() == d2.len());
    assert forall|i: int| 0 <= i < d1.len() implies d1[i] == d2[i] by {
        assert((a + d1 + b)[a.len() + i] == d1[i]);
        assert((a + d2 + b)[a.len() + i] == d2[i]);
    }
    assert(d1 =~= d2);
}

proof fn lemma_append_left_cancel(a: Seq<u8>, x: Seq<u8>, y: Seq<u8>)
    requires
        a + x == a + y,
    ensures
        x == y,
{
    assert((a + x).len() == a.len() + x.len());
    assert((a + y).len() == a.len() + y.len());
    assert(x.len() == y.len());
    assert forall|i: int| 0 <= i < x.len() implies x[i] == y[i] by {
        assert((a + x)[a.len() + i] == x[i]);
        assert((a + y)[a.len() + i] == y[i]);
    }
    assert(x =~= y);
}

/// Two uploads of the same file name under the same prefix, made at
/// different milliseconds, are always stored under different paths.
pub proof fn lemma_stored_paths_distinct(prefix: Seq<u8>, filename: Seq<u8>, t1: u64, t2: u64)
    requires
        t1 != t2,
    ensures
        stored_path(prefix, filename, t1) != stored_path(prefix, filename, t2),
{
    lemma_dec_digits_injective(t1 as nat, t2 as nat);
    if stored_path(prefix, filename, t1) == stored_path(prefix, filename, t2) {
        if prefix.len() > 0 {
            lemma_append_left_cancel(
                trim_trailing_slashes(prefix) + seq![47u8],
                timestamped_name(filename, t1),
                timestamped_name(filename, t2),
            );
        }
        assert(timestamped_name(filename, t1) == timestamped_name(filename, t2));
        let dot = last_index_of(filename, 46u8);
        if dot >= 0 {
            lemma_last_index_of(filename, 46u8);
            lemma_mid_cancel(
                filename.take(dot) + seq![95u8],
                dec_digits(t1 as nat),
                dec_digits(t2 as nat),
                filename.skip(dot),
            );
        } else {
            assert(filename + seq![95u8] + dec_digits(t1 as nat) == (filename + seq![95u8])
                + dec_digits(t1 as nat) + Seq::<u8>::empty());
            assert(filename + seq![95u8] + dec_digits(t2 as nat) == (filename + seq![95u8])
                + dec_digits(t2 as nat) + Seq::<u8>::empty());
            lemma_mid_cancel(
                filename + seq![95u8],
                dec_digits(t1 as nat),
                dec_digits(t2 as nat),
                Seq::<u8>::empty(),
            );
        }
        assert(false);
    }
}

} // verus!

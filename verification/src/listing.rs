//! The listing order: a timestamp is read out of each file name (between
//! the last `_` of the stem and the last `.`), and entries are shown newest
//! first. When either entry of a compared pair has no timestamp, the
//! comparison falls back to name order. The mixed comparator is deliberate
//! (it keeps files from before the naming convention in name order) and is
//! reproduced exactly, not collapsed into a single global key.

use vstd::prelude::*;

verus! {

use vstd::seq_lib::group_to_multiset_ensures;
use vstd::arithmetic::div_mod::lemma_fundamental_div_mod;
use crate::bytes::{is_digit, last_index_of, lex_le, lemma_lex_le_total, rfind_byte, bytes_le,
    copy_range};

/// One entry of a remote directory listing: an immutable snapshot of a
/// committed file. `sha` is the remote's content hash, the optimistic
/// concurrency token a later delete must present.
#[derive(Clone, Debug, PartialEq, Eq)]
pub struct FileInfo {
    pub name: Vec<u8>,
    pub path: Vec<u8>,
    pub sha: Vec<u8>,
    pub size: u64,
    pub download_url: Option<Vec<u8>>,
}

/// All bytes are decimal digits.
pub open spec fn all_digits(s: Seq<u8>) -> bool {
    forall|i: int| 0 <= i < s.len() ==> is_digit(s[i])
}

/// The number the digit string denotes, most significant digit first.
pub open spec fn digits_val(s: Seq<u8>) -> int
    decreases s.len(),
{
    if s.len() == 0 {
        0
    } else {
        digits_val(s.drop_last()) * 10 + (s.last() - 48)
    }
}

proof fn lemma_digits_val_nonneg(s: Seq<u8>)
    requires
        all_digits(s),
    ensures
        digits_val(s) >= 0,
    decreases s.len(),
{
    if s.len() > 0 {
        assert(all_digits(s.drop_last())) by {
            assert(forall|i: int|
                0 <= i < s.drop_last().len() ==> s.drop_last()[i] == s[i] && is_digit(s[i]));
        }
        lemma_digits_val_nonneg(s.drop_last());
    }
}

proof fn lemma_digits_val_prefix(s: Seq<u8>, i: int)
    requires
        all_digits(s),
        0 <= i <= s.len(),
    ensures
        digits_val(s) >= digits_val(s.take(i)),
    decreases s.len(),
{
    if i < s.len() {
        assert(all_digits(s.drop_last())) by {
            assert(forall|j: int|
                0 <= j < s.drop_last().len() ==> s.drop_last()[j] == s[j] && is_digit(s[j]));
        }
        lemma_digits_val_prefix(s.drop_last(), i);
        assert(s.drop_last().take(i) =~= s.take(i));
        lemma_digits_val_nonneg(s.drop_last());
        assert(digits_val(s) == digits_val(s.drop_last()) * 10 + (s.last() - 48));
        assert(digits_val(s.drop_last()) * 10 >= digits_val(s.drop_last()));
    } else {
        assert(s.take(i) =~= s);
    }
}

/// What parsing an unsigned decimal number makes of `s`: an optional
/// leading `+`, then at least one digit, denoting a value that fits the
/// 128-bit range; anything else does not parse.
pub open spec fn parse_u128_spec(s: Seq<u8>) -> Option<int> {
    let t = if s.len() > 0 && s[0] == 43u8 {
        s.drop_first()
    } else {
        s
    };
    if t.len() > 0 && all_digits(t) && digits_val(t) <= u128::MAX {
        Some(digits_val(t))
    } else {
        None
    }
}

/// Parses `s` as an unsigned decimal number.
pub fn parse_u128_bytes(s: &Vec<u8>) -> (r: Option<u128>)
    ensures
        r matches Some(v) ==> parse_u128_spec(s@) == Some(v as int),
        r is None ==> parse_u128_spec(s@) is None,
{
    let n = s.len();
    let start: usize = if n > 0 && s[0] == 43u8 {
        1
    } else {
        0
    };
    let ghost t = if start == 1 {
        s@.drop_first()
    } else {
        s@
    };
    proof {
        assert(t =~= s@.skip(start as int));
    }
    if n == start {
        return None;
    }
    let mut acc: u128 = 0;
    let mut i: usize = start;
    while i < n
        invariant
            start <= i <= n == s@.len(),
            t == s@.skip(start as int),
            t == (if s@.len() > 0 && s@[0] == 43u8 {
                s@.drop_first()
            } else {
                s@
            }),
            t.len() == n - start,
            forall|j: int| 0 <= j < i - start ==> is_digit(t[j]),
            acc as int == digits_val(t.take(i - start)),
        decreases n - i,
    {
        let b = s[i];
        proof {
            assert(t[i - start] == s@[i as int]);
        }
        if b < 48 || b > 57 {
            proof {
                assert(0 <= i - start < t.len() && !is_digit(t[i - start]));
                assert(!all_digits(t));
                assert(parse_u128_spec(s@) is None);
            }
            return None;
        }
        let d = b - 48;
        proof {
            assert(t.take(i + 1 - start).drop_last() =~= t.take(i - start));
            assert(t.take(i + 1 - start).last() == t[i - start]);
            assert(forall|j: int| 0 <= j < i + 1 - start ==> is_digit(t[j]));
        }
        if acc > (u128::MAX - d as u128) / 10 {
            // The value can only grow with further digits, so it cannot fit.
            proof {
                lemma_fundamental_div_mod((u128::MAX - d) as int, 10);
                assert(digits_val(t.take(i + 1 - start)) == acc as int * 10 + d);
                assert(acc as int * 10 + d > u128::MAX) by {
                    assert(acc as int >= (u128::MAX - d) as int / 10 + 1);
                }
                if all_digits(t) && digits_val(t) <= u128::MAX {
                    lemma_digits_val_prefix(t, i + 1 - start);
                    assert(false);
                }
                assert(!(all_digits(t) && digits_val(t) <= u128::MAX));
                assert(parse_u128_spec(s@) is None);
            }
            return None;
        }
        proof {
            lemma_fundamental_div_mod((u128::MAX - d) as int, 10);
            assert(acc as int * 10 + d <= u128::MAX);
        }
        acc = acc * 10 + d as u128;
        i = i + 1;
    }
    proof {
        assert(t.take(t.len() as int) =~= t);
    }
    Some(acc)
}

/// The sort key read out of a file name: the digits between the stem's
/// last `_` and the name's last `.`, or 0 when there is no such parseable
/// timestamp.
pub open spec fn ts_key(name: Seq<u8>) -> int {
    let dot = last_index_of(name, 46u8);
    if dot >= 0 {
        let stem = name.take(dot);
        let us = last_index_of(stem, 95u8);
        if us >= 0 {
            match parse_u128_spec(stem.skip(us + 1)) {
                Some(v) => v,
                None => 0,
            }
        } else {
            0
        }
    } else {
        0
    }
}

/// Reads the timestamp sort key out of a file name.
pub fn extract_timestamp(name: &Vec<u8>) -> (r: u128)
    ensures
        r as int == ts_key(name@),
{
    match rfind_byte(name, 46u8) {
        None => 0,
        Some(dot) => {
            let stem = copy_range(name, 0, dot);
            proof {
                assert(name@.subrange(0, dot as int) =~= name@.take(dot as int));
            }
            match rfind_byte(&stem, 95u8) {
                None => 0,
                Some(us) => {
                    let digits = copy_range(&stem, us + 1, stem.len());
                    proof {
                        assert(stem@.subrange(us + 1, stem@.len() as int) =~= stem@.skip(us + 1));
                    }
                    match parse_u128_bytes(&digits) {
                        Some(v) => v,
                        None => 0,
                    }
                },
            }
        },
    }
}

/// The listing comparator's "sorts after": `a` comes after `b` when both
/// carry timestamps and `b`'s is newer, or, when either has none, when
/// `a`'s name is lexicographically greater.
pub open spec fn sorts_after(a: FileInfo, b: FileInfo) -> bool {
    if ts_key(a.name@) != 0 && ts_key(b.name@) != 0 {
        ts_key(b.name@) > ts_key(a.name@)
    } else {
        !lex_le(a.name@, b.name@)
    }
}

/// The comparator never says both "a after b" and "b after a".
pub proof fn lemma_sorts_after_asymmetric(a: FileInfo, b: FileInfo)
    ensures
        !(sorts_after(a, b) && sorts_after(b, a)),
{
    lemma_lex_le_total(a.name@, b.name@);
}

pub fn file_sorts_after(a: &FileInfo, b: &FileInfo) -> (r: bool)
    ensures
        r == sorts_after(*a, *b),
{
    let ta = extract_timestamp(&a.name);
    let tb = extract_timestamp(&b.name);
    if ta != 0 && tb != 0 {
        tb > ta
    } else {
        !bytes_le(&a.name, &b.name)
    }
}

/// Insertion of one entry into a run, scanning from the back past every
/// entry that sorts after it.
pub open spec fn insert_by_age(s: Seq<FileInfo>, x: FileInfo) -> Seq<FileInfo>
    decreases s.len(),
{
    if s.len() == 0 {
        seq![x]
    } else if sorts_after(s.last(), x) {
        insert_by_age(s.drop_last(), x).push(s.last())
    } else {
        s.push(x)
    }
}

/// The listing order: each entry inserted in turn, left to right. This
/// pins the displayed order exactly, comparator quirks included.
pub open spec fn sort_by_age(s: Seq<FileInfo>) -> Seq<FileInfo>
    decreases s.len(),
{
    if s.len() == 0 {
        Seq::empty()
    } else {
        insert_by_age(sort_by_age(s.drop_last()), s.last())
    }
}

proof fn lemma_insert_at(s: Seq<FileInfo>, x: FileInfo, j: int)
    requires
        0 <= j <= s.len(),
        forall|k: int| j <= k < s.len() ==> sorts_after(s[k], x),
        j > 0 ==> !sorts_after(s[j - 1], x),
    ensures
        insert_by_age(s, x) == s.take(j) + seq![x] + s.skip(j),
    decreases s.len(),
{
    if s.len() == 0 {
        assert(s.take(0) + seq![x] + s.skip(0) =~= seq![x]);
    } else if j == s.len() {
        assert(!sorts_after(s.last(), x));
        assert(s.take(j) + seq![x] + s.skip(j) =~= s.push(x));
    } else {
        assert(sorts_after(s.last(), x));
        assert forall|k: int| j <= k < s.drop_last().len() implies sorts_after(
            s.drop_last()[k],
            x,
        ) by {
            assert(s.drop_last()[k] == s[k]);
        }
        if j > 0 {
            assert(s.drop_last()[j - 1] == s[j - 1]);
        }
        lemma_insert_at(s.drop_last(), x, j);
        assert((s.drop_last().take(j) + seq![x] + s.drop_last().skip(j)).push(s.last()) =~= s.take(
            j,
        ) + seq![x] + s.skip(j));
    }
}

/// Sorts a listing, newest first, by the original mixed comparator.
pub fn sort_files(files: Vec<FileInfo>) -> (r: Vec<FileInfo>)
    ensures
        r@ == sort_by_age(files@),
{
    let ghost orig = files@;
    let mut rest = files;
    let mut out: Vec<FileInfo> = Vec::new();
    proof {
        assert(orig.take(0) =~= Seq::<FileInfo>::empty());
        assert(orig.skip(0) =~= orig);
    }
    while rest.len() > 0
        invariant
            rest@.len() <= orig.len(),
            out@ == sort_by_age(orig.take(orig.len() - rest@.len())),
            rest@ == orig.skip(orig.len() - rest@.len()),
        decreases rest@.len(),
    {
        let ghost k = orig.len() - rest@.len();
        let x = rest.remove(0);
        proof {
            assert(x == orig[k]);
            assert(orig.skip(k).remove(0) =~= orig.skip(k + 1));
        }
        let mut j: usize = out.len();
        while j > 0 && file_sorts_after(&out[j - 1], &x)
            invariant
                j <= out@.len(),
                forall|t: int| j <= t < out@.len() ==> sorts_after(out@[t], x),
            decreases j,
        {
            j = j - 1;
        }
        proof {
            lemma_insert_at(out@, x, j as int);
            assert(orig.take(k + 1).drop_last() =~= orig.take(k));
            assert(orig.take(k + 1).last() == orig[k]);
        }
        out.insert(j, x);
        proof {
            assert(out@ =~= sort_by_age(orig.take(k)).take(j as int) + seq![x] + sort_by_age(
                orig.take(k),
            ).skip(j as int));
        }
    }
    proof {
        assert(orig.take(orig.len() as int) =~= orig);
    }
    out
}

/// Sorts a listing and keeps only the first `limit` entries.
pub fn order_listing(files: Vec<FileInfo>, limit: usize) -> (r: Vec<FileInfo>)
    ensures
        r@ == sort_by_age(files@).take(
            if limit <= files@.len() {
                limit as int
            } else {
                files@.len() as int
            },
        ),
{
    let mut sorted = sort_files(files);
    proof {
        lemma_sort_by_age_permutes(files@);
    }
    let ghost before = sorted@;
    sorted.truncate(limit);
    proof {
        if limit <= before.len() {
            assert(before.subrange(0, limit as int) =~= before.take(limit as int));
        } else {
            assert(before =~= before.take(before.len() as int));
        }
    }
    sorted
}

/// What the listing call yields. Only an answered 2xx whose body parsed
/// into entries shows anything: those entries, ordered newest first and
/// truncated to `limit`. Every failure (network, non-2xx, unparseable
/// body) is an empty listing, deliberately indistinguishable from an
/// empty directory: the callers treat it as "no files yet".
pub fn interpret_listing(
    status: Option<u16>,
    entries: Option<Vec<FileInfo>>,
    limit: usize,
) -> (r: Vec<FileInfo>)
    ensures
        ({
            match (status, entries) {
                (Some(c), Some(files)) => if crate::api::is_success_spec(c) {
                    r@ == sort_by_age(files@).take(
                        if limit <= files@.len() {
                            limit as int
                        } else {
                            files@.len() as int
                        },
                    )
                } else {
                    r@ == Seq::<FileInfo>::empty()
                },
                _ => r@ == Seq::<FileInfo>::empty(),
            }
        }),
{
    let answered = match status {
        Some(c) => crate::api::is_success_status(c),
        None => false,
    };
    if answered {
        if let Some(files) = entries {
            return order_listing(files, limit);
        }
    }
    Vec::new()
}

proof fn lemma_insert_by_age_multiset(s: Seq<FileInfo>, x: FileInfo)
    ensures
        insert_by_age(s, x).to_multiset() == s.to_multiset().insert(x),
        insert_by_age(s, x).len() == s.len() + 1,
    decreases s.len(),
{
    broadcast use group_to_multiset_ensures;

    if s.len() == 0 {
        assert(seq![x] =~= Seq::<FileInfo>::empty().push(x));
    } else if sorts_after(s.last(), x) {
        lemma_insert_by_age_multiset(s.drop_last(), x);
        assert(s =~= s.drop_last().push(s.last()));
        assert(s.drop_last().to_multiset().insert(x).insert(s.last())
            =~= s.drop_last().to_multiset().insert(s.last()).insert(x));
    } else {
    }
}

/// Ordering a listing loses and invents nothing: the sorted sequence is a
/// permutation of the fetched one.
pub proof fn lemma_sort_by_age_permutes(s: Seq<FileInfo>)
    ensures
        sort_by_age(s).to_multiset() == s.to_multiset(),
        sort_by_age(s).len() == s.len(),
    decreases s.len(),
{
    broadcast use group_to_multiset_ensures;

    if s.len() > 0 {
        lemma_sort_by_age_permutes(s.drop_last());
        lemma_insert_by_age_multiset(sort_by_age(s.drop_last()), s.last());
        assert(s =~= s.drop_last().push(s.last()));
    }
}

/// No displayed entry sorts after its immediate successor: the newest-first
/// order, as far as the mixed comparator defines one.
pub open spec fn newest_first(s: Seq<FileInfo>) -> bool {
    forall|i: int| 0 <= i && i + 1 < s.len() ==> !sorts_after(#[trigger] s[i], s[i + 1])
}

proof fn lemma_insert_by_age_ordered(s: Seq<FileInfo>, x: FileInfo)
    requires
        newest_first(s),
    ensures
        newest_first(insert_by_age(s, x)),
    decreases s.len(),
{
    if s.len() == 0 {
    } else if sorts_after(s.last(), x) {
        let d = s.drop_last();
        assert(newest_first(d)) by {
            assert forall|i: int| 0 <= i && i + 1 < d.len() implies !sorts_after(#[trigger] d[i], d[i + 1]) by {
                assert(d[i] == s[i] && d[i + 1] == s[i + 1]);
            }
        }
        lemma_insert_by_age_ordered(d, x);
        let r1 = insert_by_age(d, x);
        lemma_insert_by_age_multiset(d, x);
        let r = r1.push(s.last());
        assert(!sorts_after(r1.last(), s.last())) by {
            if d.len() == 0 {
                assert(r1.last() == x);
                lemma_sorts_after_asymmetric(s.last(), x);
            } else if sorts_after(d.last(), x) {
                assert(r1.last() == d.last());
                assert(d.last() == s[s.len() - 2]);
                assert(!sorts_after(s[s.len() - 2], s[s.len() - 1]));
            } else {
                assert(r1 == d.push(x));
                assert(r1.last() == x);
                lemma_sorts_after_asymmetric(s.last(), x);
            }
        }
        assert forall|i: int| 0 <= i && i + 1 < r.len() implies !sorts_after(#[trigger] r[i], r[i + 1]) by {
            if i + 1 < r1.len() {
                assert(r[i] == r1[i] && r[i + 1] == r1[i + 1]);
            } else {
                assert(r[i] == r1[r1.len() - 1] && r[i + 1] == s.last());
            }
        }
    } else {
        let r = s.push(x);
        assert forall|i: int| 0 <= i && i + 1 < r.len() implies !sorts_after(#[trigger] r[i], r[i + 1]) by {
            if i + 1 < s.len() {
                assert(r[i] == s[i] && r[i + 1] == s[i + 1]);
            } else {
                assert(r[i] == s[s.len() - 1] && r[i + 1] == x);
            }
        }
    }
}

/// The sorted listing is in newest-first order.
pub proof fn lemma_sort_by_age_newest_first(s: Seq<FileInfo>)
    ensures
        newest_first(sort_by_age(s)),
    decreases s.len(),
{
    if s.len() > 0 {
        lemma_sort_by_age_newest_first(s.drop_last());
        lemma_insert_by_age_ordered(sort_by_age(s.drop_last()), s.last());
    }
}

} // verus!

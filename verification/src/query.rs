//! The query decoder: a raw query string becomes a key/value mapping.
//!
//! The string splits on `&` into items; empty items are skipped. Each item
//! splits on its first `=` into key and value; an item without `=` yields
//! the empty value. A key that occurs twice keeps its first position but the
//! last value wins. There is no error case: any input decodes.

use vstd::prelude::*;

use crate::message::Pair;
use crate::message::pair_views;
use crate::text::chars_of;
use crate::text::string_from_chars;

verus! {

/// The index of the first occurrence of `c` in `s`, or `s.len()` when `c`
/// does not occur.
pub open spec fn find_char(s: Seq<char>, c: char) -> int
    decreases s.len(),
{
    if s.len() == 0 {
        0
    } else if s[0] == c {
        0
    } else {
        1 + find_char(s.drop_first(), c)
    }
}

/// `find_char` is in bounds, points at `c` when `c` occurs, and nothing
/// before it is `c`.
pub proof fn lemma_find_char(s: Seq<char>, c: char)
    ensures
        0 <= find_char(s, c) <= s.len(),
        find_char(s, c) < s.len() ==> s[find_char(s, c)] == c,
        forall|k: int| 0 <= k < find_char(s, c) ==> s[k] != c,
    decreases s.len(),
{
    if s.len() > 0 && s[0] != c {
        lemma_find_char(s.drop_first(), c);
        assert forall|k: int| 0 <= k < find_char(s, c) implies s[k] != c by {
            if k > 0 {
                assert(s.drop_first()[k - 1] == s[k]);
            }
        }
    }
}

/// A position before which `c` never occurs, and at which `c` stands unless
/// it is the end, is exactly `find_char`.
pub proof fn lemma_find_char_is(s: Seq<char>, c: char, m: int)
    requires
        0 <= m <= s.len(),
        forall|k: int| 0 <= k < m ==> s[k] != c,
        m < s.len() ==> s[m] == c,
    ensures
        find_char(s, c) == m,
    decreases s.len(),
{
    if s.len() > 0 && m > 0 {
        assert(s[0] != c);
        assert forall|k: int| 0 <= k < m - 1 implies s.drop_first()[k] != c by {
            assert(s.drop_first()[k] == s[k + 1]);
        }
        assert(m - 1 < s.drop_first().len() ==> s.drop_first()[m - 1] == c);
        lemma_find_char_is(s.drop_first(), c, m - 1);
    }
}

/// The key of a query item: everything before the first `=`, or the whole
/// item when it carries none.
pub open spec fn item_key(item: Seq<char>) -> Seq<char> {
    item.take(find_char(item, '='))
}

/// The value of a query item: everything after the first `=`, or the empty
/// text when the item carries none.
pub open spec fn item_value(item: Seq<char>) -> Seq<char> {
    if find_char(item, '=') == item.len() {
        Seq::empty()
    } else {
        item.skip(find_char(item, '=') + 1)
    }
}

/// Insert a key/value pair into a pair list: the first pair with the same
/// key is replaced in place, and a fresh key goes to the end.
pub open spec fn upsert(
    ps: Seq<(Seq<char>, Seq<char>)>,
    k: Seq<char>,
    v: Seq<char>,
) -> Seq<(Seq<char>, Seq<char>)>
    decreases ps.len(),
{
    if ps.len() == 0 {
        seq![(k, v)]
    } else if ps[0].0 == k {
        seq![(k, v)] + ps.drop_first()
    } else {
        seq![ps[0]] + upsert(ps.drop_first(), k, v)
    }
}

/// What one item contributes: nothing when it is empty, its pair otherwise.
pub open spec fn insert_item(
    ps: Seq<(Seq<char>, Seq<char>)>,
    item: Seq<char>,
) -> Seq<(Seq<char>, Seq<char>)> {
    if item.len() == 0 {
        ps
    } else {
        upsert(ps, item_key(item), item_value(item))
    }
}

/// Decode the rest of a query string, item by item, onto pairs already
/// decoded.
pub open spec fn query_pairs_from(
    q: Seq<char>,
    ps: Seq<(Seq<char>, Seq<char>)>,
) -> Seq<(Seq<char>, Seq<char>)>
    decreases q.len(),
    via query_pairs_from_decreases
{
    if q.len() == 0 {
        ps
    } else {
        let i = find_char(q, '&');
        let ps2 = insert_item(ps, q.take(i));
        if i == q.len() {
            ps2
        } else {
            query_pairs_from(q.skip(i + 1), ps2)
        }
    }
}

#[via_fn]
proof fn query_pairs_from_decreases(q: Seq<char>, ps: Seq<(Seq<char>, Seq<char>)>) {
    lemma_find_char(q, '&');
}

/// The decoded pairs of a whole query string, in first-occurrence order,
/// with the last value of a repeated key winning.
pub open spec fn query_pairs_of(q: Seq<char>) -> Seq<(Seq<char>, Seq<char>)> {
    query_pairs_from(q, Seq::empty())
}

/// The value under a key in a decoded pair list, if any.
pub open spec fn pairs_value(ps: Seq<(Seq<char>, Seq<char>)>, k: Seq<char>) -> Option<Seq<char>>
    decreases ps.len(),
{
    if ps.len() == 0 {
        None
    } else if ps[0].0 == k {
        Some(ps[0].1)
    } else {
        pairs_value(ps.drop_first(), k)
    }
}

/// Whether no two pairs of a list share a key.
pub open spec fn distinct_keys(ps: Seq<(Seq<char>, Seq<char>)>) -> bool {
    forall|i: int, j: int| 0 <= i < j < ps.len() ==> ps[i].0 != ps[j].0
}

/// Whether some pair of the list holds the key.
pub open spec fn has_key(ps: Seq<(Seq<char>, Seq<char>)>, x: Seq<char>) -> bool {
    exists|i: int| 0 <= i < ps.len() && ps[i].0 == x
}

/// The keys after an upsert are the old keys and the inserted one.
proof fn lemma_upsert_keys(ps: Seq<(Seq<char>, Seq<char>)>, k: Seq<char>, v: Seq<char>, x: Seq<char>)
    ensures
        has_key(upsert(ps, k, v), x) <==> (x == k || has_key(ps, x)),
    decreases ps.len(),
{
    let u = upsert(ps, k, v);
    if ps.len() == 0 {
        assert(u[0].0 == k);
        if x == k {
            assert(has_key(u, x));
        }
        if has_key(ps, x) {
            let i = choose|i: int| 0 <= i < ps.len() && ps[i].0 == x;
            assert(false);
        }
    } else if ps[0].0 == k {
        assert(u =~= seq![(k, v)] + ps.drop_first());
        if has_key(u, x) {
            let i = choose|i: int| 0 <= i < u.len() && u[i].0 == x;
            if i == 0 {
                assert(x == k);
            } else {
                assert(ps[i].0 == x);
                assert(has_key(ps, x));
            }
        }
        if x == k {
            assert(u[0].0 == x);
            assert(has_key(u, x));
        } else if has_key(ps, x) {
            let i = choose|i: int| 0 <= i < ps.len() && ps[i].0 == x;
            assert(i != 0);
            assert(u[i].0 == x);
            assert(has_key(u, x));
        }
    } else {
        lemma_upsert_keys(ps.drop_first(), k, v, x);
        let inner = upsert(ps.drop_first(), k, v);
        assert(u =~= seq![ps[0]] + inner);
        if has_key(u, x) {
            let i = choose|i: int| 0 <= i < u.len() && u[i].0 == x;
            if i == 0 {
                assert(ps[0].0 == x);
                assert(has_key(ps, x));
            } else {
                assert(inner[i - 1].0 == x);
                assert(has_key(inner, x));
                if x != k {
                    let m = choose|m: int| 0 <= m < ps.drop_first().len() && ps.drop_first()[m].0
                        == x;
                    assert(ps[m + 1].0 == x);
                    assert(has_key(ps, x));
                }
            }
        }
        if x == k {
            assert(has_key(inner, x));
            let m = choose|m: int| 0 <= m < inner.len() && inner[m].0 == x;
            assert(u[m + 1].0 == x);
            assert(has_key(u, x));
        } else if has_key(ps, x) {
            let i = choose|i: int| 0 <= i < ps.len() && ps[i].0 == x;
            if i == 0 {
                assert(u[0].0 == x);
            } else {
                assert(ps.drop_first()[i - 1].0 == x);
                assert(has_key(ps.drop_first(), x));
                assert(has_key(inner, x));
                let m = choose|m: int| 0 <= m < inner.len() && inner[m].0 == x;
                assert(u[m + 1].0 == x);
            }
            assert(has_key(u, x));
        }
    }
}

/// An upsert into a list with pairwise-distinct keys keeps them distinct.
proof fn lemma_upsert_distinct(ps: Seq<(Seq<char>, Seq<char>)>, k: Seq<char>, v: Seq<char>)
    requires
        distinct_keys(ps),
    ensures
        distinct_keys(upsert(ps, k, v)),
    decreases ps.len(),
{
    let u = upsert(ps, k, v);
    if ps.len() == 0 {
        assert(distinct_keys(u));
    } else if ps[0].0 == k {
        assert(u =~= seq![(k, v)] + ps.drop_first());
        assert forall|i: int, j: int| 0 <= i < j < u.len() implies u[i].0 != u[j].0 by {
            if i == 0 {
                assert(u[j].0 == ps[j].0);
                assert(ps[0].0 != ps[j].0);
            } else {
                assert(u[i].0 == ps[i].0 && u[j].0 == ps[j].0);
            }
        }
    } else {
        assert forall|i: int, j: int|
            0 <= i < j < ps.drop_first().len() implies ps.drop_first()[i].0
            != ps.drop_first()[j].0 by {
            assert(ps.drop_first()[i] == ps[i + 1] && ps.drop_first()[j] == ps[j + 1]);
        }
        lemma_upsert_distinct(ps.drop_first(), k, v);
        let inner = upsert(ps.drop_first(), k, v);
        assert(u =~= seq![ps[0]] + inner);
        assert(!has_key(ps.drop_first(), ps[0].0)) by {
            if has_key(ps.drop_first(), ps[0].0) {
                let m = choose|m: int|
                    0 <= m < ps.drop_first().len() && ps.drop_first()[m].0 == ps[0].0;
                assert(ps[m + 1].0 == ps[0].0);
            }
        }
        lemma_upsert_keys(ps.drop_first(), k, v, ps[0].0);
        assert(!has_key(inner, ps[0].0));
        assert forall|i: int, j: int| 0 <= i < j < u.len() implies u[i].0 != u[j].0 by {
            if i == 0 {
                assert(u[j].0 == inner[j - 1].0);
                if u[j].0 == ps[0].0 {
                    assert(has_key(inner, ps[0].0));
                }
            } else {
                assert(u[i].0 == inner[i - 1].0 && u[j].0 == inner[j - 1].0);
            }
        }
    }
}

/// Decoding keeps keys pairwise distinct.
proof fn lemma_query_pairs_from_distinct(q: Seq<char>, ps: Seq<(Seq<char>, Seq<char>)>)
    requires
        distinct_keys(ps),
    ensures
        distinct_keys(query_pairs_from(q, ps)),
    decreases q.len(),
{
    if q.len() > 0 {
        lemma_find_char(q, '&');
        let i = find_char(q, '&');
        let item = q.take(i);
        if item.len() > 0 {
            lemma_upsert_distinct(ps, item_key(item), item_value(item));
        }
        if i < q.len() {
            lemma_query_pairs_from_distinct(q.skip(i + 1), insert_item(ps, item));
        }
    }
}

/// What the query decoder produces is a mapping: no key occurs twice.
pub proof fn lemma_query_keys_distinct(q: Seq<char>)
    ensures
        distinct_keys(query_pairs_of(q)),
{
    lemma_query_pairs_from_distinct(q, Seq::empty());
}

/// Replacing the first pair that holds `k` is an in-place update.
proof fn lemma_upsert_found(ps: Seq<(Seq<char>, Seq<char>)>, k: Seq<char>, v: Seq<char>, m: int)
    requires
        0 <= m < ps.len(),
        ps[m].0 == k,
        forall|j: int| 0 <= j < m ==> ps[j].0 != k,
    ensures
        upsert(ps, k, v) == ps.update(m, (k, v)),
    decreases ps.len(),
{
    if m == 0 {
        assert(upsert(ps, k, v) =~= ps.update(0, (k, v)));
    } else {
        assert forall|j: int| 0 <= j < m - 1 implies ps.drop_first()[j].0 != k by {
            assert(ps.drop_first()[j] == ps[j + 1]);
        }
        assert(ps.drop_first()[m - 1] == ps[m]);
        lemma_upsert_found(ps.drop_first(), k, v, m - 1);
        assert(upsert(ps, k, v) =~= ps.update(m, (k, v)));
    }
}

/// A fresh key goes to the end.
proof fn lemma_upsert_fresh(ps: Seq<(Seq<char>, Seq<char>)>, k: Seq<char>, v: Seq<char>)
    requires
        forall|j: int| 0 <= j < ps.len() ==> ps[j].0 != k,
    ensures
        upsert(ps, k, v) == ps.push((k, v)),
    decreases ps.len(),
{
    if ps.len() == 0 {
        assert(upsert(ps, k, v) =~= ps.push((k, v)));
    } else {
        assert forall|j: int| 0 <= j < ps.drop_first().len() implies ps.drop_first()[j].0 != k by {
            assert(ps.drop_first()[j] == ps[j + 1]);
        }
        lemma_upsert_fresh(ps.drop_first(), k, v);
        assert(upsert(ps, k, v) =~= ps.push((k, v)));
    }
}

/// An item without `=` decodes to its whole text as key and to the empty
/// value.
pub proof fn lemma_item_without_eq(item: Seq<char>)
    requires
        forall|k: int| 0 <= k < item.len() ==> item[k] != '=',
    ensures
        item_key(item) == item,
        item_value(item) == Seq::<char>::empty(),
{
    lemma_find_char_is(item, '=', item.len() as int);
    assert(item.take(item.len() as int) =~= item);
}

/// An empty segment — a `&` with nothing before it — contributes nothing:
/// decoding continues on the rest as if the separator were not there.
pub proof fn lemma_empty_segment_ignored(q: Seq<char>, ps: Seq<(Seq<char>, Seq<char>)>)
    requires
        q.len() > 0,
        q[0] == '&',
    ensures
        query_pairs_from(q, ps) == query_pairs_from(q.drop_first(), ps),
{
    lemma_find_char_is(q, '&', 0);
    assert(q.take(0).len() == 0);
    assert(q.skip(1) =~= q.drop_first());
}

/// A well-formed two-pair query string `k1=v1&k2=v2` decodes to exactly its
/// two pairs, in order, and each key maps to its value.
#[verifier::rlimit(80)]
pub proof fn lemma_two_pairs(k1: Seq<char>, v1: Seq<char>, k2: Seq<char>, v2: Seq<char>)
    requires
        forall|j: int| 0 <= j < k1.len() ==> k1[j] != '&' && k1[j] != '=',
        forall|j: int| 0 <= j < k2.len() ==> k2[j] != '&' && k2[j] != '=',
        forall|j: int| 0 <= j < v1.len() ==> v1[j] != '&',
        forall|j: int| 0 <= j < v2.len() ==> v2[j] != '&',
        k1 != k2,
    ensures
        query_pairs_of(k1 + "="@ + v1 + "&"@ + k2 + "="@ + v2) == seq![(k1, v1), (k2, v2)],
        pairs_value(query_pairs_of(k1 + "="@ + v1 + "&"@ + k2 + "="@ + v2), k1) == Some(v1),
        pairs_value(query_pairs_of(k1 + "="@ + v1 + "&"@ + k2 + "="@ + v2), k2) == Some(v2),
{
    reveal_strlit("=");
    reveal_strlit("&");
    let item1 = k1 + "="@ + v1;
    let item2 = k2 + "="@ + v2;
    let q = k1 + "="@ + v1 + "&"@ + k2 + "="@ + v2;
    assert(q =~= item1 + "&"@ + item2);

    // the first separator stands right after the first item
    assert forall|j: int| 0 <= j < item1.len() implies item1[j] != '&' by {
        if j < k1.len() {
            assert(item1[j] == k1[j]);
        } else if j == k1.len() {
            assert(item1[j] == '=');
        } else {
            assert(item1[j] == v1[j - k1.len() - 1]);
        }
    }
    assert forall|j: int| 0 <= j < item1.len() implies q[j] != '&' by {
        assert(q[j] == item1[j]);
    }
    assert(q[item1.len() as int] == '&');
    lemma_find_char_is(q, '&', item1.len() as int);

    // the first item splits at its `=` into the first key and value
    assert(q.take(item1.len() as int) =~= item1);
    assert forall|j: int| 0 <= j < k1.len() implies item1[j] != '=' by {
        assert(item1[j] == k1[j]);
    }
    assert(item1[k1.len() as int] == '=');
    lemma_find_char_is(item1, '=', k1.len() as int);
    assert(item_key(item1) =~= k1);
    assert(item_value(item1) =~= v1);
    assert(insert_item(Seq::empty(), item1) =~= seq![(k1, v1)]);

    // decoding continues on the second item alone
    assert(q.skip(item1.len() as int + 1) =~= item2);
    assert(query_pairs_of(q) == query_pairs_from(item2, seq![(k1, v1)]));

    // the second item holds no separator and splits at its own `=`
    assert forall|j: int| 0 <= j < item2.len() implies item2[j] != '&' by {
        if j < k2.len() {
            assert(item2[j] == k2[j]);
        } else if j == k2.len() {
            assert(item2[j] == '=');
        } else {
            assert(item2[j] == v2[j - k2.len() - 1]);
        }
    }
    lemma_find_char_is(item2, '&', item2.len() as int);
    assert(item2.take(item2.len() as int) =~= item2);
    assert forall|j: int| 0 <= j < k2.len() implies item2[j] != '=' by {
        assert(item2[j] == k2[j]);
    }
    assert(item2[k2.len() as int] == '=');
    lemma_find_char_is(item2, '=', k2.len() as int);
    assert(item_key(item2) =~= k2);
    assert(item_value(item2) =~= v2);

    // the second key is fresh, so its pair goes to the end
    let one = seq![(k1, v1)];
    assert(one[0].0 == k1);
    lemma_upsert_fresh(one, k2, v2);
    assert(query_pairs_of(q) =~= seq![(k1, v1), (k2, v2)]);

    // both keys map to their values
    let two = seq![(k1, v1), (k2, v2)];
    assert(pairs_value(two, k1) == Some(v1));
    assert(two.drop_first() =~= seq![(k2, v2)]);
    assert(pairs_value(seq![(k2, v2)], k2) == Some(v2));
    assert(two[0].0 == k1 && k1 != k2);
    assert(pairs_value(two, k2) == pairs_value(two.drop_first(), k2));
    assert(pairs_value(two, k2) == Some(v2));
}

/// Copy a range of a character vector.
fn sub_chars(cs: &Vec<char>, from: usize, to: usize) -> (r: Vec<char>)
    requires
        from <= to <= cs@.len(),
    ensures
        r@ == cs@.subrange(from as int, to as int),
{
    let mut out: Vec<char> = Vec::new();
    let mut i: usize = from;
    while i < to
        invariant
            from <= i <= to <= cs@.len(),
            out@ == cs@.subrange(from as int, i as int),
        decreases to - i,
    {
        out.push(cs[i]);
        proof {
            assert(cs@.subrange(from as int, i + 1) =~= cs@.subrange(from as int, i as int).push(
                cs@[i as int],
            ));
        }
        i = i + 1;
    }
    proof {
        assert(out@ =~= cs@.subrange(from as int, to as int));
    }
    out
}

/// Insert a pair into the decoded list: replace the value of the first pair
/// with the same key, else append.
fn upsert_pair(pairs: &mut Vec<Pair>, key: String, value: String)
    ensures
        pair_views(final(pairs)@) == upsert(pair_views(old(pairs)@), key@, value@),
{
    let n = pairs.len();
    for i in 0..n
        invariant
            n == pairs@.len(),
            pairs@ == old(pairs)@,
            forall|j: int| 0 <= j < i ==> pair_views(pairs@)[j].0 != key@,
    {
        if pairs[i].name == key {
            proof {
                lemma_upsert_found(pair_views(pairs@), key@, value@, i as int);
            }
            pairs[i] = Pair { name: key, value };
            proof {
                assert(pair_views(pairs@) =~= pair_views(old(pairs)@).update(
                    i as int,
                    (key@, value@),
                ));
            }
            return;
        }
    }
    proof {
        lemma_upsert_fresh(pair_views(pairs@), key@, value@);
    }
    pairs.push(Pair { name: key, value });
    proof {
        assert(pair_views(pairs@) =~= pair_views(old(pairs)@).push((key@, value@)));
    }
}

/// Split one item on its first `=`.
fn split_item(item: &Vec<char>) -> (r: (String, String))
    ensures
        r.0@ == item_key(item@),
        r.1@ == item_value(item@),
{
    let n = item.len();
    let mut k: usize = 0;
    while k < n && item[k] != '='
        invariant
            k <= n,
            n == item@.len(),
            forall|j: int| 0 <= j < k ==> item@[j] != '=',
        decreases n - k,
    {
        k = k + 1;
    }
    proof {
        lemma_find_char_is(item@, '=', k as int);
    }
    let key = string_from_chars(&sub_chars(item, 0, k));
    proof {
        assert(item@.subrange(0, k as int) =~= item@.take(k as int));
    }
    if k == n {
        let value = String::new();
        assert(value@ =~= item_value(item@));
        (key, value)
    } else {
        let value = string_from_chars(&sub_chars(item, k + 1, n));
        proof {
            assert(item@.subrange(k + 1, n as int) =~= item@.skip(k + 1));
        }
        (key, value)
    }
}

/// Decode a raw query string into its key/value pairs.
///
/// Items are separated by `&`; empty items contribute nothing; an item
/// without `=` maps its whole text to the empty value; when a key repeats,
/// its first position is kept and its last value wins. The returned keys
/// are pairwise distinct.
pub fn decode_query(q: &str) -> (r: Vec<Pair>)
    ensures
        pair_views(r@) == query_pairs_of(q@),
        distinct_keys(pair_views(r@)),
{
    proof {
        lemma_query_keys_distinct(q@);
    }
    let cs = chars_of(q);
    let n = cs.len();
    let mut pairs: Vec<Pair> = Vec::new();
    let mut i: usize = 0;
    proof {
        assert(cs@.skip(0) =~= cs@);
        assert(pair_views(pairs@) =~= Seq::<(Seq<char>, Seq<char>)>::empty());
    }
    while i < n
        invariant
            i <= n,
            n == cs@.len(),
            cs@ == q@,
            query_pairs_from(cs@.skip(i as int), pair_views(pairs@)) == query_pairs_of(q@),
        decreases n - i,
    {
        let ghost suffix = cs@.skip(i as int);
        let ghost before = pair_views(pairs@);
        // scan for the end of the current item
        let mut j: usize = i;
        while j < n && cs[j] != '&'
            invariant
                i <= j <= n,
                n == cs@.len(),
                forall|m: int| i <= m < j ==> cs@[m] != '&',
            decreases n - j,
        {
            j = j + 1;
        }
        proof {
            assert forall|m: int| 0 <= m < j - i implies suffix[m] != '&' by {
                assert(suffix[m] == cs@[i + m]);
            }
            assert(j < n ==> suffix[j - i] == cs@[j as int]);
            lemma_find_char_is(suffix, '&', j - i);
        }
        let item = sub_chars(&cs, i, j);
        proof {
            assert(item@ =~= suffix.take(j - i));
        }
        if item.len() > 0 {
            let (key, value) = split_item(&item);
            upsert_pair(&mut pairs, key, value);
        }
        proof {
            assert(pair_views(pairs@) == insert_item(before, suffix.take(j - i)));
        }
        if j == n {
            proof {
                assert(find_char(suffix, '&') == suffix.len());
                assert(query_pairs_from(suffix, before) == pair_views(pairs@));
            }
            i = n;
            proof {
                assert(cs@.skip(n as int).len() == 0);
            }
        } else {
            proof {
                assert(query_pairs_from(suffix, before) == query_pairs_from(
                    suffix.skip(j - i + 1),
                    pair_views(pairs@),
                ));
                assert(suffix.skip(j - i + 1) =~= cs@.skip(j + 1));
            }
            i = j + 1;
        }
    }
    proof {
        assert(cs@.skip(n as int).len() == 0);
    }
    pairs
}

} // verus!

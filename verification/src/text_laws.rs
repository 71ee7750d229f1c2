//! Facts about searching, cutting, joining and trimming texts.

use vstd::prelude::*;
use vstd::relations::{sorted_by, total_ordering};
use vstd::seq_lib::{to_multiset_build, to_multiset_remove};
use crate::text::{find_from, insert_text, is_space, join, matches_at, ordered, pair_order, sort_pairs, sort_texts, split, split_from, text_le, trim, trim_end, trim_start};

verus! {

/// What `find_from` gives: -1, or a position at or after the start at
/// which the separator stands and before which it does not.
pub proof fn lemma_find_is_first(s: Seq<char>, sep: Seq<char>, i: int)
    requires
        0 <= i,
    ensures
        find_from(s, sep, i) == -1 || (i <= find_from(s, sep, i) && matches_at(
            s,
            sep,
            find_from(s, sep, i),
        ) && sep.len() > 0),
        forall|j: int|
            i <= j && (j < find_from(s, sep, i) || find_from(s, sep, i) == -1) && sep.len() > 0
                ==> !matches_at(s, sep, j),
    decreases s.len() - i,
{
    if sep.len() == 0 || i + sep.len() > s.len() {
    } else if matches_at(s, sep, i) {
    } else {
        lemma_find_is_first(s, sep, i + 1);
    }
}

/// The separator is found at the first position at which it stands.
pub proof fn lemma_find_first(s: Seq<char>, sep: Seq<char>, i: int, k: int)
    requires
        sep.len() > 0,
        0 <= i <= k,
        matches_at(s, sep, k),
        forall|j: int| i <= j < k ==> !matches_at(s, sep, j),
    ensures
        find_from(s, sep, i) == k,
    decreases k - i,
{
    if i < k {
        lemma_find_first(s, sep, i + 1, k);
    }
}

/// The separator is not found where it stands nowhere.
pub proof fn lemma_find_none(s: Seq<char>, sep: Seq<char>, i: int)
    requires
        0 <= i,
        forall|j: int| i <= j ==> !matches_at(s, sep, j),
    ensures
        find_from(s, sep, i) == -1,
    decreases s.len() - i,
{
    if sep.len() == 0 || i + sep.len() > s.len() {
    } else {
        lemma_find_none(s, sep, i + 1);
    }
}

/// Searching behind a prefix is searching in what follows it.
pub proof fn lemma_find_shift(p: Seq<char>, rest: Seq<char>, sep: Seq<char>, start: int)
    requires
        0 <= start,
    ensures
        find_from(p + rest, sep, p.len() + start) == if find_from(rest, sep, start) < 0 {
            -1
        } else {
            p.len() + find_from(rest, sep, start)
        },
    decreases rest.len() - start,
{
    let s = p + rest;
    if sep.len() == 0 || start + sep.len() > rest.len() {
    } else {
        assert(s.subrange(p.len() + start, p.len() + start + sep.len()) =~= rest.subrange(
            start,
            start + sep.len(),
        ));
        if !matches_at(rest, sep, start) {
            lemma_find_shift(p, rest, sep, start + 1);
        }
    }
}

/// Cutting behind a prefix is cutting what follows it.
pub proof fn lemma_split_shift(p: Seq<char>, rest: Seq<char>, sep: Seq<char>, start: int)
    requires
        0 <= start <= rest.len(),
    ensures
        split_from(p + rest, sep, p.len() + start) == split_from(rest, sep, start),
    decreases rest.len() - start,
{
    let s = p + rest;
    lemma_find_shift(p, rest, sep, start);
    lemma_find_is_first(rest, sep, start);
    let k = find_from(rest, sep, start);
    assert(s.skip(p.len() + start) =~= rest.skip(start));
    if sep.len() == 0 || k < start || k + sep.len() > rest.len() {
    } else {
        assert(s.subrange(p.len() + start, p.len() + k) =~= rest.subrange(start, k));
        lemma_split_shift(p, rest, sep, k + sep.len());
    }
}

/// A text that starts with a piece in which the separator does not begin,
/// followed by the separator, is cut into that piece and the pieces of
/// what follows.
pub proof fn lemma_split_first(a: Seq<char>, sep: Seq<char>, rest: Seq<char>)
    requires
        sep.len() > 0,
        forall|j: int| 0 <= j < a.len() ==> !matches_at(a + sep + rest, sep, j),
    ensures
        split(a + sep + rest, sep) == seq![a] + split(rest, sep),
{
    let s = a + sep + rest;
    assert(s.subrange(a.len() as int, (a.len() + sep.len()) as int) =~= sep);
    lemma_find_first(s, sep, 0, a.len() as int);
    assert(s.subrange(0, a.len() as int) =~= a);
    assert(s =~= (a + sep) + rest);
    lemma_split_shift(a + sep, rest, sep, 0);
}

/// A text in which the separator stands nowhere is one piece.
pub proof fn lemma_split_whole(s: Seq<char>, sep: Seq<char>)
    requires
        forall|j: int| 0 <= j ==> !matches_at(s, sep, j),
    ensures
        split(s, sep) == seq![s],
{
    lemma_find_none(s, sep, 0);
    assert(s.skip(0) =~= s);
}

/// A text is cut into one piece at least.
pub proof fn lemma_split_nonempty(s: Seq<char>, sep: Seq<char>, start: int)
    ensures
        split_from(s, sep, start).len() >= 1,
    decreases s.len() - start,
{
    let k = find_from(s, sep, start);
    if sep.len() == 0 || start < 0 || k < start || k + sep.len() > s.len() {
    } else {
        lemma_split_nonempty(s, sep, k + sep.len());
    }
}

/// To join a piece and more pieces is to write the piece, the separator
/// and the other pieces joined.
pub proof fn lemma_join_first(a: Seq<char>, more: Seq<Seq<char>>, sep: Seq<char>)
    requires
        more.len() >= 1,
    ensures
        join(seq![a] + more, sep) == a + sep + join(more, sep),
    decreases more.len(),
{
    let all = seq![a] + more;
    assert(all.drop_last() =~= seq![a] + more.drop_last());
    assert(all.last() == more.last());
    if more.len() == 1 {
        assert(seq![a] + more.drop_last() =~= seq![a]);
        assert(join(seq![a], sep) == a);
        assert(join(more, sep) == more[0]);
    } else {
        lemma_join_first(a, more.drop_last(), sep);
        assert((a + sep + join(more.drop_last(), sep)) + sep + more.last() =~= a + sep + (join(
            more.drop_last(),
            sep,
        ) + sep + more.last()));
    }
}

/// The pieces of a text, joined with the separator, are the text.
pub proof fn lemma_join_split(s: Seq<char>, sep: Seq<char>, start: int)
    requires
        0 <= start <= s.len(),
    ensures
        join(split_from(s, sep, start), sep) == s.skip(start),
    decreases s.len() - start,
{
    let k = find_from(s, sep, start);
    lemma_find_is_first(s, sep, start);
    if sep.len() == 0 || k < start || k + sep.len() > s.len() {
        assert(join(seq![s.skip(start)], sep) == s.skip(start));
    } else {
        lemma_join_split(s, sep, k + sep.len());
        lemma_split_nonempty(s, sep, k + sep.len());
        lemma_join_first(s.subrange(start, k), split_from(s, sep, k + sep.len()), sep);
        assert(s.subrange(k, k + sep.len()) == sep);
        assert(s.subrange(start, k) + sep + s.skip(k + sep.len()) =~= s.skip(start));
    }
}

/// A text that neither starts nor ends with white space is its own
/// trimmed form.
pub proof fn lemma_trim_same(s: Seq<char>)
    requires
        s.len() == 0 || (!is_space(s[0]) && !is_space(s.last())),
    ensures
        trim(s) == s,
{
}

/// What is left of a text without the white space at its start is empty or
/// starts with a character that is no white space.
pub proof fn lemma_trim_start_ends(s: Seq<char>)
    ensures
        trim_start(s).len() == 0 || !is_space(trim_start(s)[0]),
    decreases s.len(),
{
    if s.len() > 0 && is_space(s[0]) {
        lemma_trim_start_ends(s.drop_first());
    }
}

/// What is left of a text without the white space at its end is empty or
/// ends with a character that is no white space; and where the text starts
/// with a character that is no white space, what is left starts with it.
pub proof fn lemma_trim_end_ends(s: Seq<char>)
    ensures
        trim_end(s).len() == 0 || !is_space(trim_end(s).last()),
        s.len() > 0 && !is_space(s[0]) ==> trim_end(s).len() > 0 && trim_end(s)[0] == s[0],
    decreases s.len(),
{
    if s.len() > 0 && is_space(s.last()) {
        lemma_trim_end_ends(s.drop_last());
        if s.len() > 1 {
            assert(s.drop_last()[0] == s[0]);
        }
    }
}

/// A trimmed text is empty or has no white space at its ends, and
/// trimming it again changes nothing.
pub proof fn lemma_trim_trimmed(s: Seq<char>)
    ensures
        trim(s).len() == 0 || (!is_space(trim(s)[0]) && !is_space(trim(s).last())),
        trim(trim(s)) == trim(s),
{
    lemma_trim_start_ends(s);
    lemma_trim_end_ends(trim_start(s));
    lemma_trim_same(trim(s));
}

/// A text that starts with a character that is no white space keeps it
/// when the white space at its end is taken away.
pub proof fn lemma_trim_end_keeps_start(s: Seq<char>)
    requires
        s.len() > 0,
        !is_space(s[0]),
    ensures
        trim_end(s).len() > 0,
    decreases s.len(),
{
    if is_space(s.last()) {
        assert(s.len() > 1);
        assert(s.drop_last()[0] == s[0]);
        lemma_trim_end_keeps_start(s.drop_last());
    }
}

/// A text that starts with a character that is no white space is not
/// blank.
pub proof fn lemma_started_text_not_blank(s: Seq<char>)
    requires
        s.len() > 0,
        !is_space(s[0]),
    ensures
        trim(s).len() > 0,
{
    lemma_trim_end_keeps_start(s);
}

/// Of two texts, one comes before the other or is the other.
pub proof fn lemma_order_total(a: Seq<char>, b: Seq<char>)
    ensures
        text_le(a, b) || text_le(b, a),
    decreases a.len(),
{
    if a.len() > 0 && b.len() > 0 {
        if a[0] == b[0] {
            lemma_order_total(a.drop_first(), b.drop_first());
        } else {
            vstd::utf8::char_u32_cast(a[0], a[0] as u32);
            vstd::utf8::char_u32_cast(b[0], b[0] as u32);
        }
    }
}

/// The order of the dictionary goes through: what comes before a text
/// comes before what that text comes before.
pub proof fn lemma_order_transitive(a: Seq<char>, b: Seq<char>, c: Seq<char>)
    requires
        text_le(a, b),
        text_le(b, c),
    ensures
        text_le(a, c),
    decreases a.len(),
{
    if a.len() > 0 && b.len() > 0 && c.len() > 0 && a[0] == b[0] && b[0] == c[0] {
        lemma_order_transitive(a.drop_first(), b.drop_first(), c.drop_first());
    }
}

/// A sorted list with one more text put in its place is sorted, and holds
/// the texts of the list and the one more.
#[verifier::rlimit(40)]
pub proof fn lemma_insert_ordered(sorted: Seq<Seq<char>>, x: Seq<char>)
    requires
        ordered(sorted),
    ensures
        ordered(insert_text(sorted, x)),
        insert_text(sorted, x).len() == sorted.len() + 1,
        insert_text(sorted, x).to_multiset() == sorted.to_multiset().insert(x),
        forall|y: Seq<char>|
            text_le(y, x) && (forall|i: int| 0 <= i < sorted.len() ==> text_le(y, sorted[i]))
                ==> forall|i: int|
                0 <= i < insert_text(sorted, x).len() ==> text_le(y, #[trigger] insert_text(sorted, x)[i]),
    decreases sorted.len(),
{
    let grown = insert_text(sorted, x);
    if sorted.len() == 0 {
        to_multiset_build(sorted, x);
        assert(grown =~= sorted.push(x));
        assert(grown.to_multiset() =~= sorted.to_multiset().insert(x));
    } else if text_le(sorted.last(), x) {
        to_multiset_build(sorted, x);
        assert(grown.to_multiset() =~= sorted.to_multiset().insert(x));
        assert forall|i: int, j: int| 0 <= i < j < grown.len() implies text_le(
            grown[i],
            grown[j],
        ) by {
            if j == sorted.len() {
                if i < sorted.len() - 1 {
                    assert(text_le(sorted[i], sorted[sorted.len() - 1]));
                    lemma_order_transitive(sorted[i], sorted.last(), x);
                }
            } else {
                assert(text_le(sorted[i], sorted[j]));
            }
        }
    } else {
        let shorter = sorted.drop_last();
        let last = sorted.last();
        assert forall|i: int, j: int| 0 <= i < j < shorter.len() implies text_le(
            shorter[i],
            shorter[j],
        ) by {
            assert(text_le(sorted[i], sorted[j]));
        }
        lemma_insert_ordered(shorter, x);
        lemma_order_total(last, x);
        let inner = insert_text(shorter, x);
        to_multiset_build(inner, last);
        to_multiset_build(shorter, last);
        assert(shorter.push(last) =~= sorted);
        assert(inner.to_multiset().insert(last) =~= sorted.to_multiset().insert(x));
        assert(grown.to_multiset() =~= sorted.to_multiset().insert(x));
        assert forall|i: int| 0 <= i < inner.len() implies text_le(#[trigger] inner[i], last) by {
            assert(inner.to_multiset().count(inner[i]) > 0) by {
                inner.to_multiset_ensures();
                assert(inner.contains(inner[i]));
            }
            if inner[i] != x {
                assert(shorter.to_multiset().count(inner[i]) > 0);
                shorter.to_multiset_ensures();
                assert(shorter.contains(inner[i]));
                let k = choose|k: int| 0 <= k < shorter.len() && shorter[k] == inner[i];
                assert(text_le(sorted[k], sorted[sorted.len() - 1]));
            }
        }
        assert forall|i: int, j: int| 0 <= i < j < grown.len() implies text_le(
            grown[i],
            grown[j],
        ) by {
            if j < inner.len() {
                assert(text_le(inner[i], inner[j]));
            }
        }
        assert forall|y: Seq<char>|
            text_le(y, x) && (forall|i: int| 0 <= i < sorted.len() ==> text_le(y, sorted[i]))
                implies forall|i: int| 0 <= i < grown.len() ==> text_le(y, #[trigger] grown[i]) by {
            assert forall|i: int| 0 <= i < shorter.len() implies text_le(y, shorter[i]) by {
                assert(shorter[i] == sorted[i]);
            }
            assert forall|i: int| 0 <= i < grown.len() implies text_le(y, #[trigger] grown[i]) by {
                if i < inner.len() {
                    assert(grown[i] == inner[i]);
                } else {
                    assert(grown[i] == sorted[sorted.len() - 1]);
                }
            }
        }
    }
}

/// The sorted form of a list is in the order of the dictionary and holds
/// the texts of the list, each as often as the list holds it.
pub proof fn lemma_sort_ordered(texts: Seq<Seq<char>>)
    ensures
        ordered(sort_texts(texts)),
        sort_texts(texts).len() == texts.len(),
        sort_texts(texts).to_multiset() == texts.to_multiset(),
    decreases texts.len(),
{
    if texts.len() == 0 {
        assert(texts =~= Seq::empty());
    } else {
        lemma_sort_ordered(texts.drop_last());
        lemma_insert_ordered(sort_texts(texts.drop_last()), texts.last());
        to_multiset_build(texts.drop_last(), texts.last());
        assert(texts.drop_last().push(texts.last()) =~= texts);
        assert(sort_texts(texts).to_multiset() =~= texts.to_multiset());
    }
}

/// Two texts of which each comes before the other, or is it, are one
/// text.
pub proof fn lemma_order_antisymmetric(a: Seq<char>, b: Seq<char>)
    requires
        text_le(a, b),
        text_le(b, a),
    ensures
        a == b,
    decreases a.len(),
{
    if a.len() > 0 && b.len() > 0 {
        if a[0] == b[0] {
            lemma_order_antisymmetric(a.drop_first(), b.drop_first());
            assert(a =~= seq![a[0]] + a.drop_first());
            assert(b =~= seq![b[0]] + b.drop_first());
        }
    } else {
        assert(a =~= b);
    }
}

/// There is one sorted list of given texts: two sorted lists that hold
/// the same texts, each as often as the other, are the same list.
#[verifier::rlimit(40)]
pub proof fn lemma_sorted_unique(a: Seq<Seq<char>>, b: Seq<Seq<char>>)
    requires
        ordered(a),
        ordered(b),
        a.to_multiset() == b.to_multiset(),
    ensures
        a == b,
    decreases a.len(),
{
    a.to_multiset_ensures();
    b.to_multiset_ensures();
    if a.len() == 0 {
        assert(a =~= b);
    } else {
        let x = a.last();
        let y = b.last();
        assert(a.contains(x)) by {
            assert(a[a.len() - 1] == x);
        }
        assert(b.contains(y)) by {
            assert(b[b.len() - 1] == y);
        }
        assert(b.to_multiset().count(x) > 0);
        assert(b.contains(x));
        let i = choose|i: int| 0 <= i < b.len() && b[i] == x;
        assert(text_le(x, y)) by {
            if i < b.len() - 1 {
                assert(text_le(b[i], b[b.len() - 1]));
            } else {
                lemma_order_total(x, x);
            }
        }
        assert(a.to_multiset().count(y) > 0);
        assert(a.contains(y));
        let j = choose|j: int| 0 <= j < a.len() && a[j] == y;
        assert(text_le(y, x)) by {
            if j < a.len() - 1 {
                assert(text_le(a[j], a[a.len() - 1]));
            } else {
                lemma_order_total(y, y);
            }
        }
        lemma_order_antisymmetric(x, y);
        to_multiset_remove(a, a.len() - 1);
        to_multiset_remove(b, b.len() - 1);
        assert(a.remove(a.len() - 1) =~= a.drop_last());
        assert(b.remove(b.len() - 1) =~= b.drop_last());
        assert forall|p: int, q: int| 0 <= p < q < a.drop_last().len() implies text_le(
            a.drop_last()[p],
            a.drop_last()[q],
        ) by {
            assert(text_le(a[p], a[q]));
        }
        assert forall|p: int, q: int| 0 <= p < q < b.drop_last().len() implies text_le(
            b.drop_last()[p],
            b.drop_last()[q],
        ) by {
            assert(text_le(b[p], b[q]));
        }
        lemma_sorted_unique(a.drop_last(), b.drop_last());
        assert(a =~= a.drop_last().push(x));
        assert(b =~= b.drop_last().push(y));
    }
}

/// The sorted form of a list does not depend on the order of the list.
pub proof fn lemma_sort_any_order(a: Seq<Seq<char>>, b: Seq<Seq<char>>)
    requires
        a.to_multiset() == b.to_multiset(),
    ensures
        sort_texts(a) == sort_texts(b),
{
    lemma_sort_ordered(a);
    lemma_sort_ordered(b);
    lemma_sorted_unique(sort_texts(a), sort_texts(b));
}

/// Lists that hold the same entries, each as often as the other, still do
/// so after every entry was turned into another in the same way.
#[verifier::rlimit(40)]
pub proof fn lemma_map_any_order<T>(
    a: Seq<(Seq<char>, Seq<char>)>,
    b: Seq<(Seq<char>, Seq<char>)>,
    f: spec_fn((Seq<char>, Seq<char>)) -> T,
)
    requires
        a.to_multiset() == b.to_multiset(),
    ensures
        a.map_values(f).to_multiset() == b.map_values(f).to_multiset(),
    decreases a.len(),
{
    a.to_multiset_ensures();
    b.to_multiset_ensures();
    if a.len() == 0 {
        assert(b.len() == 0);
        assert(a.map_values(f) =~= b.map_values(f));
    } else {
        let x = a.last();
        assert(a.contains(x)) by {
            assert(a[a.len() - 1] == x);
        }
        assert(b.to_multiset().count(x) > 0);
        assert(b.contains(x));
        let k = choose|k: int| 0 <= k < b.len() && b[k] == x;
        let shorter = a.drop_last();
        let other = b.remove(k);
        to_multiset_remove(a, a.len() - 1);
        to_multiset_remove(b, k);
        assert(a.remove(a.len() - 1) =~= shorter);
        lemma_map_any_order(shorter, other, f);
        let ma = a.map_values(f);
        let mb = b.map_values(f);
        assert(ma =~= shorter.map_values(f).push(f(x)));
        to_multiset_build(shorter.map_values(f), f(x));
        assert(mb.remove(k) =~= other.map_values(f));
        to_multiset_remove(mb, k);
        mb.to_multiset_ensures();
        assert(mb.contains(mb[k]));
        assert(mb[k] == f(x));
        assert(mb.to_multiset() =~= other.map_values(f).to_multiset().insert(f(x)));
        assert(ma.to_multiset() =~= mb.to_multiset());
    }
}

/// Every text stands to itself in the order of the dictionary.
pub proof fn lemma_order_reflexive(a: Seq<char>)
    ensures
        text_le(a, a),
{
    lemma_order_total(a, a);
}

/// The order of pairs is an order: every pair stands in it to itself, two
/// pairs of which each stands to the other are one pair, it goes through,
/// and of two pairs one stands to the other.
pub proof fn lemma_pair_order_total()
    ensures
        total_ordering(pair_order()),
{
    let r = pair_order();
    assert forall|x: (Seq<char>, Seq<char>)| #[trigger] r(x, x) by {
        lemma_order_reflexive(x.1);
    }
    assert forall|x: (Seq<char>, Seq<char>), y: (Seq<char>, Seq<char>)|
        #[trigger] r(x, y) && #[trigger] r(y, x) implies x == y by {
        if x.0 == y.0 {
            lemma_order_antisymmetric(x.1, y.1);
        } else {
            lemma_order_antisymmetric(x.0, y.0);
        }
    }
    assert forall|x: (Seq<char>, Seq<char>), y: (Seq<char>, Seq<char>), z: (Seq<char>, Seq<char>)|
        #[trigger] r(x, y) && #[trigger] r(y, z) implies r(x, z) by {
        if x.0 == y.0 && y.0 == z.0 {
            lemma_order_transitive(x.1, y.1, z.1);
        } else if x.0 != y.0 && y.0 != z.0 {
            lemma_order_transitive(x.0, y.0, z.0);
            if x.0 == z.0 {
                lemma_order_antisymmetric(x.0, y.0);
            }
        }
    }
    assert forall|x: (Seq<char>, Seq<char>), y: (Seq<char>, Seq<char>)|
        #[trigger] r(x, y) || #[trigger] r(y, x) by {
        if x.0 == y.0 {
            lemma_order_total(x.1, y.1);
        } else {
            lemma_order_total(x.0, y.0);
        }
    }
}

/// The sorted form of a list of pairs is in order and holds the pairs of
/// the list, each as often as the list holds it.
pub proof fn lemma_sort_pairs_ordered(pairs: Seq<(Seq<char>, Seq<char>)>)
    ensures
        sorted_by(sort_pairs(pairs), pair_order()),
        sort_pairs(pairs).to_multiset() == pairs.to_multiset(),
        sort_pairs(pairs).len() == pairs.len(),
{
    lemma_pair_order_total();
    pairs.lemma_sort_by_ensures(pair_order());
    vstd::seq_lib::to_multiset_len(pairs);
    vstd::seq_lib::to_multiset_len(sort_pairs(pairs));
}

/// The sorted form of a list of pairs does not depend on the order of the
/// list.
pub proof fn lemma_sort_pairs_any_order(
    a: Seq<(Seq<char>, Seq<char>)>,
    b: Seq<(Seq<char>, Seq<char>)>,
)
    requires
        a.to_multiset() == b.to_multiset(),
    ensures
        sort_pairs(a) == sort_pairs(b),
{
    lemma_pair_order_total();
    lemma_sort_pairs_ordered(a);
    lemma_sort_pairs_ordered(b);
    vstd::seq_lib::lemma_sorted_unique(sort_pairs(a), sort_pairs(b), pair_order());
}

} // verus!

//! Character-level helpers shared by the parsers and the request builders.

use vstd::prelude::*;
use vstd::relations::{sorted_by, total_ordering};
use vstd::seq_lib::{to_multiset_build, to_multiset_insert};
use vstd::string::*;
use crate::text_laws::lemma_pair_order_total;

verus! {

/// `String::push` of std appends the character to the end of the string.
pub assume_specification[ String::push ](s: &mut String, c: char)
    ensures
        final(s)@ == old(s)@.push(c),
;

/// Whether two strings hold the same characters.
pub fn same_text(a: &str, b: &str) -> (r: bool)
    ensures
        r == (a@ == b@),
{
    let x = a.to_owned();
    let y = b.to_owned();
    x == y
}

/// The characters of `s`, in order.
pub fn chars_of(s: &str) -> (r: Vec<char>)
    ensures
        r@ == s@,
{
    let mut out: Vec<char> = Vec::new();
    for c in it: s.chars()
        invariant
            out@ == it.seq().take(it.index() as int),
    {
        out.push(c);
    }
    out
}

/// The string made of the characters of `chars`.
pub fn string_of(chars: &Vec<char>) -> (r: String)
    ensures
        r@ == chars@,
{
    let mut out = String::new();
    let mut i: usize = 0;
    while i < chars.len()
        invariant
            i <= chars.len(),
            out@ == chars@.take(i as int),
        decreases chars.len() - i,
    {
        out.push(chars[i]);
        i += 1;
    }
    out
}

/// The string made of the characters of `chars` from `from` up to, and
/// without, `to`.
pub fn string_of_range(chars: &Vec<char>, from: usize, to: usize) -> (r: String)
    requires
        from <= to <= chars.len(),
    ensures
        r@ == chars@.subrange(from as int, to as int),
{
    let mut out = String::new();
    let mut i: usize = from;
    while i < to
        invariant
            from <= i <= to <= chars.len(),
            out@ == chars@.subrange(from as int, i as int),
        decreases to - i,
    {
        out.push(chars[i]);
        i += 1;
    }
    out
}

/// White space: the characters that `trim` removes from the ends of a
/// text.
pub open spec fn is_space(c: char) -> bool {
    let n: u32 = c as u32;
    (0x09 <= n <= 0x0d) || n == 0x20 || n == 0x85 || n == 0xa0 || n == 0x1680 || (0x2000 <= n
        <= 0x200a) || n == 0x2028 || n == 0x2029 || n == 0x202f || n == 0x205f || n == 0x3000
}

/// `s` without the white space at its start.
pub open spec fn trim_start(s: Seq<char>) -> Seq<char>
    decreases s.len(),
{
    if s.len() > 0 && is_space(s[0]) {
        trim_start(s.drop_first())
    } else {
        s
    }
}

/// `s` without the white space at its end.
pub open spec fn trim_end(s: Seq<char>) -> Seq<char>
    decreases s.len(),
{
    if s.len() > 0 && is_space(s.last()) {
        trim_end(s.drop_last())
    } else {
        s
    }
}

/// `s` without the white space at its two ends.
pub open spec fn trim(s: Seq<char>) -> Seq<char> {
    trim_end(trim_start(s))
}

/// Whether `c` is white space.
pub fn char_is_space(c: char) -> (r: bool)
    ensures
        r == is_space(c),
{
    let n: u32 = c as u32;
    (0x09 <= n && n <= 0x0d) || n == 0x20 || n == 0x85 || n == 0xa0 || n == 0x1680 || (0x2000 <= n
        && n <= 0x200a) || n == 0x2028 || n == 0x2029 || n == 0x202f || n == 0x205f || n
        == 0x3000
}

/// The bounds of `chars` without the white space at its two ends: the
/// trimmed text is what lies from the first bound up to the second.
pub fn trim_bounds(chars: &Vec<char>) -> (r: (usize, usize))
    ensures
        r.0 <= r.1 <= chars.len(),
        chars@.subrange(r.0 as int, r.1 as int) == trim(chars@),
{
    let mut from: usize = 0;
    assert(chars@.skip(0) =~= chars@);
    while from < chars.len() && char_is_space(chars[from])
        invariant
            from <= chars.len(),
            trim_start(chars@) == trim_start(chars@.skip(from as int)),
        decreases chars.len() - from,
    {
        assert(chars@.skip(from as int).drop_first() =~= chars@.skip(from as int + 1));
        from += 1;
    }
    assert(trim_start(chars@) == chars@.skip(from as int));
    let mut to: usize = chars.len();
    assert(chars@.skip(from as int) =~= chars@.subrange(from as int, to as int));
    while to > from && char_is_space(chars[to - 1])
        invariant
            from <= to <= chars.len(),
            trim(chars@) == trim_end(chars@.subrange(from as int, to as int)),
        decreases to,
    {
        assert(chars@.subrange(from as int, to as int).drop_last() =~= chars@.subrange(
            from as int,
            to as int - 1,
        ));
        to -= 1;
    }
    (from, to)
}

/// `s` without the white space at its two ends.
pub fn trimmed(s: &str) -> (r: String)
    ensures
        r@ == trim(s@),
{
    let chars = chars_of(s);
    let (from, to) = trim_bounds(&chars);
    string_of_range(&chars, from, to)
}

/// Whether `s` holds nothing but white space.
pub fn is_blank(s: &str) -> (r: bool)
    ensures
        r == (trim(s@).len() == 0),
{
    let chars = chars_of(s);
    let (from, to) = trim_bounds(&chars);
    from == to
}

/// The characters of `chars` from `from` up to, and without, `to`.
pub fn chars_of_range(chars: &Vec<char>, from: usize, to: usize) -> (r: Vec<char>)
    requires
        from <= to <= chars.len(),
    ensures
        r@ == chars@.subrange(from as int, to as int),
{
    let mut out: Vec<char> = Vec::new();
    let mut i: usize = from;
    while i < to
        invariant
            from <= i <= to <= chars.len(),
            out@ == chars@.subrange(from as int, i as int),
        decreases to - i,
    {
        out.push(chars[i]);
        i += 1;
    }
    out
}

/// Whether `sep` stands in `s` at position `i`.
pub open spec fn matches_at(s: Seq<char>, sep: Seq<char>, i: int) -> bool {
    0 <= i && i + sep.len() <= s.len() && s.subrange(i, i + sep.len()) == sep
}

/// The first position at or after `i` at which `sep` stands in `s`, or -1.
/// An empty `sep` is found nowhere.
pub open spec fn find_from(s: Seq<char>, sep: Seq<char>, i: int) -> int
    decreases s.len() - i,
{
    if sep.len() == 0 || i < 0 || i + sep.len() > s.len() {
        -1
    } else if matches_at(s, sep, i) {
        i
    } else {
        find_from(s, sep, i + 1)
    }
}

/// The pieces of `s` from position `start` on, cut at each occurrence of
/// `sep`, the occurrences taken from the left and not overlapping.
pub open spec fn split_from(s: Seq<char>, sep: Seq<char>, start: int) -> Seq<Seq<char>>
    decreases s.len() - start,
{
    let k = find_from(s, sep, start);
    if sep.len() == 0 || start < 0 || k < start || k + sep.len() > s.len() {
        seq![s.skip(start)]
    } else {
        seq![s.subrange(start, k)] + split_from(s, sep, k + sep.len())
    }
}

/// The pieces of `s` between the occurrences of `sep`.
pub open spec fn split(s: Seq<char>, sep: Seq<char>) -> Seq<Seq<char>> {
    split_from(s, sep, 0)
}

/// The contents of a list of texts.
pub open spec fn texts(pieces: Seq<Vec<char>>) -> Seq<Seq<char>> {
    pieces.map_values(|p: Vec<char>| p@)
}

/// Whether `sep` stands in `s` at position `i`.
pub fn matches_here(s: &Vec<char>, sep: &Vec<char>, i: usize) -> (r: bool)
    requires
        i + sep.len() <= s.len(),
    ensures
        r == matches_at(s@, sep@, i as int),
{
    let mut j: usize = 0;
    while j < sep.len()
        invariant
            j <= sep.len(),
            i + sep.len() <= s.len(),
            s@.subrange(i as int, i + j) == sep@.take(j as int),
        decreases sep.len() - j,
    {
        if s[i + j] != sep[j] {
            assert(s@.subrange(i as int, i + sep.len())[j as int] != sep@[j as int]);
            return false;
        }
        assert(s@.subrange(i as int, i + j + 1) =~= s@.subrange(i as int, i + j).push(
            s@[i + j],
        ));
        assert(sep@.take(j + 1) =~= sep@.take(j as int).push(sep@[j as int]));
        j += 1;
    }
    assert(sep@.take(sep.len() as int) =~= sep@);
    true
}

/// The first position at or after `start` at which `sep` stands in `s`.
pub fn find(s: &Vec<char>, sep: &Vec<char>, start: usize) -> (r: Option<usize>)
    requires
        start <= s.len(),
        sep.len() > 0,
    ensures
        match r {
            Some(k) => find_from(s@, sep@, start as int) == k && start <= k && k + sep.len()
                <= s.len(),
            None => find_from(s@, sep@, start as int) == -1,
        },
{
    if sep.len() > s.len() {
        return None;
    }
    let last: usize = s.len() - sep.len();
    let mut i: usize = start;
    while i <= last
        invariant
            start <= i,
            sep.len() > 0,
            last + sep.len() == s.len(),
            find_from(s@, sep@, start as int) == find_from(s@, sep@, i as int),
        decreases last + 1 - i,
    {
        if matches_here(s, sep, i) {
            return Some(i);
        }
        i += 1;
    }
    None
}

/// Cuts `s` at each occurrence of `sep`.
pub fn split_text(s: &Vec<char>, sep: &Vec<char>) -> (r: Vec<Vec<char>>)
    requires
        sep.len() > 0,
    ensures
        texts(r@) == split(s@, sep@),
{
    let mut out: Vec<Vec<char>> = Vec::new();
    let mut start: usize = 0;
    loop
        invariant
            start <= s.len(),
            sep.len() > 0,
            split(s@, sep@) == texts(out@) + split_from(s@, sep@, start as int),
        decreases s.len() - start,
    {
        match find(s, sep, start) {
            Some(k) => {
                let piece = chars_of_range(s, start, k);
                let ghost before = out@;
                out.push(piece);
                assert(texts(out@) =~= texts(before) + seq![piece@]);
                start = k + sep.len();
            },
            None => {
                let piece = chars_of_range(s, start, s.len());
                let ghost before = out@;
                out.push(piece);
                assert(texts(out@) =~= texts(before) + seq![piece@]);
                assert(s@.skip(start as int) =~= s@.subrange(start as int, s.len() as int));
                return out;
            },
        }
    }
}

/// The texts of `parts` in one text, with `sep` between each two.
pub open spec fn join(parts: Seq<Seq<char>>, sep: Seq<char>) -> Seq<char>
    decreases parts.len(),
{
    if parts.len() == 0 {
        Seq::empty()
    } else if parts.len() == 1 {
        parts[0]
    } else {
        join(parts.drop_last(), sep) + sep + parts.last()
    }
}

/// The contents of a list of strings.
pub open spec fn strings_view(strings: Seq<String>) -> Seq<Seq<char>> {
    strings.map_values(|s: String| s@)
}

/// Writes the strings of `parts` one after the other, with `sep` between
/// each two.
pub fn join_strings(parts: &Vec<String>, sep: &str) -> (r: String)
    ensures
        r@ == join(strings_view(parts@), sep@),
{
    let mut out = String::new();
    let mut i: usize = 0;
    while i < parts.len()
        invariant
            i <= parts.len(),
            out@ == join(strings_view(parts@).take(i as int), sep@),
        decreases parts.len() - i,
    {
        if i > 0 {
            out.append(sep);
        }
        out.append(parts[i].as_str());
        proof {
            let done = strings_view(parts@).take(i as int + 1);
            assert(done.drop_last() =~= strings_view(parts@).take(i as int));
            assert(done.last() == parts@[i as int]@);
            if i == 0 {
                assert(out@ =~= done[0]);
            }
        }
        i += 1;
    }
    assert(strings_view(parts@).take(parts.len() as int) =~= strings_view(parts@));
    out
}

/// The lower-case form of a text.
pub uninterp spec fn lowercase_text(s: Seq<char>) -> Seq<char>;

/// Calls `str::to_lowercase` of std, which gives the lower-case form of
/// the text as Unicode defines it. The result is here only given a name.
#[verifier::external_body]
pub(crate) fn lowercase(s: &str) -> (r: String)
    ensures
        r@ == lowercase_text(s@),
{
    s.to_lowercase()
}

/// Whether `a` comes before `b`, or is `b`, in the order of the
/// dictionary, the characters taken by their numbers.
pub open spec fn text_le(a: Seq<char>, b: Seq<char>) -> bool
    decreases a.len(),
{
    if a.len() == 0 {
        true
    } else if b.len() == 0 {
        false
    } else if a[0] != b[0] {
        (a[0] as u32) < (b[0] as u32)
    } else {
        text_le(a.drop_first(), b.drop_first())
    }
}

/// Whether `a` comes before `b`, or is `b`, in the order of the
/// dictionary.
pub fn text_precedes(a: &str, b: &str) -> (r: bool)
    ensures
        r == text_le(a@, b@),
{
    let x = chars_of(a);
    let y = chars_of(b);
    let mut i: usize = 0;
    assert(x@.skip(0) =~= x@);
    assert(y@.skip(0) =~= y@);
    loop
        invariant
            i <= x.len(),
            i <= y.len(),
            x@ == a@,
            y@ == b@,
            text_le(a@, b@) == text_le(x@.skip(i as int), y@.skip(i as int)),
        decreases x.len() - i,
    {
        if i >= x.len() {
            return true;
        }
        if i >= y.len() {
            return false;
        }
        if x[i] != y[i] {
            return (x[i] as u32) < (y[i] as u32);
        }
        assert(x@.skip(i as int).drop_first() =~= x@.skip(i as int + 1));
        assert(y@.skip(i as int).drop_first() =~= y@.skip(i as int + 1));
        i += 1;
    }
}

/// A sorted list with one more text, put behind the last text that does
/// not come after it.
pub open spec fn insert_text(sorted: Seq<Seq<char>>, x: Seq<char>) -> Seq<Seq<char>>
    decreases sorted.len(),
{
    if sorted.len() == 0 {
        seq![x]
    } else if text_le(sorted.last(), x) {
        sorted.push(x)
    } else {
        insert_text(sorted.drop_last(), x).push(sorted.last())
    }
}

/// The texts of a list in the order of the dictionary.
pub open spec fn sort_texts(texts: Seq<Seq<char>>) -> Seq<Seq<char>>
    decreases texts.len(),
{
    if texts.len() == 0 {
        Seq::empty()
    } else {
        insert_text(sort_texts(texts.drop_last()), texts.last())
    }
}

/// Whether each text of a list comes before the next, or is the next.
pub open spec fn ordered(texts: Seq<Seq<char>>) -> bool {
    forall|i: int, j: int| 0 <= i < j < texts.len() ==> text_le(texts[i], texts[j])
}

/// Puts the strings of a list in the order of the dictionary.
#[verifier::rlimit(40)]
pub fn sort_strings(strings: Vec<String>) -> (r: Vec<String>)
    ensures
        strings_view(r@) == sort_texts(strings_view(strings@)),
{
    let mut out: Vec<String> = Vec::new();
    let mut i: usize = 0;
    assert(strings_view(out@) =~= Seq::empty());
    assert(strings_view(strings@).take(0) =~= Seq::empty());
    while i < strings.len()
        invariant
            i <= strings.len(),
            strings_view(out@) == sort_texts(strings_view(strings@).take(i as int)),
        decreases strings.len() - i,
    {
        let x = strings[i].clone();
        let mut k: usize = out.len();
        let ghost sorted = strings_view(out@);
        assert(sorted.take(k as int) =~= sorted);
        assert(sorted.skip(k as int) =~= Seq::empty());
        while k > 0 && !text_precedes(out[k - 1].as_str(), x.as_str())
            invariant
                k <= out.len(),
                sorted == strings_view(out@),
                insert_text(sorted, x@) == insert_text(sorted.take(k as int), x@) + sorted.skip(
                    k as int,
                ),
            decreases k,
        {
            proof {
                let head = sorted.take(k as int);
                assert(head.drop_last() =~= sorted.take(k as int - 1));
                assert(head.last() == sorted[k as int - 1]);
                assert(insert_text(head.drop_last(), x@).push(head.last()) + sorted.skip(k as int)
                    =~= insert_text(head.drop_last(), x@) + sorted.skip(k as int - 1));
            }
            k -= 1;
        }
        proof {
            let head = sorted.take(k as int);
            if k > 0 {
                assert(head.last() == sorted[k as int - 1]);
            }
            assert(insert_text(head, x@) == head.push(x@));
            assert(head.push(x@) + sorted.skip(k as int) =~= sorted.insert(k as int, x@));
            assert(strings_view(out@.insert(k as int, x)) =~= sorted.insert(k as int, x@));
            let done = strings_view(strings@).take(i as int + 1);
            assert(done.drop_last() =~= strings_view(strings@).take(i as int));
            assert(done.last() == x@);
        }
        out.insert(k, x);
        i += 1;
    }
    assert(strings_view(strings@).take(strings.len() as int) =~= strings_view(strings@));
    out
}

/// The names and values of a list of pairs of strings.
pub open spec fn pairs_view(pairs: Seq<(String, String)>) -> Seq<(Seq<char>, Seq<char>)> {
    pairs.map_values(|p: (String, String)| (p.0@, p.1@))
}

/// Whether the pair `a` comes before the pair `b`, or is `b`: by their
/// first texts in the order of the dictionary, and by their second texts
/// where the first are one text.
pub open spec fn pair_le(a: (Seq<char>, Seq<char>), b: (Seq<char>, Seq<char>)) -> bool {
    if a.0 == b.0 {
        text_le(a.1, b.1)
    } else {
        text_le(a.0, b.0)
    }
}

/// The order of pairs as a relation.
pub open spec fn pair_order() -> spec_fn((Seq<char>, Seq<char>), (Seq<char>, Seq<char>)) -> bool {
    |a: (Seq<char>, Seq<char>), b: (Seq<char>, Seq<char>)| pair_le(a, b)
}

/// The pairs of a list in their order: by first text, and by second text
/// among pairs with one first text.
pub open spec fn sort_pairs(pairs: Seq<(Seq<char>, Seq<char>)>) -> Seq<(Seq<char>, Seq<char>)> {
    pairs.sort_by(pair_order())
}

/// Whether the pair `a` comes before the pair `b`, or is `b`.
pub fn pair_precedes(a: &(String, String), b: &(String, String)) -> (r: bool)
    ensures
        r == pair_le((a.0@, a.1@), (b.0@, b.1@)),
{
    if same_text(a.0.as_str(), b.0.as_str()) {
        text_precedes(a.1.as_str(), b.1.as_str())
    } else {
        text_precedes(a.0.as_str(), b.0.as_str())
    }
}

/// Puts the pairs of a list in their order.
pub fn sort_string_pairs(pairs: Vec<(String, String)>) -> (r: Vec<(String, String)>)
    ensures
        pairs_view(r@) == sort_pairs(pairs_view(pairs@)),
{
    let mut out: Vec<(String, String)> = Vec::new();
    let mut i: usize = 0;
    let ghost all = pairs_view(pairs@);
    proof {
        lemma_pair_order_total();
        assert(pairs_view(out@) =~= all.take(0));
    }
    while i < pairs.len()
        invariant
            i <= pairs.len(),
            all == pairs_view(pairs@),
            total_ordering(pair_order()),
            sorted_by(pairs_view(out@), pair_order()),
            pairs_view(out@).to_multiset() == all.take(i as int).to_multiset(),
        decreases pairs.len() - i,
    {
        let x = (pairs[i].0.clone(), pairs[i].1.clone());
        let mut k: usize = out.len();
        let ghost sorted = pairs_view(out@);
        let ghost xv = (x.0@, x.1@);
        assert(xv == all[i as int]);
        while k > 0 && !pair_precedes(&out[k - 1], &x)
            invariant
                k <= out.len(),
                sorted == pairs_view(out@),
                xv == (x.0@, x.1@),
                total_ordering(pair_order()),
                forall|j: int| k <= j < sorted.len() ==> pair_le(xv, #[trigger] sorted[j]),
            decreases k,
        {
            proof {
                assert(pair_order()(sorted[k as int - 1], xv) || pair_order()(
                    xv,
                    sorted[k as int - 1],
                ));
            }
            k -= 1;
        }
        proof {
            let grown = sorted.insert(k as int, xv);
            assert(pairs_view(out@.insert(k as int, x)) =~= grown);
            to_multiset_insert(sorted, k as int, xv);
            assert forall|a: int, b: int| 0 <= a < b < grown.len() implies #[trigger] pair_order()(
                grown[a],
                grown[b],
            ) by {
                if b < k {
                    assert(pair_order()(sorted[a], sorted[b]));
                } else if b == k {
                    if a < k - 1 {
                        assert(pair_order()(sorted[a], sorted[k as int - 1]));
                        assert(pair_order()(sorted[k as int - 1], xv));
                    } else {
                        assert(pair_order()(sorted[k as int - 1], xv));
                    }
                } else if a < k {
                    assert(pair_order()(sorted[a], sorted[b - 1]));
                } else if a == k {
                    assert(pair_le(xv, sorted[b - 1]));
                } else {
                    assert(pair_order()(sorted[a - 1], sorted[b - 1]));
                }
            }
            let done = all.take(i as int + 1);
            assert(done =~= all.take(i as int).push(xv));
            to_multiset_build(all.take(i as int), xv);
        }
        out.insert(k, x);
        i += 1;
    }
    proof {
        assert(all.take(pairs.len() as int) =~= all);
        all.lemma_sort_by_ensures(pair_order());
        vstd::seq_lib::lemma_sorted_unique(pairs_view(out@), sort_pairs(all), pair_order());
    }
    out
}

/// The ten decimal digits.
pub open spec fn decimal_digit_chars() -> Seq<char> {
    seq!['0', '1', '2', '3', '4', '5', '6', '7', '8', '9']
}

/// The decimal numeral of `n`, without leading zeros.
pub open spec fn decimal_digits(n: nat) -> Seq<char>
    decreases n,
{
    if n < 10 {
        seq![decimal_digit_chars()[n as int]]
    } else {
        decimal_digits(n / 10).push(decimal_digit_chars()[(n % 10) as int])
    }
}

/// The decimal numeral of a signed number: a minus sign before the
/// numeral of a negative number's magnitude.
pub open spec fn signed_decimal_digits(n: int) -> Seq<char> {
    if n < 0 {
        seq!['-'] + decimal_digits((-n) as nat)
    } else {
        decimal_digits(n as nat)
    }
}

/// The character of one decimal digit.
pub fn digit_char(d: u8) -> (r: char)
    requires
        d < 10,
    ensures
        r == decimal_digit_chars()[d as int],
{
    if d == 0 {
        '0'
    } else if d == 1 {
        '1'
    } else if d == 2 {
        '2'
    } else if d == 3 {
        '3'
    } else if d == 4 {
        '4'
    } else if d == 5 {
        '5'
    } else if d == 6 {
        '6'
    } else if d == 7 {
        '7'
    } else if d == 8 {
        '8'
    } else {
        '9'
    }
}

/// Writes `n` in decimal.
pub fn decimal(n: u64) -> (r: String)
    ensures
        r@ == decimal_digits(n as nat),
    decreases n,
{
    if n < 10 {
        let mut out = String::new();
        out.push(digit_char(n as u8));
        out
    } else {
        let mut out = decimal(n / 10);
        out.push(digit_char((n % 10) as u8));
        out
    }
}

/// Writes a number of up to 128 bits in decimal.
pub fn decimal_wide(n: u128) -> (r: String)
    ensures
        r@ == decimal_digits(n as nat),
    decreases n,
{
    if n < 10 {
        let mut out = String::new();
        out.push(digit_char(n as u8));
        out
    } else {
        let mut out = decimal_wide(n / 10);
        out.push(digit_char((n % 10) as u8));
        out
    }
}

/// Writes a signed number in decimal.
pub fn signed_decimal(n: i64) -> (r: String)
    ensures
        r@ == signed_decimal_digits(n as int),
{
    if n < 0 {
        let magnitude: u64 = if n == i64::MIN {
            9223372036854775808u64
        } else {
            (-n) as u64
        };
        let mut out = String::new();
        out.push('-');
        let digits = decimal(magnitude);
        out.append(digits.as_str());
        out
    } else {
        decimal(n as u64)
    }
}

} // verus!

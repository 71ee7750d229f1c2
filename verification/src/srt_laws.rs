//! What is written in the block format is read back as it was.

use vstd::prelude::*;
use crate::srt::{arrow, block_cue, blocks_cues, clock_text, cue_block, digit, digit_value, fraction_millis, hours_text, number_value, seconds_millis, srt_cues, srt_text, time_text, time_value, two_digits, with_points};
use crate::text::{decimal_digits, find_from, is_space, join, matches_at, split, trim};
use crate::text_laws::{lemma_find_first, lemma_join_split, lemma_split_first, lemma_split_nonempty, lemma_split_whole, lemma_trim_same, lemma_trim_trimmed};
use crate::video::SubtitleView;

verus! {

/// Whether a character is a decimal digit.
pub open spec fn is_digit(c: char) -> bool {
    digit_value(c) is Some
}

/// The character of a digit is a digit of that value.
pub proof fn lemma_digit(d: nat)
    requires
        d < 10,
    ensures
        digit_value(digit(d)) == Some(d),
        is_digit(digit(d)),
        !is_space(digit(d)),
        digit(d) != ':',
        digit(d) != ',',
        digit(d) != '.',
        digit(d) != ' ',
        digit(d) != '\n',
{
}

/// A digit is no white space and none of the marks of a time.
pub proof fn lemma_digit_char(c: char)
    requires
        is_digit(c),
    ensures
        !is_space(c),
        c != ':',
        c != ',',
        c != '.',
        c != ' ',
        c != '\n',
{
}

/// The decimal numeral of a number is made of digits and stands for the
/// number.
pub proof fn lemma_decimal(n: nat)
    ensures
        decimal_digits(n).len() >= 1,
        forall|i: int| 0 <= i < decimal_digits(n).len() ==> is_digit(#[trigger] decimal_digits(n)[i]),
        number_value(decimal_digits(n)) == Some(n),
    decreases n,
{
    if n < 10 {
        lemma_digit(n);
    } else {
        lemma_decimal(n / 10);
        lemma_digit(n % 10);
        let s = decimal_digits(n);
        assert(s.drop_last() =~= decimal_digits(n / 10));
        assert forall|i: int| 0 <= i < s.len() implies is_digit(#[trigger] s[i]) by {
            if i < s.len() - 1 {
                assert(s[i] == decimal_digits(n / 10)[i]);
            }
        }
    }
}

/// The text of a number of hours is made of digits and stands for the
/// number.
pub proof fn lemma_hours(n: nat)
    ensures
        hours_text(n).len() >= 2,
        forall|i: int| 0 <= i < hours_text(n).len() ==> is_digit(#[trigger] hours_text(n)[i]),
        number_value(hours_text(n)) == Some(n),
{
    if n < 10 {
        lemma_digit(0);
        lemma_digit(n);
        let s = hours_text(n);
        assert(s.drop_last() =~= seq![digit(0)]);
        assert(number_value(seq![digit(0)]) == Some(0nat));
    } else {
        lemma_decimal(n);
        lemma_decimal(n / 10);
    }
}

/// Two digits stand for the number below 100 that they were written for.
pub proof fn lemma_two_digits(n: nat)
    requires
        n < 100,
    ensures
        number_value(two_digits(n)) == Some(n),
        is_digit(two_digits(n)[0]),
        is_digit(two_digits(n)[1]),
{
    lemma_digit(n / 10);
    lemma_digit(n % 10);
    let s = two_digits(n);
    assert(s.drop_last() =~= seq![digit(n / 10)]);
    assert(number_value(seq![digit(n / 10)]) == Some(n / 10));
}

/// Three digits behind a point stand for the thousandths that they were
/// written for.
pub proof fn lemma_three_digits(n: nat)
    requires
        n < 1000,
    ensures
        fraction_millis(seq![digit(n / 100), digit((n % 100) / 10), digit(n % 10)]) == Some(n),
{
    lemma_digit(n / 100);
    lemma_digit((n % 100) / 10);
    lemma_digit(n % 10);
    let s = seq![digit(n / 100), digit((n % 100) / 10), digit(n % 10)];
    let s2 = seq![digit(n / 100), digit((n % 100) / 10)];
    let s1 = seq![digit(n / 100)];
    assert(s.drop_last() =~= s2);
    assert(s2.drop_last() =~= s1);
    assert(s1.drop_last() =~= Seq::<char>::empty());
    assert(fraction_millis(Seq::<char>::empty()) == Some(0nat));
    assert(s1.last() == digit(n / 100));
    assert(fraction_millis(s1) == Some((n / 100) * 100));
    assert(fraction_millis(s2) == Some((n / 100) * 100 + ((n % 100) / 10) * 10));
}

/// Whether a character can stand in the text of a time.
pub open spec fn is_time_char(c: char) -> bool {
    is_digit(c) || c == ':' || c == ','
}

/// The text of a time of day is made of digits, colons and a comma, and
/// starts and ends with a digit.
pub proof fn lemma_clock_chars(hours: nat, minutes: nat, seconds: nat, part: nat)
    requires
        minutes < 60,
        seconds < 60,
        part < 1000,
    ensures
        clock_text(hours, minutes, seconds, part).len() >= 12,
        forall|i: int|
            0 <= i < clock_text(hours, minutes, seconds, part).len() ==> is_time_char(
                #[trigger] clock_text(hours, minutes, seconds, part)[i],
            ),
        is_digit(clock_text(hours, minutes, seconds, part)[0]),
        is_digit(clock_text(hours, minutes, seconds, part).last()),
{
    lemma_hours(hours);
    lemma_two_digits(minutes);
    lemma_two_digits(seconds);
    lemma_digit(part / 100);
    lemma_digit((part % 100) / 10);
    lemma_digit(part % 10);
    let h = hours_text(hours);
    let t = clock_text(hours, minutes, seconds, part);
    let rest = seq![
        ':',
        digit(minutes / 10),
        digit(minutes % 10),
        ':',
        digit(seconds / 10),
        digit(seconds % 10),
        ',',
        digit(part / 100),
        digit((part % 100) / 10),
        digit(part % 10),
    ];
    assert(t =~= h + rest);
    assert(t[0] == h[0]);
    assert forall|i: int| 0 <= i < t.len() implies is_time_char(#[trigger] t[i]) by {
        if i < h.len() {
            assert(t[i] == h[i]);
        } else {
            assert(t[i] == rest[i - h.len()]);
        }
    }
    assert(t.last() == rest[9]);
}

/// The text of a time is made of digits, colons and a comma, and starts
/// and ends with a digit.
pub proof fn lemma_time_chars(millis: u64)
    ensures
        time_text(millis).len() >= 12,
        forall|i: int| 0 <= i < time_text(millis).len() ==> is_time_char(#[trigger] time_text(millis)[i]),
        is_digit(time_text(millis)[0]),
        is_digit(time_text(millis).last()),
{
    let n = millis as nat;
    lemma_clock_chars(n / 3600000, (n / 60000) % 60, (n / 1000) % 60, n % 1000);
}

/// Whether a character occurs nowhere in a text.
pub open spec fn lacks(s: Seq<char>, c: char) -> bool {
    forall|i: int| 0 <= i < s.len() ==> s[i] != c
}

/// A separator of one character does not stand where another character
/// stands.
pub proof fn lemma_no_match(s: Seq<char>, c: char, j: int)
    requires
        0 <= j < s.len() ==> s[j] != c,
    ensures
        !matches_at(s, seq![c], j),
{
    if matches_at(s, seq![c], j) {
        assert(s.subrange(j, j + 1)[0] == s[j]);
    }
}

/// Three texts without the separator, written with the separator between
/// them, are cut into the three texts.
pub proof fn lemma_split_three(a: Seq<char>, b: Seq<char>, c: Seq<char>, sep: char)
    requires
        lacks(a, sep),
        lacks(b, sep),
        lacks(c, sep),
    ensures
        split(a + seq![sep] + (b + seq![sep] + c), seq![sep]) == seq![a, b, c],
{
    let mark = seq![sep];
    let tail = b + mark + c;
    assert forall|j: int| 0 <= j < a.len() implies !matches_at(a + mark + tail, mark, j) by {
        assert((a + mark + tail)[j] == a[j]);
        lemma_no_match(a + mark + tail, sep, j);
    }
    lemma_split_first(a, mark, tail);
    assert forall|j: int| 0 <= j < b.len() implies !matches_at(b + mark + c, mark, j) by {
        assert((b + mark + c)[j] == b[j]);
        lemma_no_match(b + mark + c, sep, j);
    }
    lemma_split_first(b, mark, c);
    assert forall|j: int| 0 <= j implies !matches_at(c, mark, j) by {
        lemma_no_match(c, sep, j);
    }
    lemma_split_whole(c, mark);
    assert(seq![a] + (seq![b] + seq![c]) =~= seq![a, b, c]);
}

/// Two texts, the first without points, written with a point between
/// them, stand for the seconds of the first and the thousandths of the
/// second.
pub proof fn lemma_seconds_field(whole: Seq<char>, part: Seq<char>)
    requires
        lacks(whole, '.'),
    ensures
        seconds_millis(whole + seq!['.'] + part) == match (
            number_value(whole),
            fraction_millis(part),
        ) {
            (Some(w), Some(p)) => Some(w * 1000 + p),
            _ => None,
        },
{
    let point = seq!['.'];
    let field = whole + point + part;
    assert forall|j: int| 0 <= j < whole.len() implies !matches_at(field, point, j) by {
        assert(field[j] == whole[j]);
        lemma_no_match(field, '.', j);
    }
    assert(field.subrange(whole.len() as int, whole.len() as int + 1) =~= point);
    lemma_find_first(field, point, 0, whole.len() as int);
    assert(field.take(whole.len() as int) =~= whole);
    assert(field.skip(whole.len() as int + 1) =~= part);
}

/// A text of digits lacks every character that is no digit.
pub proof fn lemma_digits_lack(s: Seq<char>, c: char)
    requires
        forall|i: int| 0 <= i < s.len() ==> is_digit(#[trigger] s[i]),
        !is_digit(c),
    ensures
        lacks(s, c),
{
}

/// The three thousandths digits of a time.
pub open spec fn thousandths(part: nat) -> Seq<char> {
    seq![digit(part / 100), digit((part % 100) / 10), digit(part % 10)]
}

/// Replacing commas goes through each part of a text.
pub proof fn lemma_points_concat(a: Seq<char>, b: Seq<char>)
    ensures
        with_points(a + b) == with_points(a) + with_points(b),
{
    assert(with_points(a + b) =~= with_points(a) + with_points(b));
}

/// A text of digits has no comma to replace.
pub proof fn lemma_points_digits(s: Seq<char>)
    requires
        forall|i: int| 0 <= i < s.len() ==> is_digit(#[trigger] s[i]),
    ensures
        with_points(s) == s,
{
    assert forall|i: int| 0 <= i < s.len() implies with_points(s)[i] == s[i] by {
        lemma_digit_char(s[i]);
    }
    assert(with_points(s) =~= s);
}

/// The text of a time of day with a point in place of its comma.
#[verifier::rlimit(40)]
pub proof fn lemma_pointed(hours: nat, minutes: nat, seconds: nat, part: nat)
    requires
        minutes < 60,
        seconds < 60,
        part < 1000,
    ensures
        with_points(clock_text(hours, minutes, seconds, part)) == hours_text(hours) + seq![':'] + (
            two_digits(minutes) + seq![':'] + (two_digits(seconds) + seq!['.'] + thousandths(part))),
{
    lemma_hours(hours);
    lemma_digit(minutes / 10);
    lemma_digit(minutes % 10);
    lemma_digit(seconds / 10);
    lemma_digit(seconds % 10);
    lemma_digit(part / 100);
    lemma_digit((part % 100) / 10);
    lemma_digit(part % 10);
    let h = hours_text(hours);
    let rest = seq![
        ':',
        digit(minutes / 10),
        digit(minutes % 10),
        ':',
        digit(seconds / 10),
        digit(seconds % 10),
        ',',
        digit(part / 100),
        digit((part % 100) / 10),
        digit(part % 10),
    ];
    let pointed_rest = seq![
        ':',
        digit(minutes / 10),
        digit(minutes % 10),
        ':',
        digit(seconds / 10),
        digit(seconds % 10),
        '.',
        digit(part / 100),
        digit((part % 100) / 10),
        digit(part % 10),
    ];
    assert(clock_text(hours, minutes, seconds, part) =~= h + rest);
    lemma_points_concat(h, rest);
    lemma_points_digits(h);
    assert(with_points(rest) =~= pointed_rest);
    assert(h + pointed_rest =~= h + seq![':'] + (two_digits(minutes) + seq![':'] + (two_digits(
        seconds,
    ) + seq!['.'] + thousandths(part))));
}

/// A number of milliseconds is the sum of its hours, minutes, seconds and
/// thousandths.
pub proof fn lemma_time_parts(n: nat)
    ensures
        (n / 3600000) * 3600000 + ((n / 60000) % 60) * 60000 + ((n / 1000) % 60) * 1000 + n % 1000
            == n,
{
    let seconds = n / 1000;
    let minutes = seconds / 60;
    let hours = minutes / 60;
    assert(n / 60000 == minutes);
    assert(n / 3600000 == hours);
}

/// A time whose three fields are known stands for their sum.
pub proof fn lemma_time_of_fields(
    s: Seq<char>,
    h: Seq<char>,
    m: Seq<char>,
    field: Seq<char>,
    hours: nat,
    minutes: nat,
    millis: nat,
)
    requires
        split(with_points(s), seq![':']) == seq![h, m, field],
        number_value(h) == Some(hours),
        number_value(m) == Some(minutes),
        seconds_millis(field) == Some(millis),
        hours * 3600000 + minutes * 60000 + millis <= u64::MAX,
    ensures
        time_value(s) == Ok::<u64, Seq<char>>(
            (hours * 3600000 + minutes * 60000 + millis) as u64,
        ),
{
    let fields = split(with_points(s), seq![':']);
    assert(fields.len() == 3);
    assert(fields[0] == h);
    assert(fields[1] == m);
    assert(fields[2] == field);
}

/// The seconds field of a time stands for its seconds and thousandths.
pub proof fn lemma_time_seconds(seconds: nat, part: nat)
    requires
        seconds < 60,
        part < 1000,
    ensures
        seconds_millis(two_digits(seconds) + seq!['.'] + thousandths(part)) == Some(
            seconds * 1000 + part,
        ),
        lacks(two_digits(seconds) + seq!['.'] + thousandths(part), ':'),
{
    let sec = two_digits(seconds);
    let f3 = thousandths(part);
    let field = sec + seq!['.'] + f3;
    lemma_two_digits(seconds);
    lemma_three_digits(part);
    lemma_digit(part / 100);
    lemma_digit((part % 100) / 10);
    lemma_digit(part % 10);
    lemma_digits_lack(sec, '.');
    lemma_seconds_field(sec, f3);
    assert forall|i: int| 0 <= i < field.len() implies field[i] != ':' by {
        if i < 2 {
            assert(field[i] == sec[i]);
        } else if i > 2 {
            assert(field[i] == f3[i - 3]);
        }
    }
}

/// The text of a time of day is read back as the number of its
/// milliseconds.
#[verifier::rlimit(40)]
pub proof fn lemma_clock_round_trip(hours: nat, minutes: nat, seconds: nat, part: nat)
    requires
        minutes < 60,
        seconds < 60,
        part < 1000,
        hours * 3600000 + minutes * 60000 + seconds * 1000 + part <= u64::MAX,
    ensures
        time_value(clock_text(hours, minutes, seconds, part)) == Ok::<u64, Seq<char>>(
            (hours * 3600000 + minutes * 60000 + seconds * 1000 + part) as u64,
        ),
{
    let h = hours_text(hours);
    let m = two_digits(minutes);
    let field = two_digits(seconds) + seq!['.'] + thousandths(part);
    let t = clock_text(hours, minutes, seconds, part);
    assert(split(with_points(t), seq![':']) == seq![h, m, field]) by {
        lemma_pointed(hours, minutes, seconds, part);
        lemma_hours(hours);
        lemma_two_digits(minutes);
        lemma_digits_lack(h, ':');
        lemma_digits_lack(m, ':');
        lemma_time_seconds(seconds, part);
        lemma_split_three(h, m, field, ':');
    }
    assert(number_value(h) == Some(hours)) by {
        lemma_hours(hours);
    }
    assert(number_value(m) == Some(minutes)) by {
        lemma_two_digits(minutes);
    }
    assert(seconds_millis(field) == Some(seconds * 1000 + part)) by {
        lemma_time_seconds(seconds, part);
    }
    lemma_time_of_fields(t, h, m, field, hours, minutes, seconds * 1000 + part);
}

/// The text of a time is read back as the time.
pub proof fn lemma_time_round_trip(millis: u64)
    ensures
        time_value(time_text(millis)) == Ok::<u64, Seq<char>>(millis),
{
    let n = millis as nat;
    lemma_time_parts(n);
    lemma_clock_round_trip(n / 3600000, (n / 60000) % 60, (n / 1000) % 60, n % 1000);
}

/// The cues that the block format keeps as they are: the end does not lie
/// before the start; the identifier is not empty, has no white space at
/// its ends and no line break; the text is not empty, has no white space
/// at its ends and no blank line.
pub open spec fn encodable(cue: SubtitleView) -> bool {
    &&& cue.start_time <= cue.end_time
    &&& cue.id.len() > 0
    &&& !is_space(cue.id[0])
    &&& !is_space(cue.id.last())
    &&& lacks(cue.id, '\n')
    &&& cue.text.len() > 0
    &&& !is_space(cue.text[0])
    &&& !is_space(cue.text.last())
    &&& forall|i: int|
        0 <= i < cue.text.len() - 1 ==> !(cue.text[i] == '\n' && #[trigger] cue.text[i + 1] == '\n')
}

/// The line of the two times of a cue.
pub open spec fn time_line(cue: SubtitleView) -> Seq<char> {
    time_text(cue.start_time) + arrow() + time_text(cue.end_time)
}

/// The block of a cue without the blank line behind it.
pub open spec fn cue_body(cue: SubtitleView) -> Seq<char> {
    cue.id + seq!['\n'] + (time_line(cue) + seq!['\n'] + cue.text)
}

/// The line of the two times holds no line break, and the arrow is found
/// in it behind the first time.
#[verifier::rlimit(40)]
pub proof fn lemma_time_line(cue: SubtitleView)
    ensures
        lacks(time_line(cue), '\n'),
        time_line(cue).len() >= 29,
        is_digit(time_line(cue)[0]),
        find_from(time_line(cue), arrow(), 0) == time_text(cue.start_time).len(),
        time_line(cue).take(time_text(cue.start_time).len() as int) == time_text(cue.start_time),
        time_line(cue).skip(time_text(cue.start_time).len() as int + 5) == time_text(cue.end_time),
{
    let ts = time_text(cue.start_time);
    let te = time_text(cue.end_time);
    let line = time_line(cue);
    lemma_time_chars(cue.start_time);
    lemma_time_chars(cue.end_time);
    assert forall|i: int| 0 <= i < line.len() implies line[i] != '\n' by {
        if i < ts.len() {
            assert(line[i] == ts[i]);
            if is_digit(ts[i]) {
                lemma_digit_char(ts[i]);
            }
        } else if i >= ts.len() + 5 {
            assert(line[i] == te[i - ts.len() - 5]);
            if is_digit(te[i - ts.len() - 5]) {
                lemma_digit_char(te[i - ts.len() - 5]);
            }
        } else {
            assert(line[i] == arrow()[i - ts.len()]);
        }
    }
    assert(line[0] == ts[0]);
    assert(line.subrange(ts.len() as int, ts.len() as int + 5) =~= arrow());
    assert forall|j: int| 0 <= j < ts.len() implies !matches_at(line, arrow(), j) by {
        if matches_at(line, arrow(), j) {
            assert(line.subrange(j, j + 5)[0] == line[j]);
            assert(line[j] == ts[j]);
            if is_digit(ts[j]) {
                lemma_digit_char(ts[j]);
            }
        }
    }
    lemma_find_first(line, arrow(), 0, ts.len() as int);
    assert(line.take(ts.len() as int) =~= ts);
    assert(line.skip(ts.len() as int + 5) =~= te);
}

/// The text of a time is its own trimmed form.
pub proof fn lemma_time_trimmed(millis: u64)
    ensures
        trim(time_text(millis)) == time_text(millis),
{
    lemma_time_chars(millis);
    lemma_digit_char(time_text(millis)[0]);
    lemma_digit_char(time_text(millis).last());
    lemma_trim_same(time_text(millis));
}

/// The lines of the body of a cue: the identifier, the line of the two
/// times, and the lines of the text.
pub proof fn lemma_body_lines(cue: SubtitleView)
    requires
        encodable(cue),
    ensures
        split(cue_body(cue), seq!['\n']) == seq![cue.id, time_line(cue)] + split(
            cue.text,
            seq!['\n'],
        ),
{
    let nl = seq!['\n'];
    let line = time_line(cue);
    let tail = line + nl + cue.text;
    lemma_time_line(cue);
    assert forall|j: int| 0 <= j < cue.id.len() implies !matches_at(cue.id + nl + tail, nl, j) by {
        assert((cue.id + nl + tail)[j] == cue.id[j]);
        lemma_no_match(cue.id + nl + tail, '\n', j);
    }
    lemma_split_first(cue.id, nl, tail);
    assert forall|j: int| 0 <= j < line.len() implies !matches_at(line + nl + cue.text, nl, j) by {
        assert((line + nl + cue.text)[j] == line[j]);
        lemma_no_match(line + nl + cue.text, '\n', j);
    }
    lemma_split_first(line, nl, cue.text);
    assert(seq![cue.id] + (seq![line] + split(cue.text, nl)) =~= seq![cue.id, line] + split(
        cue.text,
        nl,
    ));
}

/// The body of an encodable cue is read back as the cue.
#[verifier::rlimit(40)]
pub proof fn lemma_body_round_trip(cue: SubtitleView)
    requires
        encodable(cue),
    ensures
        block_cue(cue_body(cue)) == Ok::<Option<SubtitleView>, Seq<char>>(Some(cue)),
{
    reveal(block_cue);
    let nl = seq!['\n'];
    let body = cue_body(cue);
    let line = time_line(cue);
    let ts = time_text(cue.start_time);
    let lines = split(body, nl);
    assert(trim(body) == body) by {
        assert(body[0] == cue.id[0]);
        assert(body.last() == cue.text.last());
        lemma_trim_same(body);
    }
    assert(lines == seq![cue.id, line] + split(cue.text, nl)) by {
        lemma_body_lines(cue);
    }
    assert(lines.len() >= 3) by {
        lemma_split_nonempty(cue.text, nl, 0);
    }
    assert(lines[0] == cue.id);
    assert(lines[1] == line);
    assert(lines.skip(2) =~= split(cue.text, nl));
    lemma_time_line(cue);
    let k = find_from(line, arrow(), 0);
    assert(k == ts.len());
    assert(time_value(trim(line.take(k))) == Ok::<u64, Seq<char>>(cue.start_time)) by {
        lemma_time_trimmed(cue.start_time);
        lemma_time_round_trip(cue.start_time);
    }
    assert(time_value(trim(line.skip(k + 5))) == Ok::<u64, Seq<char>>(cue.end_time)) by {
        lemma_time_trimmed(cue.end_time);
        lemma_time_round_trip(cue.end_time);
    }
    assert(trim(join(lines.skip(2), nl)) == cue.text) by {
        lemma_join_split(cue.text, nl, 0);
        assert(cue.text.skip(0) =~= cue.text);
        lemma_trim_same(cue.text);
    }
    assert(trim(lines[0]) == cue.id) by {
        lemma_trim_same(cue.id);
    }
}

/// The body of an encodable cue holds no blank line and does not end with
/// a line break.
pub proof fn lemma_body_no_blank_line(cue: SubtitleView)
    requires
        encodable(cue),
    ensures
        cue_body(cue).len() > 0,
        cue_body(cue).last() != '\n',
        forall|j: int|
            0 <= j < cue_body(cue).len() - 1 ==> !(cue_body(cue)[j] == '\n' && #[trigger] cue_body(
                cue,
            )[j + 1] == '\n'),
{
    let body = cue_body(cue);
    let line = time_line(cue);
    let a = cue.id.len() as int;
    let b = a + 1 + line.len();
    lemma_time_line(cue);
    lemma_digit_char(line[0]);
    assert(body.last() == cue.text.last());
    assert forall|j: int| 0 <= j < body.len() - 1 implies !(body[j] == '\n' && #[trigger] body[j
        + 1] == '\n') by {
        if j < a {
            assert(body[j] == cue.id[j]);
        } else if j == a {
            assert(body[j + 1] == line[0]);
        } else if j < b {
            assert(body[j] == line[j - a - 1]);
        } else if j == b {
            assert(body[j + 1] == cue.text[0]);
        } else {
            assert(body[j] == cue.text[j - b - 1]);
            assert(body[j + 1] == cue.text[j - b - 1 + 1]);
        }
    }
}

/// The bodies of the cues of a list.
pub open spec fn bodies(cues: Seq<SubtitleView>) -> Seq<Seq<char>> {
    cues.map_values(|c: SubtitleView| cue_body(c))
}

/// No blank line begins in the body of an encodable cue, whatever
/// follows the blank line behind it.
#[verifier::rlimit(40)]
pub proof fn lemma_body_is_first_block(cue: SubtitleView, text: Seq<char>)
    requires
        encodable(cue),
    ensures
        split(cue_block(cue) + text, seq!['\n', '\n']) == seq![cue_body(cue)] + split(
            text,
            seq!['\n', '\n'],
        ),
{
    let blank = seq!['\n', '\n'];
    let body = cue_body(cue);
    lemma_body_no_blank_line(cue);
    assert(cue_block(cue) =~= body + blank);
    assert(cue_block(cue) + text =~= body + blank + text);
    assert forall|j: int| 0 <= j < body.len() implies !matches_at(body + blank + text, blank, j) by {
        let s = body + blank + text;
        if matches_at(s, blank, j) {
            assert(s.subrange(j, j + 2)[0] == s[j]);
            assert(s.subrange(j, j + 2)[1] == s[j + 1]);
            assert(s[j] == body[j]);
            if j < body.len() - 1 {
                assert(s[j + 1] == body[j + 1]);
            }
        }
    }
    lemma_split_first(body, blank, text);
}

/// The text of a list of encodable cues is cut at its blank lines into
/// the bodies of the cues and an empty piece at the end.
#[verifier::rlimit(40)]
pub proof fn lemma_blocks_of_text(cues: Seq<SubtitleView>)
    requires
        all_encodable(cues),
    ensures
        split(srt_text(cues), seq!['\n', '\n']) == bodies(cues) + seq![Seq::<char>::empty()],
    decreases cues.len(),
{
    let blank = seq!['\n', '\n'];
    if cues.len() == 0 {
        assert forall|j: int| 0 <= j implies !matches_at(srt_text(cues), blank, j) by {}
        lemma_split_whole(srt_text(cues), blank);
        assert(bodies(cues) + seq![Seq::<char>::empty()] =~= seq![srt_text(cues)]);
    } else {
        let rest = cues.drop_first();
        lemma_blocks_of_text(rest);
        lemma_body_is_first_block(cues[0], srt_text(rest));
        lemma_bodies_cons(cues);
    }
}

/// An empty block holds no cue.
pub proof fn lemma_empty_block()
    ensures
        block_cue(Seq::<char>::empty()) == Ok::<Option<SubtitleView>, Seq<char>>(None),
{
    reveal(block_cue);
    let empty = Seq::<char>::empty();
    assert(trim(empty) == empty);
    assert forall|j: int| 0 <= j implies !matches_at(empty, seq!['\n'], j) by {}
    lemma_split_whole(empty, seq!['\n']);
}

/// The cues of a block with a cue, followed by more blocks, are that cue
/// and the cues of the other blocks.
pub proof fn lemma_blocks_cons(
    block: Seq<char>,
    cue: SubtitleView,
    more: Seq<Seq<char>>,
    rest: Seq<SubtitleView>,
)
    requires
        block_cue(block) == Ok::<Option<SubtitleView>, Seq<char>>(Some(cue)),
        blocks_cues(more) == Ok::<Seq<SubtitleView>, Seq<char>>(rest),
    ensures
        blocks_cues(seq![block] + more) == Ok::<Seq<SubtitleView>, Seq<char>>(seq![cue] + rest),
{
    let blocks = seq![block] + more;
    assert(blocks[0] == block);
    assert(blocks.drop_first() =~= more);
}

/// The cues of one block without a cue are none.
pub proof fn lemma_blocks_last(block: Seq<char>)
    requires
        block_cue(block) == Ok::<Option<SubtitleView>, Seq<char>>(None),
    ensures
        blocks_cues(seq![block]) == Ok::<Seq<SubtitleView>, Seq<char>>(Seq::empty()),
{
    let blocks = seq![block];
    assert(blocks[0] == block);
    assert(blocks.drop_first() =~= Seq::<Seq<char>>::empty());
    assert(blocks_cues(Seq::<Seq<char>>::empty()) == Ok::<Seq<SubtitleView>, Seq<char>>(
        Seq::empty(),
    ));
}

/// The blocks of a list of cues are the body of the first cue and the
/// blocks of the others.
pub proof fn lemma_bodies_cons(cues: Seq<SubtitleView>)
    requires
        cues.len() > 0,
    ensures
        bodies(cues) + seq![Seq::<char>::empty()] == seq![cue_body(cues[0])] + (bodies(
            cues.drop_first(),
        ) + seq![Seq::<char>::empty()]),
{
    let rest = cues.drop_first();
    let a = bodies(cues) + seq![Seq::<char>::empty()];
    let b = seq![cue_body(cues[0])] + (bodies(rest) + seq![Seq::<char>::empty()]);
    assert(a.len() == b.len());
    assert forall|i: int| 0 <= i < a.len() implies a[i] == b[i] by {
        if 0 < i < cues.len() {
            assert(a[i] == cue_body(cues[i]));
            assert(rest[i - 1] == cues[i]);
            assert(b[i] == (bodies(rest) + seq![Seq::<char>::empty()])[i - 1]);
            assert((bodies(rest) + seq![Seq::<char>::empty()])[i - 1] == cue_body(rest[i - 1]));
        } else if i == cues.len() {
            assert(b[i] == (bodies(rest) + seq![Seq::<char>::empty()])[i - 1]);
        }
    }
    assert(a =~= b);
}

/// Whether each cue of a list is encodable.
pub open spec fn all_encodable(cues: Seq<SubtitleView>) -> bool
    decreases cues.len(),
{
    cues.len() == 0 || (encodable(cues[0]) && all_encodable(cues.drop_first()))
}

/// A list whose cues are encodable one by one is encodable as a whole.
pub proof fn lemma_all_encodable(cues: Seq<SubtitleView>)
    requires
        forall|i: int| 0 <= i < cues.len() ==> encodable(#[trigger] cues[i]),
    ensures
        all_encodable(cues),
    decreases cues.len(),
{
    if cues.len() > 0 {
        let rest = cues.drop_first();
        assert forall|i: int| 0 <= i < rest.len() implies encodable(#[trigger] rest[i]) by {
            assert(rest[i] == cues[i + 1]);
        }
        lemma_all_encodable(rest);
    }
}

/// The bodies of encodable cues, with an empty piece behind them, are
/// read back as the cues.
#[verifier::rlimit(40)]
pub proof fn lemma_cues_of_blocks(cues: Seq<SubtitleView>)
    requires
        all_encodable(cues),
    ensures
        blocks_cues(bodies(cues) + seq![Seq::<char>::empty()]) == Ok::<
            Seq<SubtitleView>,
            Seq<char>,
        >(cues),
    decreases cues.len(),
{
    if cues.len() == 0 {
        lemma_empty_block();
        lemma_blocks_last(Seq::<char>::empty());
        assert(bodies(cues) + seq![Seq::<char>::empty()] =~= seq![Seq::<char>::empty()]);
        assert(cues =~= Seq::<SubtitleView>::empty());
    } else {
        let rest = cues.drop_first();
        let more = bodies(rest) + seq![Seq::<char>::empty()];
        lemma_cues_of_blocks(rest);
        lemma_body_round_trip(cues[0]);
        lemma_blocks_cons(cue_body(cues[0]), cues[0], more, rest);
        lemma_bodies_cons(cues);
        assert(seq![cues[0]] + rest =~= cues);
    }
}

/// What is written in the block format is read back as it was: for a
/// list of one cue or more, each with an identifier and a text that the
/// format keeps, reading the written text gives the list again, with the
/// same identifiers, times and texts.
pub proof fn lemma_round_trip(cues: Seq<SubtitleView>)
    requires
        cues.len() > 0,
        forall|i: int| 0 <= i < cues.len() ==> encodable(#[trigger] cues[i]),
    ensures
        srt_cues(srt_text(cues)) == Ok::<Seq<SubtitleView>, Seq<char>>(cues),
{
    lemma_all_encodable(cues);
    lemma_blocks_of_text(cues);
    lemma_cues_of_blocks(cues);
}

/// Whether a cue has an identifier and a text without white space at
/// their ends, a text that is not empty, and an end that does not lie
/// before its start.
pub open spec fn is_trimmed(cue: SubtitleView) -> bool {
    trim(cue.id) == cue.id && trim(cue.text) == cue.text && cue.text.len() > 0 && cue.well_formed()
}

/// The cue of a block has a trimmed identifier and a trimmed text that is
/// not empty.
pub proof fn lemma_block_cue_is_trimmed(block: Seq<char>)
    ensures
        block_cue(block) matches Ok(Some(cue)) ==> is_trimmed(cue),
{
    reveal(block_cue);
    let lines = split(trim(block), seq!['\n']);
    if lines.len() >= 3 {
        lemma_trim_trimmed(lines[0]);
        lemma_trim_trimmed(join(lines.skip(2), seq!['\n']));
    }
}

/// Each cue of a list of blocks has a trimmed identifier and a trimmed
/// text that is not empty.
#[verifier::rlimit(40)]
pub proof fn lemma_blocks_cues_are_trimmed(blocks: Seq<Seq<char>>)
    ensures
        blocks_cues(blocks) matches Ok(cues) ==> forall|i: int|
            0 <= i < cues.len() ==> is_trimmed(#[trigger] cues[i]),
    decreases blocks.len(),
{
    if blocks.len() > 0 {
        lemma_block_cue_is_trimmed(blocks[0]);
        lemma_blocks_cues_are_trimmed(blocks.drop_first());
        match blocks_cues(blocks) {
            Ok(cues) => {
                let rest = blocks_cues(blocks.drop_first())->Ok_0;
                assert forall|i: int| 0 <= i < cues.len() implies is_trimmed(#[trigger] cues[i]) by {
                    match block_cue(blocks[0]) {
                        Ok(Some(first)) => {
                            if i > 0 {
                                assert(cues[i] == rest[i - 1]);
                            }
                        },
                        _ => {
                            assert(cues[i] == rest[i]);
                        },
                    }
                }
            },
            Err(_) => {},
        }
    }
}

/// Every cue that is read from a text in the block format is well formed:
/// its end does not lie before its start, and its text is not blank.
/// Blocks that would give another cue give none.
pub proof fn lemma_read_cues_have_text(content: Seq<char>)
    ensures
        srt_cues(content) matches Ok(cues) ==> cues.len() > 0 && forall|i: int|
            0 <= i < cues.len() ==> is_trimmed(#[trigger] cues[i]),
{
    lemma_blocks_cues_are_trimmed(split(content, seq!['\n', '\n']));
}

} // verus!

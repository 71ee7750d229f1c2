//! The time-coded block format for cues: blocks divided by a blank line,
//! each with an identifier, a line of two times, and the text.

use vstd::prelude::*;
use vstd::string::*;
use crate::text::{chars_of, chars_of_range, decimal, decimal_digit_chars, decimal_digits, digit_char, find, find_from, join, split, split_text, string_of, string_of_range, texts, trim, trim_bounds};
use crate::srt_laws::lemma_read_cues_have_text;
use crate::video::{cues_view, outcome_view, outcome_well_formed, Subtitle, SubtitleView};

verus! {

/// The value of a decimal digit.
pub open spec fn digit_value(c: char) -> Option<nat> {
    if '0' <= c <= '9' {
        Some((c as u32 - '0' as u32) as nat)
    } else {
        None
    }
}

/// The value of a decimal numeral: a text of one digit or more.
pub open spec fn number_value(s: Seq<char>) -> Option<nat>
    decreases s.len(),
{
    if s.len() == 0 {
        None
    } else {
        match digit_value(s.last()) {
            None => None,
            Some(d) => if s.len() == 1 {
                Some(d)
            } else {
                match number_value(s.drop_last()) {
                    Some(v) => Some(v * 10 + d),
                    None => None,
                }
            },
        }
    }
}

/// The thousandths that the digits after a decimal point stand for: the
/// first three count, and each other must still be a digit.
pub open spec fn fraction_millis(s: Seq<char>) -> Option<nat>
    decreases s.len(),
{
    if s.len() == 0 {
        Some(0)
    } else {
        match (digit_value(s.last()), fraction_millis(s.drop_last())) {
            (Some(d), Some(v)) => Some(
                v + if s.len() == 1 {
                    d * 100
                } else if s.len() == 2 {
                    d * 10
                } else if s.len() == 3 {
                    d
                } else {
                    0
                },
            ),
            _ => None,
        }
    }
}

/// The milliseconds that a seconds field stands for: a numeral, with or
/// without a decimal point and digits behind it.
pub open spec fn seconds_millis(s: Seq<char>) -> Option<nat> {
    let k = find_from(s, seq!['.'], 0);
    if 0 <= k < s.len() {
        match (number_value(s.take(k)), fraction_millis(s.skip(k + 1))) {
            (Some(whole), Some(part)) => Some(whole * 1000 + part),
            _ => None,
        }
    } else {
        match number_value(s) {
            Some(whole) => Some(whole * 1000),
            None => None,
        }
    }
}

/// A time with each comma replaced by a point.
pub open spec fn with_points(s: Seq<char>) -> Seq<char> {
    s.map_values(
        |c: char|
            if c == ',' {
                '.'
            } else {
                c
            },
    )
}

/// The diagnostic of a time that does not have three fields, or that is
/// too large to be counted in milliseconds.
pub const BAD_TIME: &'static str = "无效的时间格式: ";

/// The diagnostic of an hours field that is no numeral.
pub const BAD_HOURS: &'static str = "无效的小时: ";

/// The diagnostic of a minutes field that is no numeral.
pub const BAD_MINUTES: &'static str = "无效的分钟: ";

/// The diagnostic of a seconds field that is no numeral.
pub const BAD_SECONDS: &'static str = "无效的秒数: ";

/// The milliseconds that a time of the form hours, minutes and seconds
/// stands for, the fields divided by colons and the seconds with thousandths
/// behind a comma or a point; or the diagnostic of what is wrong with it,
/// which names the time with points, or the field.
pub open spec fn time_value(s: Seq<char>) -> Result<u64, Seq<char>> {
    let pointed = with_points(s);
    let fields = split(pointed, seq![':']);
    if fields.len() != 3 {
        Err(BAD_TIME@ + pointed)
    } else {
        match number_value(fields[0]) {
            None => Err(BAD_HOURS@ + fields[0]),
            Some(hours) => match number_value(fields[1]) {
                None => Err(BAD_MINUTES@ + fields[1]),
                Some(minutes) => match seconds_millis(fields[2]) {
                    None => Err(BAD_SECONDS@ + fields[2]),
                    Some(millis) => {
                        let total = hours * 3600000 + minutes * 60000 + millis;
                        if total <= u64::MAX {
                            Ok(total as u64)
                        } else {
                            Err(BAD_TIME@ + pointed)
                        }
                    },
                },
            },
        }
    }
}

/// The arrow between the two times of a block.
pub open spec fn arrow() -> Seq<char> {
    seq![' ', '-', '-', '>', ' ']
}

/// What one block holds: a cue; nothing, where the block has fewer than
/// three lines, no arrow in its second line, an end that lies before its
/// start, or only white space as its text; or the diagnostic of a time
/// that is wrong.
#[verifier::opaque]
pub open spec fn block_cue(block: Seq<char>) -> Result<Option<SubtitleView>, Seq<char>> {
    let lines = split(trim(block), seq!['\n']);
    if lines.len() < 3 {
        Ok(None)
    } else {
        let k = find_from(lines[1], arrow(), 0);
        if !(0 <= k <= lines[1].len() - 5) {
            Ok(None)
        } else {
            match time_value(trim(lines[1].take(k))) {
                Err(e) => Err(e),
                Ok(start_time) => match time_value(trim(lines[1].skip(k + 5))) {
                    Err(e) => Err(e),
                    Ok(end_time) => {
                        let text = trim(join(lines.skip(2), seq!['\n']));
                        if text.len() == 0 || end_time < start_time {
                            Ok(None)
                        } else {
                            Ok(Some(SubtitleView { id: trim(lines[0]), start_time, end_time, text }))
                        }
                    },
                },
            }
        }
    }
}

/// The cues of a list of blocks, in their order, or the diagnostic of the
/// first block that has a wrong time.
pub open spec fn blocks_cues(blocks: Seq<Seq<char>>) -> Result<Seq<SubtitleView>, Seq<char>>
    decreases blocks.len(),
{
    if blocks.len() == 0 {
        Ok(Seq::empty())
    } else {
        match block_cue(blocks[0]) {
            Err(e) => Err(e),
            Ok(found) => match blocks_cues(blocks.drop_first()) {
                Err(e) => Err(e),
                Ok(rest) => Ok(
                    match found {
                        Some(c) => seq![c] + rest,
                        None => rest,
                    },
                ),
            },
        }
    }
}

/// The diagnostic of a text without a cue.
pub const NO_CUES: &'static str = "未解析到任何字幕内容";

/// The cues of a text in the block format, or the diagnostic of what is
/// wrong with it. A text without a cue is wrong.
pub open spec fn srt_cues(content: Seq<char>) -> Result<Seq<SubtitleView>, Seq<char>> {
    match blocks_cues(split(content, seq!['\n', '\n'])) {
        Err(e) => Err(e),
        Ok(cues) => if cues.len() == 0 {
            Err(NO_CUES@)
        } else {
            Ok(cues)
        },
    }
}

/// Reads a decimal digit.
pub fn read_digit(c: char) -> (r: Option<u8>)
    ensures
        match r {
            Some(d) => digit_value(c) == Some(d as nat) && d < 10,
            None => digit_value(c) is None,
        },
{
    if '0' <= c && c <= '9' {
        Some((c as u32 - '0' as u32) as u8)
    } else {
        None
    }
}

/// A bound above every 64-bit number, as which a larger numeral is read.
pub const TOO_LARGE: u128 = 18446744073709551616;

/// `n`, or the bound [`TOO_LARGE`] where `n` is above it.
pub open spec fn capped(n: nat) -> u128 {
    if n < TOO_LARGE {
        n as u128
    } else {
        TOO_LARGE
    }
}

/// Reads a decimal numeral. A numeral above every 64-bit number is read
/// as [`TOO_LARGE`].
pub fn read_number(s: &Vec<char>) -> (r: Option<u128>)
    ensures
        match r {
            Some(v) => number_value(s@) is Some && v == capped(number_value(s@)->Some_0),
            None => number_value(s@) is None,
        },
{
    if s.len() == 0 {
        return None;
    }
    let mut value: u128 = 0;
    let mut i: usize = 0;
    while i < s.len()
        invariant
            i <= s.len(),
            s.len() > 0,
            value <= TOO_LARGE,
            i > 0 ==> number_value(s@.take(i as int)) is Some && value == capped(
                number_value(s@.take(i as int))->Some_0,
            ),
            i == 0 ==> value == 0,
        decreases s.len() - i,
    {
        proof {
            let head = s@.take(i as int + 1);
            assert(head.drop_last() =~= s@.take(i as int));
            assert(head.last() == s@[i as int]);
        }
        match read_digit(s[i]) {
            None => {
                proof {
                    lemma_bad_digit(s@, i as int);
                }
                return None;
            },
            Some(d) => {
                let next: u128 = value * 10 + d as u128;
                value = if next < TOO_LARGE {
                    next
                } else {
                    TOO_LARGE
                };
            },
        }
        i += 1;
    }
    assert(s@.take(s.len() as int) =~= s@);
    Some(value)
}

/// A text with a character that is no digit is no numeral.
pub proof fn lemma_bad_digit(s: Seq<char>, i: int)
    requires
        0 <= i < s.len(),
        digit_value(s[i]) is None,
    ensures
        number_value(s) is None,
    decreases s.len(),
{
    if i < s.len() - 1 {
        assert(s.drop_last()[i] == s[i]);
        lemma_bad_digit(s.drop_last(), i);
    }
}

/// Reads the thousandths that the digits after a decimal point stand for.
pub fn read_fraction(s: &Vec<char>) -> (r: Option<u32>)
    ensures
        match r {
            Some(v) => fraction_millis(s@) == Some(v as nat) && v <= 999,
            None => fraction_millis(s@) is None,
        },
{
    let mut value: u32 = 0;
    let mut i: usize = 0;
    assert(s@.take(0) =~= Seq::<char>::empty());
    while i < s.len()
        invariant
            i <= s.len(),
            fraction_millis(s@.take(i as int)) == Some(value as nat),
            i == 0 ==> value == 0,
            i == 1 ==> value <= 900 && value % 100 == 0,
            i == 2 ==> value <= 990 && value % 10 == 0,
            value <= 999,
        decreases s.len() - i,
    {
        proof {
            let head = s@.take(i as int + 1);
            assert(head.drop_last() =~= s@.take(i as int));
            assert(head.last() == s@[i as int]);
        }
        match read_digit(s[i]) {
            None => {
                proof {
                    lemma_bad_fraction(s@, i as int);
                }
                return None;
            },
            Some(d) => {
                if i == 0 {
                    value = value + (d as u32) * 100;
                } else if i == 1 {
                    value = value + (d as u32) * 10;
                } else if i == 2 {
                    value = value + d as u32;
                }
            },
        }
        i += 1;
    }
    assert(s@.take(s.len() as int) =~= s@);
    Some(value)
}

/// Digits after a decimal point with a character that is no digit stand
/// for nothing.
pub proof fn lemma_bad_fraction(s: Seq<char>, i: int)
    requires
        0 <= i < s.len(),
        digit_value(s[i]) is None,
    ensures
        fraction_millis(s) is None,
    decreases s.len(),
{
    if i < s.len() - 1 {
        assert(s.drop_last()[i] == s[i]);
        lemma_bad_fraction(s.drop_last(), i);
    }
}

/// Reads the milliseconds of a seconds field. A value above every 64-bit
/// number is read as [`TOO_LARGE`].
pub fn read_seconds(s: &Vec<char>) -> (r: Option<u128>)
    ensures
        match r {
            Some(v) => seconds_millis(s@) is Some && v == capped(seconds_millis(s@)->Some_0),
            None => seconds_millis(s@) is None,
        },
{
    let mut point: Vec<char> = Vec::new();
    point.push('.');
    assert(point@ =~= seq!['.']);
    match find(s, &point, 0) {
        Some(k) => {
            let whole_text = chars_of_range(s, 0, k);
            let part_text = chars_of_range(s, k + 1, s.len());
            assert(s@.take(k as int) =~= s@.subrange(0, k as int));
            assert(s@.skip(k as int + 1) =~= s@.subrange(k as int + 1, s.len() as int));
            match (read_number(&whole_text), read_fraction(&part_text)) {
                (Some(whole), Some(part)) => {
                    let millis: u128 = whole * 1000 + part as u128;
                    Some(if millis < TOO_LARGE {
                        millis
                    } else {
                        TOO_LARGE
                    })
                },
                _ => None,
            }
        },
        None => match read_number(s) {
            Some(whole) => {
                let millis: u128 = whole * 1000;
                Some(if millis < TOO_LARGE {
                    millis
                } else {
                    TOO_LARGE
                })
            },
            None => None,
        },
    }
}

/// Replaces each comma by a point.
pub fn put_points(s: &Vec<char>) -> (r: Vec<char>)
    ensures
        r@ == with_points(s@),
{
    let mut out: Vec<char> = Vec::new();
    let mut i: usize = 0;
    while i < s.len()
        invariant
            i <= s.len(),
            out@ == with_points(s@).take(i as int),
        decreases s.len() - i,
    {
        let c = if s[i] == ',' {
            '.'
        } else {
            s[i]
        };
        out.push(c);
        assert(out@ =~= with_points(s@).take(i as int + 1));
        i += 1;
    }
    assert(with_points(s@).take(s.len() as int) =~= with_points(s@));
    out
}

fn diagnostic(label: &str, detail: &Vec<char>) -> (r: String)
    ensures
        r@ == label@ + detail@,
{
    let mut out = String::from_str(label);
    let text = string_of(detail);
    out.append(text.as_str());
    out
}

/// Reads a time of the form hours, minutes and seconds from its
/// characters.
pub fn read_time(s: &Vec<char>) -> (r: Result<u64, String>)
    ensures
        match r {
            Ok(v) => time_value(s@) == Ok::<u64, Seq<char>>(v),
            Err(e) => time_value(s@) == Err::<u64, Seq<char>>(e@),
        },
{
    let pointed = put_points(s);
    let mut colon: Vec<char> = Vec::new();
    colon.push(':');
    assert(colon@ =~= seq![':']);
    let fields = split_text(&pointed, &colon);
    assert(texts(fields@).len() == fields.len());
    if fields.len() != 3 {
        return Err(diagnostic(BAD_TIME, &pointed));
    }
    assert(texts(fields@)[0] == fields@[0]@);
    assert(texts(fields@)[1] == fields@[1]@);
    assert(texts(fields@)[2] == fields@[2]@);
    let hours = match read_number(&fields[0]) {
        Some(h) => h,
        None => {
            return Err(diagnostic(BAD_HOURS, &fields[0]));
        },
    };
    let minutes = match read_number(&fields[1]) {
        Some(m) => m,
        None => {
            return Err(diagnostic(BAD_MINUTES, &fields[1]));
        },
    };
    let millis = match read_seconds(&fields[2]) {
        Some(v) => v,
        None => {
            return Err(diagnostic(BAD_SECONDS, &fields[2]));
        },
    };
    let total: u128 = hours * 3600000 + minutes * 60000 + millis;
    if total <= u64::MAX as u128 {
        Ok(total as u64)
    } else {
        Err(diagnostic(BAD_TIME, &pointed))
    }
}

/// Reads a time of the form hours, minutes and seconds.
pub fn parse_srt_time(time_str: &str) -> (r: Result<u64, String>)
    ensures
        match r {
            Ok(v) => time_value(time_str@) == Ok::<u64, Seq<char>>(v),
            Err(e) => time_value(time_str@) == Err::<u64, Seq<char>>(e@),
        },
{
    let chars = chars_of(time_str);
    read_time(&chars)
}

/// The characters of `pieces` from place `from` on, with `sep` between
/// each two pieces.
pub fn join_from(pieces: &Vec<Vec<char>>, from: usize, sep: char) -> (r: Vec<char>)
    requires
        from <= pieces.len(),
    ensures
        r@ == join(texts(pieces@).skip(from as int), seq![sep]),
{
    let mut out: Vec<char> = Vec::new();
    let mut i: usize = from;
    assert(texts(pieces@).skip(from as int).take(0) =~= Seq::<Seq<char>>::empty());
    while i < pieces.len()
        invariant
            from <= i <= pieces.len(),
            out@ == join(texts(pieces@).skip(from as int).take(i - from), seq![sep]),
        decreases pieces.len() - i,
    {
        let ghost before = out@;
        if i > from {
            out.push(sep);
        }
        let piece = &pieces[i];
        let mut j: usize = 0;
        let ghost start = out@;
        while j < piece.len()
            invariant
                j <= piece.len(),
                out@ == start + piece@.take(j as int),
            decreases piece.len() - j,
        {
            out.push(piece[j]);
            assert(piece@.take(j as int + 1) =~= piece@.take(j as int).push(piece@[j as int]));
            j += 1;
        }
        proof {
            assert(piece@.take(piece.len() as int) =~= piece@);
            let all = texts(pieces@).skip(from as int);
            let done = all.take(i - from + 1);
            assert(done.drop_last() =~= all.take(i - from));
            assert(done.last() == piece@);
            if i == from {
                assert(out@ =~= piece@);
            } else {
                assert(out@ =~= before + seq![sep] + piece@);
            }
        }
        i += 1;
    }
    proof {
        let all = texts(pieces@).skip(from as int);
        assert(all.take(pieces.len() - from) =~= all);
    }
    out
}

/// A cue, nothing or a diagnostic, by contents.
pub open spec fn found_view(r: Result<Option<Subtitle>, String>) -> Result<
    Option<SubtitleView>,
    Seq<char>,
> {
    match r {
        Ok(Some(c)) => Ok(Some(c@)),
        Ok(None) => Ok(None),
        Err(e) => Err(e@),
    }
}

/// Reads what one block holds.
#[verifier::rlimit(40)]
pub fn read_block(block: &Vec<char>) -> (r: Result<Option<Subtitle>, String>)
    ensures
        found_view(r) == block_cue(block@),
{
    proof {
        reveal(block_cue);
    }
    let (from, to) = trim_bounds(block);
    let body = chars_of_range(block, from, to);
    let mut newline: Vec<char> = Vec::new();
    newline.push('\n');
    assert(newline@ =~= seq!['\n']);
    let lines = split_text(&body, &newline);
    assert(texts(lines@).len() == lines.len());
    if lines.len() < 3 {
        return Ok(None);
    }
    assert(texts(lines@)[0] == lines@[0]@);
    assert(texts(lines@)[1] == lines@[1]@);
    let mut mark: Vec<char> = Vec::new();
    mark.push(' ');
    mark.push('-');
    mark.push('-');
    mark.push('>');
    mark.push(' ');
    assert(mark@ =~= arrow());
    let times = &lines[1];
    let k = match find(times, &mark, 0) {
        Some(k) => k,
        None => {
            return Ok(None);
        },
    };
    let first = chars_of_range(times, 0, k);
    let second = chars_of_range(times, k + 5, times.len());
    assert(times@.take(k as int) =~= times@.subrange(0, k as int));
    assert(times@.skip(k as int + 5) =~= times@.subrange(k as int + 5, times.len() as int));
    let (a, b) = trim_bounds(&first);
    let start_text = chars_of_range(&first, a, b);
    let start_time = match read_time(&start_text) {
        Ok(v) => v,
        Err(e) => {
            return Err(e);
        },
    };
    let (c, d) = trim_bounds(&second);
    let end_text = chars_of_range(&second, c, d);
    let end_time = match read_time(&end_text) {
        Ok(v) => v,
        Err(e) => {
            return Err(e);
        },
    };
    let joined = join_from(&lines, 2, '\n');
    let (e, f) = trim_bounds(&joined);
    if e == f || end_time < start_time {
        return Ok(None);
    }
    let text = string_of_range(&joined, e, f);
    let (g, h) = trim_bounds(&lines[0]);
    let id = string_of_range(&lines[0], g, h);
    Ok(Some(Subtitle { id, start_time, end_time, text }))
}

/// The cues that were found, followed by what the blocks that are left
/// hold.
pub open spec fn followed_by(
    found: Seq<SubtitleView>,
    rest: Result<Seq<SubtitleView>, Seq<char>>,
) -> Result<Seq<SubtitleView>, Seq<char>> {
    match rest {
        Ok(more) => Ok(found + more),
        Err(e) => Err(e),
    }
}

/// Reads the cues of a text in the block format.
#[verifier::rlimit(40)]
pub fn parse_srt_content(content: &str) -> (r: Result<Vec<Subtitle>, String>)
    ensures
        outcome_view(r) == srt_cues(content@),
        outcome_well_formed(r),
{
    proof {
        lemma_read_cues_have_text(content@);
    }
    let chars = chars_of(content);
    let mut blank: Vec<char> = Vec::new();
    blank.push('\n');
    blank.push('\n');
    assert(blank@ =~= seq!['\n', '\n']);
    let blocks = split_text(&chars, &blank);
    let mut out: Vec<Subtitle> = Vec::new();
    let mut i: usize = 0;
    proof {
        assert(texts(blocks@).skip(0) =~= texts(blocks@));
        assert(cues_view(out@) =~= Seq::empty());
        lemma_followed_by_nothing(blocks_cues(texts(blocks@)));
    }
    while i < blocks.len()
        invariant
            i <= blocks.len(),
            texts(blocks@) == split(content@, seq!['\n', '\n']),
            blocks_cues(texts(blocks@)) == followed_by(
                cues_view(out@),
                blocks_cues(texts(blocks@).skip(i as int)),
            ),
        decreases blocks.len() - i,
    {
        proof {
            assert(texts(blocks@).skip(i as int).drop_first() =~= texts(blocks@).skip(i as int + 1));
            assert(texts(blocks@).skip(i as int)[0] == blocks@[i as int]@);
        }
        match read_block(&blocks[i]) {
            Err(e) => {
                return Err(e);
            },
            Ok(None) => {},
            Ok(Some(cue)) => {
                let ghost before = out@;
                out.push(cue);
                proof {
                    assert(cues_view(out@) =~= cues_view(before).push(cue@));
                    match blocks_cues(texts(blocks@).skip(i as int + 1)) {
                        Ok(more) => {
                            assert(cues_view(before) + (seq![cue@] + more) =~= cues_view(
                                before,
                            ).push(cue@) + more);
                        },
                        Err(_) => {},
                    }
                }
            },
        }
        i += 1;
    }
    proof {
        assert(texts(blocks@).skip(blocks.len() as int) =~= Seq::<Seq<char>>::empty());
        assert(cues_view(out@) + Seq::<SubtitleView>::empty() =~= cues_view(out@));
    }
    if out.len() == 0 {
        Err(String::from_str(NO_CUES))
    } else {
        Ok(out)
    }
}

/// What follows no cue is what the blocks hold.
pub proof fn lemma_followed_by_nothing(rest: Result<Seq<SubtitleView>, Seq<char>>)
    ensures
        followed_by(Seq::empty(), rest) == rest,
{
    match rest {
        Ok(more) => {
            assert(Seq::<SubtitleView>::empty() + more =~= more);
        },
        Err(_) => {},
    }
}

/// The character of a digit.
pub open spec fn digit(d: nat) -> char {
    decimal_digit_chars()[d as int]
}

/// A number below 100 in two digits.
pub open spec fn two_digits(n: nat) -> Seq<char> {
    seq![digit(n / 10), digit(n % 10)]
}

/// A number of hours in two digits or more.
pub open spec fn hours_text(n: nat) -> Seq<char> {
    if n < 10 {
        seq![digit(0), digit(n)]
    } else {
        decimal_digits(n)
    }
}

/// A time of day by its parts: hours, minutes and seconds with colons
/// between them, and the thousandths in three digits behind a comma.
pub open spec fn clock_text(hours: nat, minutes: nat, seconds: nat, part: nat) -> Seq<char> {
    hours_text(hours) + seq![':'] + two_digits(minutes) + seq![':'] + two_digits(seconds) + seq![
        ',',
        digit(part / 100),
        digit((part % 100) / 10),
        digit(part % 10),
    ]
}

/// A number of milliseconds as hours, minutes, seconds and thousandths.
pub open spec fn time_text(millis: u64) -> Seq<char> {
    let n = millis as nat;
    clock_text(n / 3600000, (n / 60000) % 60, (n / 1000) % 60, n % 1000)
}

/// The block of a cue: its identifier, its two times with an arrow between
/// them, its text, and a blank line.
pub open spec fn cue_block(cue: SubtitleView) -> Seq<char> {
    cue.id + seq!['\n'] + time_text(cue.start_time) + arrow() + time_text(cue.end_time)
        + seq!['\n'] + cue.text + seq!['\n', '\n']
}

/// The text of a cue list in the block format.
pub open spec fn srt_text(cues: Seq<SubtitleView>) -> Seq<char>
    decreases cues.len(),
{
    if cues.len() == 0 {
        Seq::empty()
    } else {
        cue_block(cues[0]) + srt_text(cues.drop_first())
    }
}

/// Writes a number of milliseconds as hours, minutes, seconds and
/// thousandths.
pub fn format_time_srt(millis: u64) -> (r: String)
    ensures
        r@ == time_text(millis),
{
    let hours: u64 = millis / 3600000;
    let minutes: u64 = (millis / 60000) % 60;
    let seconds: u64 = (millis / 1000) % 60;
    let mut out = if hours < 10 {
        let mut short = String::new();
        short.push('0');
        short.push(digit_char(hours as u8));
        short
    } else {
        decimal(hours)
    };
    out.push(':');
    out.push(digit_char((minutes / 10) as u8));
    out.push(digit_char((minutes % 10) as u8));
    out.push(':');
    out.push(digit_char((seconds / 10) as u8));
    out.push(digit_char((seconds % 10) as u8));
    let part: u64 = millis % 1000;
    out.push(',');
    out.push(digit_char((part / 100) as u8));
    out.push(digit_char(((part % 100) / 10) as u8));
    out.push(digit_char((part % 10) as u8));
    assert(out@ =~= time_text(millis));
    out
}

/// Writes one character at the end of a text.
pub fn append_char(out: &mut String, c: char)
    ensures
        final(out)@ == old(out)@ + seq![c],
{
    let ghost before = out@;
    out.push(c);
    assert(out@ =~= before + seq![c]);
}

/// Writes the arrow at the end of a text.
pub fn append_arrow(out: &mut String)
    ensures
        final(out)@ == old(out)@ + arrow(),
{
    let ghost before = out@;
    out.push(' ');
    out.push('-');
    out.push('-');
    out.push('>');
    out.push(' ');
    assert(out@ =~= before + arrow());
}

/// Writes a blank line at the end of a text.
pub fn append_blank_line(out: &mut String)
    ensures
        final(out)@ == old(out)@ + seq!['\n', '\n'],
{
    let ghost before = out@;
    out.push('\n');
    out.push('\n');
    assert(out@ =~= before + seq!['\n', '\n']);
}

/// Writes the block of a cue.
pub fn encode_cue(cue: &Subtitle) -> (r: String)
    ensures
        r@ == cue_block(cue@),
{
    let start = format_time_srt(cue.start_time);
    let end = format_time_srt(cue.end_time);
    let mut block = cue.id.clone();
    append_char(&mut block, '\n');
    block.append(start.as_str());
    append_arrow(&mut block);
    block.append(end.as_str());
    append_char(&mut block, '\n');
    block.append(cue.text.as_str());
    append_blank_line(&mut block);
    block
}

/// The text of the cues from place `i` on starts with the block of cue
/// `i`.
pub proof fn lemma_srt_text_from(cues: Seq<SubtitleView>, i: int)
    requires
        0 <= i < cues.len(),
    ensures
        srt_text(cues.skip(i)) == cue_block(cues[i]) + srt_text(cues.skip(i + 1)),
{
    let rest = cues.skip(i);
    assert(rest.drop_first() =~= cues.skip(i + 1));
    assert(rest[0] == cues[i]);
}

/// Writes a cue list in the block format.
#[verifier::rlimit(40)]
pub fn encode_srt(cues: &Vec<Subtitle>) -> (r: String)
    ensures
        r@ == srt_text(cues_view(cues@)),
{
    let mut out = String::new();
    let mut i: usize = 0;
    let ghost all = cues_view(cues@);
    proof {
        assert(all.skip(0) =~= all);
        assert(out@ + srt_text(all) =~= srt_text(all));
    }
    while i < cues.len()
        invariant
            i <= cues.len(),
            all == cues_view(cues@),
            srt_text(all) == out@ + srt_text(all.skip(i as int)),
        decreases cues.len() - i,
    {
        let block = encode_cue(&cues[i]);
        let ghost before = out@;
        out.append(block.as_str());
        proof {
            lemma_srt_text_from(all, i as int);
            assert(all[i as int] == cues@[i as int]@);
            assert(before + (block@ + srt_text(all.skip(i as int + 1))) =~= (before + block@)
                + srt_text(all.skip(i as int + 1)));
        }
        i += 1;
    }
    proof {
        assert(all.skip(cues.len() as int) =~= Seq::<SubtitleView>::empty());
        assert(out@ + Seq::<char>::empty() =~= out@);
    }
    out
}

} // verus!

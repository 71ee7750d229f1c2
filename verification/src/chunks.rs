//! Audio that is recognised piece by piece: how it is cut, and how the
//! cues of the pieces become one list.
//!
//! A task never comes here. Audio that is too large to be sent along with
//! a request is uploaded to the object storage and recognised from there
//! as a whole: that is the one way in which the steps of a task deal with
//! it. What stands here is for a caller that has recognised pieces on its
//! own and wants their cues in one list; it starts no request and records
//! nothing.

use vstd::prelude::*;
use vstd::string::*;
use crate::replies::clamp_u64;
use crate::text::{decimal_digits, decimal_wide};
use crate::video::{all_well_formed, cues_view, outcome_view, outcome_well_formed, Subtitle, SubtitleView};

verus! {

/// The size of a piece, in bytes.
pub const CHUNK_SIZE: u64 = 5242880;

/// The length that a piece is taken to have, in milliseconds.
pub const CHUNK_MILLIS: u64 = 300000;

/// The number of pieces that audio of `length` bytes is cut into.
pub open spec fn chunk_total(length: nat) -> nat {
    (length + CHUNK_SIZE - 1) as nat / (CHUNK_SIZE as nat)
}

/// Counts the pieces that audio of `length` bytes is cut into.
pub fn chunk_count(length: u64) -> (r: u64)
    ensures
        r == chunk_total(length as nat),
{
    let whole: u64 = length / CHUNK_SIZE;
    if length % CHUNK_SIZE == 0 {
        whole
    } else {
        whole + 1
    }
}

/// The progress that is recorded before piece `index` of `total`, in
/// thousandths: from 300 on, with 600 shared out over the pieces.
pub open spec fn chunk_progress(index: nat, total: nat) -> nat {
    if total == 0 || index >= total {
        900
    } else {
        300 + 600 * index / total
    }
}

/// Computes the progress that is recorded before a piece.
pub fn progress_before_chunk(index: u64, total: u64) -> (r: u32)
    ensures
        r == chunk_progress(index as nat, total as nat),
        300 <= r <= 900,
{
    if total == 0 || index >= total {
        900
    } else {
        let share: u128 = 600 * (index as u128) / (total as u128);
        assert(share < 600) by (nonlinear_arith)
            requires
                share as int == 600 * (index as int) / (total as int),
                index < total,
                total > 0,
        ;
        (300 + share) as u32
    }
}

/// A cue of piece `chunk`, moved to its place in the whole and numbered
/// `number` in the joined list.
pub open spec fn placed(cue: SubtitleView, chunk: nat, number: nat) -> SubtitleView {
    SubtitleView {
        id: decimal_digits(number),
        start_time: clamp_u64(cue.start_time + chunk * CHUNK_MILLIS),
        end_time: clamp_u64(cue.end_time + chunk * CHUNK_MILLIS),
        text: cue.text,
    }
}

/// The first `n` cues of piece `chunk`, placed behind the cues in `done`.
pub open spec fn with_chunk(
    done: Seq<SubtitleView>,
    cues: Seq<SubtitleView>,
    chunk: nat,
    n: nat,
) -> Seq<SubtitleView>
    decreases n,
{
    if n == 0 || n > cues.len() {
        done
    } else {
        let before = with_chunk(done, cues, chunk, (n - 1) as nat);
        before.push(placed(cues[n - 1], chunk, before.len() + 1))
    }
}

/// The cues of the first `n` pieces in one list: each piece's cues are
/// moved by the length of the pieces before it, a piece without cues
/// leaves a gap, and the cues are numbered from 1.
pub open spec fn stitched(chunks: Seq<Option<Seq<SubtitleView>>>, n: nat) -> Seq<SubtitleView>
    decreases n,
{
    if n == 0 || n > chunks.len() {
        Seq::empty()
    } else {
        let before = stitched(chunks, (n - 1) as nat);
        match chunks[n - 1] {
            Some(cues) => with_chunk(before, cues, (n - 1) as nat, cues.len()),
            None => before,
        }
    }
}

/// Whether the cues of every piece that has cues have a text and do not
/// end before they start.
pub open spec fn pieces_well_formed(chunks: Seq<Option<Seq<SubtitleView>>>) -> bool {
    forall|k: int|
        0 <= k < chunks.len() ==> (#[trigger] chunks[k] matches Some(cues) ==> all_well_formed(
            cues,
        ))
}

/// Cues that have a text and do not end before they start still do so
/// behind the cues of a list of which the same holds.
pub proof fn lemma_with_chunk_well_formed(
    done: Seq<SubtitleView>,
    cues: Seq<SubtitleView>,
    chunk: nat,
    n: nat,
)
    requires
        all_well_formed(done),
        all_well_formed(cues),
    ensures
        all_well_formed(with_chunk(done, cues, chunk, n)),
    decreases n,
{
    if n == 0 || n > cues.len() {
    } else {
        lemma_with_chunk_well_formed(done, cues, chunk, (n - 1) as nat);
        assert(cues[n - 1].well_formed());
    }
}

/// Joining keeps cues as they should be: where the cues of every piece
/// have a text and do not end before they start, so do the joined cues.
pub proof fn lemma_stitched_well_formed(chunks: Seq<Option<Seq<SubtitleView>>>, n: nat)
    requires
        pieces_well_formed(chunks),
    ensures
        all_well_formed(stitched(chunks, n)),
    decreases n,
{
    if n == 0 || n > chunks.len() {
    } else {
        lemma_stitched_well_formed(chunks, (n - 1) as nat);
        match chunks[n - 1] {
            Some(cues) => {
                lemma_with_chunk_well_formed(
                    stitched(chunks, (n - 1) as nat),
                    cues,
                    (n - 1) as nat,
                    cues.len(),
                );
            },
            None => {},
        }
    }
}

/// The diagnostic of audio of which no piece was recognised.
pub const ALL_FAILED: &'static str = "所有片段识别都失败了，请检查网络连接和API配置";

/// The contents of a list of pieces, each with its cues or without.
pub open spec fn chunks_view(chunks: Seq<Option<Vec<Subtitle>>>) -> Seq<Option<Seq<SubtitleView>>> {
    chunks.map_values(
        |c: Option<Vec<Subtitle>>|
            match c {
                Some(cues) => Some(cues_view(cues@)),
                None => None,
            },
    )
}

/// What the pieces give together: their cues in one list, or a diagnostic
/// where there is no cue at all.
pub open spec fn chunks_result(chunks: Seq<Option<Seq<SubtitleView>>>) -> Result<
    Seq<SubtitleView>,
    Seq<char>,
> {
    let all = stitched(chunks, chunks.len());
    if all.len() == 0 {
        Err(ALL_FAILED@)
    } else {
        Ok(all)
    }
}

/// The place in the whole of a time in piece `chunk`.
pub fn offset_time(time: u64, chunk: u64) -> (r: u64)
    ensures
        r == clamp_u64(time + chunk * CHUNK_MILLIS),
{
    let wide: u128 = time as u128 + (chunk as u128) * 300000;
    if wide > u64::MAX as u128 {
        u64::MAX
    } else {
        wide as u64
    }
}

/// Joins the cues of the pieces of one audio file. A piece that was not
/// recognised is given as nothing.
pub fn process_large_audio_in_chunks(chunks: &Vec<Option<Vec<Subtitle>>>) -> (r: Result<
    Vec<Subtitle>,
    String,
>)
    ensures
        outcome_view(r) == chunks_result(chunks_view(chunks@)),
        pieces_well_formed(chunks_view(chunks@)) ==> outcome_well_formed(r),
{
    proof {
        if pieces_well_formed(chunks_view(chunks@)) {
            lemma_stitched_well_formed(chunks_view(chunks@), chunks@.len());
        }
    }
    let mut out: Vec<Subtitle> = Vec::new();
    let mut i: usize = 0;
    assert(cues_view(out@) =~= Seq::empty());
    while i < chunks.len()
        invariant
            i <= chunks.len(),
            cues_view(out@) == stitched(chunks_view(chunks@), i as nat),
        decreases chunks.len() - i,
    {
        match &chunks[i] {
            None => {},
            Some(cues) => {
                let ghost before = cues_view(out@);
                let mut j: usize = 0;
                while j < cues.len()
                    invariant
                        j <= cues.len(),
                        i < chunks.len(),
                        cues_view(out@) == with_chunk(before, cues_view(cues@), i as nat, j as nat),
                    decreases cues.len() - j,
                {
                    let cue = &cues[j];
                    let moved = Subtitle {
                        id: decimal_wide(out.len() as u128 + 1),
                        start_time: offset_time(cue.start_time, i as u64),
                        end_time: offset_time(cue.end_time, i as u64),
                        text: cue.text.clone(),
                    };
                    let ghost sofar = out@;
                    out.push(moved);
                    assert(cues_view(out@) =~= cues_view(sofar).push(moved@));
                    j += 1;
                }
            },
        }
        i += 1;
    }
    if out.len() == 0 {
        Err(String::from_str(ALL_FAILED))
    } else {
        Ok(out)
    }
}

} // verus!

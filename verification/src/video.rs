//! Media descriptions and subtitle cues.

use vstd::prelude::*;

verus! {

/// One audio stream of a media file.
#[derive(Debug, Clone)]
pub struct AudioTrack {
    pub id: u32,
    pub language: Option<String>,
    pub codec: String,
    pub channels: u32,
    pub sample_rate: u32,
}

/// What is known of a media file. The duration is in milliseconds.
#[derive(Debug, Clone)]
pub struct VideoInfo {
    pub file_path: String,
    pub duration: u64,
    pub width: i32,
    pub height: i32,
    pub audio_tracks: Vec<AudioTrack>,
}

/// The contents of an [`AudioTrack`].
pub struct AudioTrackView {
    pub id: u32,
    pub language: Option<Seq<char>>,
    pub codec: Seq<char>,
    pub channels: u32,
    pub sample_rate: u32,
}

impl View for AudioTrack {
    type V = AudioTrackView;

    open spec fn view(&self) -> AudioTrackView {
        AudioTrackView {
            id: self.id,
            language: match self.language {
                Some(l) => Some(l@),
                None => None,
            },
            codec: self.codec@,
            channels: self.channels,
            sample_rate: self.sample_rate,
        }
    }
}

/// The contents of a list of audio tracks.
pub open spec fn tracks_view(tracks: Seq<AudioTrack>) -> Seq<AudioTrackView> {
    tracks.map_values(|t: AudioTrack| t@)
}

/// The contents of a [`VideoInfo`].
pub struct VideoInfoView {
    pub file_path: Seq<char>,
    pub duration: u64,
    pub width: i32,
    pub height: i32,
    pub audio_tracks: Seq<AudioTrackView>,
}

impl View for VideoInfo {
    type V = VideoInfoView;

    open spec fn view(&self) -> VideoInfoView {
        VideoInfoView {
            file_path: self.file_path@,
            duration: self.duration,
            width: self.width,
            height: self.height,
            audio_tracks: tracks_view(self.audio_tracks@),
        }
    }
}

/// One timed subtitle entry. Times are in milliseconds from the start of
/// the media.
#[derive(Debug, Clone)]
pub struct Subtitle {
    pub id: String,
    pub start_time: u64,
    pub end_time: u64,
    pub text: String,
}

/// The mathematical content of a [`Subtitle`].
pub struct SubtitleView {
    pub id: Seq<char>,
    pub start_time: u64,
    pub end_time: u64,
    pub text: Seq<char>,
}

impl View for Subtitle {
    type V = SubtitleView;

    open spec fn view(&self) -> SubtitleView {
        SubtitleView {
            id: self.id@,
            start_time: self.start_time,
            end_time: self.end_time,
            text: self.text@,
        }
    }
}

/// The contents of a cue list, cue by cue.
pub open spec fn cues_view(cues: Seq<Subtitle>) -> Seq<SubtitleView> {
    cues.map_values(|c: Subtitle| c@)
}

/// A cue list or a diagnostic, by contents.
pub open spec fn outcome_view(r: Result<Vec<Subtitle>, String>) -> Result<
    Seq<SubtitleView>,
    Seq<char>,
> {
    match r {
        Ok(cues) => Ok(cues_view(cues@)),
        Err(e) => Err(e@),
    }
}

impl SubtitleView {
    /// Whether the cue has what every cue is to have: an end that is not
    /// before its start, and a text that is not blank.
    pub open spec fn well_formed(self) -> bool {
        self.start_time <= self.end_time && crate::text::trim(self.text).len() > 0
    }
}

/// Whether each cue of a list has an end that is not before its start, and
/// a text that is not blank.
pub open spec fn all_well_formed(cues: Seq<SubtitleView>) -> bool {
    forall|i: int| 0 <= i < cues.len() ==> (#[trigger] cues[i]).well_formed()
}

/// Whether the cue list of an outcome, where it has one, is well formed.
pub open spec fn outcome_well_formed(r: Result<Vec<Subtitle>, String>) -> bool {
    r matches Ok(cues) ==> all_well_formed(cues_view(cues@))
}

impl Subtitle {
    /// Whether the cue has an end that is not before its start, and a text
    /// that is not blank.
    pub fn is_well_formed(&self) -> (r: bool)
        ensures
            r == self@.well_formed(),
    {
        self.start_time <= self.end_time && !crate::text::is_blank(self.text.as_str())
    }
}

/// Copies a cue.
pub fn copy_subtitle(cue: &Subtitle) -> (r: Subtitle)
    ensures
        r@ == cue@,
{
    Subtitle {
        id: cue.id.clone(),
        start_time: cue.start_time,
        end_time: cue.end_time,
        text: cue.text.clone(),
    }
}

} // verus!

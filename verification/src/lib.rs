//! Subtitle generation backend: cue lists, request signing and the
//! bookkeeping of speech recognition tasks.

pub mod baidu;
pub mod chunks;
pub mod clock;
pub mod codec;
pub mod cos;
pub mod digest;
pub mod engine;
pub mod fallback;
pub mod job;
pub mod json;
pub mod probe;
pub mod recognition;
pub mod registry;
pub mod replies;
pub mod srt;
pub mod srt_laws;
pub mod tencent;
pub mod text;
pub mod text_laws;
pub mod video;
pub mod whisper;

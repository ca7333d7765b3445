//! Pause-triggered chunking: cut a recording at pauses, transcribe the pieces while the
//! recording goes on, and stitch the transcripts.

pub mod segmenter;
pub mod session;
pub mod stitch;

pub use segmenter::{PauseSegmenter, PauseSegmenterSettings, Segment};
pub use session::{ChunkError, PauseChunkingSession, WorkerAction, WorkerStage};
pub use stitch::stitch_transcripts;

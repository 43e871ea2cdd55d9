//! The engine of a push-to-talk / toggle dictation pipeline: the state
//! machine that sequences recording, transcription, enhancement and pasting;
//! the planning of preprocessing, silence trimming, chunking and codec
//! framing; the retry discipline of the remote services; the assembly of
//! chunk transcripts; and the guard on enhanced text. Each public function
//! states its behaviour in its contract, and the laws that relate several of
//! them are stated and proved as proof functions.
use vstd::prelude::*;

pub mod state;
pub mod text;
pub mod retry;
pub mod stt;
pub mod enhance;
pub mod chunk;
pub mod audio;
pub mod vad;
pub mod shell;
pub mod error;

verus! {

} // verus!

//! The voice activity gate: tracks how long the speech detector has heard
//! silence and reports speech, ongoing silence, or a silence timeout.
use vstd::prelude::*;
use crate::text::{decimal, decimal_string};

verus! {

/// The frame the speech detector takes: 32 ms at 16 kHz.
pub const VAD_FRAME_SIZE: usize = 512;

/// The silence threshold used where the configured one is unusable, in
/// milliseconds.
pub const DEFAULT_SILENCE_THRESHOLD_MS: u64 = 10_000;

/// Failures of the speech detector.
#[derive(Debug, Clone)]
pub enum VadError {
    ModelLoadFailed(String),
    InferenceFailed(String),
    InvalidFrameSize { expected: usize, got: usize },
}

pub open spec fn vad_error_text(e: VadError) -> Seq<char> {
    match e {
        VadError::ModelLoadFailed(m) => "failed to load VAD model: "@ + m@,
        VadError::InferenceFailed(m) => "VAD inference failed: "@ + m@,
        VadError::InvalidFrameSize { expected, got } => "invalid frame size: expected "@ + decimal(
            expected as nat,
        ) + ", got "@ + decimal(got as nat),
    }
}

impl VadError {
    /// The message that describes the error.
    pub fn to_string(&self) -> (r: String)
        ensures
            r@ == vad_error_text(*self),
    {
        match self {
            VadError::ModelLoadFailed(m) => {
                let mut r = String::from_str("failed to load VAD model: ");
                r.append(m.as_str());
                r
            },
            VadError::InferenceFailed(m) => {
                let mut r = String::from_str("VAD inference failed: ");
                r.append(m.as_str());
                r
            },
            VadError::InvalidFrameSize { expected, got } => {
                let mut r = String::from_str("invalid frame size: expected ");
                let e = decimal_string(*expected as u64);
                r.append(e.as_str());
                r.append(", got ");
                let g = decimal_string(*got as u64);
                r.append(g.as_str());
                r
            },
        }
    }
}

/// What one frame tells about the silence.
#[derive(Debug, Clone, Copy, PartialEq, Eq, Structural)]
pub enum SilenceStatus {
    /// The frame holds speech.
    Speech,
    /// Silence, lasting this many milliseconds since it began.
    Silence(u64),
    /// Silence lasted past the threshold: the recording should stop.
    SilenceTimeout,
}

/// The threshold to use: the configured one where it is usable (finite and
/// not negative, as the caller found it), else the default.
pub fn sanitize_threshold(configured_ms: Option<u64>) -> (r: u64)
    ensures
        r == match configured_ms {
            Some(t) => t,
            None => DEFAULT_SILENCE_THRESHOLD_MS,
        },
{
    match configured_ms {
        Some(t) => t,
        None => DEFAULT_SILENCE_THRESHOLD_MS,
    }
}

/// The silence tracker: the instant the current silence began, if any, and
/// the threshold past which silence times out. Instants are milliseconds
/// on a monotonic clock.
#[derive(Debug, Clone, Copy, PartialEq, Eq, Structural)]
pub struct SilenceGate {
    pub silence_start_ms: Option<u64>,
    pub threshold_ms: u64,
}

impl SilenceGate {
    /// A gate that has heard no silence yet.
    pub fn new(threshold_ms: u64) -> (r: SilenceGate)
        ensures
            r == (SilenceGate { silence_start_ms: None, threshold_ms }),
    {
        SilenceGate { silence_start_ms: None, threshold_ms }
    }

    /// The new tracker and the reported status for one frame.
    pub open spec fn after(self, is_speech: bool, now_ms: u64) -> (SilenceGate, SilenceStatus) {
        if is_speech {
            (SilenceGate { silence_start_ms: None, ..self }, SilenceStatus::Speech)
        } else {
            let start = match self.silence_start_ms {
                Some(s) => s,
                None => now_ms,
            };
            let elapsed = if now_ms >= start {
                (now_ms - start) as u64
            } else {
                0
            };
            (
                SilenceGate { silence_start_ms: Some(start), ..self },
                if elapsed >= self.threshold_ms {
                    SilenceStatus::SilenceTimeout
                } else {
                    SilenceStatus::Silence(elapsed)
                },
            )
        }
    }

    /// Records a frame at `now_ms` that holds speech when `is_speech`: speech
    /// clears the silence; silence starts it if needed and reports how long
    /// it has lasted, or the timeout once that reaches the threshold.
    pub fn process(&mut self, is_speech: bool, now_ms: u64) -> (r: SilenceStatus)
        ensures
            (*final(self), r) == old(self).after(is_speech, now_ms),
    {
        if is_speech {
            self.silence_start_ms = None;
            return SilenceStatus::Speech;
        }
        let start = match self.silence_start_ms {
            Some(s) => s,
            None => now_ms,
        };
        self.silence_start_ms = Some(start);
        let elapsed = if now_ms >= start {
            now_ms - start
        } else {
            0
        };
        if elapsed >= self.threshold_ms {
            SilenceStatus::SilenceTimeout
        } else {
            SilenceStatus::Silence(elapsed)
        }
    }

    /// Forgets any silence in progress.
    pub fn reset(&mut self)
        ensures
            *final(self) == (SilenceGate { silence_start_ms: None, ..*old(self) }),
    {
        self.silence_start_ms = None;
    }
}

/// A zero threshold times out on the first silent frame.
pub proof fn lemma_zero_threshold_times_out(g: SilenceGate, now_ms: u64)
    requires
        g.threshold_ms == 0,
    ensures
        g.after(false, now_ms).1 == SilenceStatus::SilenceTimeout,
{
}

} // verus!

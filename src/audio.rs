//! Audio capture errors and the integer side of preprocessing and encoding:
//! how many samples each step yields, which source samples an output sample
//! is drawn from, where silence is cut, and the container headers and frame
//! layout of an encoded chunk. The arithmetic on the samples themselves
//! (averaging, interpolation, energy) is left to the caller.
use vstd::prelude::*;
use vstd::arithmetic::div_mod::{lemma_div_decreases, lemma_fundamental_div_mod};
use crate::text::{decimal, decimal_string};

verus! {

/// The sample rate every recording is brought to, and the codec expects.
pub const TARGET_SAMPLE_RATE: u32 = 16_000;

/// The window of the silence analysis, in milliseconds.
pub const ENERGY_FRAME_MS: u32 = 20;

/// The shortest leading and trailing silence that `trim_silence` cuts, in
/// milliseconds.
pub const LEADING_SILENCE_MS: u32 = 200;
pub const TRAILING_SILENCE_MS: u32 = 500;

/// The format of the input device, fixed when a capture starts.
#[derive(Debug, Clone, Copy, PartialEq, Eq, Structural)]
pub struct CaptureFormat {
    pub sample_rate: u32,
    pub channels: u16,
}

/// Failures of capture and encoding.
#[derive(Debug, Clone)]
pub enum AudioError {
    NoInputDevice,
    NoInputConfig(String),
    CaptureFailed(String),
    AlreadyRecording,
    NotRecording,
    EncodingFailed(String),
}

pub open spec fn audio_error_text(e: AudioError) -> Seq<char> {
    match e {
        AudioError::NoInputDevice => "no audio input device found"@,
        AudioError::NoInputConfig(m) => "failed to get default input config: "@ + m@,
        AudioError::CaptureFailed(m) => "audio capture failed: "@ + m@,
        AudioError::AlreadyRecording => "already recording"@,
        AudioError::NotRecording => "capture not started"@,
        AudioError::EncodingFailed(m) => "encoding failed: "@ + m@,
    }
}

impl AudioError {
    /// The message that describes the error.
    pub fn to_string(&self) -> (r: String)
        ensures
            r@ == audio_error_text(*self),
    {
        match self {
            AudioError::NoInputDevice => String::from_str("no audio input device found"),
            AudioError::NoInputConfig(m) => {
                let mut r = String::from_str("failed to get default input config: ");
                r.append(m.as_str());
                r
            },
            AudioError::CaptureFailed(m) => {
                let mut r = String::from_str("audio capture failed: ");
                r.append(m.as_str());
                r
            },
            AudioError::AlreadyRecording => String::from_str("already recording"),
            AudioError::NotRecording => String::from_str("capture not started"),
            AudioError::EncodingFailed(m) => {
                let mut r = String::from_str("encoding failed: ");
                r.append(m.as_str());
                r
            },
        }
    }
}

/// Whether a capture session is running.
#[derive(Debug, Clone, Copy, PartialEq, Eq, Structural)]
pub struct CaptureSession {
    pub active: bool,
}

impl CaptureSession {
    /// A session that is not recording.
    pub fn new() -> (r: CaptureSession)
        ensures
            !r.active,
    {
        CaptureSession { active: false }
    }

    /// Marks the session as recording; fails if it already is.
    pub fn start(&mut self) -> (r: Result<(), AudioError>)
        ensures
            old(self).active ==> (r matches Err(AudioError::AlreadyRecording)) && *final(self)
                == *old(self),
            !old(self).active ==> r is Ok && final(self).active,
    {
        if self.active {
            return Err(AudioError::AlreadyRecording);
        }
        self.active = true;
        Ok(())
    }

    /// Marks the session as stopped; fails if it was not recording.
    pub fn stop(&mut self) -> (r: Result<(), AudioError>)
        ensures
            !old(self).active ==> (r matches Err(AudioError::NotRecording)) && *final(self)
                == *old(self),
            old(self).active ==> r is Ok && !final(self).active,
    {
        if !self.active {
            return Err(AudioError::NotRecording);
        }
        self.active = false;
        Ok(())
    }
}

/// The number of mono samples that `len` interleaved samples of `channels`
/// channels make: one per frame, a last partial frame included.
pub open spec fn mono_len_spec(len: nat, channels: nat) -> nat {
    if channels <= 1 {
        len
    } else {
        (len / channels + if len % channels == 0 {
            0nat
        } else {
            1nat
        }) as nat
    }
}

/// The length of the mono signal made from `len` interleaved samples.
pub fn mono_len(len: usize, channels: u16) -> (r: usize)
    ensures
        r == mono_len_spec(len as nat, channels as nat),
{
    if channels <= 1 {
        len
    } else {
        let c = channels as usize;
        proof {
            if len > 0 {
                lemma_div_decreases(len as int, c as int);
            }
        }
        len / c + if len % c == 0 {
            0
        } else {
            1
        }
    }
}

/// For one channel or more, the mono length is the ceiling of `len / channels`,
/// and one channel keeps every sample.
pub proof fn lemma_mono_len_is_ceiling(len: nat, channels: nat)
    requires
        channels >= 1,
    ensures
        mono_len_spec(len, channels) * channels >= len,
        mono_len_spec(len, channels) == 0 || (mono_len_spec(len, channels) - 1) * channels < len,
        channels == 1 ==> mono_len_spec(len, channels) == len,
{
    if channels > 1 {
        lemma_fundamental_div_mod(len as int, channels as int);
        let q = len / channels;
        let m = len % channels;
        if m == 0 {
            assert(q * channels == len && (q == 0 || (q - 1) * channels < len)) by (nonlinear_arith)
                requires
                    len == channels * q + m,
                    m == 0,
                    channels > 1,
            ;
        } else {
            assert((q + 1) * channels >= len && q * channels < len) by (nonlinear_arith)
                requires
                    len == channels * q + m,
                    0 < m < channels,
            ;
        }
    }
}

/// The number of samples that resampling `len` samples from `from_rate` to
/// `to_rate` yields: `ceil(len * to_rate / from_rate)`; as many as given
/// when the rates agree or nothing is given.
pub open spec fn resampled_len_spec(len: nat, from_rate: nat, to_rate: nat) -> nat {
    if from_rate == to_rate || len == 0 || from_rate == 0 {
        len
    } else {
        ((len * to_rate + from_rate - 1) as int / from_rate as int) as nat
    }
}

/// The length of a resampled signal.
pub fn resampled_len(len: usize, from_rate: u32, to_rate: u32) -> (r: u128)
    ensures
        r == resampled_len_spec(len as nat, from_rate as nat, to_rate as nat),
{
    if from_rate == to_rate || len == 0 || from_rate == 0 {
        return len as u128;
    }
    assert((len as u128) * (to_rate as u128) <= 0xffff_ffff_ffff_ffff * 0xffff_ffff)
        by (nonlinear_arith)
        requires
            len <= 0xffff_ffff_ffff_ffff,
            to_rate <= 0xffff_ffff,
    ;
    ((len as u128) * (to_rate as u128) + (from_rate as u128) - 1) / (from_rate as u128)
}

/// Resampling keeps the length where the rates agree, yields nothing from
/// nothing, and otherwise yields `ceil(len * to_rate / from_rate)` samples.
pub proof fn lemma_resampled_len(len: nat, from_rate: nat, to_rate: nat)
    requires
        from_rate > 0,
    ensures
        resampled_len_spec(len, from_rate, from_rate) == len,
        resampled_len_spec(0, from_rate, to_rate) == 0,
        from_rate != to_rate && len > 0 ==> resampled_len_spec(len, from_rate, to_rate)
            * from_rate >= len * to_rate,
        from_rate != to_rate && len > 0 ==> (resampled_len_spec(len, from_rate, to_rate) - 1)
            * from_rate < len * to_rate,
{
    if from_rate != to_rate && len > 0 {
        let x = len * to_rate + from_rate - 1;
        lemma_fundamental_div_mod(x as int, from_rate as int);
        let q = x as int / from_rate as int;
        let m = x as int % from_rate as int;
        assert(q * from_rate >= len * to_rate && (q - 1) * from_rate < len * to_rate)
            by (nonlinear_arith)
            requires
                x == from_rate * q + m,
                0 <= m < from_rate,
                x == len * to_rate + from_rate - 1,
        ;
    }
}

/// Where output sample `i` of a resampling from `from_rate` to `to_rate`
/// lies in the source: at `index + num / to_rate`, with `num < to_rate`.
pub fn source_position(i: usize, from_rate: u32, to_rate: u32) -> (r: (u128, u32))
    requires
        to_rate > 0,
    ensures
        r.0 * to_rate + r.1 == i * from_rate,
        r.1 < to_rate,
{
    assert((i as u128) * (from_rate as u128) <= 0xffff_ffff_ffff_ffff * 0xffff_ffff)
        by (nonlinear_arith)
        requires
            i <= 0xffff_ffff_ffff_ffff,
            from_rate <= 0xffff_ffff,
    ;
    let p = (i as u128) * (from_rate as u128);
    let t = to_rate as u128;
    let index = p / t;
    let num = p % t;
    proof {
        lemma_fundamental_div_mod(p as int, t as int);
        assert(index * t + num == p) by (nonlinear_arith)
            requires
                p == t * index + num,
        ;
    }
    (index, num as u32)
}

/// The samples in one silence analysis window at `rate`.
pub open spec fn energy_frame_spec(rate: nat) -> nat {
    (rate * ENERGY_FRAME_MS / 1000) as nat
}

/// The samples in one silence analysis window.
pub fn energy_frame_size(sample_rate: u32) -> (r: usize)
    ensures
        r == energy_frame_spec(sample_rate as nat),
{
    ((sample_rate as u64) * (ENERGY_FRAME_MS as u64) / 1000) as usize
}

/// The number of leading entries of `loud` that are quiet.
pub open spec fn quiet_prefix(loud: Seq<bool>) -> nat
    decreases loud.len(),
{
    if loud.len() == 0 || loud[0] {
        0
    } else {
        1 + quiet_prefix(loud.drop_first())
    }
}

/// The number of trailing entries of `loud` that are quiet.
pub open spec fn quiet_suffix(loud: Seq<bool>) -> nat
    decreases loud.len(),
{
    if loud.len() == 0 || loud.last() {
        0
    } else {
        1 + quiet_suffix(loud.drop_last())
    }
}

/// Where the kept audio starts after leading silence is trimmed: the start
/// of the first loud frame (or the end, where none is loud) if at least
/// `min_frames` frames before it are quiet; else the very start.
pub open spec fn leading_cut_spec(loud: Seq<bool>, frame: nat, len: nat, min_frames: nat) -> nat {
    let k = quiet_prefix(loud);
    if frame == 0 || k < min_frames {
        0
    } else if k * frame >= len {
        len
    } else {
        k * frame
    }
}

/// Where the kept audio ends after trailing silence is trimmed: the end of
/// the last loud frame (or the start, where none is loud) if at least
/// `min_frames` frames after it are quiet; else the very end.
pub open spec fn trailing_cut_spec(loud: Seq<bool>, frame: nat, len: nat, min_frames: nat) -> nat {
    let t = quiet_suffix(loud);
    if frame == 0 || t < min_frames {
        len
    } else if (loud.len() - t) * frame >= len {
        len
    } else {
        ((loud.len() - t) * frame) as nat
    }
}

proof fn lemma_quiet_prefix_step(loud: Seq<bool>, i: int)
    requires
        0 <= i < loud.len(),
        forall|j: int| 0 <= j < i ==> !loud[j],
    ensures
        quiet_prefix(loud) == i + quiet_prefix(loud.subrange(i, loud.len() as int)),
    decreases i,
{
    if i > 0 {
        lemma_quiet_prefix_step(loud.drop_first(), i - 1);
        assert(loud.drop_first().subrange(i - 1, loud.len() - 1) =~= loud.subrange(
            i,
            loud.len() as int,
        ));
    } else {
        assert(loud.subrange(0, loud.len() as int) =~= loud);
    }
}

proof fn lemma_quiet_suffix_step(loud: Seq<bool>, i: int)
    requires
        0 <= i < loud.len(),
        forall|j: int| i < j < loud.len() ==> !loud[j],
    ensures
        quiet_suffix(loud) == (loud.len() - 1 - i) + quiet_suffix(loud.subrange(0, i + 1)),
    decreases loud.len() - i,
{
    if i < loud.len() - 1 {
        lemma_quiet_suffix_step(loud.drop_last(), i);
        assert(loud.drop_last().subrange(0, i + 1) =~= loud.subrange(0, i + 1));
    } else {
        assert(loud.subrange(0, loud.len() as int) =~= loud);
    }
}

/// The count of quiet frames at the start of `loud`.
fn count_quiet_prefix(loud: &Vec<bool>) -> (r: usize)
    ensures
        r == quiet_prefix(loud@),
        r <= loud@.len(),
{
    let mut i: usize = 0;
    while i < loud.len() && !loud[i]
        invariant
            i <= loud@.len(),
            forall|j: int| 0 <= j < i ==> !loud@[j],
        decreases loud.len() - i,
    {
        i = i + 1;
    }
    proof {
        if i < loud@.len() {
            lemma_quiet_prefix_step(loud@, i as int);
        } else if i > 0 {
            lemma_quiet_prefix_step(loud@, i - 1);
            let tail = loud@.subrange(i - 1, loud@.len() as int);
            assert(!tail[0]);
            assert(quiet_prefix(tail.drop_first()) == 0);
            assert(quiet_prefix(tail) == 1);
        }
    }
    i
}

/// The count of quiet frames at the end of `loud`.
fn count_quiet_suffix(loud: &Vec<bool>) -> (r: usize)
    ensures
        r == quiet_suffix(loud@),
        r <= loud@.len(),
{
    let n = loud.len();
    let mut t: usize = 0;
    while t < n && !loud[n - 1 - t]
        invariant
            n == loud@.len(),
            t <= n,
            forall|j: int| n - t <= j < n ==> !loud@[j],
        decreases n - t,
    {
        t = t + 1;
    }
    proof {
        if t < n {
            lemma_quiet_suffix_step(loud@, n - 1 - t);
        } else if t > 0 {
            lemma_quiet_suffix_step(loud@, 0);
            let head = loud@.subrange(0, 1);
            assert(!head.last());
            assert(quiet_suffix(head.drop_last()) == 0);
            assert(quiet_suffix(head) == 1);
        }
    }
    t
}

/// The start of the audio kept after trimming leading silence, given
/// whether each analysis frame of `frame` samples is loud.
pub fn leading_silence_cut(loud: &Vec<bool>, frame: usize, len: usize, min_frames: usize) -> (r:
    usize)
    ensures
        r == leading_cut_spec(loud@, frame as nat, len as nat, min_frames as nat),
        r <= len,
{
    let k = count_quiet_prefix(loud);
    if frame == 0 || k < min_frames {
        return 0;
    }
    assert((k as u128) * (frame as u128) <= 0xffff_ffff_ffff_ffff * 0xffff_ffff_ffff_ffff)
        by (nonlinear_arith)
        requires
            k <= 0xffff_ffff_ffff_ffff,
            frame <= 0xffff_ffff_ffff_ffff,
    ;
    let start = (k as u128) * (frame as u128);
    if start >= len as u128 {
        len
    } else {
        start as usize
    }
}

/// The end of the audio kept after trimming trailing silence, given whether
/// each analysis frame of `frame` samples is loud.
pub fn trailing_silence_cut(loud: &Vec<bool>, frame: usize, len: usize, min_frames: usize) -> (r:
    usize)
    ensures
        r == trailing_cut_spec(loud@, frame as nat, len as nat, min_frames as nat),
        r <= len,
{
    let t = count_quiet_suffix(loud);
    if frame == 0 || t < min_frames {
        return len;
    }
    let kept = loud.len() - t;
    assert((kept as u128) * (frame as u128) <= 0xffff_ffff_ffff_ffff * 0xffff_ffff_ffff_ffff)
        by (nonlinear_arith)
        requires
            kept <= 0xffff_ffff_ffff_ffff,
            frame <= 0xffff_ffff_ffff_ffff,
    ;
    let end = (kept as u128) * (frame as u128);
    if end >= len as u128 {
        len
    } else {
        end as usize
    }
}

/// Audio that is silent throughout, over a run of frames that reaches the
/// minimum, is trimmed away entirely from the start.
pub proof fn lemma_all_silence_trims_to_nothing(
    loud: Seq<bool>,
    frame: nat,
    len: nat,
    min_frames: nat,
)
    requires
        forall|j: int| 0 <= j < loud.len() ==> !loud[j],
        frame > 0,
        loud.len() >= min_frames,
        loud.len() * frame >= len,
    ensures
        leading_cut_spec(loud, frame, len, min_frames) == len,
{
    if loud.len() > 0 {
        lemma_quiet_prefix_step(loud, loud.len() - 1);
        assert(quiet_prefix(loud.subrange(loud.len() - 1, loud.len() as int).drop_first()) == 0);
    }
}

/// Audio whose first and last frames are loud is kept whole at both ends.
pub proof fn lemma_loud_edges_keep_all(loud: Seq<bool>, frame: nat, len: nat, min_frames: nat)
    requires
        loud.len() > 0,
        loud[0],
        loud.last(),
        min_frames > 0,
    ensures
        leading_cut_spec(loud, frame, len, min_frames) == 0,
        trailing_cut_spec(loud, frame, len, min_frames) == len,
{
}

/// The codec's frame: 20 ms at 16 kHz.
pub const CODEC_FRAME_SIZE: usize = 320;

/// The granule position advances by this much per frame (48 kHz clock).
pub const GRANULE_PER_FRAME: u64 = 960;

/// The codec's pre-skip, in 48 kHz samples.
pub const PRE_SKIP: u16 = 312;

/// The frames that an encoding of `len` samples holds, or the error for a
/// rate other than 16 kHz. Empty input encodes to nothing at any rate.
pub open spec fn encode_frames_spec(len: nat, sample_rate: nat) -> Option<nat> {
    if len == 0 {
        Some(0)
    } else if sample_rate != TARGET_SAMPLE_RATE {
        None
    } else {
        Some(
            (len / CODEC_FRAME_SIZE as nat + if len % CODEC_FRAME_SIZE as nat == 0 {
                0nat
            } else {
                1nat
            }) as nat,
        )
    }
}

/// Checks the input of an encoding and counts its frames: 0 for empty
/// input, an error for any rate other than 16 kHz.
pub fn encode_frame_count(len: usize, sample_rate: u32) -> (r: Result<usize, AudioError>)
    ensures
        encode_frames_spec(len as nat, sample_rate as nat) matches Some(n) ==> r == Ok::<
            usize,
            AudioError,
        >(n as usize),
        encode_frames_spec(len as nat, sample_rate as nat) is None ==> (r matches Err(
            AudioError::EncodingFailed(m),
        ) && m@ == "expected 16000 Hz, got "@ + decimal(sample_rate as nat) + " Hz"@),
{
    if len == 0 {
        return Ok(0);
    }
    if sample_rate != TARGET_SAMPLE_RATE {
        let mut m = String::from_str("expected 16000 Hz, got ");
        let n = decimal_string(sample_rate as u64);
        m.append(n.as_str());
        m.append(" Hz");
        return Err(AudioError::EncodingFailed(m));
    }
    Ok(len / CODEC_FRAME_SIZE + if len % CODEC_FRAME_SIZE == 0 {
        0
    } else {
        1
    })
}

/// The granule position after frame `i` (counted from zero), and whether
/// frame `i` ends the stream of `total` frames.
pub fn frame_position(i: usize, total: usize) -> (r: (u64, bool))
    requires
        i < total,
        total <= CODEC_FRAME_SIZE * 0x1_0000_0000,
    ensures
        r.0 == GRANULE_PER_FRAME * (i + 1),
        r.1 == (i == total - 1),
{
    ((i as u64 + 1) * GRANULE_PER_FRAME, i == total - 1)
}

/// The eight bytes "OpusHead".
pub open spec fn opus_head_magic() -> Seq<u8> {
    seq![0x4fu8, 0x70, 0x75, 0x73, 0x48, 0x65, 0x61, 0x64]
}

/// The eight bytes "OpusTags".
pub open spec fn opus_tags_magic() -> Seq<u8> {
    seq![0x4fu8, 0x70, 0x75, 0x73, 0x54, 0x61, 0x67, 0x73]
}

/// The vendor string "VoiceDictator".
pub open spec fn vendor() -> Seq<u8> {
    seq![0x56u8, 0x6f, 0x69, 0x63, 0x65, 0x44, 0x69, 0x63, 0x74, 0x61, 0x74, 0x6f, 0x72]
}

pub open spec fn le16(v: u16) -> Seq<u8> {
    seq![(v % 256) as u8, (v / 256) as u8]
}

pub open spec fn le32(v: u32) -> Seq<u8> {
    seq![
        (v % 256) as u8,
        ((v / 256) % 256) as u8,
        ((v / 65536) % 256) as u8,
        (v / 16777216) as u8,
    ]
}

/// The identification header: magic, version 1, one channel, pre-skip, the
/// input rate, zero output gain and channel mapping family 0.
pub open spec fn opus_head_spec(rate: u32) -> Seq<u8> {
    opus_head_magic() + seq![1u8, 1u8] + le16(PRE_SKIP) + le32(rate) + le16(0) + seq![0u8]
}

/// The comment header: magic, the vendor string with its length, and no
/// comments.
pub open spec fn opus_tags_spec() -> Seq<u8> {
    opus_tags_magic() + le32(13) + vendor() + le32(0)
}

fn push_bytes(out: &mut Vec<u8>, bytes: &[u8])
    ensures
        final(out)@ == old(out)@ + bytes@,
{
    let mut i: usize = 0;
    while i < bytes.len()
        invariant
            i <= bytes@.len(),
            out@ == old(out)@ + bytes@.subrange(0, i as int),
        decreases bytes.len() - i,
    {
        out.push(bytes[i]);
        assert(bytes@.subrange(0, i + 1) =~= bytes@.subrange(0, i as int).push(bytes@[i as int]));
        i = i + 1;
    }
    assert(bytes@.subrange(0, bytes@.len() as int) =~= bytes@);
}

fn push_le16(out: &mut Vec<u8>, v: u16)
    ensures
        final(out)@ == old(out)@ + le16(v),
{
    out.push((v % 256) as u8);
    out.push((v / 256) as u8);
    assert(final(out)@ =~= old(out)@ + le16(v));
}

fn push_le32(out: &mut Vec<u8>, v: u32)
    ensures
        final(out)@ == old(out)@ + le32(v),
{
    out.push((v % 256) as u8);
    out.push(((v / 256) % 256) as u8);
    out.push(((v / 65536) % 256) as u8);
    out.push((v / 16777216) as u8);
    assert(final(out)@ =~= old(out)@ + le32(v));
}

/// The 19-byte identification header of the container.
pub fn build_opus_head(input_sample_rate: u32) -> (r: Vec<u8>)
    ensures
        r@ == opus_head_spec(input_sample_rate),
        r@.len() == 19,
{
    let mut head: Vec<u8> = Vec::new();
    let magic: [u8; 8] = [0x4f, 0x70, 0x75, 0x73, 0x48, 0x65, 0x61, 0x64];
    push_bytes(&mut head, &magic);
    assert(magic@ =~= opus_head_magic());
    head.push(1);
    head.push(1);
    push_le16(&mut head, PRE_SKIP);
    push_le32(&mut head, input_sample_rate);
    push_le16(&mut head, 0);
    head.push(0);
    assert(head@ =~= opus_head_spec(input_sample_rate));
    head
}

/// The comment header of the container.
pub fn build_opus_tags() -> (r: Vec<u8>)
    ensures
        r@ == opus_tags_spec(),
{
    let mut tags: Vec<u8> = Vec::new();
    let magic: [u8; 8] = [0x4f, 0x70, 0x75, 0x73, 0x54, 0x61, 0x67, 0x73];
    let vendor_bytes: [u8; 13] = [
        0x56,
        0x6f,
        0x69,
        0x63,
        0x65,
        0x44,
        0x69,
        0x63,
        0x74,
        0x61,
        0x74,
        0x6f,
        0x72,
    ];
    push_bytes(&mut tags, &magic);
    assert(magic@ =~= opus_tags_magic());
    push_le32(&mut tags, 13);
    push_bytes(&mut tags, &vendor_bytes);
    assert(vendor_bytes@ =~= vendor());
    push_le32(&mut tags, 0);
    assert(tags@ =~= opus_tags_spec());
    tags
}

} // verus!

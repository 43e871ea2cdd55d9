use voice_dictator::audio::energy_frame_size;
use voice_dictator::chunk::{chunk_bounds, find_quiet_point};

const MIN_CHUNK_SEC: f32 = 5.0;

struct AudioChunk {
    samples: Vec<f32>,
}

fn window_energy_keys(samples: &[f32], sample_rate: u32) -> Vec<u32> {
    let window = energy_frame_size(sample_rate);
    let step = window / 2;
    let mut keys = Vec::new();
    if step == 0 {
        return keys;
    }
    let mut start = 0;
    while start + window <= samples.len() {
        let w = &samples[start..start + window];
        let energy: f32 = w.iter().map(|s| s * s).sum::<f32>() / w.len() as f32;
        keys.push(energy.to_bits());
        start += step;
    }
    keys
}

fn chunk_audio(samples: &[f32], sample_rate: u32, max_chunk_sec: u32) -> Vec<AudioChunk> {
    let keys = window_energy_keys(samples, sample_rate);
    chunk_bounds(samples.len(), sample_rate, max_chunk_sec, &keys)
        .into_iter()
        .map(|(s, e)| AudioChunk { samples: samples[s..e].to_vec() })
        .collect()
}

#[test]
fn chunk_audio_should_return_single_chunk_when_audio_is_short() {
    let sample_rate = 16_000u32;
    let samples: Vec<f32> = vec![0.1; sample_rate as usize * 10];
    let chunks = chunk_audio(&samples, sample_rate, 25);
    assert_eq!(chunks.len(), 1);
    assert_eq!(chunks[0].samples.len(), samples.len());
}

#[test]
fn chunk_audio_should_split_long_audio() {
    let sample_rate = 16_000u32;
    let samples: Vec<f32> = vec![0.1; sample_rate as usize * 60];
    let chunks = chunk_audio(&samples, sample_rate, 25);
    assert!(chunks.len() >= 2, "expected >= 2 chunks, got {}", chunks.len());
}

#[test]
fn chunk_audio_should_return_single_chunk_for_empty_audio() {
    let chunks = chunk_audio(&[], 16_000, 25);
    assert_eq!(chunks.len(), 1);
    assert!(chunks[0].samples.is_empty());
}

#[test]
fn chunk_audio_should_not_create_tiny_trailing_chunk() {
    let sample_rate = 16_000u32;
    let samples: Vec<f32> = vec![0.0; sample_rate as usize * 27];
    let chunks = chunk_audio(&samples, sample_rate, 25);
    if chunks.len() > 1 {
        let last_sec = chunks.last().unwrap().samples.len() as f32 / sample_rate as f32;
        assert!(last_sec >= MIN_CHUNK_SEC, "trailing chunk too short: {last_sec}s");
    }
}

#[test]
fn chunk_audio_should_cover_all_samples() {
    let sample_rate = 16_000u32;
    let total = sample_rate as usize * 55;
    let samples: Vec<f32> = (0..total).map(|i| (i as f32) / total as f32).collect();
    let chunks = chunk_audio(&samples, sample_rate, 25);
    assert_eq!(chunks.first().unwrap().samples[0], samples[0]);
    assert_eq!(*chunks.last().unwrap().samples.last().unwrap(), *samples.last().unwrap());
}

#[test]
fn chunk_audio_should_return_single_chunk_when_max_chunk_sec_is_zero() {
    let samples = vec![0.1f32; 16_000 * 10];
    let chunks = chunk_audio(&samples, 16_000, 0);
    assert_eq!(chunks.len(), 1);
    assert_eq!(chunks[0].samples.len(), samples.len());
}

#[test]
fn chunk_audio_should_return_single_chunk_when_sample_rate_is_zero() {
    let samples = vec![0.1f32; 1000];
    let chunks = chunk_audio(&samples, 0, 25);
    assert_eq!(chunks.len(), 1);
    assert_eq!(chunks[0].samples.len(), samples.len());
}

#[test]
fn chunk_audio_should_cut_in_silent_region() {
    // Loud for 20 s, silent for 2 s, loud again: the cut falls in the silence.
    let sample_rate = 16_000u32;
    let rate = sample_rate as usize;
    let mut samples = vec![0.5f32; rate * 20];
    samples.extend(vec![0.0f32; rate * 2]);
    samples.extend(vec![0.5f32; rate * 20]);
    let chunks = chunk_audio(&samples, sample_rate, 25);
    assert!(chunks.len() >= 2);
    let first_end = chunks[0].samples.len();
    assert!(first_end >= rate * 20 && first_end <= rate * 22, "cut at {}", first_end);
}

fn find_quiet_split_point(segment: &[f32], sample_rate: u32) -> Option<usize> {
    let keys = window_energy_keys(segment, sample_rate);
    find_quiet_point(&keys, energy_frame_size(sample_rate), 0, segment.len())
}

#[test]
fn find_quiet_split_point_should_find_silent_region() {
    let sample_rate = 16_000u32;
    let window = sample_rate as usize / 50;
    let mut segment = vec![0.5f32; window * 10];
    for s in &mut segment[window * 4..window * 6] {
        *s = 0.001;
    }
    let split = find_quiet_split_point(&segment, sample_rate);
    assert!(split.is_some());
    let pos = split.unwrap();
    assert!(
        pos >= window * 3 && pos <= window * 7,
        "split at {pos}, expected in [{}, {}]",
        window * 3,
        window * 7,
    );
}

#[test]
fn find_quiet_split_point_should_return_none_for_short_segment() {
    let segment = vec![0.1f32; 100];
    assert!(find_quiet_split_point(&segment, 16_000).is_none());
}

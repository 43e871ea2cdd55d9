//! Speech-to-text errors, the handling of a transcription response, and the
//! assembly of per-chunk transcripts into one text.
use vstd::prelude::*;
use crate::retry::{Failure, RetryState, is_server_error};
use crate::chunk::DEFAULT_MAX_CHUNK_SEC;
use crate::enhance::is_auto;
use crate::text::{
    decimal, decimal_string, join_from, join_words, lower_of, lowercase, split_words, trim_text,
    trimmed, views, words,
};

verus! {

/// Failures of the transcription service.
#[derive(Debug, Clone)]
pub enum SttError {
    Network(String),
    AuthFailed,
    RateLimited { retry_after_sec: u64 },
    Timeout,
    ApiError { status: u16, message: String },
    InvalidResponse(String),
    EncodingFailed(String),
}

pub open spec fn stt_error_text(e: SttError) -> Seq<char> {
    match e {
        SttError::Network(m) => "network error: "@ + m@,
        SttError::AuthFailed => "authentication failed: check API key"@,
        SttError::RateLimited { retry_after_sec } => "rate limited, retry after "@ + decimal(
            retry_after_sec as nat,
        ) + "s"@,
        SttError::Timeout => "request timeout"@,
        SttError::ApiError { status, message } => "API error ("@ + decimal(status as nat)
            + "): "@ + message@,
        SttError::InvalidResponse(m) => "invalid response: "@ + m@,
        SttError::EncodingFailed(m) => "encoding failed: "@ + m@,
    }
}

/// Network errors, timeouts and server errors are worth retrying; an
/// authentication failure, a client error or a rate limit are not (rate
/// limits have a counter of their own).
pub open spec fn stt_retryable(e: SttError) -> bool {
    match e {
        SttError::Network(_) | SttError::Timeout => true,
        SttError::ApiError { status, .. } => is_server_error(status),
        _ => false,
    }
}

impl SttError {
    /// The message that describes the error.
    pub fn to_string(&self) -> (r: String)
        ensures
            r@ == stt_error_text(*self),
    {
        match self {
            SttError::Network(m) => {
                let mut r = String::from_str("network error: ");
                r.append(m.as_str());
                r
            },
            SttError::AuthFailed => String::from_str("authentication failed: check API key"),
            SttError::RateLimited { retry_after_sec } => {
                let mut r = String::from_str("rate limited, retry after ");
                let n = decimal_string(*retry_after_sec);
                r.append(n.as_str());
                r.append("s");
                r
            },
            SttError::Timeout => String::from_str("request timeout"),
            SttError::ApiError { status, message } => {
                let mut r = String::from_str("API error (");
                let n = decimal_string(*status as u64);
                r.append(n.as_str());
                r.append("): ");
                r.append(message.as_str());
                r
            },
            SttError::InvalidResponse(m) => {
                let mut r = String::from_str("invalid response: ");
                r.append(m.as_str());
                r
            },
            SttError::EncodingFailed(m) => {
                let mut r = String::from_str("encoding failed: ");
                r.append(m.as_str());
                r
            },
        }
    }

    /// Whether the generic retry path applies to this error.
    pub fn is_retryable(&self) -> (r: bool)
        ensures
            r == stt_retryable(*self),
    {
        match self {
            SttError::Network(_) | SttError::Timeout => true,
            SttError::ApiError { status, .. } => *status >= 500,
            _ => false,
        }
    }

    /// What the error calls for in the retry discipline.
    pub fn failure(&self) -> (r: Failure)
        ensures
            r == (match *self {
                SttError::RateLimited { retry_after_sec } => Failure::RateLimited(retry_after_sec),
                e => if stt_retryable(e) {
                    Failure::Transient
                } else {
                    Failure::Terminal
                },
            }),
    {
        match self {
            SttError::RateLimited { retry_after_sec } => Failure::RateLimited(*retry_after_sec),
            _ => if self.is_retryable() {
                Failure::Transient
            } else {
                Failure::Terminal
            },
        }
    }
}

/// Accepts the text of a transcription response: it must hold more than
/// whitespace.
pub fn transcript_text(text: String) -> (r: Result<String, SttError>)
    ensures
        trimmed(text@).len() > 0 ==> r == Ok::<String, SttError>(text),
        trimmed(text@).len() == 0 ==> r matches Err(SttError::InvalidResponse(_)),
{
    if trim_text(text.as_str()).unicode_len() == 0 {
        Err(SttError::InvalidResponse(String::from_str("empty transcription text")))
    } else {
        Ok(text)
    }
}

/// What the transcription loop does next.
#[derive(Debug)]
pub enum TranscribeStep {
    /// Wait this many seconds, then send the request again.
    Retry(u64),
    /// Return this result.
    Done(Result<String, SttError>),
}

pub open spec fn stt_failure(e: SttError) -> Failure {
    match e {
        SttError::RateLimited { retry_after_sec } => Failure::RateLimited(retry_after_sec),
        e => if stt_retryable(e) {
            Failure::Transient
        } else {
            Failure::Terminal
        },
    }
}

/// Decides after one transcription attempt. A text is returned; a failure
/// is retried as the retry discipline allows, and where it gives up the
/// error is returned, since a transcription has no fallback.
pub fn transcribe_step(outcome: Result<String, SttError>, retry: &mut RetryState) -> (r:
    TranscribeStep)
    requires
        old(retry).wf(),
    ensures
        final(retry).wf(),
        match outcome {
            Ok(text) => *final(retry) == *old(retry) && (r matches TranscribeStep::Done(Ok(t))
                && t@ == text@),
            Err(e) => {
                let (next, wait) = old(retry).after(stt_failure(e));
                &&& *final(retry) == next
                &&& match wait {
                    Some(w) => r matches TranscribeStep::Retry(v) && v == w,
                    None => (r matches TranscribeStep::Done(Err(x)) && x == e),
                }
            },
        },
{
    match outcome {
        Ok(text) => TranscribeStep::Done(Ok(text)),
        Err(e) => {
            let f = e.failure();
            assert(f == stt_failure(e));
            match retry.on_failure(f) {
                Some(w) => TranscribeStep::Retry(w),
                None => TranscribeStep::Done(Err(e)),
            }
        },
    }
}

/// The longest chunk to transcribe in one request: the one asked for, or
/// the default, and never under one second. A zero rate cannot be encoded.
pub fn transcription_chunk_sec(sample_rate: u32, max_chunk_sec: Option<u32>) -> (r: Result<
    u32,
    SttError,
>)
    ensures
        sample_rate == 0 ==> (r matches Err(SttError::EncodingFailed(_))),
        sample_rate > 0 ==> r == Ok::<u32, SttError>(
            match max_chunk_sec {
                Some(0) => 1,
                Some(m) => m,
                None => DEFAULT_MAX_CHUNK_SEC,
            },
        ),
{
    if sample_rate == 0 {
        return Err(SttError::EncodingFailed(String::from_str("sample_rate must be > 0")));
    }
    let m = match max_chunk_sec {
        Some(m) => m,
        None => DEFAULT_MAX_CHUNK_SEC,
    };
    Ok(if m < 1 {
        1
    } else {
        m
    })
}

/// Adds the transcript of one chunk, trimmed, unless it is blank.
pub fn keep_chunk_text(texts: &mut Vec<String>, text: &str)
    ensures
        trimmed(text@).len() == 0 ==> final(texts)@ == old(texts)@,
        trimmed(text@).len() > 0 ==> final(texts)@.len() == old(texts)@.len() + 1
            && final(texts)@.drop_last() == old(texts)@ && final(texts)@.last()@ == trimmed(
            text@,
        ),
{
    let t = trim_text(text);
    if t.unicode_len() > 0 {
        texts.push(String::from_str(t));
        assert(texts@.drop_last() =~= old(texts)@);
    }
}

/// The language hint sent with a transcription request: the language,
/// unless it is unset or "auto".
pub fn language_field(language: Option<&str>) -> (r: Option<&str>)
    ensures
        match language {
            Some(l) => if l@ == "auto"@ {
                r is None
            } else {
                r == Some(l)
            },
            None => r is None,
        },
{
    match language {
        Some(l) => if is_auto(l) {
            None
        } else {
            Some(l)
        },
        None => None,
    }
}

/// The shortest and the longest run of words that counts as an overlap.
pub const MIN_OVERLAP_WORDS: usize = 2;
pub const MAX_OVERLAP_WORDS: usize = 5;

/// The last `n` words of `prev` equal the first `n` words of `next`.
pub open spec fn tail_matches_head(prev: Seq<Seq<char>>, next: Seq<Seq<char>>, n: int) -> bool {
    &&& n <= prev.len()
    &&& n <= next.len()
    &&& forall|i: int| 0 <= i < n ==> #[trigger] prev[prev.len() - n + i] == next[i]
}

/// The longest overlap to check.
pub open spec fn overlap_limit(prev: Seq<Seq<char>>, next: Seq<Seq<char>>) -> int {
    let m = if prev.len() < next.len() {
        prev.len()
    } else {
        next.len()
    };
    if m < MAX_OVERLAP_WORDS {
        m as int
    } else {
        MAX_OVERLAP_WORDS as int
    }
}

/// The largest `n` in `[2, limit]` whose run matches, or 0 where none does.
pub open spec fn overlap_upto(prev: Seq<Seq<char>>, next: Seq<Seq<char>>, limit: int) -> int
    decreases limit,
{
    if limit < MIN_OVERLAP_WORDS {
        0
    } else if tail_matches_head(prev, next, limit) {
        limit
    } else {
        overlap_upto(prev, next, limit - 1)
    }
}

pub open spec fn overlap_len(prev: Seq<Seq<char>>, next: Seq<Seq<char>>) -> int {
    overlap_upto(prev, next, overlap_limit(prev, next))
}

/// Each word of `ws` in lowercase.
pub open spec fn lowered(ws: Seq<Seq<char>>) -> Seq<Seq<char>> {
    Seq::new(ws.len(), |i: int| lower_of(ws[i]))
}

/// Counts the words at the start of `next` that repeat, exactly, the words
/// at the end of `prev`: the longest such run of 2 to 5 words, or 0.
pub fn word_overlap(prev: &Vec<String>, next: &Vec<String>) -> (r: usize)
    ensures
        r == overlap_len(views(prev@), views(next@)),
{
    let ghost pw = views(prev@);
    let ghost nw = views(next@);
    let mut max_check = if prev.len() < next.len() {
        prev.len()
    } else {
        next.len()
    };
    if max_check > MAX_OVERLAP_WORDS {
        max_check = MAX_OVERLAP_WORDS;
    }
    let mut n = max_check;
    while n >= MIN_OVERLAP_WORDS
        invariant
            pw == views(prev@),
            nw == views(next@),
            n <= max_check,
            max_check as int == overlap_limit(pw, nw),
            max_check <= prev.len(),
            max_check <= next.len(),
            overlap_len(pw, nw) == overlap_upto(pw, nw, n as int),
        decreases n,
    {
        let base = prev.len() - n;
        let mut i: usize = 0;
        let mut all = true;
        while i < n
            invariant
                pw == views(prev@),
                nw == views(next@),
                i <= n,
                n <= prev.len(),
                n <= next.len(),
                base == prev.len() - n,
                all <==> forall|k: int| 0 <= k < i ==> #[trigger] pw[pw.len() - n + k] == nw[k],
            decreases n - i,
        {
            assert(pw[pw.len() - n + i] == prev@[base + i]@);
            assert(nw[i as int] == next@[i as int]@);
            if !(prev[base + i] == next[i]) {
                all = false;
            }
            i = i + 1;
        }
        if all {
            assert(tail_matches_head(pw, nw, n as int));
            return n;
        }
        proof {
            assert(!tail_matches_head(pw, nw, n as int));
        }
        n = n - 1;
    }
    0
}

/// Each string of `ws` in lowercase.
fn lowercase_all(ws: &Vec<String>) -> (r: Vec<String>)
    ensures
        views(r@) == lowered(views(ws@)),
{
    let mut r: Vec<String> = Vec::new();
    let mut i: usize = 0;
    while i < ws.len()
        invariant
            i <= ws.len(),
            r@.len() == i,
            forall|k: int| 0 <= k < i ==> (#[trigger] r@[k])@ == lower_of(ws@[k]@),
        decreases ws.len() - i,
    {
        r.push(lowercase(ws[i].as_str()));
        i = i + 1;
    }
    assert(views(r@) =~= lowered(views(ws@)));
    r
}

/// Counts the words at the start of `next` that repeat the end of `prev`
/// (2 to 5 words, letter case aside); 0 where there are none.
pub fn find_text_overlap(prev: &str, next: &str) -> (r: usize)
    ensures
        r == overlap_len(lowered(words(prev@)), lowered(words(next@))),
{
    let prev_words = split_words(prev);
    let next_words = split_words(next);
    assert(views(prev_words@) =~= words(prev@));
    assert(views(next_words@) =~= words(next@));
    let prev_lower = lowercase_all(&prev_words);
    let next_lower = lowercase_all(&next_words);
    word_overlap(&prev_lower, &next_lower)
}

/// Joins per-chunk transcripts: each next text loses the leading words that
/// repeat the end of what is joined so far.
pub open spec fn assemble(texts: Seq<Seq<char>>) -> Seq<char>
    decreases texts.len(),
{
    if texts.len() == 0 {
        seq![]
    } else if texts.len() == 1 {
        texts[0]
    } else {
        let acc = assemble(texts.drop_last());
        let next = texts.last();
        let k = overlap_len(lowered(words(acc)), lowered(words(next)));
        if k > 0 {
            let rest = join_words(words(next).subrange(k, words(next).len() as int));
            if rest.len() == 0 {
                acc
            } else {
                acc + seq![' '] + rest
            }
        } else {
            acc + seq![' '] + next
        }
    }
}

/// Joins the transcripts of overlapping chunks, dropping the words that the
/// overlap repeated.
pub fn deduplicate_overlap_texts(texts: &[String]) -> (r: String)
    ensures
        r@ == assemble(views(texts@)),
{
    let ghost v = views(texts@);
    if texts.len() == 0 {
        return String::new();
    }
    let mut result = texts[0].clone();
    assert(v.subrange(0, 1).drop_last() =~= seq![]);
    let mut i: usize = 1;
    while i < texts.len()
        invariant
            1 <= i <= texts@.len(),
            v == views(texts@),
            result@ == assemble(v.subrange(0, i as int)),
        decreases texts.len() - i,
    {
        let next = &texts[i];
        let ghost acc = result@;
        assert(v.subrange(0, i + 1).drop_last() =~= v.subrange(0, i as int));
        assert(v.subrange(0, i + 1).last() == next@);
        let k = find_text_overlap(result.as_str(), next.as_str());
        if k > 0 {
            let next_words = split_words(next.as_str());
            proof {
                lemma_overlap_bound(
                    lowered(words(acc)),
                    lowered(words(next@)),
                    overlap_limit(lowered(words(acc)), lowered(words(next@))),
                );
            }
            assert(views(next_words@) =~= words(next@));
            let remaining = join_from(&next_words, k);
            if remaining.unicode_len() > 0 {
                result.append(" ");
                result.append(remaining.as_str());
            }
        } else {
            result.append(" ");
            result.append(next.as_str());
        }
        proof {
            reveal_strlit(" ");
        }
        i = i + 1;
    }
    assert(v.subrange(0, texts@.len() as int) =~= v);
    result
}

/// Two transcripts with no overlap are joined with a single space.
pub proof fn lemma_no_overlap_concatenates(a: Seq<char>, b: Seq<char>)
    requires
        overlap_len(lowered(words(a)), lowered(words(b))) == 0,
    ensures
        assemble(seq![a, b]) == a + seq![' '] + b,
{
    assert(seq![a, b].drop_last() =~= seq![a]);
    assert(assemble(seq![a]) == a);
}

/// The overlap found is 0, or a matching run of at least two words within
/// the limit.
pub proof fn lemma_overlap_bound(prev: Seq<Seq<char>>, next: Seq<Seq<char>>, limit: int)
    ensures
        overlap_upto(prev, next, limit) == 0 || (MIN_OVERLAP_WORDS <= overlap_upto(prev, next, limit)
            <= limit && tail_matches_head(prev, next, overlap_upto(prev, next, limit))),
    decreases limit,
{
    if limit >= MIN_OVERLAP_WORDS && !tail_matches_head(prev, next, limit) {
        lemma_overlap_bound(prev, next, limit - 1);
    }
}

/// Overlap is found letter case aside: texts whose words lowercase alike
/// overlap alike.
pub proof fn lemma_overlap_ignores_case(
    prev: Seq<Seq<char>>,
    next: Seq<Seq<char>>,
    prev2: Seq<Seq<char>>,
    next2: Seq<Seq<char>>,
)
    requires
        prev.len() == prev2.len(),
        next.len() == next2.len(),
        forall|i: int| 0 <= i < prev.len() ==> lower_of(#[trigger] prev[i]) == lower_of(prev2[i]),
        forall|i: int| 0 <= i < next.len() ==> lower_of(#[trigger] next[i]) == lower_of(next2[i]),
    ensures
        overlap_len(lowered(prev), lowered(next)) == overlap_len(lowered(prev2), lowered(next2)),
{
    assert(lowered(prev) =~= lowered(prev2));
    assert(lowered(next) =~= lowered(next2));
}

} // verus!

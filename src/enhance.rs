//! Text enhancement: its errors, the guard against degenerate rewrites, the
//! instructions sent to the service, the text taken from its response, and
//! the best-effort decision after each attempt.
use vstd::prelude::*;
use crate::retry::{Failure, RetryState, is_server_error};
use crate::text::{count_words, decimal, decimal_string, trim_text, trimmed, words};

verus! {

/// Failures of the enhancement service.
#[derive(Debug, Clone)]
pub enum EnhanceError {
    Network(String),
    AuthFailed,
    RateLimited { retry_after_sec: u64 },
    Timeout,
    ApiError { status: u16, message: String },
    InvalidResponse(String),
}

pub open spec fn enhance_error_text(e: EnhanceError) -> Seq<char> {
    match e {
        EnhanceError::Network(m) => "network error: "@ + m@,
        EnhanceError::AuthFailed => "authentication failed: check API key"@,
        EnhanceError::RateLimited { retry_after_sec } => "rate limited, retry after "@ + decimal(
            retry_after_sec as nat,
        ) + "s"@,
        EnhanceError::Timeout => "request timeout"@,
        EnhanceError::ApiError { status, message } => "API error ("@ + decimal(status as nat)
            + "): "@ + message@,
        EnhanceError::InvalidResponse(m) => "invalid response: "@ + m@,
    }
}

/// Network errors, timeouts and server errors are worth retrying; nothing
/// else is on the generic path.
pub open spec fn enhance_retryable(e: EnhanceError) -> bool {
    match e {
        EnhanceError::Network(_) | EnhanceError::Timeout => true,
        EnhanceError::ApiError { status, .. } => is_server_error(status),
        _ => false,
    }
}

pub open spec fn enhance_failure(e: EnhanceError) -> Failure {
    match e {
        EnhanceError::RateLimited { retry_after_sec } => Failure::RateLimited(retry_after_sec),
        e => if enhance_retryable(e) {
            Failure::Transient
        } else {
            Failure::Terminal
        },
    }
}

impl EnhanceError {
    /// The message that describes the error.
    pub fn to_string(&self) -> (r: String)
        ensures
            r@ == enhance_error_text(*self),
    {
        match self {
            EnhanceError::Network(m) => {
                let mut r = String::from_str("network error: ");
                r.append(m.as_str());
                r
            },
            EnhanceError::AuthFailed => String::from_str("authentication failed: check API key"),
            EnhanceError::RateLimited { retry_after_sec } => {
                let mut r = String::from_str("rate limited, retry after ");
                let n = decimal_string(*retry_after_sec);
                r.append(n.as_str());
                r.append("s");
                r
            },
            EnhanceError::Timeout => String::from_str("request timeout"),
            EnhanceError::ApiError { status, message } => {
                let mut r = String::from_str("API error (");
                let n = decimal_string(*status as u64);
                r.append(n.as_str());
                r.append("): ");
                r.append(message.as_str());
                r
            },
            EnhanceError::InvalidResponse(m) => {
                let mut r = String::from_str("invalid response: ");
                r.append(m.as_str());
                r
            },
        }
    }

    /// Whether the generic retry path applies to this error.
    pub fn is_retryable(&self) -> (r: bool)
        ensures
            r == enhance_retryable(*self),
    {
        match self {
            EnhanceError::Network(_) | EnhanceError::Timeout => true,
            EnhanceError::ApiError { status, .. } => *status >= 500,
            _ => false,
        }
    }

    /// What the error calls for in the retry discipline.
    pub fn failure(&self) -> (r: Failure)
        ensures
            r == enhance_failure(*self),
    {
        match self {
            EnhanceError::RateLimited { retry_after_sec } => Failure::RateLimited(
                *retry_after_sec,
            ),
            _ => if self.is_retryable() {
                Failure::Transient
            } else {
                Failure::Terminal
            },
        }
    }
}

/// The verdict on an enhanced text.
#[derive(Debug, Clone, PartialEq)]
pub enum ValidationResult {
    /// The enhanced text passed.
    Accepted(String),
    /// The raw text is kept.
    Fallback(String),
}

impl ValidationResult {
    pub open spec fn text(self) -> Seq<char> {
        match self {
            ValidationResult::Accepted(t) => t@,
            ValidationResult::Fallback(t) => t@,
        }
    }
}

/// The longest enhanced text accepted, in characters.
pub const MAX_ENHANCED_CHARS: usize = 5000;

/// Raw texts of more words than this have their word ratio checked.
pub const RATIO_CHECK_MIN_WORDS: usize = 2;

/// The enhanced-to-raw word ratio lies below 0.3 or above 1.5.
pub open spec fn ratio_out_of_bounds(enhanced_words: nat, raw_words: nat) -> bool {
    10 * enhanced_words < 3 * raw_words || 2 * enhanced_words > 3 * raw_words
}

/// Whether an enhancement of `raw` into `enhanced` is accepted.
pub open spec fn accepts(raw: Seq<char>, enhanced: Seq<char>) -> bool {
    &&& trimmed(raw).len() > 0
    &&& trimmed(enhanced).len() > 0
    &&& !(words(raw).len() > RATIO_CHECK_MIN_WORDS && ratio_out_of_bounds(
        words(trimmed(enhanced)).len(),
        words(raw).len(),
    ))
}

/// The text that an accepted enhancement yields: trimmed, and cut to the
/// character budget.
pub open spec fn accepted_text(enhanced: Seq<char>) -> Seq<char> {
    let t = trimmed(enhanced);
    if t.len() > MAX_ENHANCED_CHARS {
        t.take(MAX_ENHANCED_CHARS as int)
    } else {
        t
    }
}

/// Guards against degenerate or hallucinated rewrites: keeps `raw` where the
/// enhanced text is blank or its word count strays too far from the raw one.
pub fn validate_enhancement(raw: &str, enhanced: &str) -> (r: ValidationResult)
    ensures
        r is Accepted == accepts(raw@, enhanced@),
        r is Accepted ==> r.text() == accepted_text(enhanced@),
        r is Fallback ==> r.text() == raw@,
{
    if trim_text(raw).unicode_len() == 0 {
        return ValidationResult::Fallback(String::from_str(raw));
    }
    let enhanced_trimmed = trim_text(enhanced);
    let n = enhanced_trimmed.unicode_len();
    if n == 0 {
        return ValidationResult::Fallback(String::from_str(raw));
    }
    let raw_words = count_words(raw);
    let enhanced_words = count_words(enhanced_trimmed);
    if raw_words > RATIO_CHECK_MIN_WORDS {
        let e = enhanced_words as u128;
        let w = raw_words as u128;
        if 10 * e < 3 * w || 2 * e > 3 * w {
            return ValidationResult::Fallback(String::from_str(raw));
        }
    }
    if n > MAX_ENHANCED_CHARS {
        let cut = enhanced_trimmed.substring_char(0, MAX_ENHANCED_CHARS);
        return ValidationResult::Accepted(String::from_str(cut));
    }
    ValidationResult::Accepted(String::from_str(enhanced_trimmed))
}

/// A blank raw text always falls back.
pub proof fn lemma_blank_raw_falls_back(raw: Seq<char>, enhanced: Seq<char>)
    requires
        trimmed(raw).len() == 0,
    ensures
        !accepts(raw, enhanced),
{
}

/// For raw texts of more than two words, the accepted word ratios are
/// exactly those from 0.3 to 1.5, both ends included.
pub proof fn lemma_ratio_bounds(raw: Seq<char>, enhanced: Seq<char>)
    requires
        trimmed(raw).len() > 0,
        trimmed(enhanced).len() > 0,
        words(raw).len() > RATIO_CHECK_MIN_WORDS,
    ensures
        accepts(raw, enhanced) <==> 3 * words(raw).len() <= 10 * words(trimmed(enhanced)).len()
            && 2 * words(trimmed(enhanced)).len() <= 3 * words(raw).len(),
{
}

/// Raw texts of one or two words skip the ratio check: any non-blank
/// enhancement of a non-blank raw text is accepted.
pub proof fn lemma_short_raw_skips_ratio(raw: Seq<char>, enhanced: Seq<char>)
    requires
        trimmed(raw).len() > 0,
        trimmed(enhanced).len() > 0,
        words(raw).len() <= RATIO_CHECK_MIN_WORDS,
    ensures
        accepts(raw, enhanced),
{
}

/// One block of text in a response.
#[derive(Debug, Clone)]
pub struct ContentBlock {
    pub text: String,
}

/// One output item of a response.
#[derive(Debug, Clone)]
pub struct OutputItem {
    pub content: Vec<ContentBlock>,
}

/// The body of an enhancement response.
#[derive(Debug, Clone)]
pub struct ResponsesResponse {
    pub output: Vec<OutputItem>,
}

/// The texts of `blocks`, concatenated in order.
pub open spec fn blocks_text(blocks: Seq<ContentBlock>) -> Seq<char>
    decreases blocks.len(),
{
    if blocks.len() == 0 {
        seq![]
    } else {
        blocks_text(blocks.drop_last()) + blocks.last().text@
    }
}

/// The texts of all blocks of all `items`, concatenated in order.
pub open spec fn items_text(items: Seq<OutputItem>) -> Seq<char>
    decreases items.len(),
{
    if items.len() == 0 {
        seq![]
    } else {
        items_text(items.drop_last()) + blocks_text(items.last().content@)
    }
}

/// Concatenates the text of every content block of the response; a response
/// whose text is blank is invalid.
pub fn extract_output_text(resp: &ResponsesResponse) -> (r: Result<String, EnhanceError>)
    ensures
        trimmed(items_text(resp.output@)).len() > 0 ==> (r matches Ok(t) && t@ == items_text(
            resp.output@,
        )),
        trimmed(items_text(resp.output@)).len() == 0 ==> r matches Err(
            EnhanceError::InvalidResponse(_),
        ),
{
    let mut text = String::new();
    let mut i: usize = 0;
    while i < resp.output.len()
        invariant
            i <= resp.output@.len(),
            text@ == items_text(resp.output@.subrange(0, i as int)),
        decreases resp.output.len() - i,
    {
        let item = &resp.output[i];
        let ghost before = text@;
        let mut j: usize = 0;
        while j < item.content.len()
            invariant
                j <= item.content@.len(),
                text@ == before + blocks_text(item.content@.subrange(0, j as int)),
            decreases item.content.len() - j,
        {
            text.append(item.content[j].text.as_str());
            assert(item.content@.subrange(0, j + 1).drop_last() =~= item.content@.subrange(
                0,
                j as int,
            ));
            j = j + 1;
        }
        assert(item.content@.subrange(0, item.content@.len() as int) =~= item.content@);
        assert(resp.output@.subrange(0, i + 1).drop_last() =~= resp.output@.subrange(0, i as int));
        i = i + 1;
    }
    assert(resp.output@.subrange(0, resp.output@.len() as int) =~= resp.output@);
    if trim_text(text.as_str()).unicode_len() == 0 {
        return Err(EnhanceError::InvalidResponse(String::from_str("empty output text in response")));
    }
    Ok(text)
}

/// The instructions without a language.
pub const SYSTEM_PROMPT: &'static str = "You are a text post-processor. Fix punctuation, grammar, and normalize spacing/capitalization in the following dictated text. Do NOT change meaning, do NOT add facts, do NOT rephrase, do NOT shorten or expand. Return only the corrected text, nothing else.";

/// The instructions with a language: the language name stands between the
/// two parts.
pub const SYSTEM_PROMPT_LANG_BEFORE: &'static str = "You are a text post-processor. The text is dictated in ";

pub const SYSTEM_PROMPT_LANG_AFTER: &'static str = ". Fix punctuation, grammar, and normalize spacing/capitalization. Do NOT change meaning, do NOT add facts, do NOT rephrase, do NOT shorten or expand. Return only the corrected text, nothing else.";

/// Whether `language` is the "auto" setting, which names no language.
pub fn is_auto(language: &str) -> (r: bool)
    ensures
        r == (language@ == "auto"@),
{
    proof {
        reveal_strlit("auto");
    }
    if language.unicode_len() != 4 {
        return false;
    }
    let r = language.get_char(0) == 'a' && language.get_char(1) == 'u' && language.get_char(2)
        == 't' && language.get_char(3) == 'o';
    assert(r ==> language@ =~= "auto"@);
    r
}

pub open spec fn instructions_for(language: Option<Seq<char>>) -> Seq<char> {
    match language {
        Some(l) => if l == "auto"@ {
            SYSTEM_PROMPT@
        } else {
            SYSTEM_PROMPT_LANG_BEFORE@ + l + SYSTEM_PROMPT_LANG_AFTER@
        },
        None => SYSTEM_PROMPT@,
    }
}

/// The instructions for the enhancement service, naming the language unless
/// it is unset or "auto".
pub fn build_instructions(language: Option<&str>) -> (r: String)
    ensures
        r@ == instructions_for(
            match language {
                Some(l) => Some(l@),
                None => None,
            },
        ),
{
    match language {
        Some(lang) => {
            if is_auto(lang) {
                String::from_str(SYSTEM_PROMPT)
            } else {
                let mut r = String::from_str(SYSTEM_PROMPT_LANG_BEFORE);
                r.append(lang);
                r.append(SYSTEM_PROMPT_LANG_AFTER);
                r
            }
        },
        None => String::from_str(SYSTEM_PROMPT),
    }
}

/// What the enhancement loop does next.
#[derive(Debug, Clone, PartialEq)]
pub enum EnhanceStep {
    /// Wait this many seconds, then send the request again.
    Retry(u64),
    /// Return this text.
    Done(String),
}

/// The text that an enhancement of `raw` yields when the service answered
/// `enhanced`: the enhancement if the guard accepts it, else `raw`.
pub open spec fn enhanced_or_raw(raw: Seq<char>, enhanced: Seq<char>) -> Seq<char> {
    if accepts(raw, enhanced) {
        accepted_text(enhanced)
    } else {
        raw
    }
}

/// Decides after one attempt to enhance `raw`. A response is validated; a
/// failure is retried as the retry discipline allows, and where it gives up
/// the raw text is returned, since enhancement is best-effort.
pub fn enhance_step(
    raw: &str,
    outcome: Result<String, EnhanceError>,
    retry: &mut RetryState,
) -> (r: EnhanceStep)
    requires
        old(retry).wf(),
    ensures
        final(retry).wf(),
        match outcome {
            Ok(enhanced) => *final(retry) == *old(retry) && (r matches EnhanceStep::Done(t) && t@
                == enhanced_or_raw(raw@, enhanced@)),
            Err(e) => {
                let (next, wait) = old(retry).after(enhance_failure(e));
                &&& *final(retry) == next
                &&& match wait {
                    Some(w) => r == EnhanceStep::Retry(w),
                    None => (r matches EnhanceStep::Done(t) && t@ == raw@),
                }
            },
        },
{
    match outcome {
        Ok(enhanced) => {
            let v = validate_enhancement(raw, enhanced.as_str());
            match v {
                ValidationResult::Accepted(t) => EnhanceStep::Done(t),
                ValidationResult::Fallback(t) => EnhanceStep::Done(t),
            }
        },
        Err(e) => {
            let f = e.failure();
            match retry.on_failure(f) {
                Some(w) => EnhanceStep::Retry(w),
                None => EnhanceStep::Done(String::from_str(raw)),
            }
        },
    }
}

} // verus!

//! Chained summarizer: the decision logic of a two-step model conversation.
//!
//! The first completion answers a system prompt and a user prompt; the second
//! sees the whole first exchange as an explicit transcript, rebuilt verbatim
//! on every call so the pipeline owes nothing to hidden service-side state.
//! A second response shorter than ten characters is a generation failure,
//! never a partial summary; every failure carries the caller's error tag.

use vstd::prelude::*;

verus! {

/// A step-2 response shorter than this is treated as a generation failure.
pub const MIN_RESPONSE_CHARS: usize = 10;

/// The JSON string literal (quotes and escapes included) that encodes a
/// text; a function of the characters alone.
pub uninterp spec fn json_string_of(s: Seq<char>) -> Seq<char>;

/// Relies on `serde_json::to_string` for `str`: serializing a string slice
/// yields its JSON string literal and cannot fail.
#[verifier::external_body]
fn json_encode_str(s: &str) -> (r: String)
    ensures
        r@ == json_string_of(s@),
{
    match serde_json::to_string(s) {
        Ok(r) => r,
        Err(_) => String::new(),
    }
}

/// The transcript handed to step 2 as its system context: the first
/// exchange, replayed as a JSON conversation log.
pub open spec fn transcript_spec(sys: Seq<char>, usr: Seq<char>, asst: Seq<char>) -> Seq<char> {
    "[{\"role\": \"system\", \"content\": "@ + json_string_of(sys)
        + "}, {\"role\": \"user\", \"content\": "@ + json_string_of(usr)
        + "}, {\"role\": \"assistant\", \"content\": "@ + json_string_of(asst) + "}]"@
}

/// Rebuilds the step-1 exchange as the explicit system context for step 2.
pub fn build_transcript(sys_prompt: &str, usr_prompt: &str, assistant: &str) -> (r: String)
    ensures
        r@ == transcript_spec(sys_prompt@, usr_prompt@, assistant@),
{
    let mut out = String::new();
    out.append("[{\"role\": \"system\", \"content\": ");
    let e1 = json_encode_str(sys_prompt);
    out.append(e1.as_str());
    out.append("}, {\"role\": \"user\", \"content\": ");
    let e2 = json_encode_str(usr_prompt);
    out.append(e2.as_str());
    out.append("}, {\"role\": \"assistant\", \"content\": ");
    let e3 = json_encode_str(assistant);
    out.append(e3.as_str());
    out.append("}]");
    out
}

/// How a chained call failed.
#[derive(Clone, Copy, PartialEq, Eq, Debug)]
pub enum ChainFailure {
    /// The first completion returned an error.
    FirstStep,
    /// The second completion returned an error.
    SecondStep,
    /// The second completion was implausibly short.
    WentSideways,
}

/// The judgement on a finished second step: no response, or a response
/// shorter than `MIN_RESPONSE_CHARS`, is a terminal failure; anything longer
/// is the summary, returned whole.
pub fn chain_outcome(step2: Option<String>) -> (r: Result<String, ChainFailure>)
    ensures
        match step2 {
            None => r == Result::<String, ChainFailure>::Err(ChainFailure::SecondStep),
            Some(resp) => if resp@.len() < MIN_RESPONSE_CHARS as nat {
                r == Result::<String, ChainFailure>::Err(ChainFailure::WentSideways)
            } else {
                r == Result::<String, ChainFailure>::Ok(resp)
            },
        },
{
    match step2 {
        None => Err(ChainFailure::SecondStep),
        Some(resp) => {
            if resp.as_str().unicode_len() < MIN_RESPONSE_CHARS {
                Err(ChainFailure::WentSideways)
            } else {
                Ok(resp)
            }
        },
    }
}

/// The text reported for a failure, prefixed with the caller's error tag.
pub open spec fn failure_message_spec(tag: Seq<char>, f: ChainFailure) -> Seq<char> {
    match f {
        ChainFailure::FirstStep => tag + ", Step 1 GPT generation error"@,
        ChainFailure::SecondStep => tag + ", Step 2 GPT generation error"@,
        ChainFailure::WentSideways => tag + ", GPT generation went sideway"@,
    }
}

impl ChainFailure {
    /// Renders the failure for the error report, tagged with the caller's
    /// error tag so failures stay attributable to their source.
    pub fn describe(&self, error_tag: &str) -> (r: String)
        ensures
            r@ == failure_message_spec(error_tag@, *self),
    {
        let mut out = String::new();
        out.append(error_tag);
        match self {
            ChainFailure::FirstStep => out.append(", Step 1 GPT generation error"),
            ChainFailure::SecondStep => out.append(", Step 2 GPT generation error"),
            ChainFailure::WentSideways => out.append(", GPT generation went sideway"),
        }
        out
    }
}

} // verus!

use weekly_report::summarizer::{build_transcript, chain_outcome, ChainFailure};

#[test]
fn transcript_replays_the_first_exchange() {
    let t = build_transcript("be brief", "summarize this", "a summary");
    assert_eq!(
        t,
        "[{\"role\": \"system\", \"content\": \"be brief\"}, \
         {\"role\": \"user\", \"content\": \"summarize this\"}, \
         {\"role\": \"assistant\", \"content\": \"a summary\"}]"
    );
}

#[test]
fn transcript_escapes_embedded_json_characters() {
    let t = build_transcript("say \"hi\"", "line\nbreak", "back\\slash");
    assert_eq!(
        t,
        "[{\"role\": \"system\", \"content\": \"say \\\"hi\\\"\"}, \
         {\"role\": \"user\", \"content\": \"line\\nbreak\"}, \
         {\"role\": \"assistant\", \"content\": \"back\\\\slash\"}]"
    );
}

#[test]
fn missing_second_response_is_a_step_two_failure() {
    let r = chain_outcome(None);
    assert_eq!(r, Err(ChainFailure::SecondStep));
}

#[test]
fn short_second_response_is_never_a_summary() {
    let r = chain_outcome(Some("too short".to_string()));
    assert_eq!(r, Err(ChainFailure::WentSideways));
    let r = chain_outcome(Some("".to_string()));
    assert_eq!(r, Err(ChainFailure::WentSideways));
    let r = chain_outcome(Some("123456789".to_string()));
    assert_eq!(r, Err(ChainFailure::WentSideways));
}

#[test]
fn long_second_response_is_returned_whole() {
    let r = chain_outcome(Some("a perfectly plausible summary".to_string()));
    assert_eq!(r, Ok("a perfectly plausible summary".to_string()));
    let r = chain_outcome(Some("1234567890".to_string()));
    assert_eq!(r, Ok("1234567890".to_string()));
}

#[test]
fn failures_are_reported_under_the_error_tag() {
    assert_eq!(
        ChainFailure::FirstStep.describe("commits-summary"),
        "commits-summary, Step 1 GPT generation error"
    );
    assert_eq!(
        ChainFailure::SecondStep.describe("issues-summary"),
        "issues-summary, Step 2 GPT generation error"
    );
    assert_eq!(
        ChainFailure::WentSideways.describe("discussions-summary"),
        "discussions-summary, GPT generation went sideway"
    );
}

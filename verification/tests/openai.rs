use aicommits::config::ConfigError;
use aicommits::openai::{
    build_prompt, sanitize_message, Action, AppError, BearerToken, BodyShape, Choice,
    CompletionRequest, CompletionResponse, Decoded, ErrorMessage, Event, GenerateError,
    Generation, GitCommitMessageGenerator, HttpPost, OpenAiClient, ResponseShapeError, Sampling,
    AUTHORIZATION, COMPLETIONS, MAX_PROMPT_LEN, MODEL, PROMPT, STATUS_OK,
};

const BASE_URL: &str = "https://api.openai.com/v1/";

fn generator() -> GitCommitMessageGenerator {
    GitCommitMessageGenerator::new(OpenAiClient::new("sk-test", BASE_URL).unwrap())
}

fn completion(texts: &[&str]) -> CompletionResponse {
    CompletionResponse {
        id: "x".to_string(),
        object: "text_completion".to_string(),
        created: 1,
        model: "m".to_string(),
        choices: texts
            .iter()
            .enumerate()
            .map(|(i, text)| Choice {
                text: text.to_string(),
                index: i as u64,
                finish_reason: "stop".to_string(),
            })
            .collect(),
    }
}

/// The message trimmed, with every line feed and carriage return deleted, as
/// the standard library does it.
fn sanitized_by_std(message: &str) -> String {
    message.trim().replace(['\n', '\r'], "")
}

/// Runs a generation against a service held in memory, and counts the
/// requests sent.
fn generate(
    generator: &GitCommitMessageGenerator,
    diff: &str,
    status: u16,
    body: Decoded,
) -> (Generation, usize) {
    let mut sent = 0;
    let (mut state, mut action) =
        generator.generate_commit_message(Generation::Idle, Event::Diff(diff.to_string()));
    while let Some(todo) = action {
        let event = match todo {
            Action::Post(_) => {
                sent += 1;
                Event::Status(status)
            }
            Action::Decode(_) => Event::Body(body.clone()),
        };
        let (next, then) = generator.generate_commit_message(state, event);
        state = next;
        action = then;
    }
    (state, sent)
}

const MESSAGES: [&str; 16] = [
    "",
    " Fix bug.\n",
    "Fix bug.",
    "\n\nAdd a parser\r\nfor the diff.\r\n",
    "  two  spaces  ",
    "line one\nline two",
    "\r",
    "ends with e.g.",
    "a literal \\w\\.$ in the text",
    "\\w\\.$",
    "\\w\\.\\w\\.$",
    "\\w\\.\n$",
    "\\w\\.$\\w\\.$",
    "$1",
    "\u{a0}\u{3000}Unicode spaces\u{2028}",
    "tabs\tstay\tinside",
];

#[test]
fn sanitize_trims_and_joins_the_lines() {
    assert_eq!(sanitize_message(" Fix bug.\n"), "Fix bug.");
    assert_eq!(sanitize_message("\n\nAdd a parser\r\nfor the diff.\r\n"), "Add a parserfor the diff.");
    assert_eq!(sanitize_message("line one\nline two"), "line oneline two");
    assert_eq!(sanitize_message(""), "");
    assert_eq!(sanitize_message(" \r\n\t "), "");
}

#[test]
fn sanitize_keeps_inner_white_space() {
    assert_eq!(sanitize_message("  two  spaces  "), "two  spaces");
    assert_eq!(sanitize_message("tabs\tstay\tinside"), "tabs\tstay\tinside");
    assert_eq!(sanitize_message("a \n b"), "a  b");
}

#[test]
fn sanitize_leaves_a_final_period() {
    assert_eq!(sanitize_message("ends with e.g."), "ends with e.g.");
    assert_eq!(sanitize_message("Fix bug."), "Fix bug.");
}

#[test]
fn sanitize_keeps_every_other_character() {
    assert_eq!(sanitize_message("\\w\\.$"), "\\w\\.$");
    assert_eq!(
        sanitize_message("a literal \\w\\.$ in the text"),
        "a literal \\w\\.$ in the text"
    );
    assert_eq!(sanitize_message("\\w\\.\\w\\.$"), "\\w\\.\\w\\.$");
    assert_eq!(sanitize_message("\\w\\.\n$"), "\\w\\.$");
    assert_eq!(sanitize_message("$1"), "$1");
    assert_eq!(sanitize_message(" e.g. \u{e9}\u{1f600} i.e.\r\n"), "e.g. \u{e9}\u{1f600} i.e.");
}

#[test]
fn sanitize_agrees_with_std() {
    for message in MESSAGES {
        assert_eq!(sanitize_message(message), sanitized_by_std(message), "{:?}", message);
    }
}

#[test]
fn sanitize_output_is_one_trimmed_line() {
    for message in MESSAGES {
        let clean = sanitize_message(message);
        assert!(!clean.contains('\n'));
        assert!(!clean.contains('\r'));
        assert_eq!(clean.trim(), clean);
    }
}

#[test]
fn sanitize_is_idempotent() {
    for message in MESSAGES {
        let once = sanitize_message(message);
        assert_eq!(sanitize_message(&once), once, "{:?}", message);
    }
}

#[test]
fn sanitize_leaves_a_clean_message_as_it_is() {
    for message in ["Fix bug.", "a  b", "\\w\\.$", "x", ""] {
        assert_eq!(sanitize_message(message), message);
    }
}

#[test]
fn prompt_is_instruction_line_feed_diff() {
    assert_eq!(
        build_prompt("+fn main() {}"),
        "Write an insightful but concise commit message in a complete sentence, present tense, describing the following diff, with no prefacing text:\n+fn main() {}"
    );
    assert_eq!(build_prompt(""), format!("{}\n", PROMPT));
    assert_eq!(PROMPT.len(), 140);
    assert_eq!(MAX_PROMPT_LEN, 4000);
}

#[test]
fn bearer_token_header() {
    assert_eq!(BearerToken::new("sk-test").header_value(), "Bearer sk-test");
    assert_eq!(BearerToken::new("").header_value(), "Bearer ");
    assert_eq!(AUTHORIZATION, "Authorization");
}

#[test]
fn bearer_token_signs_a_request() {
    let request = HttpPost {
        url: "https://example.org/completions".to_string(),
        authorization: Some("Bearer old".to_string()),
        body: CompletionRequest::new("p"),
    };
    let signed = BearerToken::new("new").handle(request.clone());
    assert_eq!(signed.authorization, Some("Bearer new".to_string()));
    assert_eq!(signed.url, request.url);
    assert_eq!(signed.body, request.body);
}

#[test]
fn completion_request_has_the_fixed_parameters() {
    let request = CompletionRequest::new("the prompt");
    assert_eq!(request.model, "text-davinci-003");
    assert_eq!(request.model, MODEL);
    assert_eq!(request.prompt, "the prompt");
    assert_eq!(request.sampling, Sampling::fixed());
    assert_eq!(request.sampling.temperature_tenths, 7);
    assert_eq!(request.sampling.max_tokens, 1500);
    assert_eq!(request.sampling.top_p_tenths, 10);
    assert_eq!(request.sampling.frequency_penalty_tenths, 0);
    assert_eq!(request.sampling.presence_penalty_tenths, 0);
    assert!(!request.stream);
    assert_eq!(request.n, 1);
}

#[test]
fn sampling_in_tenths_gives_the_fractions() {
    let sampling = Sampling::fixed();
    assert_eq!(f64::from(sampling.temperature_tenths) / 10.0, 0.7);
    assert_eq!(f64::from(sampling.top_p_tenths) / 10.0, 1.0);
    assert_eq!(f64::from(sampling.frequency_penalty_tenths) / 10.0, 0.0);
    assert_eq!(f64::from(sampling.presence_penalty_tenths) / 10.0, 0.0);
}

#[test]
fn client_keeps_the_parsed_base_url() {
    let client = OpenAiClient::new("sk-test", BASE_URL).unwrap();
    assert_eq!(client.base_url, Some(BASE_URL.to_string()));
    assert_eq!(client.bearer, BearerToken::new("sk-test"));
}

#[test]
fn client_base_url_is_the_serialization_of_the_url() {
    let client = OpenAiClient::new("t", "HTTPS://Example.ORG").unwrap();
    assert_eq!(client.base_url, Some("https://example.org/".to_string()));
    let client = OpenAiClient::new("t", "http://example.org:80/a/../b/").unwrap();
    assert_eq!(client.base_url, Some("http://example.org/b/".to_string()));
}

#[test]
fn client_refuses_what_is_no_absolute_url() {
    assert_eq!(OpenAiClient::new("t", "not a url"), Err(ConfigError::InvalidBaseUrl));
    assert_eq!(OpenAiClient::new("t", "/v1/"), Err(ConfigError::InvalidBaseUrl));
    assert_eq!(OpenAiClient::new("t", ""), Err(ConfigError::InvalidBaseUrl));
    assert_eq!(OpenAiClient::new("t", "api.openai.com/v1/"), Err(ConfigError::InvalidBaseUrl));
}

#[test]
fn client_with_base_url() {
    assert_eq!(OpenAiClient::with_base_url("t", None), Err(ConfigError::InvalidBaseUrl));
    let client = OpenAiClient::with_base_url("t", Some("https://example.org/".to_string()));
    assert_eq!(
        client,
        Ok(OpenAiClient {
            base_url: Some("https://example.org/".to_string()),
            bearer: BearerToken::new("t"),
        })
    );
}

#[test]
fn post_writes_the_endpoint_behind_the_base_url() {
    let client = OpenAiClient::new("sk-test", BASE_URL).unwrap();
    let body = CompletionRequest::new("p");
    let post = client.post("completions", body.clone()).unwrap();
    assert_eq!(post.url, "https://api.openai.com/v1/completions");
    assert_eq!(post.authorization, Some("Bearer sk-test".to_string()));
    assert_eq!(post.body, body);
    assert_eq!(COMPLETIONS, "completions");
}

#[test]
fn post_does_not_mend_slashes() {
    let client = OpenAiClient::new("t", "https://example.org/v1").unwrap();
    let post = client.post("completions", CompletionRequest::new("p")).unwrap();
    assert_eq!(post.url, "https://example.org/v1completions");
    let client = OpenAiClient::new("t", "https://example.org/v1/").unwrap();
    let post = client.post("/completions", CompletionRequest::new("p")).unwrap();
    assert_eq!(post.url, "https://example.org/v1//completions");
}

#[test]
fn post_without_base_url_fails() {
    let client = OpenAiClient { base_url: None, bearer: BearerToken::new("t") };
    assert_eq!(client.post("completions", CompletionRequest::new("p")), Err(AppError::BaseUrlNotSet));
    assert_eq!(client.complete_prompt(CompletionRequest::new("p")), Err(AppError::BaseUrlNotSet));
    assert_eq!(client.create_completion("p"), Err(AppError::BaseUrlNotSet));
}

#[test]
fn create_completion_posts_the_fixed_request() {
    let client = OpenAiClient::new("sk-test", BASE_URL).unwrap();
    let expected = HttpPost {
        url: "https://api.openai.com/v1/completions".to_string(),
        authorization: Some("Bearer sk-test".to_string()),
        body: CompletionRequest::new("the prompt"),
    };
    assert_eq!(client.create_completion("the prompt"), Ok(expected.clone()));
    assert_eq!(client.complete_prompt(CompletionRequest::new("the prompt")), Ok(expected));
}

#[test]
fn expected_body_by_status() {
    assert_eq!(STATUS_OK, 200);
    assert_eq!(OpenAiClient::expected_body(200), BodyShape::Completion);
    for status in [0, 100, 199, 201, 204, 301, 400, 401, 404, 429, 500, 503, u16::MAX] {
        assert_eq!(OpenAiClient::expected_body(status), BodyShape::ErrorEnvelope);
    }
}

#[test]
fn read_body_of_each_shape() {
    let response = completion(&["x"]);
    assert_eq!(
        OpenAiClient::read_body(BodyShape::Completion, Decoded::Completion(response.clone())),
        Some(Ok(response.clone()))
    );
    assert_eq!(
        OpenAiClient::read_body(BodyShape::Completion, Decoded::Unreadable("eof".to_string())),
        Some(Err(GenerateError::ResponseShape(ResponseShapeError::UnreadableCompletion(
            "eof".to_string()
        ))))
    );
    let refusal = ErrorMessage { message: "m".to_string(), error_type: "t".to_string() };
    assert_eq!(
        OpenAiClient::read_body(BodyShape::ErrorEnvelope, Decoded::Error(refusal.clone())),
        Some(Err(GenerateError::Service(AppError::APIError(refusal.clone()))))
    );
    assert_eq!(
        OpenAiClient::read_body(BodyShape::ErrorEnvelope, Decoded::Unreadable("eof".to_string())),
        Some(Err(GenerateError::ResponseShape(ResponseShapeError::UnreadableError(
            "eof".to_string()
        ))))
    );
    assert_eq!(OpenAiClient::read_body(BodyShape::Completion, Decoded::Error(refusal)), None);
    assert_eq!(
        OpenAiClient::read_body(BodyShape::ErrorEnvelope, Decoded::Completion(response)),
        None
    );
}

#[test]
fn generate_returns_the_sanitized_first_choice() {
    let body = Decoded::Completion(completion(&[" Fix bug.\n"]));
    let (state, sent) = generate(&generator(), "+fn main() {}", 200, body);
    assert_eq!(state, Generation::Done("Fix bug.".to_string()));
    assert_eq!(sent, 1);
}

#[test]
fn generate_reads_the_first_choice_only() {
    let body = Decoded::Completion(completion(&["First.\n", "Second.\n"]));
    let (state, _) = generate(&generator(), "d", 200, body);
    assert_eq!(state, Generation::Done("First.".to_string()));
}

#[test]
fn generate_steps_through_the_exchange() {
    let generator = generator();
    let (state, action) =
        generator.generate_commit_message(Generation::Idle, Event::Diff("+x".to_string()));
    assert_eq!(state, Generation::AwaitingStatus);
    assert_eq!(
        action,
        Some(Action::Post(HttpPost {
            url: "https://api.openai.com/v1/completions".to_string(),
            authorization: Some("Bearer sk-test".to_string()),
            body: CompletionRequest::new(&format!("{}\n+x", PROMPT)),
        }))
    );
    let (state, action) = generator.generate_commit_message(state, Event::Status(200));
    assert_eq!(state, Generation::AwaitingBody(BodyShape::Completion));
    assert_eq!(action, Some(Action::Decode(BodyShape::Completion)));
    let body = Decoded::Completion(completion(&[" Fix bug.\n"]));
    let (state, action) = generator.generate_commit_message(state, Event::Body(body));
    assert_eq!(state, Generation::Done("Fix bug.".to_string()));
    assert_eq!(action, None);
}

#[test]
fn complete_fails_with_the_error_of_the_service() {
    let refusal = ErrorMessage {
        message: "invalid request".to_string(),
        error_type: "invalid_request_error".to_string(),
    };
    let (state, sent) = generate(&generator(), "d", 400, Decoded::Error(refusal.clone()));
    assert_eq!(state, Generation::Failed(GenerateError::Service(AppError::APIError(refusal))));
    assert_eq!(sent, 1);
}

#[test]
fn a_prompt_of_4000_bytes_is_sent() {
    let diff = "x".repeat(MAX_PROMPT_LEN - PROMPT.len() - 1);
    assert_eq!(build_prompt(&diff).len(), 4000);
    let body = Decoded::Completion(completion(&["ok"]));
    let (state, sent) = generate(&generator(), &diff, 200, body);
    assert_eq!(state, Generation::Done("ok".to_string()));
    assert_eq!(sent, 1);
}

#[test]
fn a_prompt_of_4001_bytes_is_not_sent() {
    let diff = "x".repeat(MAX_PROMPT_LEN - PROMPT.len());
    assert_eq!(build_prompt(&diff).len(), 4001);
    let generator = generator();
    let (state, action) =
        generator.generate_commit_message(Generation::Idle, Event::Diff(diff.clone()));
    assert_eq!(state, Generation::Failed(GenerateError::Service(AppError::DiffTooLarge)));
    assert_eq!(action, None);
    let (state, sent) = generate(&generator, &diff, 200, Decoded::Completion(completion(&["ok"])));
    assert_eq!(state, Generation::Failed(GenerateError::Service(AppError::DiffTooLarge)));
    assert_eq!(sent, 0);
}

#[test]
fn the_prompt_is_measured_in_bytes() {
    // 1930 characters of two bytes each: 3860 bytes, one too many.
    let diff = "\u{e9}".repeat(1930);
    let (state, sent) = generate(&generator(), &diff, 200, Decoded::Completion(completion(&["ok"])));
    assert_eq!(state, Generation::Failed(GenerateError::Service(AppError::DiffTooLarge)));
    assert_eq!(sent, 0);
    let diff = format!("{}x", "\u{e9}".repeat(1929));
    let (state, sent) = generate(&generator(), &diff, 200, Decoded::Completion(completion(&["ok"])));
    assert_eq!(state, Generation::Done("ok".to_string()));
    assert_eq!(sent, 1);
}

#[test]
fn the_size_is_checked_before_the_base_url() {
    let client = OpenAiClient { base_url: None, bearer: BearerToken::new("t") };
    let generator = GitCommitMessageGenerator::new(client);
    let (state, sent) =
        generate(&generator, &"x".repeat(5000), 200, Decoded::Completion(completion(&["ok"])));
    assert_eq!(state, Generation::Failed(GenerateError::Service(AppError::DiffTooLarge)));
    assert_eq!(sent, 0);
    let (state, sent) = generate(&generator, "d", 200, Decoded::Completion(completion(&["ok"])));
    assert_eq!(state, Generation::Failed(GenerateError::Service(AppError::BaseUrlNotSet)));
    assert_eq!(sent, 0);
}

#[test]
fn a_completion_without_choices_fails() {
    let (state, sent) = generate(&generator(), "d", 200, Decoded::Completion(completion(&[])));
    assert_eq!(
        state,
        Generation::Failed(GenerateError::ResponseShape(ResponseShapeError::MissingChoices))
    );
    assert_eq!(sent, 1);
}

#[test]
fn an_unreadable_completion_fails() {
    let (state, _) = generate(&generator(), "d", 200, Decoded::Unreadable("eof".to_string()));
    assert_eq!(
        state,
        Generation::Failed(GenerateError::ResponseShape(ResponseShapeError::UnreadableCompletion(
            "eof".to_string()
        )))
    );
}

#[test]
fn an_unreadable_error_envelope_fails() {
    let (state, _) = generate(&generator(), "d", 500, Decoded::Unreadable("eof".to_string()));
    assert_eq!(
        state,
        Generation::Failed(GenerateError::ResponseShape(ResponseShapeError::UnreadableError(
            "eof".to_string()
        )))
    );
}

#[test]
fn an_event_that_is_not_awaited_changes_nothing() {
    let generator = generator();
    let body = Event::Body(Decoded::Completion(completion(&["x"])));
    assert_eq!(
        generator.generate_commit_message(Generation::Idle, Event::Status(200)),
        (Generation::Idle, None)
    );
    assert_eq!(
        generator.generate_commit_message(Generation::Idle, body.clone()),
        (Generation::Idle, None)
    );
    assert_eq!(
        generator.generate_commit_message(Generation::AwaitingStatus, Event::Diff("d".to_string())),
        (Generation::AwaitingStatus, None)
    );
    assert_eq!(
        generator.generate_commit_message(Generation::AwaitingStatus, body.clone()),
        (Generation::AwaitingStatus, None)
    );
    let waiting = Generation::AwaitingBody(BodyShape::ErrorEnvelope);
    assert_eq!(generator.generate_commit_message(waiting.clone(), body), (waiting.clone(), None));
    assert_eq!(
        generator.generate_commit_message(waiting.clone(), Event::Status(200)),
        (waiting, None)
    );
}

#[test]
fn an_ended_generation_stays_ended() {
    let generator = generator();
    let done = Generation::Done("m".to_string());
    assert_eq!(
        generator.generate_commit_message(done.clone(), Event::Diff("d".to_string())),
        (done.clone(), None)
    );
    assert_eq!(generator.generate_commit_message(done.clone(), Event::Status(200)), (done, None));
    let failed = Generation::Failed(GenerateError::Service(AppError::DiffTooLarge));
    assert_eq!(
        generator.generate_commit_message(failed.clone(), Event::Diff("d".to_string())),
        (failed, None)
    );
}

#[test]
fn app_error_messages() {
    let refusal = ErrorMessage {
        message: "invalid request".to_string(),
        error_type: "invalid_request_error".to_string(),
    };
    assert_eq!(AppError::APIError(refusal).message(), "API returned an Error: invalid request");
    assert_eq!(AppError::BaseUrlNotSet.message(), "Base URL not set");
    assert_eq!(
        AppError::DiffTooLarge.message(),
        "The diff is too large for the OpenAI API. Try reducing the number of staged changes, or write your own commit message."
    );
}

#[test]
fn response_shape_error_messages() {
    assert_eq!(ResponseShapeError::MissingChoices.message(), "The API has returned no choices");
    assert_eq!(ResponseShapeError::UnreadableCompletion("eof".to_string()).message(), "eof");
    assert_eq!(
        ResponseShapeError::UnreadableError("eof".to_string()).message(),
        "The API has returned something funky: eof"
    );
}

#[test]
fn generate_error_messages() {
    assert_eq!(GenerateError::Service(AppError::BaseUrlNotSet).message(), "Base URL not set");
    assert_eq!(
        GenerateError::ResponseShape(ResponseShapeError::MissingChoices).message(),
        "The API has returned no choices"
    );
}

#[test]
fn errors_from_messages() {
    let untyped = ErrorMessage::from("boom".to_string());
    assert_eq!(untyped, ErrorMessage { message: "boom".to_string(), error_type: String::new() });
    assert_eq!(AppError::from("boom".to_string()), AppError::APIError(untyped.clone()));
    assert_eq!(AppError::from(untyped.clone()), AppError::APIError(untyped));
}

/// Messages over the characters that sanitizing looks at, from a fixed seed.
fn generated_messages(count: usize) -> Vec<String> {
    let alphabet = [' ', '\n', '\r', '\\', 'w', '.', '$', '1', 'a', '\t', '\u{a0}'];
    let mut state: u64 = 0x9e3779b97f4a7c15;
    let mut messages = Vec::new();
    for _ in 0..count {
        state = state.wrapping_mul(6364136223846793005).wrapping_add(1442695040888963407);
        let len = (state >> 59) as usize;
        let mut message = String::new();
        for _ in 0..len {
            state = state.wrapping_mul(6364136223846793005).wrapping_add(1442695040888963407);
            message.push(alphabet[(state >> 33) as usize % alphabet.len()]);
        }
        messages.push(message);
    }
    messages
}

#[test]
fn sanitize_agrees_with_std_on_generated_messages() {
    for message in generated_messages(5000) {
        assert_eq!(sanitize_message(&message), sanitized_by_std(&message), "{:?}", message);
    }
}

#[test]
fn sanitize_laws_on_generated_messages() {
    for message in generated_messages(5000) {
        let once = sanitize_message(&message);
        assert!(!once.contains('\n') && !once.contains('\r'));
        assert_eq!(once.trim(), once);
        assert_eq!(sanitize_message(&once), once, "{:?}", message);
    }
}

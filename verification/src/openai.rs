//! The exchange with the completion service: what is sent, what is made of
//! the answer, and the commit message that comes out of it.
use crate::config::ConfigError;
use crate::text::{
    chars_of, is_line_break, is_trimmed, lemma_trim_fixes_trimmed, lemma_trimmed_is_trimmed,
    lemma_without_line_breaks, strip_line_breaks, text_of, trim_range, trimmed,
    without_line_breaks,
};
use vstd::prelude::*;
use vstd::string::StringExecFns;
use vstd::utf8::{encode_utf8, is_ascii_chars, is_ascii_chars_encode_utf8};

verus! {

/// What `surf::Url::parse` makes of `text`: the serialization of the
/// absolute URL that it reads, or `None` where it reads none.
pub uninterp spec fn parsed_url(text: Seq<char>) -> Option<Seq<char>>;

/// `surf::Url::parse`, which reads absolute URLs alone. A URL that was read
/// is handed back as its serialization, the text that it displays as; `None`
/// stands for every error. Nothing is claimed of which texts are read.
#[verifier::external_body]
fn parse_url(text: &str) -> (url: Option<String>)
    ensures
        url is Some <==> parsed_url(text@) is Some,
        url matches Some(serialization) ==> parsed_url(text@) == Some(serialization@),
{
    match surf::Url::parse(text) {
        Ok(url) => Some(String::from(url)),
        Err(_) => None,
    }
}

/// The credential that every request carries.
#[derive(Debug, Clone, PartialEq, Eq)]
pub struct BearerToken {
    token: String,
}

impl View for BearerToken {
    type V = Seq<char>;

    closed spec fn view(&self) -> Seq<char> {
        self.token@
    }
}

/// The value of the `Authorization` header for `token`.
pub open spec fn bearer(token: Seq<char>) -> Seq<char> {
    "Bearer "@ + token
}

/// The name of the header that carries the credential.
pub const AUTHORIZATION: &'static str = "Authorization";

/// What the service reports of a request that it refuses.
#[derive(Debug, Clone, PartialEq, Eq)]
pub struct ErrorMessage {
    pub message: String,
    pub error_type: String,
}

/// An [`ErrorMessage`], with its texts as sequences of characters.
pub struct ErrorMessageView {
    pub message: Seq<char>,
    pub error_type: Seq<char>,
}

impl View for ErrorMessage {
    type V = ErrorMessageView;

    open spec fn view(&self) -> ErrorMessageView {
        ErrorMessageView { message: self.message@, error_type: self.error_type@ }
    }
}

impl From<String> for ErrorMessage {
    /// A message without a type.
    fn from(e: String) -> (r: ErrorMessage)
        ensures
            r@ == (ErrorMessageView { message: e@, error_type: Seq::empty() }),
    {
        ErrorMessage { message: e, error_type: String::new() }
    }
}

// The conversion makes an empty text of its own, which no specification can
// name: the contract stands on `from` itself, over the views.
impl vstd::std_specs::convert::FromSpecImpl<String> for ErrorMessage {
    open spec fn obeys_from_spec() -> bool {
        false
    }

    open spec fn from_spec(e: String) -> ErrorMessage {
        arbitrary()
    }
}

/// A failure of the service, or of the request before it was sent.
#[derive(Debug, Clone, PartialEq, Eq)]
pub enum AppError {
    /// The service refused the request.
    APIError(ErrorMessage),
    /// The client has no base URL.
    BaseUrlNotSet,
    /// The prompt is longer than the service takes.
    DiffTooLarge,
}

/// An [`AppError`], with its texts as sequences of characters.
pub enum AppErrorView {
    APIError(ErrorMessageView),
    BaseUrlNotSet,
    DiffTooLarge,
}

impl View for AppError {
    type V = AppErrorView;

    open spec fn view(&self) -> AppErrorView {
        match self {
            AppError::APIError(e) => AppErrorView::APIError(e@),
            AppError::BaseUrlNotSet => AppErrorView::BaseUrlNotSet,
            AppError::DiffTooLarge => AppErrorView::DiffTooLarge,
        }
    }
}

impl AppErrorView {
    /// What the user is told.
    pub open spec fn message(self) -> Seq<char> {
        match self {
            AppErrorView::APIError(e) => "API returned an Error: "@ + e.message,
            AppErrorView::BaseUrlNotSet => "Base URL not set"@,
            AppErrorView::DiffTooLarge => "The diff is too large for the OpenAI API. Try reducing the number of staged changes, or write your own commit message."@,
        }
    }
}

impl AppError {
    /// What the user is told.
    pub fn message(&self) -> (text: String)
        ensures
            text@ == self@.message(),
    {
        match self {
            AppError::APIError(e) => {
                let mut text = String::from_str("API returned an Error: ");
                text.append(e.message.as_str());
                text
            },
            AppError::BaseUrlNotSet => String::from_str("Base URL not set"),
            AppError::DiffTooLarge => String::from_str(
                "The diff is too large for the OpenAI API. Try reducing the number of staged changes, or write your own commit message.",
            ),
        }
    }
}

impl From<ErrorMessage> for AppError {
    fn from(e: ErrorMessage) -> (r: AppError)
        ensures
            r == AppError::APIError(e),
    {
        AppError::APIError(e)
    }
}

impl vstd::std_specs::convert::FromSpecImpl<ErrorMessage> for AppError {
    open spec fn obeys_from_spec() -> bool {
        true
    }

    open spec fn from_spec(e: ErrorMessage) -> AppError {
        AppError::APIError(e)
    }
}

impl From<String> for AppError {
    /// The refusal that an untyped message stands for.
    fn from(e: String) -> (r: AppError)
        ensures
            r@ == AppErrorView::APIError(
                ErrorMessageView { message: e@, error_type: Seq::empty() },
            ),
    {
        AppError::APIError(ErrorMessage::from(e))
    }
}

// As for `ErrorMessage`: the contract stands on `from` itself.
impl vstd::std_specs::convert::FromSpecImpl<String> for AppError {
    open spec fn obeys_from_spec() -> bool {
        false
    }

    open spec fn from_spec(e: String) -> AppError {
        arbitrary()
    }
}

/// How the service is to sample; fractions are held in tenths.
#[derive(Debug, Clone, Copy, PartialEq, Eq, Structural)]
pub struct Sampling {
    pub temperature_tenths: u32,
    pub max_tokens: u64,
    pub top_p_tenths: u32,
    pub frequency_penalty_tenths: i32,
    pub presence_penalty_tenths: i32,
}

impl Sampling {
    /// The sampling that every request asks for: temperature 0.7, at most
    /// 1500 tokens, top-p 1.0, no penalties.
    pub open spec fn fixed_spec() -> Sampling {
        Sampling {
            temperature_tenths: 7,
            max_tokens: 1500,
            top_p_tenths: 10,
            frequency_penalty_tenths: 0,
            presence_penalty_tenths: 0,
        }
    }

    /// The sampling that every request asks for.
    pub fn fixed() -> (sampling: Sampling)
        ensures
            sampling == Sampling::fixed_spec(),
    {
        Sampling {
            temperature_tenths: 7,
            max_tokens: 1500,
            top_p_tenths: 10,
            frequency_penalty_tenths: 0,
            presence_penalty_tenths: 0,
        }
    }
}

/// The model that completes the prompt.
pub const MODEL: &'static str = "text-davinci-003";

/// The path of the completion endpoint, below the base URL.
pub const COMPLETIONS: &'static str = "completions";

/// The body of a completion request.
#[derive(Debug, Clone, PartialEq, Eq)]
pub struct CompletionRequest {
    pub model: String,
    pub prompt: String,
    pub sampling: Sampling,
    pub stream: bool,
    pub n: u64,
}

/// A [`CompletionRequest`], with its texts as sequences of characters.
pub struct CompletionRequestView {
    pub model: Seq<char>,
    pub prompt: Seq<char>,
    pub sampling: Sampling,
    pub stream: bool,
    pub n: u64,
}

impl View for CompletionRequest {
    type V = CompletionRequestView;

    open spec fn view(&self) -> CompletionRequestView {
        CompletionRequestView {
            model: self.model@,
            prompt: self.prompt@,
            sampling: self.sampling,
            stream: self.stream,
            n: self.n,
        }
    }
}

impl CompletionRequestView {
    /// One completion is asked for, and it is not streamed.
    pub open spec fn well_formed(self) -> bool {
        !self.stream && self.n == 1
    }
}

/// The request that asks for one completion of `prompt`.
pub open spec fn completion_request(prompt: Seq<char>) -> CompletionRequestView {
    CompletionRequestView {
        model: MODEL@,
        prompt,
        sampling: Sampling::fixed_spec(),
        stream: false,
        n: 1,
    }
}

impl CompletionRequest {
    /// The request that asks for one completion of `prompt`.
    pub fn new(prompt: &str) -> (request: CompletionRequest)
        ensures
            request@ == completion_request(prompt@),
            request@.well_formed(),
    {
        CompletionRequest {
            model: String::from_str(MODEL),
            prompt: String::from_str(prompt),
            sampling: Sampling::fixed(),
            stream: false,
            n: 1,
        }
    }
}

/// One completion that the service offers.
#[derive(Debug, Clone, PartialEq, Eq)]
pub struct Choice {
    pub text: String,
    pub index: u64,
    pub finish_reason: String,
}

/// A [`Choice`], with its texts as sequences of characters.
pub struct ChoiceView {
    pub text: Seq<char>,
    pub index: u64,
    pub finish_reason: Seq<char>,
}

impl View for Choice {
    type V = ChoiceView;

    open spec fn view(&self) -> ChoiceView {
        ChoiceView { text: self.text@, index: self.index, finish_reason: self.finish_reason@ }
    }
}

/// The body with which the service answers a request that it accepts.
#[derive(Debug, Clone, PartialEq, Eq)]
pub struct CompletionResponse {
    pub id: String,
    pub object: String,
    pub created: u64,
    pub model: String,
    pub choices: Vec<Choice>,
}

/// A [`CompletionResponse`], with its texts as sequences of characters.
pub struct CompletionResponseView {
    pub id: Seq<char>,
    pub object: Seq<char>,
    pub created: u64,
    pub model: Seq<char>,
    pub choices: Seq<ChoiceView>,
}

impl View for CompletionResponse {
    type V = CompletionResponseView;

    open spec fn view(&self) -> CompletionResponseView {
        CompletionResponseView {
            id: self.id@,
            object: self.object@,
            created: self.created,
            model: self.model@,
            choices: Seq::new(self.choices@.len(), |i: int| self.choices@[i]@),
        }
    }
}

/// A POST request, ready to be sent.
#[derive(Debug, Clone, PartialEq, Eq)]
pub struct HttpPost {
    pub url: String,
    /// The value of the [`AUTHORIZATION`] header, if the request carries one.
    pub authorization: Option<String>,
    pub body: CompletionRequest,
}

/// An [`HttpPost`], with its texts as sequences of characters.
pub struct HttpPostView {
    pub url: Seq<char>,
    pub authorization: Option<Seq<char>>,
    pub body: CompletionRequestView,
}

impl View for HttpPost {
    type V = HttpPostView;

    open spec fn view(&self) -> HttpPostView {
        HttpPostView {
            url: self.url@,
            authorization: match self.authorization {
                Some(value) => Some(value@),
                None => None,
            },
            body: self.body@,
        }
    }
}

impl BearerToken {
    /// The credential that `token` is.
    pub fn new(token: &str) -> (bearer: BearerToken)
        ensures
            bearer@ == token@,
    {
        BearerToken { token: String::from_str(token) }
    }

    /// The value of the [`AUTHORIZATION`] header.
    pub fn header_value(&self) -> (value: String)
        ensures
            value@ == bearer(self@),
    {
        let mut value = String::from_str("Bearer ");
        value.append(self.token.as_str());
        value
    }

    /// Attaches the credential to `request`, in place of any that it carries.
    pub fn handle(&self, request: HttpPost) -> (signed: HttpPost)
        ensures
            signed@ == (HttpPostView { authorization: Some(bearer(self@)), ..request@ }),
    {
        HttpPost {
            url: request.url,
            authorization: Some(self.header_value()),
            body: request.body,
        }
    }
}

/// A client of the completion service: where it is, and the credential.
#[derive(Debug, Clone, PartialEq, Eq)]
pub struct OpenAiClient {
    /// The serialization of the base URL; a client made by
    /// [`OpenAiClient::new`] has one.
    pub base_url: Option<String>,
    pub bearer: BearerToken,
}

/// An [`OpenAiClient`], with its texts as sequences of characters.
pub struct OpenAiClientView {
    pub base_url: Option<Seq<char>>,
    pub token: Seq<char>,
}

impl View for OpenAiClient {
    type V = OpenAiClientView;

    open spec fn view(&self) -> OpenAiClientView {
        OpenAiClientView {
            base_url: match self.base_url {
                Some(url) => Some(url@),
                None => None,
            },
            token: self.bearer@,
        }
    }
}

impl OpenAiClientView {
    /// The request that posts `body` to `endpoint`: the URL is the base URL
    /// with `endpoint` written behind it, as it stands.
    pub open spec fn post(self, endpoint: Seq<char>, body: CompletionRequestView) -> Result<
        HttpPostView,
        AppErrorView,
    > {
        match self.base_url {
            Some(base) => Ok(
                HttpPostView {
                    url: base + endpoint,
                    authorization: Some(bearer(self.token)),
                    body,
                },
            ),
            None => Err(AppErrorView::BaseUrlNotSet),
        }
    }

    /// The request that asks for one completion of `prompt`.
    pub open spec fn create_completion(self, prompt: Seq<char>) -> Result<
        HttpPostView,
        AppErrorView,
    > {
        self.post(COMPLETIONS@, completion_request(prompt))
    }
}

/// The view of what `post` hands back.
pub open spec fn post_view(r: Result<HttpPost, AppError>) -> Result<HttpPostView, AppErrorView> {
    match r {
        Ok(post) => Ok(post@),
        Err(e) => Err(e@),
    }
}

impl OpenAiClient {
    /// A client for the service at `base_url`, which must parse as an
    /// absolute URL.
    pub fn new(token: &str, base_url: &str) -> (r: Result<OpenAiClient, ConfigError>)
        ensures
            match parsed_url(base_url@) {
                Some(url) => r matches Ok(client) && client@ == (OpenAiClientView {
                    base_url: Some(url),
                    token: token@,
                }),
                None => r == Err::<OpenAiClient, ConfigError>(ConfigError::InvalidBaseUrl),
            },
    {
        OpenAiClient::with_base_url(token, parse_url(base_url))
    }

    /// A client for the service at the parsed `base_url`; `None`, the base
    /// URL that did not parse, is refused.
    pub fn with_base_url(token: &str, base_url: Option<String>) -> (r: Result<
        OpenAiClient,
        ConfigError,
    >)
        ensures
            match base_url {
                Some(url) => r matches Ok(client) && client@ == (OpenAiClientView {
                    base_url: Some(url@),
                    token: token@,
                }),
                None => r == Err::<OpenAiClient, ConfigError>(ConfigError::InvalidBaseUrl),
            },
    {
        match base_url {
            Some(url) => Ok(OpenAiClient { base_url: Some(url), bearer: BearerToken::new(token) }),
            None => Err(ConfigError::InvalidBaseUrl),
        }
    }

    /// The request that posts `body` to `endpoint`, with the credential
    /// attached.
    pub fn post(&self, endpoint: &str, body: CompletionRequest) -> (r: Result<HttpPost, AppError>)
        ensures
            post_view(r) == self@.post(endpoint@, body@),
    {
        match &self.base_url {
            Some(base) => {
                let mut url = base.clone();
                url.append(endpoint);
                Ok(self.bearer.handle(HttpPost { url, authorization: None, body }))
            },
            None => Err(AppError::BaseUrlNotSet),
        }
    }

    /// The request that posts `request` to the completion endpoint.
    pub fn complete_prompt(&self, request: CompletionRequest) -> (r: Result<HttpPost, AppError>)
        ensures
            post_view(r) == self@.post(COMPLETIONS@, request@),
    {
        self.post(COMPLETIONS, request)
    }

    /// The request that asks for one completion of `prompt`.
    pub fn create_completion(&self, prompt: &str) -> (r: Result<HttpPost, AppError>)
        ensures
            post_view(r) == self@.create_completion(prompt@),
    {
        self.complete_prompt(CompletionRequest::new(prompt))
    }
}

/// What a response body is to be read as.
#[derive(Debug, Clone, Copy, PartialEq, Eq, Structural)]
pub enum BodyShape {
    /// A [`CompletionResponse`].
    Completion,
    /// An envelope with one field, `error`, that holds an [`ErrorMessage`].
    ErrorEnvelope,
}

/// The status with which the service accepts a request.
pub const STATUS_OK: u16 = 200;

/// What the body of a response with `status` is to be read as.
pub open spec fn shape_for(status: u16) -> BodyShape {
    if status == STATUS_OK {
        BodyShape::Completion
    } else {
        BodyShape::ErrorEnvelope
    }
}

/// A response body, as far as it could be read.
#[derive(Debug, Clone, PartialEq, Eq)]
pub enum Decoded {
    Completion(CompletionResponse),
    Error(ErrorMessage),
    /// The body is not of the shape asked for; the decoder's words are kept.
    Unreadable(String),
}

/// A [`Decoded`] body, with its texts as sequences of characters.
pub enum DecodedView {
    Completion(CompletionResponseView),
    Error(ErrorMessageView),
    Unreadable(Seq<char>),
}

impl View for Decoded {
    type V = DecodedView;

    open spec fn view(&self) -> DecodedView {
        match self {
            Decoded::Completion(response) => DecodedView::Completion(response@),
            Decoded::Error(e) => DecodedView::Error(e@),
            Decoded::Unreadable(reason) => DecodedView::Unreadable(reason@),
        }
    }
}

/// A response that is not what the service promises.
#[derive(Debug, Clone, PartialEq, Eq)]
pub enum ResponseShapeError {
    /// The completion offers no choice.
    MissingChoices,
    /// The body of an accepted request is no completion.
    UnreadableCompletion(String),
    /// The body of a refused request is no error envelope.
    UnreadableError(String),
}

/// A [`ResponseShapeError`], with its text as a sequence of characters.
pub enum ResponseShapeErrorView {
    MissingChoices,
    UnreadableCompletion(Seq<char>),
    UnreadableError(Seq<char>),
}

impl View for ResponseShapeError {
    type V = ResponseShapeErrorView;

    open spec fn view(&self) -> ResponseShapeErrorView {
        match self {
            ResponseShapeError::MissingChoices => ResponseShapeErrorView::MissingChoices,
            ResponseShapeError::UnreadableCompletion(reason) => {
                ResponseShapeErrorView::UnreadableCompletion(reason@)
            },
            ResponseShapeError::UnreadableError(reason) => ResponseShapeErrorView::UnreadableError(
                reason@,
            ),
        }
    }
}

impl ResponseShapeErrorView {
    /// What the user is told.
    pub open spec fn message(self) -> Seq<char> {
        match self {
            ResponseShapeErrorView::MissingChoices => "The API has returned no choices"@,
            ResponseShapeErrorView::UnreadableCompletion(reason) => reason,
            ResponseShapeErrorView::UnreadableError(reason) => {
                "The API has returned something funky: "@ + reason
            },
        }
    }
}

impl ResponseShapeError {
    /// What the user is told.
    pub fn message(&self) -> (text: String)
        ensures
            text@ == self@.message(),
    {
        match self {
            ResponseShapeError::MissingChoices => String::from_str(
                "The API has returned no choices",
            ),
            ResponseShapeError::UnreadableCompletion(reason) => reason.clone(),
            ResponseShapeError::UnreadableError(reason) => {
                let mut text = String::from_str("The API has returned something funky: ");
                text.append(reason.as_str());
                text
            },
        }
    }
}

/// Why no commit message was generated.
#[derive(Debug, Clone, PartialEq, Eq)]
pub enum GenerateError {
    Service(AppError),
    ResponseShape(ResponseShapeError),
}

/// A [`GenerateError`], with its texts as sequences of characters.
pub enum GenerateErrorView {
    Service(AppErrorView),
    ResponseShape(ResponseShapeErrorView),
}

impl View for GenerateError {
    type V = GenerateErrorView;

    open spec fn view(&self) -> GenerateErrorView {
        match self {
            GenerateError::Service(e) => GenerateErrorView::Service(e@),
            GenerateError::ResponseShape(e) => GenerateErrorView::ResponseShape(e@),
        }
    }
}

impl GenerateErrorView {
    /// What the user is told.
    pub open spec fn message(self) -> Seq<char> {
        match self {
            GenerateErrorView::Service(e) => e.message(),
            GenerateErrorView::ResponseShape(e) => e.message(),
        }
    }
}

impl GenerateError {
    /// What the user is told.
    pub fn message(&self) -> (text: String)
        ensures
            text@ == self@.message(),
    {
        match self {
            GenerateError::Service(e) => e.message(),
            GenerateError::ResponseShape(e) => e.message(),
        }
    }
}

/// What is made of a body that was asked for as `shape` and read as `body`:
/// the completion, or the failure that the body stands for. `None` where the
/// body is of the other shape.
pub open spec fn response_from(shape: BodyShape, body: DecodedView) -> Option<
    Result<CompletionResponseView, GenerateErrorView>,
> {
    match (shape, body) {
        (BodyShape::Completion, DecodedView::Completion(response)) => Some(Ok(response)),
        (BodyShape::Completion, DecodedView::Unreadable(reason)) => Some(
            Err(GenerateErrorView::ResponseShape(ResponseShapeErrorView::UnreadableCompletion(reason))),
        ),
        (BodyShape::ErrorEnvelope, DecodedView::Error(e)) => Some(
            Err(GenerateErrorView::Service(AppErrorView::APIError(e))),
        ),
        (BodyShape::ErrorEnvelope, DecodedView::Unreadable(reason)) => Some(
            Err(GenerateErrorView::ResponseShape(ResponseShapeErrorView::UnreadableError(reason))),
        ),
        _ => None,
    }
}

/// The view of what `read_body` hands back.
pub open spec fn response_view(r: Option<Result<CompletionResponse, GenerateError>>) -> Option<
    Result<CompletionResponseView, GenerateErrorView>,
> {
    match r {
        Some(Ok(response)) => Some(Ok(response@)),
        Some(Err(e)) => Some(Err(e@)),
        None => None,
    }
}

impl OpenAiClient {
    /// What the body of a response with `status` is to be read as.
    pub fn expected_body(status: u16) -> (shape: BodyShape)
        ensures
            shape == shape_for(status),
    {
        if status == STATUS_OK {
            BodyShape::Completion
        } else {
            BodyShape::ErrorEnvelope
        }
    }

    /// What is made of a body that was asked for as `shape` and read as
    /// `body`.
    pub fn read_body(shape: BodyShape, body: Decoded) -> (r: Option<
        Result<CompletionResponse, GenerateError>,
    >)
        ensures
            response_view(r) == response_from(shape, body@),
    {
        match shape {
            BodyShape::Completion => match body {
                Decoded::Completion(response) => Some(Ok(response)),
                Decoded::Unreadable(reason) => Some(
                    Err(GenerateError::ResponseShape(ResponseShapeError::UnreadableCompletion(reason))),
                ),
                Decoded::Error(_) => None,
            },
            BodyShape::ErrorEnvelope => match body {
                Decoded::Error(e) => Some(Err(GenerateError::Service(AppError::from(e)))),
                Decoded::Unreadable(reason) => Some(
                    Err(GenerateError::ResponseShape(ResponseShapeError::UnreadableError(reason))),
                ),
                Decoded::Completion(_) => None,
            },
        }
    }
}

/// `message` without the white space at its two ends, and then without its
/// line feeds and carriage returns. Every other character is kept, in order.
pub open spec fn sanitized(message: Seq<char>) -> Seq<char> {
    without_line_breaks(trimmed(message))
}

/// The single line that a completion's text is turned into.
pub fn sanitize_message(message: &str) -> (clean: String)
    ensures
        clean@ == sanitized(message@),
{
    let chars = chars_of(message);
    let (start, end) = trim_range(&chars);
    let kept = strip_line_breaks(&chars, start, end);
    assert(kept@.subrange(0, kept.len() as int) =~= kept@);
    text_of(&kept, 0, kept.len())
}

/// A sanitized message is a single line: it holds no line feed and no
/// carriage return.
pub proof fn lemma_sanitized_is_one_line(message: Seq<char>)
    ensures
        forall|i: int|
            0 <= i < sanitized(message).len() ==> !is_line_break(#[trigger] sanitized(message)[i]),
{
    lemma_without_line_breaks(trimmed(message));
}

/// A sanitized message neither begins nor ends with white space.
pub proof fn lemma_sanitized_is_trimmed(message: Seq<char>)
    ensures
        is_trimmed(sanitized(message)),
        trimmed(sanitized(message)) == sanitized(message),
{
    lemma_trimmed_is_trimmed(message);
    lemma_without_line_breaks(trimmed(message));
    lemma_trim_fixes_trimmed(sanitized(message));
}

/// Sanitizing is idempotent: a sanitized message is sanitized to itself.
pub proof fn lemma_sanitize_idempotent(message: Seq<char>)
    ensures
        sanitized(sanitized(message)) == sanitized(message),
{
    lemma_sanitized_is_trimmed(message);
    lemma_sanitized_is_one_line(message);
    lemma_without_line_breaks(sanitized(message));
}

/// A message that neither begins nor ends with white space and holds no line
/// break is sanitized to itself.
pub proof fn lemma_sanitize_keeps_clean(message: Seq<char>)
    requires
        is_trimmed(message),
        forall|i: int| 0 <= i < message.len() ==> !is_line_break(#[trigger] message[i]),
    ensures
        sanitized(message) == message,
{
    lemma_trim_fixes_trimmed(message);
    lemma_without_line_breaks(message);
}

/// What the service is asked, ahead of the diff.
pub const PROMPT: &'static str =
    "Write an insightful but concise commit message in a complete sentence, present tense, describing the following diff, with no prefacing text:";

/// The longest prompt that is sent, in bytes of UTF-8.
pub const MAX_PROMPT_LEN: usize = 4000;

/// The prompt for `diff`: the instruction, a line feed, the diff.
pub open spec fn prompt_text(diff: Seq<char>) -> Seq<char> {
    PROMPT@ + seq!['\n'] + diff
}

/// The length of the prompt for `diff`, in bytes of UTF-8.
pub open spec fn prompt_len(diff: Seq<char>) -> nat {
    encode_utf8(prompt_text(diff)).len()
}

/// The prompt for `diff`.
pub fn build_prompt(diff: &str) -> (prompt: String)
    ensures
        prompt@ == prompt_text(diff@),
{
    let mut prompt = String::from_str(PROMPT);
    proof {
        reveal_strlit("\n");
    }
    prompt.append("\n");
    assert("\n"@ =~= seq!['\n']);
    prompt.append(diff);
    prompt
}

/// The encoding of two texts, one behind the other, is their encodings one
/// behind the other.
pub proof fn lemma_encode_concat(a: Seq<char>, b: Seq<char>)
    ensures
        encode_utf8(a + b) == encode_utf8(a) + encode_utf8(b),
    decreases a.len(),
{
    if a.len() == 0 {
        assert(a + b =~= b);
        assert(encode_utf8(a) + encode_utf8(b) =~= encode_utf8(b));
    } else {
        assert((a + b).drop_first() =~= a.drop_first() + b);
        lemma_encode_concat(a.drop_first(), b);
        assert(encode_utf8(a + b) =~= encode_utf8(a) + encode_utf8(b));
    }
}

/// The instruction and the line feed take 141 bytes of every prompt: a diff
/// fits if and only if it is no longer than 3859 bytes.
pub proof fn lemma_prompt_len(diff: Seq<char>)
    ensures
        prompt_len(diff) == 141 + encode_utf8(diff).len(),
        prompt_len(diff) <= MAX_PROMPT_LEN <==> encode_utf8(diff).len() <= 3859,
{
    reveal_strlit(
        "Write an insightful but concise commit message in a complete sentence, present tense, describing the following diff, with no prefacing text:",
    );
    let head = PROMPT@ + seq!['\n'];
    assert(head.len() == 141);
    assert(is_ascii_chars(head));
    is_ascii_chars_encode_utf8(head);
    lemma_encode_concat(head, diff);
    assert(prompt_text(diff) =~= head + diff);
}

/// The commit message that `response` holds: its first choice, sanitized.
pub open spec fn message_from(response: CompletionResponseView) -> Result<
    Seq<char>,
    GenerateErrorView,
> {
    if response.choices.len() == 0 {
        Err(GenerateErrorView::ResponseShape(ResponseShapeErrorView::MissingChoices))
    } else {
        Ok(sanitized(response.choices[0].text))
    }
}

/// How far the generation of a commit message has come.
#[derive(Debug, Clone, PartialEq, Eq)]
pub enum Generation {
    /// No diff was handed in yet.
    Idle,
    /// The request is out; waiting for the status of the response.
    AwaitingStatus,
    /// The status is known; waiting for the body, read as the shape given.
    AwaitingBody(BodyShape),
    /// The commit message.
    Done(String),
    /// The generation ended without one.
    Failed(GenerateError),
}

/// A [`Generation`], with its texts as sequences of characters.
pub enum GenerationView {
    Idle,
    AwaitingStatus,
    AwaitingBody(BodyShape),
    Done(Seq<char>),
    Failed(GenerateErrorView),
}

impl View for Generation {
    type V = GenerationView;

    open spec fn view(&self) -> GenerationView {
        match self {
            Generation::Idle => GenerationView::Idle,
            Generation::AwaitingStatus => GenerationView::AwaitingStatus,
            Generation::AwaitingBody(shape) => GenerationView::AwaitingBody(*shape),
            Generation::Done(message) => GenerationView::Done(message@),
            Generation::Failed(e) => GenerationView::Failed(e@),
        }
    }
}

/// What happened outside.
#[derive(Debug, Clone, PartialEq, Eq)]
pub enum Event {
    /// The staged diff is at hand.
    Diff(String),
    /// The response has arrived, with this status.
    Status(u16),
    /// The body of the response was read.
    Body(Decoded),
}

/// An [`Event`], with its texts as sequences of characters.
pub enum EventView {
    Diff(Seq<char>),
    Status(u16),
    Body(DecodedView),
}

impl View for Event {
    type V = EventView;

    open spec fn view(&self) -> EventView {
        match self {
            Event::Diff(diff) => EventView::Diff(diff@),
            Event::Status(status) => EventView::Status(*status),
            Event::Body(body) => EventView::Body(body@),
        }
    }
}

/// What is to be done outside.
#[derive(Debug, Clone, PartialEq, Eq)]
pub enum Action {
    /// Send the request and report the status of the response.
    Post(HttpPost),
    /// Read the body of the response as the shape given, and report it.
    Decode(BodyShape),
}

/// An [`Action`], with its texts as sequences of characters.
pub enum ActionView {
    Post(HttpPostView),
    Decode(BodyShape),
}

impl View for Action {
    type V = ActionView;

    open spec fn view(&self) -> ActionView {
        match self {
            Action::Post(post) => ActionView::Post(post@),
            Action::Decode(shape) => ActionView::Decode(*shape),
        }
    }
}

/// The view of an action, if there is one.
pub open spec fn action_view(action: Option<Action>) -> Option<ActionView> {
    match action {
        Some(a) => Some(a@),
        None => None,
    }
}

impl OpenAiClientView {
    /// The state that the generation begins in for `diff`, and the request to
    /// send: none where the prompt is too long, which is found before
    /// anything is sent.
    pub open spec fn begin(self, diff: Seq<char>) -> (GenerationView, Option<ActionView>) {
        if prompt_len(diff) > MAX_PROMPT_LEN {
            (GenerationView::Failed(GenerateErrorView::Service(AppErrorView::DiffTooLarge)), None)
        } else {
            match self.create_completion(prompt_text(diff)) {
                Ok(post) => (GenerationView::AwaitingStatus, Some(ActionView::Post(post))),
                Err(e) => (GenerationView::Failed(GenerateErrorView::Service(e)), None),
            }
        }
    }

    /// The state that follows `state` when `event` happens, and what is to be
    /// done next. An event that `state` does not wait for changes nothing and
    /// asks nothing.
    pub open spec fn step(self, state: GenerationView, event: EventView) -> (
        GenerationView,
        Option<ActionView>,
    ) {
        match (state, event) {
            (GenerationView::Idle, EventView::Diff(diff)) => self.begin(diff),
            (GenerationView::AwaitingStatus, EventView::Status(status)) => (
                GenerationView::AwaitingBody(shape_for(status)),
                Some(ActionView::Decode(shape_for(status))),
            ),
            (GenerationView::AwaitingBody(shape), EventView::Body(body)) => match response_from(
                shape,
                body,
            ) {
                Some(Ok(response)) => match message_from(response) {
                    Ok(message) => (GenerationView::Done(message), None),
                    Err(e) => (GenerationView::Failed(e), None),
                },
                Some(Err(e)) => (GenerationView::Failed(e), None),
                None => (state, None),
            },
            _ => (state, None),
        }
    }
}

impl OpenAiClientView {
    /// The state that the generation is in after `events`, from `state` on.
    pub open spec fn after(self, state: GenerationView, events: Seq<EventView>) -> GenerationView
        decreases events.len(),
    {
        if events.len() == 0 {
            state
        } else {
            self.after(self.step(state, events[0]).0, events.drop_first())
        }
    }

    /// The number of requests that are sent while `events` happen, from
    /// `state` on.
    pub open spec fn posts(self, state: GenerationView, events: Seq<EventView>) -> nat
        decreases events.len(),
    {
        if events.len() == 0 {
            0
        } else {
            let (next, action) = self.step(state, events[0]);
            let sent: nat = if action matches Some(ActionView::Post(_)) {
                1
            } else {
                0
            };
            sent + self.posts(next, events.drop_first())
        }
    }
}

/// A generation that has begun sends no request, whatever happens, and one
/// that has ended stays as it ended.
pub proof fn lemma_begun_sends_nothing(
    client: OpenAiClientView,
    state: GenerationView,
    events: Seq<EventView>,
)
    requires
        !(state is Idle),
    ensures
        client.posts(state, events) == 0,
        !(client.after(state, events) is Idle),
        state is Done || state is Failed ==> client.after(state, events) == state,
    decreases events.len(),
{
    if events.len() > 0 {
        lemma_begun_sends_nothing(client, client.step(state, events[0]).0, events.drop_first());
    }
}

/// For a diff whose prompt fits, a client with a base URL sends exactly one
/// request, whatever happens afterwards. For a diff whose prompt is too long
/// no request is ever sent, and the generation ends as too large.
pub proof fn lemma_one_request(client: OpenAiClientView, diff: Seq<char>, later: Seq<EventView>)
    ensures
        prompt_len(diff) <= MAX_PROMPT_LEN && client.base_url is Some ==> client.posts(
            GenerationView::Idle,
            seq![EventView::Diff(diff)] + later,
        ) == 1,
        prompt_len(diff) > MAX_PROMPT_LEN ==> client.posts(
            GenerationView::Idle,
            seq![EventView::Diff(diff)] + later,
        ) == 0 && client.after(GenerationView::Idle, seq![EventView::Diff(diff)] + later)
            == GenerationView::Failed(GenerateErrorView::Service(AppErrorView::DiffTooLarge)),
{
    let events = seq![EventView::Diff(diff)] + later;
    assert(events[0] == EventView::Diff(diff));
    assert(events.drop_first() =~= later);
    lemma_begun_sends_nothing(client, client.begin(diff).0, later);
}

/// Every request that a generation sends goes to the completion endpoint
/// below the base URL, carries the credential, and asks for one completion,
/// not streamed, of the prompt for the diff.
pub proof fn lemma_request_sent(client: OpenAiClientView, diff: Seq<char>)
    requires
        client.begin(diff).1 is Some,
    ensures
        client.base_url is Some,
        prompt_len(diff) <= MAX_PROMPT_LEN,
        client.begin(diff).1 == Some(
            ActionView::Post(
                HttpPostView {
                    url: client.base_url->0 + COMPLETIONS@,
                    authorization: Some(bearer(client.token)),
                    body: completion_request(prompt_text(diff)),
                },
            ),
        ),
        completion_request(prompt_text(diff)).well_formed(),
{
}

/// Generates commit messages with one client.
#[derive(Debug, Clone, PartialEq, Eq)]
pub struct GitCommitMessageGenerator {
    openai_client: OpenAiClient,
}

impl View for GitCommitMessageGenerator {
    type V = OpenAiClientView;

    closed spec fn view(&self) -> OpenAiClientView {
        self.openai_client@
    }
}

impl GitCommitMessageGenerator {
    /// A generator that sends its requests as `openai_client` does.
    pub fn new(openai_client: OpenAiClient) -> (generator: GitCommitMessageGenerator)
        ensures
            generator@ == openai_client@,
    {
        GitCommitMessageGenerator { openai_client }
    }

    /// Begins the generation for `diff`.
    fn begin(&self, diff: &str) -> (r: (Generation, Option<Action>))
        ensures
            (r.0@, action_view(r.1)) == self@.begin(diff@),
    {
        let prompt = build_prompt(diff);
        if prompt.as_str().as_bytes().len() > MAX_PROMPT_LEN {
            return (Generation::Failed(GenerateError::Service(AppError::DiffTooLarge)), None);
        }
        match self.openai_client.create_completion(prompt.as_str()) {
            Ok(post) => (Generation::AwaitingStatus, Some(Action::Post(post))),
            Err(e) => (Generation::Failed(GenerateError::Service(e)), None),
        }
    }

    /// Ends the generation with the commit message that `response` holds.
    fn finish(response: CompletionResponse) -> (state: Generation)
        ensures
            state@ == match message_from(response@) {
                Ok(message) => GenerationView::Done(message),
                Err(e) => GenerationView::Failed(e),
            },
    {
        if response.choices.len() == 0 {
            Generation::Failed(GenerateError::ResponseShape(ResponseShapeError::MissingChoices))
        } else {
            Generation::Done(sanitize_message(response.choices[0].text.as_str()))
        }
    }

    /// One step of the generation of a commit message. Begin with
    /// [`Generation::Idle`] and the diff; do what comes back and report what
    /// happened, until nothing comes back. The generation has then ended, in
    /// [`Generation::Done`] or [`Generation::Failed`].
    pub fn generate_commit_message(&self, state: Generation, event: Event) -> (r: (
        Generation,
        Option<Action>,
    ))
        ensures
            (r.0@, action_view(r.1)) == self@.step(state@, event@),
    {
        match state {
            Generation::Idle => match event {
                Event::Diff(diff) => self.begin(diff.as_str()),
                _ => (Generation::Idle, None),
            },
            Generation::AwaitingStatus => match event {
                Event::Status(status) => {
                    let shape = OpenAiClient::expected_body(status);
                    (Generation::AwaitingBody(shape), Some(Action::Decode(shape)))
                },
                _ => (Generation::AwaitingStatus, None),
            },
            Generation::AwaitingBody(shape) => match event {
                Event::Body(body) => match OpenAiClient::read_body(shape, body) {
                    Some(Ok(response)) => (GitCommitMessageGenerator::finish(response), None),
                    Some(Err(e)) => (Generation::Failed(e), None),
                    None => (Generation::AwaitingBody(shape), None),
                },
                _ => (Generation::AwaitingBody(shape), None),
            },
            Generation::Done(message) => (Generation::Done(message), None),
            Generation::Failed(e) => (Generation::Failed(e), None),
        }
    }
}

} // verus!

//! The chat workflow: a state machine that decides, from each outcome of
//! the outside work (database lookups, file checks, upstream replies), what
//! is done next, and the log record that each answered chat leaves.

use vstd::prelude::*;
use crate::adapter::{
    escapes_root, escaping_path_message, joined_path, resolve_adapter_path, AdapterWithMetadata,
};
use crate::config::{
    jkca_runtime_generate_url, jkca_url_of, lm_chat_url, lm_chat_url_of,
    preferred_inference_provider, InferenceProvider,
};
use crate::error::{
    db_error, error_with, http_failure_error, map_jkca_error, map_lmstudio_error, AppError,
    HttpFailure, Upstream, BAD_GATEWAY, BAD_REQUEST, INTERNAL_SERVER_ERROR, NOT_FOUND,
};
use crate::json::{
    extract_jkca_generated_text, extract_response_text, jkca_generated_text, jkca_payload,
    jkca_payload_of, law_normalized_response_reads_back, lm_studio_payload, lm_studio_payload_of,
    decode_json, decoded_json, normalize_chat_response, normalized_response, response_text, Json,
    JsonValue,
};
use crate::text::{
    chars_of, concat2, concat3, count_words, i64_to_string, int_decimal, is_blank,
    lemma_trim_fixed, lemma_trim_shape, string_from_range, trim, trim_bounds, word_count,
};

verus! {

/// The longest prompt or reply text, in characters, that a log record keeps
/// whole.
pub const MAX_LOG_CHARS: usize = 2000;

/// What a log record keeps of `value`: the trimmed text, cut to
/// `MAX_LOG_CHARS` characters followed by `...` when it is longer.
pub open spec fn truncated_for_log(value: Seq<char>) -> Seq<char> {
    let t = trim(value);
    if t.len() <= MAX_LOG_CHARS {
        t
    } else {
        t.take(MAX_LOG_CHARS as int) + "..."@
    }
}

/// The text of `value` as a log record keeps it.
pub fn truncate_for_log(value: &str) -> (r: String)
    ensures
        r@ == truncated_for_log(value@),
{
    let v = chars_of(value);
    let (lo, hi) = trim_bounds(&v);
    if hi - lo <= MAX_LOG_CHARS {
        string_from_range(&v, lo, hi)
    } else {
        let mut r = string_from_range(&v, lo, lo + MAX_LOG_CHARS);
        r.append("...");
        assert(v@.subrange(lo as int, lo + MAX_LOG_CHARS) =~= trim(v@).take(MAX_LOG_CHARS as int));
        r
    }
}

/// A row of the chat log.
#[derive(Debug)]
pub struct LogEntry {
    pub prompt: String,
    pub response: String,
    pub tokens_in: i64,
    pub tokens_out: i64,
    pub adapter_id: Option<i64>,
}

/// The model of a row of the chat log.
pub struct LogRecord {
    pub prompt: Seq<char>,
    pub response: Seq<char>,
    pub tokens_in: i64,
    pub tokens_out: i64,
    pub adapter_id: Option<i64>,
}

impl LogEntry {
    pub open spec fn record(&self) -> LogRecord {
        LogRecord {
            prompt: self.prompt@,
            response: self.response@,
            tokens_in: self.tokens_in,
            tokens_out: self.tokens_out,
            adapter_id: self.adapter_id,
        }
    }
}

/// The row logged for an interaction: prompt and reply as `truncate_for_log`
/// keeps them, with the given counts.
pub fn log_entry(prompt: &str, response: &str, tokens_in: i64, tokens_out: i64, adapter_id: Option<
    i64,
>) -> (e: LogEntry)
    ensures
        e.prompt@ == truncated_for_log(prompt@),
        e.response@ == truncated_for_log(response@),
        e.tokens_in == tokens_in,
        e.tokens_out == tokens_out,
        e.adapter_id == adapter_id,
{
    LogEntry {
        prompt: truncate_for_log(prompt),
        response: truncate_for_log(response),
        tokens_in,
        tokens_out,
        adapter_id,
    }
}

/// The text of a chat reply: that of a chat completion, else that of a
/// JKCA reply.
pub open spec fn reply_text(j: Json) -> Option<Seq<char>> {
    match response_text(j) {
        Some(t) => Some(t),
        None => jkca_generated_text(j),
    }
}

/// The log row for `prompt` answered by `reply`: the reply's text (or a
/// placeholder when it has none) and the word counts of both.
pub open spec fn chat_log_record(prompt: Seq<char>, reply: Json, adapter_id: Option<i64>) -> LogRecord {
    let text = reply_text(reply);
    LogRecord {
        prompt: truncated_for_log(prompt),
        response: truncated_for_log(
            match text {
                Some(t) => t,
                None => "[non-text chat response]"@,
            },
        ),
        tokens_in: word_count(prompt) as i64,
        tokens_out: match text {
            Some(t) => word_count(t) as i64,
            None => 0,
        },
        adapter_id,
    }
}

/// The log row for `prompt` answered by `reply`.
pub fn chat_log_entry(prompt: &str, reply: &JsonValue, adapter_id: Option<i64>) -> (e: LogEntry)
    ensures
        e.record() == chat_log_record(prompt@, reply.model(), adapter_id),
{
    let text = match extract_response_text(reply) {
        Some(t) => Some(t),
        None => extract_jkca_generated_text(reply),
    };
    let (excerpt, tokens_out) = match text {
        Some(t) => {
            let n = count_words(t.as_str());
            (t, n)
        },
        None => ("[non-text chat response]".to_string(), 0),
    };
    log_entry(prompt, excerpt.as_str(), count_words(prompt), tokens_out, adapter_id)
}


/// Whether an HTTP status is a success (2xx), as `StatusCode::is_success`
/// says.
pub open spec fn is_success_status(status: u16) -> bool {
    200 <= status <= 299
}

/// Whether an HTTP status is a success (2xx).
pub fn status_is_success(status: u16) -> (b: bool)
    ensures
        b == is_success_status(status),
{
    200 <= status && status <= 299
}

/// The backend's settings that a chat depends on.
pub struct ChatSettings {
    pub inference_provider: InferenceProvider,
    pub chat_max_tokens: i64,
    pub lm_studio_url: String,
    pub jkca_app_base_url: String,
    pub project_root: String,
}

/// A chat request: the user's prompt and the adapter to answer with, if any.
pub struct ChatRequest {
    pub prompt: String,
    pub adapter_id: Option<i64>,
}

/// What was found at an adapter's location.
#[derive(Debug)]
pub enum AdapterFiles {
    /// Nothing is there.
    Missing,
    /// A directory is there whose entries could not be read; the error's text.
    Unreadable(String),
    /// An empty directory is there.
    EmptyDirectory,
    /// A file, or a directory with entries, is there.
    Present,
}

/// How a request to an inference server ended.
#[derive(Debug)]
pub enum UpstreamReply {
    /// No reply came.
    Failed(HttpFailure),
    /// A reply came with `status` and `body`.
    Answered { status: u16, body: String },
}

/// The outcome of the outside work that the workflow last asked for.
#[derive(Debug)]
pub enum ChatEvent {
    /// The request arrived.
    Begin,
    /// The adapter lookup gave the adapter, found no adapter, or failed with
    /// the database error's text.
    AdapterFetched(Result<Option<AdapterWithMetadata>, String>),
    /// The adapter's location was inspected.
    AdapterChecked(AdapterFiles),
    /// The inference server's request ended.
    Replied(UpstreamReply),
    /// The log row was written (`stored`) or its write failed.
    Logged { stored: bool },
}

/// Where the workflow stands.
pub enum ChatStage {
    Received,
    FetchingAdapter { adapter_id: i64 },
    CheckingAdapter { adapter: AdapterWithMetadata, path: String },
    AwaitingLmStudio,
    AwaitingJkca,
    Logging { reply: JsonValue },
    Finished,
}

/// The outside work to do next, or the answer.
#[derive(Debug)]
pub enum ChatAction {
    /// Look up the adapter with this ID.
    FetchAdapter { adapter_id: i64 },
    /// Inspect what is at this location.
    CheckAdapterFiles { path: String },
    /// POST this JSON body to this URL.
    Post { url: String, payload: JsonValue },
    /// Write this row to the chat log.
    StoreLog(LogEntry),
    /// Answer the client with this JSON.
    Respond(JsonValue),
    /// Answer the client with this error.
    Fail(AppError),
}

/// The model of a workflow stage.
pub enum ChatPhase {
    Received,
    FetchingAdapter(i64),
    CheckingAdapter { adapter_id: i64, adapter_name: Seq<char>, path: Seq<char> },
    AwaitingLmStudio,
    AwaitingJkca,
    Logging(Json),
    Finished,
}

/// The model of a workflow action.
pub enum ChatStep {
    FetchAdapter(i64),
    CheckAdapterFiles(Seq<char>),
    Post { url: Seq<char>, payload: Json },
    StoreLog(LogRecord),
    Respond(Json),
    Fail(u16, Seq<char>),
}

impl ChatStage {
    pub open spec fn phase(&self) -> ChatPhase {
        match self {
            ChatStage::Received => ChatPhase::Received,
            ChatStage::FetchingAdapter { adapter_id } => ChatPhase::FetchingAdapter(*adapter_id),
            ChatStage::CheckingAdapter { adapter, path } => ChatPhase::CheckingAdapter {
                adapter_id: adapter.id,
                adapter_name: adapter.name@,
                path: path@,
            },
            ChatStage::AwaitingLmStudio => ChatPhase::AwaitingLmStudio,
            ChatStage::AwaitingJkca => ChatPhase::AwaitingJkca,
            ChatStage::Logging { reply } => ChatPhase::Logging(reply.model()),
            ChatStage::Finished => ChatPhase::Finished,
        }
    }
}

impl ChatAction {
    pub open spec fn step(&self) -> ChatStep {
        match self {
            ChatAction::FetchAdapter { adapter_id } => ChatStep::FetchAdapter(*adapter_id),
            ChatAction::CheckAdapterFiles { path } => ChatStep::CheckAdapterFiles(path@),
            ChatAction::Post { url, payload } => ChatStep::Post { url: url@, payload: payload.model() },
            ChatAction::StoreLog(entry) => ChatStep::StoreLog(entry.record()),
            ChatAction::Respond(reply) => ChatStep::Respond(reply.model()),
            ChatAction::Fail(e) => ChatStep::Fail(e.status, e.message@),
        }
    }
}

/// Whether `event` is an outcome of the work that `phase` waits for.
pub open spec fn accepts(phase: ChatPhase, event: ChatEvent) -> bool {
    match phase {
        ChatPhase::Received => event is Begin,
        ChatPhase::FetchingAdapter(_) => event is AdapterFetched,
        ChatPhase::CheckingAdapter { .. } => event is AdapterChecked,
        ChatPhase::AwaitingLmStudio => event is Replied,
        ChatPhase::AwaitingJkca => event is Replied,
        ChatPhase::Logging(_) => event is Logged,
        ChatPhase::Finished => false,
    }
}

/// Ending the workflow with an error.
pub open spec fn failing(status: u16, message: Seq<char>) -> (ChatPhase, ChatStep) {
    (ChatPhase::Finished, ChatStep::Fail(status, message))
}

/// Sending the request to the chosen provider; `adapter_path` is the
/// checked location of the selected adapter, if any.
pub open spec fn sending(
    settings: ChatSettings,
    request: ChatRequest,
    provider: InferenceProvider,
    adapter_path: Option<Seq<char>>,
) -> (ChatPhase, ChatStep) {
    match provider {
        InferenceProvider::Jkca => (
            ChatPhase::AwaitingJkca,
            ChatStep::Post {
                url: jkca_url_of(settings.jkca_app_base_url@),
                payload: jkca_payload_of(request.prompt@, settings.chat_max_tokens),
            },
        ),
        InferenceProvider::LmStudio => (
            ChatPhase::AwaitingLmStudio,
            ChatStep::Post {
                url: lm_chat_url_of(settings.lm_studio_url@),
                payload: lm_studio_payload_of(
                    request.prompt@,
                    settings.chat_max_tokens,
                    adapter_path,
                ),
            },
        ),
    }
}

/// Logging the interaction before answering with `reply`.
pub open spec fn logging(request: ChatRequest, reply: Json) -> (ChatPhase, ChatStep) {
    (
        ChatPhase::Logging(reply),
        ChatStep::StoreLog(chat_log_record(request.prompt@, reply, request.adapter_id)),
    )
}

/// What the workflow does with an inference server's reply.
pub open spec fn on_reply(request: ChatRequest, upstream: Upstream, reply: UpstreamReply) -> (
    ChatPhase,
    ChatStep,
) {
    let lm = upstream is LmStudio;
    match reply {
        UpstreamReply::Failed(f) => {
            let e = http_failure_error(upstream, f);
            failing(e.0, e.1)
        },
        UpstreamReply::Answered { status, body } => if !is_success_status(status) {
            failing(
                BAD_GATEWAY,
                if lm {
                    "LM Studio API error: "@
                } else {
                    "JKCA runtime API error: "@
                } + body@,
            )
        } else {
            match decoded_json(body@) {
                Err(d) => failing(
                    BAD_GATEWAY,
                    if lm {
                        "Failed to decode LM Studio response: "@
                    } else {
                        "Failed to decode JKCA response: "@
                    } + d,
                ),
                Ok(j) => if lm {
                    logging(request, j)
                } else {
                    match jkca_generated_text(j) {
                        Some(g) => logging(
                            request,
                            normalized_response(g, "jkca-shared-runtime"@, Some(j)),
                        ),
                        None => failing(
                            INTERNAL_SERVER_ERROR,
                            "JKCA runtime response did not include generated text"@,
                        ),
                    }
                },
            }
        },
    }
}

/// The workflow's transition: from `phase`, on `event`, the next phase and
/// what to do.
pub open spec fn chat_next(
    settings: ChatSettings,
    request: ChatRequest,
    phase: ChatPhase,
    event: ChatEvent,
) -> (ChatPhase, ChatStep) {
    match phase {
        ChatPhase::Received => if trim(request.prompt@).len() == 0 {
            failing(BAD_REQUEST, "Prompt must not be empty"@)
        } else {
            match request.adapter_id {
                Some(id) => if id < 1 {
                    failing(BAD_REQUEST, "Adapter ID must be a positive integer"@)
                } else {
                    (ChatPhase::FetchingAdapter(id), ChatStep::FetchAdapter(id))
                },
                None => sending(settings, request, settings.inference_provider, None),
            }
        },
        ChatPhase::FetchingAdapter(id) => match event {
            ChatEvent::AdapterFetched(Err(d)) => failing(
                INTERNAL_SERVER_ERROR,
                "Database error occurred: "@ + d@,
            ),
            ChatEvent::AdapterFetched(Ok(None)) => failing(
                NOT_FOUND,
                "LoRA adapter with ID "@ + int_decimal(id as int) + " not found"@,
            ),
            ChatEvent::AdapterFetched(Ok(Some(a))) => {
                if escapes_root(a.path@) {
                    failing(BAD_REQUEST, escaping_path_message(a.path@))
                } else {
                    let path = joined_path(settings.project_root@, a.path@);
                    (
                        ChatPhase::CheckingAdapter {
                            adapter_id: a.id,
                            adapter_name: a.name@,
                            path,
                        },
                        ChatStep::CheckAdapterFiles(path),
                    )
                }
            },
            _ => vstd::pervasive::arbitrary(),
        },
        ChatPhase::CheckingAdapter { path, .. } => match event {
            ChatEvent::AdapterChecked(AdapterFiles::Missing) => failing(
                NOT_FOUND,
                "LoRA adapter file not found at "@ + path,
            ),
            ChatEvent::AdapterChecked(AdapterFiles::Unreadable(d)) => failing(
                INTERNAL_SERVER_ERROR,
                "Failed to inspect adapter directory "@ + path + ": "@ + d@,
            ),
            ChatEvent::AdapterChecked(AdapterFiles::EmptyDirectory) => failing(
                BAD_REQUEST,
                "LoRA adapter directory is empty at "@ + path,
            ),
            ChatEvent::AdapterChecked(AdapterFiles::Present) => sending(
                settings,
                request,
                InferenceProvider::LmStudio,
                Some(path),
            ),
            _ => vstd::pervasive::arbitrary(),
        },
        ChatPhase::AwaitingLmStudio => match event {
            ChatEvent::Replied(reply) => on_reply(request, Upstream::LmStudio, reply),
            _ => vstd::pervasive::arbitrary(),
        },
        ChatPhase::AwaitingJkca => match event {
            ChatEvent::Replied(reply) => on_reply(request, Upstream::Jkca, reply),
            _ => vstd::pervasive::arbitrary(),
        },
        ChatPhase::Logging(reply) => (ChatPhase::Finished, ChatStep::Respond(reply)),
        ChatPhase::Finished => vstd::pervasive::arbitrary(),
    }
}


fn fail_with(e: AppError) -> (r: (ChatStage, ChatAction))
    ensures
        (r.0.phase(), r.1.step()) == failing(e.status, e.message@),
{
    (ChatStage::Finished, ChatAction::Fail(e))
}

/// The request that asks `provider` to answer, with the selected adapter's
/// checked location, if any.
fn send_to(
    settings: &ChatSettings,
    request: &ChatRequest,
    provider: InferenceProvider,
    adapter_path: Option<&str>,
) -> (r: (ChatStage, ChatAction))
    ensures
        (r.0.phase(), r.1.step()) == sending(
            *settings,
            *request,
            provider,
            match adapter_path {
                Some(p) => Some(p@),
                None => None,
            },
        ),
{
    match provider {
        InferenceProvider::Jkca => {
            let url = jkca_runtime_generate_url(settings.jkca_app_base_url.as_str());
            let payload = jkca_payload(request.prompt.as_str(), settings.chat_max_tokens);
            (ChatStage::AwaitingJkca, ChatAction::Post { url, payload })
        },
        InferenceProvider::LmStudio => {
            let url = lm_chat_url(settings.lm_studio_url.as_str());
            let payload = lm_studio_payload(
                request.prompt.as_str(),
                settings.chat_max_tokens,
                adapter_path,
            );
            (ChatStage::AwaitingLmStudio, ChatAction::Post { url, payload })
        },
    }
}

/// Logging the interaction, then answering with `reply`.
fn log_then_answer(request: &ChatRequest, reply: JsonValue) -> (r: (ChatStage, ChatAction))
    ensures
        (r.0.phase(), r.1.step()) == logging(*request, reply.model()),
{
    let entry = chat_log_entry(request.prompt.as_str(), &reply, request.adapter_id);
    (ChatStage::Logging { reply }, ChatAction::StoreLog(entry))
}

/// The chat completion made of a JKCA reply.
pub fn jkca_completion(raw: JsonValue) -> (r: Result<JsonValue, AppError>)
    ensures
        match r {
            Ok(c) => jkca_generated_text(raw.model()) matches Some(g) && c.model()
                == normalized_response(g, "jkca-shared-runtime"@, Some(raw.model())),
            Err(e) => jkca_generated_text(raw.model()) is None && e.status == INTERNAL_SERVER_ERROR
                && e.message@ == "JKCA runtime response did not include generated text"@,
        },
{
    match extract_jkca_generated_text(&raw) {
        Some(generated) => Ok(
            normalize_chat_response(generated.as_str(), "jkca-shared-runtime", Some(raw)),
        ),
        None => Err(
            error_with(INTERNAL_SERVER_ERROR, "JKCA runtime response did not include generated text"),
        ),
    }
}

/// What to do with an inference server's reply.
fn handle_reply(request: &ChatRequest, upstream: Upstream, reply: UpstreamReply) -> (r: (
    ChatStage,
    ChatAction,
))
    ensures
        (r.0.phase(), r.1.step()) == on_reply(*request, upstream, reply),
{
    let lm = match upstream {
        Upstream::LmStudio => true,
        Upstream::Jkca => false,
    };
    match reply {
        UpstreamReply::Failed(f) => {
            let e = if lm {
                map_lmstudio_error(&f)
            } else {
                map_jkca_error(&f)
            };
            fail_with(e)
        },
        UpstreamReply::Answered { status, body } => {
            if !status_is_success(status) {
                let prefix = if lm {
                    "LM Studio API error: "
                } else {
                    "JKCA runtime API error: "
                };
                return fail_with(AppError::new(BAD_GATEWAY, concat2(prefix, body.as_str())));
            }
            match decode_json(body.as_str()) {
                Err(d) => {
                    let prefix = if lm {
                        "Failed to decode LM Studio response: "
                    } else {
                        "Failed to decode JKCA response: "
                    };
                    fail_with(AppError::new(BAD_GATEWAY, concat2(prefix, d.as_str())))
                },
                Ok(j) => {
                    if lm {
                        log_then_answer(request, j)
                    } else {
                        match jkca_completion(j) {
                            Ok(c) => log_then_answer(request, c),
                            Err(e) => fail_with(e),
                        }
                    }
                },
            }
        },
    }
}

/// A chat in progress.
pub struct Chat {
    pub settings: ChatSettings,
    pub request: ChatRequest,
    pub stage: ChatStage,
}

impl Chat {
    /// A chat that has just arrived.
    pub fn new(settings: ChatSettings, request: ChatRequest) -> (c: Chat)
        ensures
            c.settings == settings,
            c.request == request,
            c.stage.phase() == ChatPhase::Received,
    {
        Chat { settings, request, stage: ChatStage::Received }
    }

    /// Whether `event` is an outcome of the work that this chat waits for.
    pub fn expects(&self, event: &ChatEvent) -> (b: bool)
        ensures
            b == accepts(self.stage.phase(), *event),
    {
        match (&self.stage, event) {
            (ChatStage::Received, ChatEvent::Begin) => true,
            (ChatStage::FetchingAdapter { .. }, ChatEvent::AdapterFetched(_)) => true,
            (ChatStage::CheckingAdapter { .. }, ChatEvent::AdapterChecked(_)) => true,
            (ChatStage::AwaitingLmStudio, ChatEvent::Replied(_)) => true,
            (ChatStage::AwaitingJkca, ChatEvent::Replied(_)) => true,
            (ChatStage::Logging { .. }, ChatEvent::Logged { .. }) => true,
            _ => false,
        }
    }

    /// Takes the outcome of the last outside work and gives the chat's next
    /// state and what to do next.
    pub fn step(self, event: ChatEvent) -> (r: (Chat, ChatAction))
        requires
            accepts(self.stage.phase(), event),
        ensures
            r.0.settings == self.settings,
            r.0.request == self.request,
            (r.0.stage.phase(), r.1.step()) == chat_next(
                self.settings,
                self.request,
                self.stage.phase(),
                event,
            ),
    {
        let Chat { settings, request, stage } = self;
        let (next, action) = match stage {
            ChatStage::Received => {
                if is_blank(request.prompt.as_str()) {
                    fail_with(error_with(BAD_REQUEST, "Prompt must not be empty"))
                } else {
                    match request.adapter_id {
                        Some(id) => {
                            if id < 1 {
                                fail_with(error_with(BAD_REQUEST, "Adapter ID must be a positive integer"))
                            } else {
                                (
                                    ChatStage::FetchingAdapter { adapter_id: id },
                                    ChatAction::FetchAdapter { adapter_id: id },
                                )
                            }
                        },
                        None => {
                            let provider = preferred_inference_provider(
                                settings.inference_provider,
                                false,
                            );
                            send_to(&settings, &request, provider, None)
                        },
                    }
                }
            },
            ChatStage::FetchingAdapter { adapter_id } => match event {
                ChatEvent::AdapterFetched(Err(d)) => fail_with(db_error(d.as_str())),
                ChatEvent::AdapterFetched(Ok(None)) => {
                    let id = i64_to_string(adapter_id);
                    fail_with(
                        AppError::new(NOT_FOUND, concat3("LoRA adapter with ID ", id.as_str(), " not found")),
                    )
                },
                ChatEvent::AdapterFetched(Ok(Some(adapter))) => {
                    match resolve_adapter_path(settings.project_root.as_str(), adapter.path.as_str()) {
                        Err(e) => fail_with(e),
                        Ok(path) => {
                            let check = path.clone();
                            (
                                ChatStage::CheckingAdapter { adapter, path },
                                ChatAction::CheckAdapterFiles { path: check },
                            )
                        },
                    }
                },
                _ => vstd::pervasive::unreached(),
            },
            ChatStage::CheckingAdapter { adapter, path } => match event {
                ChatEvent::AdapterChecked(AdapterFiles::Missing) => fail_with(
                    AppError::new(NOT_FOUND, concat2("LoRA adapter file not found at ", path.as_str())),
                ),
                ChatEvent::AdapterChecked(AdapterFiles::Unreadable(d)) => {
                    let mut message = concat3("Failed to inspect adapter directory ", path.as_str(), ": ");
                    message.append(d.as_str());
                    fail_with(AppError::new(INTERNAL_SERVER_ERROR, message))
                },
                ChatEvent::AdapterChecked(AdapterFiles::EmptyDirectory) => fail_with(
                    AppError::new(
                        BAD_REQUEST,
                        concat2("LoRA adapter directory is empty at ", path.as_str()),
                    ),
                ),
                ChatEvent::AdapterChecked(AdapterFiles::Present) => send_to(
                    &settings,
                    &request,
                    InferenceProvider::LmStudio,
                    Some(path.as_str()),
                ),
                _ => vstd::pervasive::unreached(),
            },
            ChatStage::AwaitingLmStudio => match event {
                ChatEvent::Replied(reply) => handle_reply(&request, Upstream::LmStudio, reply),
                _ => vstd::pervasive::unreached(),
            },
            ChatStage::AwaitingJkca => match event {
                ChatEvent::Replied(reply) => handle_reply(&request, Upstream::Jkca, reply),
                _ => vstd::pervasive::unreached(),
            },
            ChatStage::Logging { reply } => (ChatStage::Finished, ChatAction::Respond(reply)),
            ChatStage::Finished => vstd::pervasive::unreached(),
        };
        (Chat { settings, request, stage: next }, action)
    }
}


/// How much outside work a phase can still lead to.
pub open spec fn remaining_work(phase: ChatPhase) -> nat {
    match phase {
        ChatPhase::Received => 5,
        ChatPhase::FetchingAdapter(_) => 4,
        ChatPhase::CheckingAdapter { .. } => 3,
        ChatPhase::AwaitingLmStudio => 2,
        ChatPhase::AwaitingJkca => 2,
        ChatPhase::Logging(_) => 1,
        ChatPhase::Finished => 0,
    }
}

/// Every step of a chat moves it closer to its end: a chat asks for at most
/// five pieces of outside work before it is answered, and a finished chat
/// takes no further events.
pub proof fn law_chat_always_progresses(
    settings: ChatSettings,
    request: ChatRequest,
    phase: ChatPhase,
    event: ChatEvent,
)
    requires
        accepts(phase, event),
    ensures
        remaining_work(chat_next(settings, request, phase, event).0) < remaining_work(phase),
        !accepts(ChatPhase::Finished, event),
{
}

/// A blank prompt is refused with 400 before any outside work is done.
pub proof fn law_blank_prompt_refused(settings: ChatSettings, request: ChatRequest)
    requires
        trim(request.prompt@).len() == 0,
    ensures
        chat_next(settings, request, ChatPhase::Received, ChatEvent::Begin) == failing(
            BAD_REQUEST,
            "Prompt must not be empty"@,
        ),
{
}

/// A chat with an adapter is served by LM Studio whatever the configured
/// provider: it never waits on JKCA, and everything it posts goes to the
/// LM Studio chat endpoint.
pub proof fn law_adapter_chat_goes_to_lm_studio(
    settings: ChatSettings,
    request: ChatRequest,
    phase: ChatPhase,
    event: ChatEvent,
)
    requires
        request.adapter_id is Some,
        phase !is AwaitingJkca,
        accepts(phase, event),
    ensures
        chat_next(settings, request, phase, event).0 !is AwaitingJkca,
        chat_next(settings, request, phase, event).1 matches ChatStep::Post { url, .. } ==> url
            == lm_chat_url_of(settings.lm_studio_url@),
{
}

/// A chat without an adapter and with a non-blank prompt goes straight to
/// the configured provider.
pub proof fn law_base_chat_uses_configured_provider(settings: ChatSettings, request: ChatRequest)
    requires
        request.adapter_id is None,
        trim(request.prompt@).len() > 0,
    ensures
        chat_next(settings, request, ChatPhase::Received, ChatEvent::Begin) == sending(
            settings,
            request,
            settings.inference_provider,
            None,
        ),
{
}

/// A chat is answered only once its log row has been attempted, and the
/// answer does not depend on whether writing that row succeeded.
pub proof fn law_answer_follows_logging(
    settings: ChatSettings,
    request: ChatRequest,
    phase: ChatPhase,
    event: ChatEvent,
)
    requires
        accepts(phase, event),
    ensures
        chat_next(settings, request, phase, event).1 is Respond ==> phase is Logging,
        phase matches ChatPhase::Logging(reply) ==> chat_next(
            settings,
            request,
            phase,
            ChatEvent::Logged { stored: true },
        ) == chat_next(settings, request, phase, ChatEvent::Logged { stored: false }) && chat_next(
            settings,
            request,
            phase,
            event,
        ).1 == ChatStep::Respond(reply),
{
}


/// A logged prompt or reply is never longer than `MAX_LOG_CHARS` characters
/// plus the three-dot marker, and a text that fits is kept whole once
/// trimmed.
pub proof fn law_log_text_is_bounded(value: Seq<char>)
    ensures
        truncated_for_log(value).len() <= MAX_LOG_CHARS + 3,
        trim(value).len() <= MAX_LOG_CHARS ==> truncated_for_log(value) == trim(value),
{
    reveal_strlit("...");
}

/// Cutting a text for the log twice is cutting it once.
pub proof fn law_truncate_for_log_idempotent(value: Seq<char>)
    ensures
        truncated_for_log(truncated_for_log(value)) == truncated_for_log(value),
{
    reveal_strlit("...");
    let t = trim(value);
    lemma_trim_shape(value);
    if t.len() <= MAX_LOG_CHARS {
        lemma_trim_fixed(t);
    } else {
        let r = t.take(MAX_LOG_CHARS as int) + "..."@;
        assert(r[0] == t[0]);
        assert(r.last() == '.');
        lemma_trim_fixed(r);
        assert(r.take(MAX_LOG_CHARS as int) =~= t.take(MAX_LOG_CHARS as int));
    }
}


/// JKCA serves a chat only when no adapter is selected and JKCA is the
/// configured provider.
pub proof fn law_jkca_only_for_configured_base_chat(
    settings: ChatSettings,
    request: ChatRequest,
    phase: ChatPhase,
    event: ChatEvent,
)
    requires
        phase !is AwaitingJkca,
        accepts(phase, event),
        chat_next(settings, request, phase, event).0 is AwaitingJkca,
    ensures
        request.adapter_id is None,
        settings.inference_provider == InferenceProvider::Jkca,
{
}

/// A JKCA reply whose body reads as a document carrying generated text is
/// turned into a chat completion whose text is that generated text, and the
/// client gets that completion.
pub proof fn law_jkca_replies_are_normalized(
    settings: ChatSettings,
    request: ChatRequest,
    status: u16,
    body: String,
    raw: Json,
    generated: Seq<char>,
)
    requires
        is_success_status(status),
        decoded_json(body@) == Ok::<Json, Seq<char>>(raw),
        jkca_generated_text(raw) == Some(generated),
    ensures
        ({
            let event = ChatEvent::Replied(UpstreamReply::Answered { status, body });
            let next = chat_next(settings, request, ChatPhase::AwaitingJkca, event);
            next.0 matches ChatPhase::Logging(reply) && response_text(reply) == Some(generated)
                && chat_next(settings, request, next.0, ChatEvent::Logged { stored: true }).1
                == ChatStep::Respond(reply)
        }),
{
    law_normalized_response_reads_back(generated, "jkca-shared-runtime"@, Some(raw));
}

/// A successful LM Studio reply is answered with the JSON document its body
/// reads as, once the interaction is logged.
pub proof fn law_lm_studio_reply_is_passed_through(
    settings: ChatSettings,
    request: ChatRequest,
    status: u16,
    body: String,
    reply: Json,
)
    requires
        is_success_status(status),
        decoded_json(body@) == Ok::<Json, Seq<char>>(reply),
    ensures
        chat_next(
            settings,
            request,
            ChatPhase::AwaitingLmStudio,
            ChatEvent::Replied(UpstreamReply::Answered { status, body }),
        ) == logging(request, reply),
        chat_next(settings, request, ChatPhase::Logging(reply), ChatEvent::Logged { stored: true }).1
            == ChatStep::Respond(reply),
{
}

/// A chat with a non-blank prompt and an adapter ID of at least 1 looks that
/// adapter up; an ID below 1 is refused with 400 before any lookup.
pub proof fn law_adapter_id_decides_lookup(settings: ChatSettings, request: ChatRequest, id: i64)
    requires
        trim(request.prompt@).len() > 0,
        request.adapter_id == Some(id),
    ensures
        id >= 1 ==> chat_next(settings, request, ChatPhase::Received, ChatEvent::Begin) == (
            ChatPhase::FetchingAdapter(id),
            ChatStep::FetchAdapter(id),
        ),
        id < 1 ==> chat_next(settings, request, ChatPhase::Received, ChatEvent::Begin) == (
            ChatPhase::Finished,
            ChatStep::Fail(400, "Adapter ID must be a positive integer"@),
        ),
{
}

/// What a chat does once its adapter lookup ends: a database error is a 500
/// with the error's text, a missing adapter a 404 naming the ID, an adapter
/// whose path leaves the project root a 400, and any other adapter has its
/// files checked at its path under the project root.
pub proof fn law_adapter_lookup_outcomes(
    settings: ChatSettings,
    request: ChatRequest,
    id: i64,
    adapter: AdapterWithMetadata,
    error: String,
)
    ensures
        chat_next(
            settings,
            request,
            ChatPhase::FetchingAdapter(id),
            ChatEvent::AdapterFetched(Err(error)),
        ) == (ChatPhase::Finished, ChatStep::Fail(500, "Database error occurred: "@ + error@)),
        chat_next(
            settings,
            request,
            ChatPhase::FetchingAdapter(id),
            ChatEvent::AdapterFetched(Ok(None)),
        ) == (
            ChatPhase::Finished,
            ChatStep::Fail(404, "LoRA adapter with ID "@ + int_decimal(id as int) + " not found"@),
        ),
        !escapes_root(adapter.path@) ==> chat_next(
            settings,
            request,
            ChatPhase::FetchingAdapter(id),
            ChatEvent::AdapterFetched(Ok(Some(adapter))),
        ) == ({
            let path = joined_path(settings.project_root@, adapter.path@);
            (
                ChatPhase::CheckingAdapter {
                    adapter_id: adapter.id,
                    adapter_name: adapter.name@,
                    path,
                },
                ChatStep::CheckAdapterFiles(path),
            )
        }),
        escapes_root(adapter.path@) ==> chat_next(
            settings,
            request,
            ChatPhase::FetchingAdapter(id),
            ChatEvent::AdapterFetched(Ok(Some(adapter))),
        ) == (
            ChatPhase::Finished,
            ChatStep::Fail(
                400,
                "Adapter path '"@ + adapter.path@ + "' must stay inside the project root"@,
            ),
        ),
{
}

/// What a chat does once its adapter's files are checked: present files send
/// the prompt to LM Studio's chat endpoint with the adapter's location; a
/// missing location is a 404, an empty directory a 400, an unreadable one a
/// 500, each naming the location.
pub proof fn law_adapter_file_outcomes(
    settings: ChatSettings,
    request: ChatRequest,
    id: i64,
    name: Seq<char>,
    path: Seq<char>,
    error: String,
)
    ensures
        ({
            let phase = ChatPhase::CheckingAdapter { adapter_id: id, adapter_name: name, path };
            &&& chat_next(settings, request, phase, ChatEvent::AdapterChecked(AdapterFiles::Present))
                == (
                ChatPhase::AwaitingLmStudio,
                ChatStep::Post {
                    url: lm_chat_url_of(settings.lm_studio_url@),
                    payload: lm_studio_payload_of(
                        request.prompt@,
                        settings.chat_max_tokens,
                        Some(path),
                    ),
                },
            )
            &&& chat_next(settings, request, phase, ChatEvent::AdapterChecked(AdapterFiles::Missing))
                == (
                ChatPhase::Finished,
                ChatStep::Fail(404, "LoRA adapter file not found at "@ + path),
            )
            &&& chat_next(
                settings,
                request,
                phase,
                ChatEvent::AdapterChecked(AdapterFiles::EmptyDirectory),
            ) == (ChatPhase::Finished, ChatStep::Fail(400, "LoRA adapter directory is empty at "@ + path))
            &&& chat_next(
                settings,
                request,
                phase,
                ChatEvent::AdapterChecked(AdapterFiles::Unreadable(error)),
            ) == (
                ChatPhase::Finished,
                ChatStep::Fail(500, "Failed to inspect adapter directory "@ + path + ": "@ + error@),
            )
        }),
{
}

/// A chat without an adapter and with a non-blank prompt sends the request
/// to the configured provider's endpoint: JKCA's generation endpoint with the
/// JKCA body, or LM Studio's chat endpoint with an LM Studio body that names
/// no adapter.
pub proof fn law_base_chat_request(settings: ChatSettings, request: ChatRequest)
    requires
        request.adapter_id is None,
        trim(request.prompt@).len() > 0,
    ensures
        settings.inference_provider == InferenceProvider::Jkca ==> chat_next(
            settings,
            request,
            ChatPhase::Received,
            ChatEvent::Begin,
        ) == (
            ChatPhase::AwaitingJkca,
            ChatStep::Post {
                url: jkca_url_of(settings.jkca_app_base_url@),
                payload: jkca_payload_of(request.prompt@, settings.chat_max_tokens),
            },
        ),
        settings.inference_provider == InferenceProvider::LmStudio ==> chat_next(
            settings,
            request,
            ChatPhase::Received,
            ChatEvent::Begin,
        ) == (
            ChatPhase::AwaitingLmStudio,
            ChatStep::Post {
                url: lm_chat_url_of(settings.lm_studio_url@),
                payload: lm_studio_payload_of(request.prompt@, settings.chat_max_tokens, None),
            },
        ),
{
}

/// An upstream reply with a status outside 2xx ends the chat with 502 and
/// the reply's body; one that does not read as JSON ends it with 502 and the
/// decoding error.
pub proof fn law_upstream_errors(
    settings: ChatSettings,
    request: ChatRequest,
    status: u16,
    body: String,
)
    ensures
        !(200 <= status <= 299) ==> chat_next(
            settings,
            request,
            ChatPhase::AwaitingLmStudio,
            ChatEvent::Replied(UpstreamReply::Answered { status, body }),
        ) == (ChatPhase::Finished, ChatStep::Fail(502, "LM Studio API error: "@ + body@)),
        !(200 <= status <= 299) ==> chat_next(
            settings,
            request,
            ChatPhase::AwaitingJkca,
            ChatEvent::Replied(UpstreamReply::Answered { status, body }),
        ) == (ChatPhase::Finished, ChatStep::Fail(502, "JKCA runtime API error: "@ + body@)),
        decoded_json(body@) matches Err(d) ==> (200 <= status <= 299 ==> chat_next(
            settings,
            request,
            ChatPhase::AwaitingLmStudio,
            ChatEvent::Replied(UpstreamReply::Answered { status, body }),
        ) == (
            ChatPhase::Finished,
            ChatStep::Fail(502, "Failed to decode LM Studio response: "@ + d),
        )),
        decoded_json(body@) matches Err(d) ==> (200 <= status <= 299 ==> chat_next(
            settings,
            request,
            ChatPhase::AwaitingJkca,
            ChatEvent::Replied(UpstreamReply::Answered { status, body }),
        ) == (ChatPhase::Finished, ChatStep::Fail(502, "Failed to decode JKCA response: "@ + d))),
{
}

/// The log row of a chat keeps the prompt and the reply's text as the log
/// keeps texts, counts their words, and records the adapter ID.
pub proof fn law_chat_log_row(prompt: Seq<char>, reply: Json, adapter_id: Option<i64>, text: Seq<char>)
    requires
        response_text(reply) == Some(text),
    ensures
        chat_log_record(prompt, reply, adapter_id) == (LogRecord {
            prompt: truncated_for_log(prompt),
            response: truncated_for_log(text),
            tokens_in: word_count(prompt) as i64,
            tokens_out: word_count(text) as i64,
            adapter_id,
        }),
{
}

/// A text longer than the log's limit once trimmed is kept as its first
/// `MAX_LOG_CHARS` characters and `...`; a shorter one is kept whole.
pub proof fn law_truncated_log_text(value: Seq<char>)
    ensures
        trim(value).len() > 2000 ==> truncated_for_log(value) == trim(value).take(2000) + "..."@,
        trim(value).len() <= 2000 ==> truncated_for_log(value) == trim(value),
        truncated_for_log(value).take(
            if trim(value).len() <= 2000 {
                trim(value).len() as int
            } else {
                2000
            },
        ) == trim(value).take(
            if trim(value).len() <= 2000 {
                trim(value).len() as int
            } else {
                2000
            },
        ),
{
    let t = trim(value);
    if t.len() > 2000 {
        assert((t.take(2000) + "..."@).take(2000) =~= t.take(2000));
    } else {
        assert(t.take(t.len() as int) =~= t);
    }
}


/// A request that got no reply ends the chat with the answer for that kind
/// of failure, for either server.
pub proof fn law_failed_request_answer(settings: ChatSettings, request: ChatRequest, f: HttpFailure)
    ensures
        chat_next(
            settings,
            request,
            ChatPhase::AwaitingLmStudio,
            ChatEvent::Replied(UpstreamReply::Failed(f)),
        ) == failing(
            http_failure_error(Upstream::LmStudio, f).0,
            http_failure_error(Upstream::LmStudio, f).1,
        ),
        chat_next(
            settings,
            request,
            ChatPhase::AwaitingJkca,
            ChatEvent::Replied(UpstreamReply::Failed(f)),
        ) == failing(http_failure_error(Upstream::Jkca, f).0, http_failure_error(Upstream::Jkca, f).1),
{
}

/// A JKCA reply that reads as JSON but carries no generated text ends the
/// chat with 500.
pub proof fn law_jkca_reply_without_text(
    settings: ChatSettings,
    request: ChatRequest,
    status: u16,
    body: String,
    raw: Json,
)
    requires
        200 <= status <= 299,
        decoded_json(body@) == Ok::<Json, Seq<char>>(raw),
        jkca_generated_text(raw) is None,
    ensures
        chat_next(
            settings,
            request,
            ChatPhase::AwaitingJkca,
            ChatEvent::Replied(UpstreamReply::Answered { status, body }),
        ) == (
            ChatPhase::Finished,
            ChatStep::Fail(500, "JKCA runtime response did not include generated text"@),
        ),
{
}

/// A reply with no text of either shape is logged as a placeholder with no
/// output words; one with only a JKCA text is logged with that text.
pub proof fn law_chat_log_row_other_replies(prompt: Seq<char>, reply: Json, adapter_id: Option<i64>)
    requires
        response_text(reply) is None,
    ensures
        jkca_generated_text(reply) is None ==> chat_log_record(prompt, reply, adapter_id).response
            == truncated_for_log("[non-text chat response]"@) && chat_log_record(
            prompt,
            reply,
            adapter_id,
        ).tokens_out == 0,
        jkca_generated_text(reply) matches Some(g) ==> chat_log_record(
            prompt,
            reply,
            adapter_id,
        ).response == truncated_for_log(g) && chat_log_record(prompt, reply, adapter_id).tokens_out
            == word_count(g) as i64,
        chat_log_record(prompt, reply, adapter_id).tokens_in == word_count(prompt) as i64,
        chat_log_record(prompt, reply, adapter_id).prompt == truncated_for_log(prompt),
        chat_log_record(prompt, reply, adapter_id).adapter_id == adapter_id,
{
}

} // verus!

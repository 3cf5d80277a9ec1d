//! Bridges shell `#` generation and automatic quick-fix requests to the
//! assistant.
//!
//! Bundled Lua owns the existing per-pane spinner, polling, parsing, and command
//! safety UX. It writes a bounded request file and emits an internal event;
//! this module reads the request, and decides what is written for the Lua
//! poller once the assistant has answered.
use crate::json::{
    JsonValue, JsonView, add_field, add_value, field_of, field_views, items_of, json_document,
    json_string, json_views, no_fields, no_values, parse_json, text_of, unsigned_of,
};
use crate::paths::{join_path, path_join};
use crate::text::{
    chars_of, concat3, contains_string, is_digit, opt_view, same, split_char, split_on, trim,
    trimmed, views,
};
use vstd::prelude::*;
use vstd::string::*;

verus! {

pub const MAX_REQUEST_BYTES: u64 = 131_072;

/// The longest job id, in characters.
pub const MAX_JOB_ID_LEN: usize = 48;

// ---------------------------------------------------------------------------
// Job files
// ---------------------------------------------------------------------------

#[derive(Debug)]
pub struct JobPaths {
    pub request: String,
    pub response: String,
    pub stderr: String,
    pub status: String,
}

pub open spec fn is_number(part: Seq<char>) -> bool {
    part.len() > 0 && forall|i: int| 0 <= i < part.len() ==> is_digit(#[trigger] part[i])
}

/// A job id is two numbers with a dash between them, and not too long.
pub open spec fn valid_job_id(id: Seq<char>) -> bool {
    let parts = split_on(id, '-');
    &&& parts.len() == 2
    &&& is_number(parts[0])
    &&& is_number(parts[1])
    &&& id.len() <= MAX_JOB_ID_LEN
}

fn is_all_digits(part: &str) -> (r: bool)
    ensures
        r == is_number(part@),
{
    let cs = chars_of(part);
    if cs.len() == 0 {
        return false;
    }
    let mut i: usize = 0;
    while i < cs.len()
        invariant
            i <= cs.len(),
            cs@ == part@,
            forall|k: int| 0 <= k < i ==> is_digit(#[trigger] part@[k]),
        decreases cs.len() - i,
    {
        if !('0' <= cs[i] && cs[i] <= '9') {
            assert(!is_digit(part@[i as int]));
            return false;
        }
        i += 1;
    }
    true
}

/// Whether a text is a job id.
pub fn is_valid_job_id(job_id: &str) -> (r: bool)
    ensures
        r == valid_job_id(job_id@),
{
    let parts = split_char(job_id, '-');
    let ghost all = split_on(job_id@, '-');
    assert(all == views(parts@));
    if parts.len() != 2 {
        return false;
    }
    assert(all[0] == parts@[0]@);
    assert(all[1] == parts@[1]@);
    is_all_digits(parts[0].as_str()) && is_all_digits(parts[1].as_str()) && chars_of(job_id).len()
        <= MAX_JOB_ID_LEN
}

/// A file of a job, by its extension.
pub open spec fn job_file(dir: Seq<char>, id: Seq<char>, extension: Seq<char>) -> Seq<char> {
    path_join(dir, "ai_fix_"@ + id + extension)
}

fn make_job_file(jobs_dir: &str, job_id: &str, extension: &str) -> (r: String)
    ensures
        r@ == job_file(jobs_dir@, job_id@, extension@),
{
    join_path(jobs_dir, concat3("ai_fix_", job_id, extension).as_str())
}

/// The files of a job; nothing where the id is none.
pub fn job_paths(jobs_dir: &str, job_id: &str) -> (r: Option<JobPaths>)
    ensures
        r is Some == valid_job_id(job_id@),
        r matches Some(p) ==> {
            &&& p.request@ == job_file(jobs_dir@, job_id@, ".request.json"@)
            &&& p.response@ == job_file(jobs_dir@, job_id@, ".response.json"@)
            &&& p.stderr@ == job_file(jobs_dir@, job_id@, ".stderr.log"@)
            &&& p.status@ == job_file(jobs_dir@, job_id@, ".status"@)
        },
{
    if !is_valid_job_id(job_id) {
        return None;
    }
    Some(
        JobPaths {
            request: make_job_file(jobs_dir, job_id, ".request.json"),
            response: make_job_file(jobs_dir, job_id, ".response.json"),
            stderr: make_job_file(jobs_dir, job_id, ".stderr.log"),
            status: make_job_file(jobs_dir, job_id, ".status"),
        },
    )
}

proof fn lemma_split_chars(s: Seq<char>, c: char, k: int)
    requires
        0 <= k < s.len(),
        s[k] != c,
    ensures
        exists|i: int|
            0 <= i < split_on(s, c).len() && (#[trigger] split_on(s, c)[i]).contains(s[k]),
    decreases s.len(),
{
    let rest = s.drop_last();
    let before = split_on(rest, c);
    let after = split_on(s, c);
    crate::text::lemma_split_on_nonempty(rest, c);
    if k < rest.len() {
        lemma_split_chars(rest, c, k);
        let i = choose|i: int| 0 <= i < before.len() && (#[trigger] before[i]).contains(rest[k]);
        if s.last() != c && i == before.len() - 1 {
            let longer = before.last().push(s.last());
            let m = choose|m: int| 0 <= m < before[i].len() && before[i][m] == rest[k];
            assert(longer[m] == s[k]);
            assert(after[i] == longer);
            assert(after[i].contains(s[k]));
        } else {
            assert(after[i] == before[i]);
            assert(after[i].contains(s[k]));
        }
    } else {
        let longer = before.last().push(s.last());
        assert(longer[longer.len() - 1] == s[k]);
        assert(after[before.len() - 1] == longer);
        assert(after[before.len() - 1].contains(s[k]));
    }
}

/// A job id holds digits and a dash only. So it holds neither a separator nor a
/// dot, and the files of a job lie in the jobs directory itself.
pub proof fn job_ids_hold_no_path(id: Seq<char>, k: int)
    requires
        valid_job_id(id),
        0 <= k < id.len(),
    ensures
        is_digit(id[k]) || id[k] == '-',
        id[k] != '/' && id[k] != '.',
{
    if id[k] != '-' {
        lemma_split_chars(id, '-', k);
        let parts = split_on(id, '-');
        let i = choose|i: int| 0 <= i < parts.len() && (#[trigger] parts[i]).contains(id[k]);
        let m = choose|m: int| 0 <= m < parts[i].len() && parts[i][m] == id[k];
        assert(is_number(parts[i]));
        assert(is_digit(parts[i][m]));
    }
}

// ---------------------------------------------------------------------------
// Claims
// ---------------------------------------------------------------------------

/// Why a job is not started.
#[derive(Clone, Copy, Debug, PartialEq, Eq, Structural)]
pub enum ClaimError {
    InvalidId,
    RequestMissing,
    NotRegular,
    AlreadyComplete,
    AlreadyRunning,
}

impl ClaimError {
    pub fn message(&self) -> (r: &'static str)
        ensures
            r@ == (match *self {
                ClaimError::InvalidId => "invalid inline AI job id"@,
                ClaimError::RequestMissing => "stat inline AI request"@,
                ClaimError::NotRegular => "inline AI request is not a regular file"@,
                ClaimError::AlreadyComplete => "inline AI job is already complete"@,
                ClaimError::AlreadyRunning => "inline AI job is already running"@,
            }),
    {
        match *self {
            ClaimError::InvalidId => "invalid inline AI job id",
            ClaimError::RequestMissing => "stat inline AI request",
            ClaimError::NotRegular => "inline AI request is not a regular file",
            ClaimError::AlreadyComplete => "inline AI job is already complete",
            ClaimError::AlreadyRunning => "inline AI job is already running",
        }
    }
}

/// The jobs that are running. No job runs twice at a time.
#[derive(Debug)]
pub struct InFlightJobs {
    pub ids: Vec<String>,
}

impl InFlightJobs {
    pub open spec fn wf(self) -> bool {
        views(self.ids@).no_duplicates()
    }

    /// Whether a job is running.
    pub open spec fn runs(self, id: Seq<char>) -> bool {
        views(self.ids@).contains(id)
    }

    pub fn new() -> (r: InFlightJobs)
        ensures
            r.wf(),
            forall|id: Seq<char>| !r.runs(id),
    {
        let r = InFlightJobs { ids: Vec::new() };
        assert(views(r.ids@) =~= seq![]);
        r
    }

    /// Marks a job as running; false where it is already.
    pub fn claim(&mut self, job_id: &str) -> (r: bool)
        requires
            old(self).wf(),
        ensures
            final(self).wf(),
            r == !old(self).runs(job_id@),
            final(self).runs(job_id@),
            forall|id: Seq<char>|
                id != job_id@ ==> final(self).runs(id) == #[trigger] old(self).runs(id),
            !r ==> final(self).ids == old(self).ids,
    {
        if contains_string(&self.ids, job_id) {
            return false;
        }
        let ghost before = views(self.ids@);
        self.ids.push(job_id.to_owned());
        let ghost after = views(self.ids@);
        proof {
            assert(after =~= before.push(job_id@));
            assert(after[before.len() as int] == job_id@);
            assert forall|id: Seq<char>| id != job_id@ implies after.contains(id)
                == #[trigger] before.contains(id) by {
                if before.contains(id) {
                    let k = choose|k: int| 0 <= k < before.len() && before[k] == id;
                    assert(after[k] == id);
                }
            }
        }
        true
    }

    /// Marks a job as done.
    pub fn release(&mut self, job_id: &str)
        requires
            old(self).wf(),
        ensures
            final(self).wf(),
            !final(self).runs(job_id@),
            forall|id: Seq<char>|
                id != job_id@ ==> final(self).runs(id) == #[trigger] old(self).runs(id),
    {
        let ghost before = views(self.ids@);
        let mut i: usize = 0;
        while i < self.ids.len()
            invariant
                i <= self.ids.len(),
                self.ids == old(self).ids,
                before == views(self.ids@),
                before == views(old(self).ids@),
                before.no_duplicates(),
                forall|k: int| 0 <= k < i ==> #[trigger] before[k] != job_id@,
            decreases self.ids.len() - i,
        {
            assert(before[i as int] == self.ids@[i as int]@);
            if same(self.ids[i].as_str(), job_id) {
                self.ids.remove(i);
                let ghost after = views(self.ids@);
                proof {
                    assert(after =~= before.remove(i as int));
                    assert forall|a: int, b: int| 0 <= a < b < after.len() implies after[a]
                        != after[b] by {
                        let x = if a < i {
                            a
                        } else {
                            a + 1
                        };
                        let y = if b < i {
                            b
                        } else {
                            b + 1
                        };
                        assert(after[a] == before[x] && after[b] == before[y]);
                    }
                    if after.contains(job_id@) {
                        let k = choose|k: int| 0 <= k < after.len() && after[k] == job_id@;
                        let x = if k < i {
                            k
                        } else {
                            k + 1
                        };
                        assert(before[x] == before[i as int]);
                    }
                    assert forall|id: Seq<char>| id != job_id@ implies after.contains(id)
                        == #[trigger] before.contains(id) by {
                        if before.contains(id) {
                            let k = choose|k: int| 0 <= k < before.len() && before[k] == id;
                            if k < i {
                                assert(after[k] == id);
                            } else {
                                assert(after[k - 1] == id);
                            }
                        }
                        if after.contains(id) {
                            let k = choose|k: int| 0 <= k < after.len() && after[k] == id;
                            if k < i {
                                assert(before[k] == id);
                            } else {
                                assert(before[k + 1] == id);
                            }
                        }
                    }
                }
                return;
            }
            i += 1;
        }
    }

    /// Claims a job whose request waits: it has to be a regular file, and the
    /// job not to be complete or running. `is_regular` says whether the request
    /// is a regular file, where there is one.
    pub fn claim_job(
        &mut self,
        job_id: &str,
        is_regular: Option<bool>,
        status_exists: bool,
    ) -> (r: Result<(), ClaimError>)
        requires
            old(self).wf(),
        ensures
            final(self).wf(),
            r == (if !valid_job_id(job_id@) {
                Err(ClaimError::InvalidId)
            } else if is_regular is None {
                Err(ClaimError::RequestMissing)
            } else if is_regular == Some(false) {
                Err(ClaimError::NotRegular)
            } else if status_exists {
                Err(ClaimError::AlreadyComplete)
            } else if old(self).runs(job_id@) {
                Err(ClaimError::AlreadyRunning)
            } else {
                Ok(())
            }),
            r is Err ==> final(self).ids == old(self).ids,
            r is Ok ==> final(self).runs(job_id@),
            forall|id: Seq<char>|
                id != job_id@ ==> final(self).runs(id) == #[trigger] old(self).runs(id),
    {
        if !is_valid_job_id(job_id) {
            return Err(ClaimError::InvalidId);
        }
        match is_regular {
            None => {
                return Err(ClaimError::RequestMissing);
            },
            Some(regular) => {
                if !regular {
                    return Err(ClaimError::NotRegular);
                }
            },
        }
        if status_exists {
            return Err(ClaimError::AlreadyComplete);
        }
        if self.claim(job_id) {
            Ok(())
        } else {
            Err(ClaimError::AlreadyRunning)
        }
    }
}

// ---------------------------------------------------------------------------
// Requests
// ---------------------------------------------------------------------------

/// A request, ready for the assistant.
#[derive(Debug)]
pub struct InlineRequest {
    pub messages: Vec<JsonValue>,
    pub timeout_secs: u64,
}

/// Why a request is not read.
#[derive(Clone, Copy, Debug, PartialEq, Eq, Structural)]
pub enum RequestError {
    NotJson,
    MissingMessages,
    InvalidMessage,
}

pub open spec fn valid_message(message: JsonView) -> bool {
    message is Object && text_of(field_of(message, "role"@)) is Some
}

pub open spec fn all_valid(messages: Seq<JsonView>) -> bool {
    forall|i: int| 0 <= i < messages.len() ==> valid_message(#[trigger] messages[i])
}

/// The seconds that a request may take: half a minute by default, at least one
/// second and at most ten minutes.
pub open spec fn timeout_of(value: Option<u64>) -> u64 {
    match value {
        None => 30,
        Some(n) => if n < 1 {
            1
        } else if n > 600 {
            600
        } else {
            n
        },
    }
}

/// The request that a payload holds.
pub open spec fn request_of(payload: JsonView) -> Result<(Seq<JsonView>, u64), RequestError> {
    match items_of(field_of(payload, "messages"@)) {
        None => Err(RequestError::MissingMessages),
        Some(messages) => if messages.len() == 0 {
            Err(RequestError::MissingMessages)
        } else if !all_valid(messages) {
            Err(RequestError::InvalidMessage)
        } else {
            Ok((messages, timeout_of(unsigned_of(field_of(payload, "timeout_secs"@)))))
        },
    }
}

pub open spec fn request_outcome(r: Result<InlineRequest, RequestError>) -> Result<
    (Seq<JsonView>, u64),
    RequestError,
> {
    match r {
        Ok(q) => Ok((json_views(q.messages@), q.timeout_secs)),
        Err(e) => Err(e),
    }
}

fn is_valid_message(message: &JsonValue) -> (r: bool)
    ensures
        r == valid_message(message@),
{
    match message {
        JsonValue::Object(_) => match message.get_str("role") {
            Some(_) => true,
            None => false,
        },
        _ => false,
    }
}

/// Reads the request that a payload holds.
pub fn read_payload(payload: &JsonValue) -> (r: Result<InlineRequest, RequestError>)
    ensures
        request_outcome(r) == request_of(payload@),
{
    let items = match payload.get_array("messages") {
        Some(items) => items,
        None => {
            return Err(RequestError::MissingMessages);
        },
    };
    let ghost all = json_views(items@);
    assert(all.len() == items@.len());
    if items.len() == 0 {
        return Err(RequestError::MissingMessages);
    }
    let mut messages = no_values();
    let mut i: usize = 0;
    assert(json_views(messages@) =~= all.take(0));
    while i < items.len()
        invariant
            i <= items.len(),
            all == json_views(items@),
            items_of(field_of(payload@, "messages"@)) == Some(all),
            all.len() > 0,
            json_views(messages@) == all.take(i as int),
            forall|k: int| 0 <= k < i ==> valid_message(#[trigger] all[k]),
        decreases items.len() - i,
    {
        assert(all[i as int] == items@[i as int]@);
        if !is_valid_message(&items[i]) {
            return Err(RequestError::InvalidMessage);
        }
        add_value(&mut messages, items[i].duplicate());
        i += 1;
        assert(json_views(messages@) =~= all.take(i as int));
    }
    assert(all.take(i as int) =~= all);
    let timeout_secs: u64 = match payload.get_u64("timeout_secs") {
        None => 30,
        Some(n) => if n < 1 {
            1
        } else if n > 600 {
            600
        } else {
            n
        },
    };
    Ok(InlineRequest { messages, timeout_secs })
}

/// Reads a request from its text.
pub fn parse_request(raw: &str) -> (r: Result<InlineRequest, RequestError>)
    ensures
        request_outcome(r) == (match json_document(raw@) {
            None => Err(RequestError::NotJson),
            Some(payload) => request_of(payload),
        }),
{
    match parse_json(raw) {
        None => Err(RequestError::NotJson),
        Some(payload) => read_payload(&payload),
    }
}

/// The text of a request file, where it is not too large and is text at all.
pub fn admit_request(len: u64, text: Option<String>) -> (r: Option<String>)
    ensures
        opt_view(r) == if len > MAX_REQUEST_BYTES {
            None
        } else {
            opt_view(text)
        },
{
    if len > MAX_REQUEST_BYTES {
        None
    } else {
        text
    }
}

/// What is done with a request file: the assistant is asked, or the job fails.
pub fn plan_job(raw: Option<&str>) -> (r: Result<InlineRequest, CompletionOutcome>)
    ensures
        match raw {
            None => r matches Err(o) && o@ == OutcomeView::Failed("invalid inline AI request"@),
            Some(text) => match json_document(text@) {
                None => r matches Err(o) && o@ == OutcomeView::Failed(
                    "invalid inline AI request"@,
                ),
                Some(payload) => match request_of(payload) {
                    Err(_) => r matches Err(o) && o@ == OutcomeView::Failed(
                        "invalid inline AI request"@,
                    ),
                    Ok((messages, timeout)) => r matches Ok(q) && json_views(q.messages@)
                        == messages && q.timeout_secs == timeout,
                },
            },
        },
{
    match raw {
        None => Err(CompletionOutcome::Failed("invalid inline AI request".to_owned())),
        Some(text) => match parse_request(text) {
            Ok(request) => Ok(request),
            Err(_) => Err(CompletionOutcome::Failed("invalid inline AI request".to_owned())),
        },
    }
}

// ---------------------------------------------------------------------------
// Completion
// ---------------------------------------------------------------------------

#[derive(Debug)]
pub enum CompletionError {
    NotConfigured,
    Failed(&'static str),
}

#[derive(Debug)]
pub enum CompletionOutcome {
    Success(String),
    NotConfigured,
    Failed(String),
}

pub enum OutcomeView {
    Success(Seq<char>),
    NotConfigured,
    Failed(Seq<char>),
}

impl View for CompletionOutcome {
    type V = OutcomeView;

    open spec fn view(&self) -> OutcomeView {
        match *self {
            CompletionOutcome::Success(s) => OutcomeView::Success(s@),
            CompletionOutcome::NotConfigured => OutcomeView::NotConfigured,
            CompletionOutcome::Failed(s) => OutcomeView::Failed(s@),
        }
    }
}

/// What an unreadable configuration means: without a file the assistant is not
/// set up, with one it failed.
pub fn classify_config_load_error(config_file_exists: bool) -> (r: CompletionError)
    ensures
        match r {
            CompletionError::NotConfigured => !config_file_exists,
            CompletionError::Failed(m) => config_file_exists && m@
                == "assistant configuration could not be loaded"@,
        },
{
    if config_file_exists {
        CompletionError::Failed("assistant configuration could not be loaded")
    } else {
        CompletionError::NotConfigured
    }
}

/// Whether the assistant can sign in: by a login of its own, or by a key.
pub fn auth_is_configured(auth_type: &str, api_key: &str) -> (r: bool)
    ensures
        r == (auth_type@ == "codex"@ || auth_type@ == "copilot"@ || trimmed(api_key@).len() > 0),
{
    same(auth_type, "codex") || same(auth_type, "copilot") || !trim(api_key).as_str().is_empty()
}

/// The model that answers: the fast one, where there is one.
pub fn completion_model(fast_model: Option<&str>, chat_model: &str) -> (r: String)
    ensures
        r@ == (match fast_model {
            Some(m) => m@,
            None => chat_model@,
        }),
{
    match fast_model {
        Some(m) => m.to_owned(),
        None => chat_model.to_owned(),
    }
}

/// What the assistant's configuration says about a completion.
#[derive(Debug)]
pub struct CompletionConfig {
    pub auth_type: String,
    pub api_key: String,
    pub fast_model: Option<String>,
    pub chat_model: String,
}

/// Whether a completion can be asked for, and of which model. `loaded` is the
/// configuration, where it could be read.
pub fn plan_completion(loaded: Option<&CompletionConfig>, config_file_exists: bool) -> (r: Result<
    String,
    CompletionError,
>)
    ensures
        match loaded {
            None => if config_file_exists {
                r matches Err(CompletionError::Failed(m)) && m@
                    == "assistant configuration could not be loaded"@
            } else {
                r == Err::<String, CompletionError>(CompletionError::NotConfigured)
            },
            Some(c) => if c.auth_type@ == "codex"@ || c.auth_type@ == "copilot"@ || trimmed(
                c.api_key@,
            ).len() > 0 {
                r matches Ok(model) && model@ == (match c.fast_model {
                    Some(m) => m@,
                    None => c.chat_model@,
                })
            } else {
                r == Err::<String, CompletionError>(CompletionError::NotConfigured)
            },
        },
{
    match loaded {
        None => Err(classify_config_load_error(config_file_exists)),
        Some(c) => {
            if !auth_is_configured(c.auth_type.as_str(), c.api_key.as_str()) {
                return Err(CompletionError::NotConfigured);
            }
            let fast = match &c.fast_model {
                Some(m) => Some(m.as_str()),
                None => None,
            };
            Ok(completion_model(fast, c.chat_model.as_str()))
        },
    }
}

/// What a completion that failed on the way counts as, whatever the reason.
pub fn request_failed() -> (r: CompletionError)
    ensures
        r matches CompletionError::Failed(m) && m@ == "assistant request failed"@,
{
    CompletionError::Failed("assistant request failed")
}

/// How a completion counts. The text of a failure is fixed beforehand, so that
/// nothing of the provider's answer reaches the job files.
pub fn conclude(completion: Result<String, CompletionError>) -> (r: CompletionOutcome)
    ensures
        r@ == (match completion {
            Ok(content) => OutcomeView::Success(content@),
            Err(CompletionError::NotConfigured) => OutcomeView::NotConfigured,
            Err(CompletionError::Failed(m)) => OutcomeView::Failed(m@),
        }),
{
    match completion {
        Ok(content) => CompletionOutcome::Success(content),
        Err(CompletionError::NotConfigured) => CompletionOutcome::NotConfigured,
        Err(CompletionError::Failed(message)) => CompletionOutcome::Failed(message.to_owned()),
    }
}

/// What is written to a file.
#[derive(Debug)]
pub enum FileContent {
    Text(String),
    Json(JsonValue),
}

#[derive(Debug)]
pub struct FileWrite {
    pub path: String,
    pub content: FileContent,
}

pub enum ContentView {
    Text(Seq<char>),
    Json(JsonView),
}

impl View for FileWrite {
    type V = (Seq<char>, ContentView);

    open spec fn view(&self) -> (Seq<char>, ContentView) {
        (
            self.path@,
            match self.content {
                FileContent::Text(t) => ContentView::Text(t@),
                FileContent::Json(v) => ContentView::Json(v@),
            },
        )
    }
}

pub open spec fn write_views(list: Seq<FileWrite>) -> Seq<(Seq<char>, ContentView)> {
    list.map_values(|w: FileWrite| w@)
}

/// The response, in the shape that the Lua poller reads.
pub open spec fn response_json(content: Seq<char>) -> JsonView {
    JsonView::Object(
        seq![
            (
                "choices"@,
                JsonView::Array(
                    seq![
                        JsonView::Object(
                            seq![
                                (
                                    "message"@,
                                    JsonView::Object(
                                        seq![
                                            ("role"@, JsonView::Text("assistant"@)),
                                            ("content"@, JsonView::Text(content)),
                                        ],
                                    ),
                                ),
                            ],
                        ),
                    ],
                ),
            ),
        ],
    )
}

/// The files that an outcome leaves behind, in the order in which they are
/// written: the status, which ends the job, comes last.
pub open spec fn outcome_writes(paths: JobPaths, outcome: OutcomeView) -> Seq<
    (Seq<char>, ContentView),
> {
    match outcome {
        OutcomeView::Success(content) => seq![
            (paths.response@, ContentView::Json(response_json(content))),
            (paths.status@, ContentView::Text("0"@)),
        ],
        OutcomeView::NotConfigured => seq![(paths.status@, ContentView::Text("78"@))],
        OutcomeView::Failed(message) => seq![
            (paths.stderr@, ContentView::Text(message)),
            (paths.status@, ContentView::Text("1"@)),
        ],
    }
}

fn add_write(list: &mut Vec<FileWrite>, path: &str, content: FileContent)
    ensures
        write_views(final(list)@) == write_views(old(list)@).push(
            (FileWrite { path: final(list)@.last().path, content })@,
        ),
        final(list)@.last().path@ == path@,
{
    list.push(FileWrite { path: path.to_owned(), content });
    assert(write_views(list@) =~= write_views(old(list)@).push(list@.last()@));
}

fn make_response(content: &str) -> (r: JsonValue)
    ensures
        r@ == response_json(content@),
{
    let mut message = no_fields();
    add_field(&mut message, "role", json_string("assistant"));
    add_field(&mut message, "content", json_string(content));
    let mut choice = no_fields();
    add_field(&mut choice, "message", JsonValue::Object(message));
    let mut choices = no_values();
    add_value(&mut choices, JsonValue::Object(choice));
    let mut top = no_fields();
    add_field(&mut top, "choices", JsonValue::Array(choices));
    assert(field_views(message@) =~= seq![
        ("role"@, JsonView::Text("assistant"@)),
        ("content"@, JsonView::Text(content@)),
    ]);
    assert(field_views(choice@) =~= seq![("message"@, JsonView::Object(field_views(message@)))]);
    assert(json_views(choices@) =~= seq![JsonView::Object(field_views(choice@))]);
    assert(field_views(top@) =~= seq![("choices"@, JsonView::Array(json_views(choices@)))]);
    JsonValue::Object(top)
}

/// The files that an outcome leaves behind.
pub fn persist_outcome(paths: &JobPaths, outcome: CompletionOutcome) -> (r: Vec<FileWrite>)
    ensures
        write_views(r@) == outcome_writes(*paths, outcome@),
{
    let mut list: Vec<FileWrite> = Vec::new();
    assert(write_views(list@) =~= Seq::empty());
    match outcome {
        CompletionOutcome::Success(content) => {
            let response = make_response(content.as_str());
            add_write(&mut list, paths.response.as_str(), FileContent::Json(response));
            add_write(&mut list, paths.status.as_str(), FileContent::Text("0".to_owned()));
        },
        CompletionOutcome::NotConfigured => {
            add_write(&mut list, paths.status.as_str(), FileContent::Text("78".to_owned()));
        },
        CompletionOutcome::Failed(message) => {
            add_write(&mut list, paths.stderr.as_str(), FileContent::Text(message));
            add_write(&mut list, paths.status.as_str(), FileContent::Text("1".to_owned()));
        },
    }
    assert(write_views(list@) =~= outcome_writes(*paths, outcome@));
    list
}

/// Every outcome ends with its status file, and writes it once.
pub proof fn status_is_written_last(paths: JobPaths, outcome: OutcomeView)
    ensures
        outcome_writes(paths, outcome).len() > 0,
        outcome_writes(paths, outcome).last().0 == paths.status@,
        outcome is Success <==> outcome_writes(paths, outcome).last().1 == ContentView::Text("0"@),
        paths.response@ != paths.status@ && paths.stderr@ != paths.status@ ==> forall|i: int|
            0 <= i < outcome_writes(paths, outcome).len() - 1 ==> (#[trigger] outcome_writes(
                paths,
                outcome,
            )[i]).0 != paths.status@,
{
    reveal_strlit("0");
    reveal_strlit("78");
    reveal_strlit("1");
    assert("0"@[0] == '0' && "78"@[0] == '7' && "1"@[0] == '1');
}

} // verus!

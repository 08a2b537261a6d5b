//! What the HTTP service and its client exchange: the request bodies, the
//! response envelope, the status and message the service answers each
//! outcome with, and how the client reads an answer back.

use vstd::prelude::*;
use crate::distilled::PlanResponse;
use crate::index::{int_parse_message, parse_u8, parse_u8_spec, IntParseError};
use crate::lease::{lease_value, Lease};
use crate::plans::{plan_error_text, PlanError};
use crate::text::{contains_text, decimal, push_decimal};

verus! {

/// Where the client finds the service.
pub struct ClientConfig {
    pub base_url: String,
}

impl Default for ClientConfig {
    /// The service on the local machine, port 3000.
    fn default() -> (c: Self)
        ensures
            c.base_url@ == "http://localhost:3000"@,
    {
        ClientConfig { base_url: String::from_str("http://localhost:3000") }
    }
}

/// Request to add a new task.
pub struct AddTaskRequest {
    pub description: String,
    pub level_index: usize,
    pub notes: Option<String>,
}

/// Request to move to a specific task.
pub struct MoveToRequest {
    pub index: Vec<usize>,
}

/// Request to change a task's abstraction level.
pub struct ChangeLevelRequest {
    pub index: Vec<usize>,
    pub level_index: usize,
}

/// Request to complete a task, possibly with a lease.
pub struct CompleteTaskRequest {
    pub index: Vec<usize>,
    pub lease: Option<u8>,
    pub force: bool,
    pub summary: Option<String>,
}

/// Request to generate a lease for a task.
pub struct LeaseRequest {
    pub index: Vec<usize>,
}

/// Request to uncomplete a task.
pub struct UncompleteTaskRequest {
    pub index: Vec<usize>,
}

/// Request to create a new plan with an optional prompt and notes.
pub struct CreatePlanRequest {
    pub prompt: Option<String>,
    pub notes: Option<String>,
}

impl Default for CreatePlanRequest {
    /// A request without a prompt or notes.
    fn default() -> (r: Self)
        ensures
            r.prompt is None,
            r.notes is None,
    {
        CreatePlanRequest { prompt: None, notes: None }
    }
}

/// Request to set the notes of a task.
pub struct SetTaskNotesRequest {
    pub notes: String,
}

/// The envelope of every answer of the service: whether it succeeded, and
/// either the data or an error message.
pub struct ApiResponse<T> {
    success: bool,
    data: Option<T>,
    error: Option<String>,
}

impl<T> ApiResponse<T> {
    /// Whether the answer reports success.
    pub closed spec fn succeeded(&self) -> bool {
        self.success
    }

    /// The data carried.
    pub closed spec fn payload(&self) -> Option<T> {
        self.data
    }

    /// The error message carried.
    pub closed spec fn error_text(&self) -> Option<Seq<char>> {
        match self.error {
            Some(e) => Some(e@),
            None => None,
        }
    }

    /// A successful answer carrying `data`.
    pub fn success(data: T) -> (r: Self)
        ensures
            r.succeeded(),
            r.payload() == Some(data),
            r.error_text() is None,
    {
        ApiResponse { success: true, data: Some(data), error: None }
    }

    /// A failed answer carrying `message`.
    pub fn error(message: String) -> (r: Self)
        ensures
            !r.succeeded(),
            r.payload() is None,
            r.error_text() == Some(message@),
    {
        ApiResponse { success: false, data: None, error: Some(message) }
    }

    /// An envelope as received, made of its three parts.
    pub fn from_parts(success: bool, data: Option<T>, error: Option<String>) -> (r: Self)
        ensures
            r.succeeded() == success,
            r.payload() == data,
            r.error_text() == match error {
                Some(e) => Some(e@),
                None => None::<Seq<char>>,
            },
    {
        ApiResponse { success, data, error }
    }

    /// The three parts of the envelope.
    pub fn into_parts(self) -> (r: (bool, Option<T>, Option<String>))
        ensures
            r.0 == self.succeeded(),
            r.1 == self.payload(),
            match r.2 {
                Some(e) => self.error_text() == Some(e@),
                None => self.error_text() is None,
            },
    {
        (self.success, self.data, self.error)
    }
}

/// HTTP 200.
pub const STATUS_OK: u16 = 200;

/// HTTP 400.
pub const STATUS_BAD_REQUEST: u16 = 400;

/// HTTP 404.
pub const STATUS_NOT_FOUND: u16 = 404;

/// HTTP 500.
pub const STATUS_INTERNAL_SERVER_ERROR: u16 = 500;

/// The status the service answers a plan error with.
pub open spec fn error_status(e: PlanError) -> u16 {
    match e {
        PlanError::PlanNotFound(_) => STATUS_NOT_FOUND,
        _ => STATUS_INTERNAL_SERVER_ERROR,
    }
}

/// The message the service answers a plan error with.
pub open spec fn error_reply_text(e: PlanError) -> Seq<char> {
    match e {
        PlanError::PlanNotFound(id) => "Plan '"@ + decimal(lease_value(id) as nat) + "' not found"@,
        _ => "Internal server error: "@ + plan_error_text(e),
    }
}

/// Whether `reply` is the failed answer with `status` and `message`.
pub open spec fn is_failure<T>(reply: (u16, ApiResponse<T>), status: u16, message: Seq<char>) -> bool {
    &&& reply.0 == status
    &&& !reply.1.succeeded()
    &&& reply.1.payload() is None
    &&& reply.1.error_text() == Some(message)
}

/// Whether `reply` is the successful answer carrying `data`.
pub open spec fn is_success<T>(reply: (u16, ApiResponse<T>), data: T) -> bool {
    &&& reply.0 == STATUS_OK
    &&& reply.1.succeeded()
    &&& reply.1.payload() == Some(data)
    &&& reply.1.error_text() is None
}

fn error_reply_message(e: &PlanError) -> (s: String)
    ensures
        s@ == error_reply_text(*e),
{
    match e {
        PlanError::PlanNotFound(id) => {
            let mut s = String::from_str("Plan '");
            push_decimal(&mut s, id.value() as usize);
            s.append("' not found");
            s
        },
        _ => {
            let mut s = String::from_str("Internal server error: ");
            let m = e.message();
            s.append(m.as_str());
            s
        },
    }
}

/// The status and envelope the service answers an operation's outcome
/// with: the data on success, 404 for a missing plan, 500 for any other
/// error.
pub fn map_core_result_simple<T>(result: Result<T, PlanError>) -> (r: (u16, ApiResponse<T>))
    ensures
        match result {
            Ok(data) => is_success(r, data),
            Err(e) => is_failure(r, error_status(e), error_reply_text(e)),
        },
{
    match result {
        Ok(data) => (STATUS_OK, ApiResponse::success(data)),
        Err(e) => {
            let status = match &e {
                PlanError::PlanNotFound(_) => STATUS_NOT_FOUND,
                _ => STATUS_INTERNAL_SERVER_ERROR,
            };
            let message = error_reply_message(&e);
            (status, ApiResponse::error(message))
        },
    }
}

/// The status and envelope the service answers an operation on a plan
/// with, as `map_core_result_simple` does.
pub fn map_core_result_to_response<T>(result: Result<PlanResponse<T>, PlanError>) -> (r: (
    u16,
    ApiResponse<PlanResponse<T>>,
))
    ensures
        match result {
            Ok(data) => is_success(r, data),
            Err(e) => is_failure(r, error_status(e), error_reply_text(e)),
        },
{
    map_core_result_simple(result)
}

/// The message answered when a completion is refused.
pub open spec fn complete_refused_text() -> Seq<char> {
    "Failed to complete task (lease mismatch, already complete, or other issue)"@
}

/// The answer to a completion: 200 where the task was completed, 400 where
/// the completion was refused.
pub fn complete_task_reply(result: Result<PlanResponse<bool>, PlanError>) -> (r: (u16, ApiResponse<PlanResponse<bool>>))
    ensures
        match result {
            Ok(data) => if data.res {
                is_success(r, data)
            } else {
                is_failure(r, STATUS_BAD_REQUEST, complete_refused_text())
            },
            Err(e) => is_failure(r, error_status(e), error_reply_text(e)),
        },
{
    match result {
        Ok(data) => {
            if data.res {
                (STATUS_OK, ApiResponse::success(data))
            } else {
                (
                    STATUS_BAD_REQUEST,
                    ApiResponse::error(
                        String::from_str("Failed to complete task (lease mismatch, already complete, or other issue)"),
                    ),
                )
            }
        },
        Err(e) => map_core_result_simple(Err(e)),
    }
}

/// The answer to an operation whose result may carry a refusal message:
/// 200 where it succeeded, 400 with the message where it was refused.
pub fn outcome_reply<U>(result: Result<PlanResponse<Result<U, String>>, PlanError>) -> (r: (
    u16,
    ApiResponse<PlanResponse<Result<U, String>>>,
))
    ensures
        match result {
            Ok(data) => match data.res {
                Ok(_) => is_success(r, data),
                Err(m) => is_failure(r, STATUS_BAD_REQUEST, m@),
            },
            Err(e) => is_failure(r, error_status(e), error_reply_text(e)),
        },
{
    match result {
        Ok(data) => {
            let refusal = match &data.res {
                Ok(_) => None,
                Err(m) => Some(m.clone()),
            };
            match refusal {
                None => (STATUS_OK, ApiResponse::success(data)),
                Some(m) => (STATUS_BAD_REQUEST, ApiResponse::error(m)),
            }
        },
        Err(e) => map_core_result_simple(Err(e)),
    }
}

/// The message answered when uncompleting changed nothing.
pub open spec fn uncomplete_unchanged_text() -> Seq<char> {
    "Task was already incomplete or uncompletion failed silently"@
}

/// The answer to an uncompletion: 200 where the task was uncompleted, 400
/// where it was not complete or the request was refused.
pub fn uncomplete_task_reply(result: Result<PlanResponse<Result<bool, String>>, PlanError>) -> (r: (
    u16,
    ApiResponse<PlanResponse<Result<bool, String>>>,
))
    ensures
        match result {
            Ok(data) => match data.res {
                Ok(true) => is_success(r, data),
                Ok(false) => is_failure(r, STATUS_BAD_REQUEST, uncomplete_unchanged_text()),
                Err(m) => is_failure(r, STATUS_BAD_REQUEST, m@),
            },
            Err(e) => is_failure(r, error_status(e), error_reply_text(e)),
        },
{
    match result {
        Ok(data) => {
            let refusal = match &data.res {
                Ok(true) => None,
                Ok(false) => Some(String::from_str("Task was already incomplete or uncompletion failed silently")),
                Err(m) => Some(m.clone()),
            };
            match refusal {
                None => (STATUS_OK, ApiResponse::success(data)),
                Some(m) => (STATUS_BAD_REQUEST, ApiResponse::error(m)),
            }
        },
        Err(e) => map_core_result_simple(Err(e)),
    }
}

/// The message answered when a move finds no task.
pub open spec fn move_failed_text() -> Seq<char> {
    "Failed to move: Task index not found"@
}

/// The answer to a move: 200 where the cursor moved, 400 where the index
/// names no task.
pub fn move_to_reply(result: Result<PlanResponse<Option<String>>, PlanError>) -> (r: (
    u16,
    ApiResponse<PlanResponse<Option<String>>>,
))
    ensures
        match result {
            Ok(data) => if data.res is Some {
                is_success(r, data)
            } else {
                is_failure(r, STATUS_BAD_REQUEST, move_failed_text())
            },
            Err(e) => is_failure(r, error_status(e), error_reply_text(e)),
        },
{
    match result {
        Ok(data) => {
            if data.res.is_some() {
                (STATUS_OK, ApiResponse::success(data))
            } else {
                (STATUS_BAD_REQUEST, ApiResponse::error(String::from_str("Failed to move: Task index not found")))
            }
        },
        Err(e) => map_core_result_simple(Err(e)),
    }
}

/// The message for an index path that could not be read.
pub open spec fn invalid_index_text(e: IntParseError) -> Seq<char> {
    "Invalid index format: "@ + int_parse_message(e)
}

/// The message for an index path that could not be read.
pub fn invalid_index_message(e: &IntParseError) -> (s: String)
    ensures
        s@ == invalid_index_text(*e),
{
    let mut s = String::from_str("Invalid index format: ");
    let m = e.message();
    s.append(m.as_str());
    s
}

/// The answer to a request whose index path could not be read.
pub fn invalid_index_reply<T>(e: &IntParseError) -> (r: (u16, ApiResponse<T>))
    ensures
        is_failure(r, STATUS_BAD_REQUEST, invalid_index_text(*e)),
{
    (STATUS_BAD_REQUEST, ApiResponse::error(invalid_index_message(e)))
}

/// The position of the first `'` in `s`, or its length when it has none.
pub open spec fn first_quote(s: Seq<char>) -> int
    decreases s.len(),
{
    if s.len() == 0 {
        0
    } else if s[0] == '\'' {
        0
    } else {
        1 + first_quote(s.drop_first())
    }
}

/// The second of the parts of `s` split at `'`, as
/// `s.split('\'').nth(1)` gives it, or `None` where `s` has no `'`.
pub open spec fn second_quoted(s: Seq<char>) -> Option<Seq<char>> {
    let q = first_quote(s);
    if q >= s.len() {
        None
    } else {
        let rest = s.subrange(q + 1, s.len() as int);
        Some(rest.take(first_quote(rest)))
    }
}

/// Why an answer of the service was not a success.
#[derive(Clone, Debug, PartialEq, Eq)]
pub enum ReplyError {
    /// The service reported an error, with its message.
    Api(String),
    /// The service reported that a plan does not exist.
    PlanNotFound(Lease),
    /// The answer was malformed.
    Internal(String),
}

impl ReplyError {
    /// How an operation's plan error reads on the client's side: a missing
    /// plan stays a missing plan; any other error is internal.
    pub fn from_plan_error(e: PlanError) -> (r: ReplyError)
        ensures
            match e {
                PlanError::PlanNotFound(id) => r == ReplyError::PlanNotFound(id),
                PlanError::Internal(m) => r matches ReplyError::Internal(x) && x@ == m@,
                PlanError::LockError => r matches ReplyError::Internal(x) && x@ == "Lock error"@,
            },
    {
        match e {
            PlanError::PlanNotFound(id) => ReplyError::PlanNotFound(id),
            PlanError::Internal(m) => ReplyError::Internal(m),
            PlanError::LockError => ReplyError::Internal(String::from_str("Lock error")),
        }
    }
}

/// The message of a failed answer, or the status where it carried none.
pub open spec fn failure_message(error: Option<Seq<char>>, status_text: Seq<char>) -> Seq<char> {
    match error {
        Some(m) => m,
        None => "HTTP error: "@ + status_text,
    }
}

/// The id read from a missing-plan message: the text between its first two
/// quotes as a `u8`, or 255 where that cannot be read.
pub open spec fn missing_plan_id(m: Seq<char>) -> u8 {
    let field = match second_quoted(m) {
        Some(f) => f,
        None => Seq::empty(),
    };
    match parse_u8_spec(field) {
        Ok(v) => v,
        Err(_) => 255,
    }
}

/// Whether `r` is how the client reads a failed answer with message `m`:
/// a missing plan where the message has the shape of one, else the message
/// itself.
pub open spec fn is_failure_reading(r: ReplyError, m: Seq<char>) -> bool {
    if contains_text(m, "Plan ID '"@) && contains_text(m, "' not found"@) {
        r == ReplyError::PlanNotFound(Lease(missing_plan_id(m)))
    } else {
        r matches ReplyError::Api(s) && s@ == m
    }
}

fn matches_at(s: &Vec<char>, p: &Vec<char>, i: usize) -> (r: bool)
    requires
        i + p@.len() <= s@.len(),
    ensures
        r == (s@.subrange(i as int, i + p@.len()) == p@),
{
    let mut j: usize = 0;
    let n = s.len();
    while j < p.len()
        invariant
            j <= p@.len(),
            n == s@.len(),
            i + p@.len() <= n,
            forall|k: int| 0 <= k < j ==> s@[i + k] == p@[k],
        decreases p@.len() - j,
    {
        if s[i + j] != p[j] {
            assert(s@.subrange(i as int, i + p@.len())[j as int] != p@[j as int]);
            return false;
        }
        j = j + 1;
    }
    assert(s@.subrange(i as int, i + p@.len()) =~= p@);
    true
}

/// Whether the text `s` contains `p`.
fn contains_chars(s: &Vec<char>, p: &Vec<char>) -> (r: bool)
    ensures
        r == contains_text(s@, p@),
{
    if p.len() > s.len() {
        return false;
    }
    if p.len() == 0 {
        assert(s@.subrange(0, 0 + p@.len() as int) =~= p@);
        return true;
    }
    let n = s.len();
    let last = n - p.len();
    let mut i: usize = 0;
    while i <= last
        invariant
            n == s@.len(),
            p@.len() > 0,
            last == s@.len() - p@.len(),
            i <= last + 1,
            forall|k: int| 0 <= k < i ==> #[trigger] s@.subrange(k, k + p@.len()) != p@,
        decreases last + 1 - i,
    {
        if matches_at(s, p, i) {
            return true;
        }
        i = i + 1;
    }
    false
}

fn first_quote_from(s: &Vec<char>, from: usize) -> (q: usize)
    requires
        from <= s@.len(),
    ensures
        from <= q <= s@.len(),
        q - from == first_quote(s@.subrange(from as int, s@.len() as int)),
{
    let mut i = from;
    while i < s.len() && s[i] != '\''
        invariant
            from <= i <= s@.len(),
            forall|k: int| from <= k < i ==> s@[k] != '\'',
        decreases s@.len() - i,
    {
        i = i + 1;
    }
    proof {
        lemma_first_quote(s@.subrange(from as int, s@.len() as int), i - from);
    }
    i
}

proof fn lemma_first_quote(s: Seq<char>, k: int)
    requires
        0 <= k <= s.len(),
        k < s.len() ==> s[k] == '\'',
        forall|j: int| 0 <= j < k ==> #[trigger] s[j] != '\'',
    ensures
        first_quote(s) == k,
    decreases k,
{
    if k > 0 {
        assert forall|j: int| 0 <= j < k - 1 implies #[trigger] s.drop_first()[j] != '\'' by {
            assert(s.drop_first()[j] == s[j + 1]);
        }
        lemma_first_quote(s.drop_first(), k - 1);
    }
}

fn second_quoted_text<'a>(text: &'a str, s: &Vec<char>) -> (r: &'a str)
    requires
        s@ == text@,
    ensures
        r@ == match second_quoted(s@) {
            Some(f) => f,
            None => Seq::empty(),
        },
{
    let q = first_quote_from(s, 0);
    assert(s@.subrange(0, s@.len() as int) =~= s@);
    if q >= s.len() {
        return text.substring_char(0, 0);
    }
    let e = first_quote_from(s, q + 1);
    let ghost rest = s@.subrange(q + 1, s@.len() as int);
    assert(rest.take(e - (q + 1)) =~= s@.subrange(q + 1, e as int));
    text.substring_char(q + 1, e)
}

/// How the client reads a failed answer: `error` is the message the
/// envelope carried, if it could be read, and `status_text` the HTTP
/// status line shown where it carried none.
pub fn read_failure(error: Option<String>, status_text: &str) -> (r: ReplyError)
    ensures
        is_failure_reading(
            r,
            failure_message(
                match error {
                    Some(e) => Some(e@),
                    None => None,
                },
                status_text@,
            ),
        ),
{
    let message = match error {
        Some(e) => e,
        None => {
            let mut m = String::from_str("HTTP error: ");
            m.append(status_text);
            m
        },
    };
    let cs = crate::index::chars_of(message.as_str());
    let p1 = crate::index::chars_of("Plan ID '");
    let p2 = crate::index::chars_of("' not found");
    if contains_chars(&cs, &p1) && contains_chars(&cs, &p2) {
        let field = second_quoted_text(message.as_str(), &cs);
        let id = match parse_u8(field) {
            Ok(v) => v,
            Err(_) => 255,
        };
        ReplyError::PlanNotFound(Lease::new(id))
    } else {
        ReplyError::Api(message)
    }
}

/// The message read when a successful answer carries no data.
pub open spec fn no_data_text() -> Seq<char> {
    "API reported success but sent no data"@
}

/// The message read when a failed answer carries no message.
pub open spec fn unknown_error_text() -> Seq<char> {
    "Unknown API error"@
}

/// How the client reads the envelope of an answer with a success status:
/// its data where it reports success and carries data; else why not.
pub fn read_success<T>(body: ApiResponse<T>) -> (r: Result<T, ReplyError>)
    ensures
        body.succeeded() ==> match body.payload() {
            Some(d) => r == Ok::<T, ReplyError>(d),
            None => r matches Err(ReplyError::Internal(m)) && m@ == no_data_text(),
        },
        !body.succeeded() ==> (r matches Err(ReplyError::Api(m)) && m@ == match body.error_text() {
            Some(e) => e,
            None => unknown_error_text(),
        }),
{
    let (success, data, error) = body.into_parts();
    if success {
        match data {
            Some(d) => Ok(d),
            None => Err(ReplyError::Internal(String::from_str("API reported success but sent no data"))),
        }
    } else {
        match error {
            Some(e) => Err(ReplyError::Api(e)),
            None => Err(ReplyError::Api(String::from_str("Unknown API error"))),
        }
    }
}

} // verus!

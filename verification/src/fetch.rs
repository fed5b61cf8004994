//! The course of a fetch.
//!
//! A fetch alternates between deciding and doing. The deciding is
//! [`step`]: from where the fetch stands and what just happened, it says
//! where the fetch stands next and what to do. The doing is the caller's:
//! it reads and writes the cache files, sends the requests and sleeps, and
//! reports each outcome as the next event. A fetch starts in
//! [`FetchState::Idle`] with [`FetchEvent::Start`] and ends with
//! [`FetchAction::Finish`].
//!
//! A fetch reads the cache first, where the plan names a file to read, and
//! returns what the cache holds. Otherwise it sends the request. An answer
//! of too many requests or of an unavailable service makes it wait and
//! send the request again, three times at most; the answer to the last
//! request ends the fetch, whatever it is. Materials that were fetched are
//! written to the cache, where the plan names a file to write; a file that
//! cannot be written is no failure of the fetch, a directory of the cache
//! that cannot be made is.

use vstd::prelude::*;
use vstd::string::*;

use crate::decode::{
    get_categories, get_materials, materials_in, subtrees, tree_ok,
};
use crate::error::{ApiError, ErrorKind};
use crate::json::{json_of_text, Json};
use crate::models::{materials_view, opt_text, root_category, Ec3Material, MaterialView, TreeView};
use crate::retry::{is_retryable, retry_delay, retry_delay_of, should_retry, MAX_RETRIES};
use crate::utils::{cache_contents_of, cache_text_of, read_cache, render_cache};
use crate::{APIResult, Ec3Result, Ec3ResultView, Endpoint};

verus! {

/// A request to the catalog: a `GET` of `url` with `authorization` as its
/// `Authorization` header and `filter` as its query parameter `mf`.
#[derive(Debug)]
pub struct Request {
    pub url: String,
    pub authorization: String,
    pub filter: String,
}

/// What a [`Request`] holds.
pub struct RequestView {
    pub url: Seq<char>,
    pub authorization: Seq<char>,
    pub filter: Seq<char>,
}

impl View for Request {
    type V = RequestView;

    open spec fn view(&self) -> RequestView {
        RequestView { url: self.url@, authorization: self.authorization@, filter: self.filter@ }
    }
}

/// What a fetch is to do: the request to send, how to read the answer,
/// and the cache files, named within the directory of the cache, to read
/// before the request and to write after it.
#[derive(Debug)]
pub struct FetchPlan {
    pub request: Request,
    pub endpoint: Endpoint,
    pub read_from: Option<String>,
    pub write_to: Option<String>,
}

/// What a [`FetchPlan`] holds.
pub struct FetchPlanView {
    pub request: RequestView,
    pub endpoint: Endpoint,
    pub read_from: Option<Seq<char>>,
    pub write_to: Option<Seq<char>>,
}

impl View for FetchPlan {
    type V = FetchPlanView;

    open spec fn view(&self) -> FetchPlanView {
        FetchPlanView {
            request: self.request@,
            endpoint: self.endpoint,
            read_from: opt_text(self.read_from),
            write_to: opt_text(self.write_to),
        }
    }
}

/// How the server answered a request.
#[derive(Debug)]
pub enum HttpReply {
    /// With success; holds the body.
    Success(String),
    /// With success, but the body could not be read.
    Unreadable(std::io::Error),
    /// With a status other than success; holds the status, the
    /// `retry-after` header if there was one, and the body.
    Status { code: u16, retry_after: Option<String>, body: String },
    /// Not at all: the request did not reach it.
    Transport,
}

/// What an [`HttpReply`] holds, without the outside values.
pub enum HttpReplyView {
    Success(Seq<char>),
    Unreadable,
    Status { code: u16, retry_after: Option<Seq<char>>, body: Seq<char> },
    Transport,
}

impl View for HttpReply {
    type V = HttpReplyView;

    open spec fn view(&self) -> HttpReplyView {
        match self {
            HttpReply::Success(body) => HttpReplyView::Success(body@),
            HttpReply::Unreadable(_) => HttpReplyView::Unreadable,
            HttpReply::Status { code, retry_after, body } => HttpReplyView::Status {
                code: *code,
                retry_after: opt_text(*retry_after),
                body: body@,
            },
            HttpReply::Transport => HttpReplyView::Transport,
        }
    }
}

/// How writing the cache file went.
#[derive(Debug)]
pub enum CacheWrite {
    /// The file was written.
    Written,
    /// The directory of the cache is there, but the file could not be
    /// written.
    FileFailed(std::io::Error),
    /// The directory of the cache was missing and could not be made.
    DirectoryFailed(std::io::Error),
}

/// What a [`CacheWrite`] holds, without the outside values.
pub enum CacheWriteView {
    Written,
    FileFailed,
    DirectoryFailed,
}

impl View for CacheWrite {
    type V = CacheWriteView;

    open spec fn view(&self) -> CacheWriteView {
        match self {
            CacheWrite::Written => CacheWriteView::Written,
            CacheWrite::FileFailed(_) => CacheWriteView::FileFailed,
            CacheWrite::DirectoryFailed(_) => CacheWriteView::DirectoryFailed,
        }
    }
}

/// What happened since the last step.
#[derive(Debug)]
pub enum FetchEvent {
    /// Nothing: the fetch begins.
    Start,
    /// The cache file was read; holds its text, or nothing where it could
    /// not be read.
    CacheRead(Option<String>),
    /// The server answered, or failed to.
    Replied(HttpReply),
    /// The wait is over.
    Waited,
    /// The cache file was written, or could not be.
    CacheWritten(CacheWrite),
}

/// What a [`FetchEvent`] holds, without the outside values.
pub enum FetchEventView {
    Start,
    CacheRead(Option<Seq<char>>),
    Replied(HttpReplyView),
    Waited,
    CacheWritten(CacheWriteView),
}

impl View for FetchEvent {
    type V = FetchEventView;

    open spec fn view(&self) -> FetchEventView {
        match self {
            FetchEvent::Start => FetchEventView::Start,
            FetchEvent::CacheRead(contents) => FetchEventView::CacheRead(opt_text(*contents)),
            FetchEvent::Replied(reply) => FetchEventView::Replied(reply@),
            FetchEvent::Waited => FetchEventView::Waited,
            FetchEvent::CacheWritten(outcome) => FetchEventView::CacheWritten(outcome@),
        }
    }
}

/// Where a fetch stands.
#[derive(Debug)]
pub enum FetchState {
    /// It has not begun.
    Idle,
    /// The cache file is being read.
    ReadingCache,
    /// A request is under way, after `retries` waits.
    Requesting { retries: u8 },
    /// The `retries`-th wait is under way.
    Waiting { retries: u8 },
    /// The materials were fetched and are being written to the cache.
    WritingCache { materials: Vec<Ec3Material> },
    /// It has ended.
    Done,
}

/// What a [`FetchState`] holds.
pub enum FetchStateView {
    Idle,
    ReadingCache,
    Requesting { retries: u8 },
    Waiting { retries: u8 },
    WritingCache { materials: Seq<MaterialView> },
    Done,
}

impl View for FetchState {
    type V = FetchStateView;

    open spec fn view(&self) -> FetchStateView {
        match self {
            FetchState::Idle => FetchStateView::Idle,
            FetchState::ReadingCache => FetchStateView::ReadingCache,
            FetchState::Requesting { retries } => FetchStateView::Requesting { retries: *retries },
            FetchState::Waiting { retries } => FetchStateView::Waiting { retries: *retries },
            FetchState::WritingCache { materials } => FetchStateView::WritingCache {
                materials: materials_view(materials@),
            },
            FetchState::Done => FetchStateView::Done,
        }
    }
}

/// What the caller is to do next.
#[derive(Debug)]
pub enum FetchAction {
    /// Read the file of this name in the directory of the cache.
    ReadCache { file: String },
    /// Send the request.
    Send(Request),
    /// Sleep.
    Wait { seconds: u64 },
    /// Make the directory of the cache if it is missing, and write the
    /// file of this name in it.
    WriteCache { file: String, contents: String },
    /// Return: the fetch has ended.
    Finish(APIResult),
}

/// What a [`FetchAction`] holds, without the outside values.
pub enum FetchActionView {
    ReadCache { file: Seq<char> },
    Send(RequestView),
    Wait { seconds: u64 },
    WriteCache { file: Seq<char>, contents: Seq<char> },
    Finish(Result<Ec3ResultView, ErrorKind>),
}

/// What the outcome of a fetch holds, without the outside values.
pub open spec fn outcome_view(r: APIResult) -> Result<Ec3ResultView, ErrorKind> {
    match r {
        Ok(result) => Ok(result@),
        Err(e) => Err(e@),
    }
}

impl View for FetchAction {
    type V = FetchActionView;

    open spec fn view(&self) -> FetchActionView {
        match self {
            FetchAction::ReadCache { file } => FetchActionView::ReadCache { file: file@ },
            FetchAction::Send(request) => FetchActionView::Send(request@),
            FetchAction::Wait { seconds } => FetchActionView::Wait { seconds: *seconds },
            FetchAction::WriteCache { file, contents } => FetchActionView::WriteCache {
                file: file@,
                contents: contents@,
            },
            FetchAction::Finish(outcome) => FetchActionView::Finish(outcome_view(*outcome)),
        }
    }
}

/// The fetch ends with `outcome`.
pub open spec fn finish(outcome: Result<Ec3ResultView, ErrorKind>) -> (
    FetchStateView,
    FetchActionView,
) {
    (FetchStateView::Done, FetchActionView::Finish(outcome))
}

/// The request of the plan is sent, after `retries` waits.
pub open spec fn send(plan: FetchPlanView, retries: u8) -> (FetchStateView, FetchActionView) {
    (FetchStateView::Requesting { retries }, FetchActionView::Send(plan.request))
}

/// How a fetch begins: with reading the cache, where the plan names a file
/// to read, with the request otherwise.
pub open spec fn begin(plan: FetchPlanView) -> (FetchStateView, FetchActionView) {
    match plan.read_from {
        Some(file) => (FetchStateView::ReadingCache, FetchActionView::ReadCache { file }),
        None => send(plan, 0),
    }
}

/// How a fetch goes on once the cache was read: it ends with the
/// materials in the cache file; where the file could not be read or holds
/// no materials, the request is sent.
pub open spec fn after_cache(plan: FetchPlanView, contents: Option<Seq<char>>) -> (
    FetchStateView,
    FetchActionView,
) {
    match contents {
        Some(text) => match cache_contents_of(text) {
            Ok(ms) => finish(Ok(Ec3ResultView::Materials(ms))),
            Err(_) => send(plan, 0),
        },
        None => send(plan, 0),
    }
}

/// The failure that an answer without success is: of authentication for
/// status 401, of too many requests, with the body, for status 429, of
/// the request for anything else, a body that could not be read among it.
pub open spec fn failure_of(reply: HttpReplyView) -> ErrorKind {
    match reply {
        HttpReplyView::Status { code, retry_after, body } => if code == 401 {
            ErrorKind::Auth
        } else if code == 429 {
            ErrorKind::TooManyRequest(body)
        } else {
            ErrorKind::Request
        },
        _ => ErrorKind::Request,
    }
}

/// What the body of an answer holds: materials or the tree of categories,
/// as the plan asks for.
pub open spec fn decoded(plan: FetchPlanView, body: Seq<char>) -> Result<Ec3ResultView, ErrorKind> {
    match plan.endpoint {
        Endpoint::Materials => match json_of_text(body) {
            Some(j) => match materials_in(j) {
                Ok(ms) => Ok(Ec3ResultView::Materials(ms)),
                Err(kind) => Err(kind),
            },
            None => Err(ErrorKind::Deserialize),
        },
        Endpoint::Categories => match json_of_text(body) {
            Some(j) => if tree_ok(j) {
                Ok(
                    Ec3ResultView::Categories(
                        TreeView { value: root_category(), children: Some(subtrees(j)) },
                    ),
                )
            } else {
                Err(ErrorKind::Deserialize)
            },
            None => Err(ErrorKind::Deserialization),
        },
    }
}

/// How a fetch goes on once the server answered with success: materials
/// are written to the cache, where the plan names a file to write and the
/// materials can be rendered; with anything else the fetch ends.
pub open spec fn after_success(plan: FetchPlanView, body: Seq<char>) -> (
    FetchStateView,
    FetchActionView,
) {
    match decoded(plan, body) {
        Ok(Ec3ResultView::Materials(ms)) => match plan.write_to {
            Some(file) => match cache_text_of(ms) {
                Some(contents) => (
                    FetchStateView::WritingCache { materials: ms },
                    FetchActionView::WriteCache { file, contents },
                ),
                None => finish(Ok(Ec3ResultView::Materials(ms))),
            },
            None => finish(Ok(Ec3ResultView::Materials(ms))),
        },
        outcome => finish(outcome),
    }
}

/// How a fetch goes on once the server answered, or failed to, after
/// `retries` waits.
pub open spec fn after_reply(plan: FetchPlanView, retries: u8, reply: HttpReplyView) -> (
    FetchStateView,
    FetchActionView,
) {
    match reply {
        HttpReplyView::Success(body) => after_success(plan, body),
        HttpReplyView::Status { code, retry_after, body } => if is_retryable(code) && retries
            < MAX_RETRIES {
            (
                FetchStateView::Waiting { retries: (retries + 1) as u8 },
                FetchActionView::Wait { seconds: retry_delay_of(retry_after) },
            )
        } else {
            finish(Err(failure_of(reply)))
        },
        _ => finish(Err(failure_of(reply))),
    }
}

/// How a fetch ends once the cache was written: with the materials, also
/// where the file could not be written; as a failure of the cache only
/// where its directory could not be made.
pub open spec fn after_write(materials: Seq<MaterialView>, outcome: CacheWriteView) -> (
    FetchStateView,
    FetchActionView,
) {
    match outcome {
        CacheWriteView::DirectoryFailed => finish(Err(ErrorKind::Cache)),
        _ => finish(Ok(Ec3ResultView::Materials(materials))),
    }
}

/// Where a fetch stands next and what is to be done, from where it stands
/// and what happened. An event that the state does not await ends the
/// fetch as a failed request.
pub open spec fn step_spec(plan: FetchPlanView, state: FetchStateView, event: FetchEventView) -> (
    FetchStateView,
    FetchActionView,
) {
    match (state, event) {
        (FetchStateView::Idle, FetchEventView::Start) => begin(plan),
        (FetchStateView::ReadingCache, FetchEventView::CacheRead(contents)) => after_cache(
            plan,
            contents,
        ),
        (FetchStateView::Requesting { retries }, FetchEventView::Replied(reply)) => after_reply(
            plan,
            retries,
            reply,
        ),
        (FetchStateView::Waiting { retries }, FetchEventView::Waited) => send(plan, retries),
        (FetchStateView::WritingCache { materials }, FetchEventView::CacheWritten(outcome)) => after_write(
            materials,
            outcome,
        ),
        _ => finish(Err(ErrorKind::Request)),
    }
}

/// A request is sent again only after an answer of too many requests or
/// of an unavailable service, and only while fewer than three waits lie
/// behind; each wait is counted. So a fetch sends at most four requests,
/// and the answer to the fourth ends it.
pub proof fn lemma_retries_are_bounded(plan: FetchPlanView, retries: u8, reply: HttpReplyView)
    ensures
        ({
            let (next, action) = after_reply(plan, retries, reply);
            &&& next is Waiting ==> {
                &&& retries < MAX_RETRIES
                &&& next == FetchStateView::Waiting { retries: (retries + 1) as u8 }
                &&& reply matches HttpReplyView::Status { code, retry_after, .. }
                &&& is_retryable(code)
                &&& action == FetchActionView::Wait { seconds: retry_delay_of(retry_after) }
            }
            &&& retries >= MAX_RETRIES ==> !(next is Waiting) && !(next is Requesting)
            &&& !(next is Requesting)
        }),
{
}

fn copy_request(request: &Request) -> (r: Request)
    ensures
        r@ == request@,
{
    Request {
        url: request.url.clone(),
        authorization: request.authorization.clone(),
        filter: request.filter.clone(),
    }
}

fn send_request(plan: &FetchPlan, retries: u8) -> (r: (FetchState, FetchAction))
    ensures
        (r.0@, r.1@) == send(plan@, retries),
{
    (FetchState::Requesting { retries }, FetchAction::Send(copy_request(&plan.request)))
}

fn finish_with(outcome: APIResult) -> (r: (FetchState, FetchAction))
    ensures
        (r.0@, r.1@) == finish(outcome_view(outcome)),
{
    (FetchState::Done, FetchAction::Finish(outcome))
}

/// Reads the body of an answer as the plan asks for.
pub fn decode_body(plan: &FetchPlan, body: &str) -> (r: APIResult)
    ensures
        outcome_view(r) == decoded(plan@, body@),
        r matches Ok(Ec3Result::Materials(ms)) ==> crate::decode::all_wf(ms@),
{
    match plan.endpoint {
        Endpoint::Materials => match Json::parse(body) {
            Ok(json) => match get_materials(json) {
                Ok(ms) => Ok(Ec3Result::Materials(ms)),
                Err(e) => Err(e),
            },
            Err(e) => Err(ApiError::Deserialize(e)),
        },
        Endpoint::Categories => match Json::parse(body) {
            Ok(json) => match get_categories(json) {
                Ok(tree) => Ok(Ec3Result::Categories(tree)),
                Err(e) => Err(e),
            },
            Err(e) => Err(ApiError::DeserializationError(e)),
        },
    }
}

fn fail_on(reply: HttpReply) -> (r: ApiError)
    ensures
        r@ == failure_of(reply@),
{
    match reply {
        HttpReply::Status { code, retry_after, body } => {
            if code == 401 {
                ApiError::AuthError
            } else if code == 429 {
                ApiError::TooManyRequest(body)
            } else {
                ApiError::RequestError()
            }
        },
        _ => ApiError::RequestError(),
    }
}

/// Decides how a fetch goes on.
pub fn step(plan: &FetchPlan, state: FetchState, event: FetchEvent) -> (r: (
    FetchState,
    FetchAction,
))
    ensures
        (r.0@, r.1@) == step_spec(plan@, state@, event@),
{
    match (state, event) {
        (FetchState::Idle, FetchEvent::Start) => match &plan.read_from {
            Some(file) => (FetchState::ReadingCache, FetchAction::ReadCache { file: file.clone() }),
            None => send_request(plan, 0),
        },
        (FetchState::ReadingCache, FetchEvent::CacheRead(contents)) => {
            let cached = match contents {
                Some(text) => read_cache(text.as_str()),
                None => Err(ApiError::EmptyArray()),
            };
            match cached {
                Ok(ms) => finish_with(Ok(Ec3Result::Materials(ms))),
                Err(_) => send_request(plan, 0),
            }
        },
        (FetchState::Requesting { retries }, FetchEvent::Replied(reply)) => match reply {
            HttpReply::Success(body) => match decode_body(plan, body.as_str()) {
                Ok(Ec3Result::Materials(ms)) => match &plan.write_to {
                    Some(file) => match render_cache(&ms) {
                        Ok(contents) => (
                            FetchState::WritingCache { materials: ms },
                            FetchAction::WriteCache { file: file.clone(), contents },
                        ),
                        Err(_) => finish_with(Ok(Ec3Result::Materials(ms))),
                    },
                    None => finish_with(Ok(Ec3Result::Materials(ms))),
                },
                outcome => finish_with(outcome),
            },
            HttpReply::Status { code, retry_after, body } => {
                if should_retry(code, retries) {
                    let seconds = match &retry_after {
                        Some(text) => retry_delay(Some(text.as_str())),
                        None => retry_delay(None),
                    };
                    (FetchState::Waiting { retries: retries + 1 }, FetchAction::Wait { seconds })
                } else {
                    finish_with(Err(fail_on(HttpReply::Status { code, retry_after, body })))
                }
            },
            other => finish_with(Err(fail_on(other))),
        },
        (FetchState::Waiting { retries }, FetchEvent::Waited) => send_request(plan, retries),
        (FetchState::WritingCache { materials }, FetchEvent::CacheWritten(outcome)) => match outcome {
            CacheWrite::DirectoryFailed(e) => finish_with(Err(ApiError::CacheError(e))),
            _ => finish_with(Ok(Ec3Result::Materials(materials))),
        },
        _ => finish_with(Err(ApiError::RequestError())),
    }
}

} // verus!

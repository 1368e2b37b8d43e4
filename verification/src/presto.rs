//! The statement protocol: pages, requests, failures, and the state machine
//! that follows continuation links until the result set is exhausted.
//!
//! The library sends nothing itself. It says which request comes next
//! (`QueryIterator::request`) and what the answer to it means
//! (`QueryIterator::next`); the caller carries the request to the coordinator
//! and brings back what it got.

use crate::context::{headers_view, identity_headers, Context, ContextView, Header};
use crate::json::{json_text, render};
use vstd::prelude::*;
use vstd::string::*;
use vstd::utf8::encode_utf8;

verus! {

/// The two ways a step of a query can fail.
#[derive(Debug)]
pub enum Error {
    /// The exchange with the coordinator failed, or its answer could not be
    /// decoded. Holds the text of the cause.
    ReqwestError(String),
    /// The coordinator answered with a page that reports a failure of the
    /// query. Holds the JSON text of the reported error.
    PrestoError(String),
}

/// An `Error` as plain text values.
pub enum ErrorView {
    ReqwestError(Seq<char>),
    PrestoError(Seq<char>),
}

impl View for Error {
    type V = ErrorView;

    open spec fn view(&self) -> ErrorView {
        match self {
            Error::ReqwestError(cause) => ErrorView::ReqwestError(cause@),
            Error::PrestoError(text) => ErrorView::PrestoError(text@),
        }
    }
}

/// The text of an error as shown to a user.
pub open spec fn error_message(e: ErrorView) -> Seq<char> {
    match e {
        ErrorView::ReqwestError(cause) => "Reqwest error: "@ + cause,
        ErrorView::PrestoError(text) => "Presto error: "@ + text,
    }
}

impl Error {
    /// The text of the error as shown to a user.
    pub fn message(&self) -> (text: String)
        ensures
            text@ == error_message(self@),
    {
        match self {
            Error::ReqwestError(cause) => String::from_str("Reqwest error: ").concat(
                cause.as_str(),
            ),
            Error::PrestoError(text) => String::from_str("Presto error: ").concat(text.as_str()),
        }
    }
}

/// The description of one column of a result set.
#[derive(Debug)]
pub struct Column {
    pub name: String,
}

/// A row cell: any JSON value.
pub type Object = serde_json::Value;

/// One decoded answer of the coordinator.
#[derive(Debug)]
pub struct QueryResults {
    /// The identifier of the query.
    pub id: String,
    /// A URL with information about the query, for people.
    pub info_uri: String,
    /// Where the next page is; `None` on the last page.
    pub next_uri: Option<String>,
    /// The columns, once they are known.
    pub columns: Option<Vec<Column>>,
    /// The rows of this page.
    pub data: Option<Vec<Vec<Object>>>,
    /// The failure that the coordinator reports, if any.
    pub error: Option<serde_json::Value>,
}

/// The view of an optional string.
pub open spec fn opt_text(s: Option<String>) -> Option<Seq<char>> {
    match s {
        Some(s) => Some(s@),
        None => None,
    }
}

/// The names of a list of columns.
pub open spec fn column_names(columns: Seq<Column>) -> Seq<Seq<char>> {
    columns.map_values(|c: Column| c.name@)
}

/// The rows of a page as sequences of cells.
pub open spec fn rows_view(rows: Seq<Vec<Object>>) -> Seq<Seq<Object>> {
    rows.map_values(|row: Vec<Object>| row@)
}

/// A `QueryResults` as plain values. Cells and the error stay JSON values.
pub struct QueryResultsView {
    pub id: Seq<char>,
    pub info_uri: Seq<char>,
    pub next_uri: Option<Seq<char>>,
    pub columns: Option<Seq<Seq<char>>>,
    pub data: Option<Seq<Seq<Object>>>,
    pub error: Option<serde_json::Value>,
}

impl View for QueryResults {
    type V = QueryResultsView;

    open spec fn view(&self) -> QueryResultsView {
        QueryResultsView {
            id: self.id@,
            info_uri: self.info_uri@,
            next_uri: opt_text(self.next_uri),
            columns: match self.columns {
                Some(columns) => Some(column_names(columns@)),
                None => None,
            },
            data: match self.data {
                Some(rows) => Some(rows_view(rows@)),
                None => None,
            },
            error: self.error,
        }
    }
}

/// A request to carry to the coordinator.
#[derive(Debug)]
pub enum Request {
    /// `POST` of a statement: the body is the statement's text.
    Post { url: String, headers: Vec<Header>, body: Vec<u8> },
    /// `GET` of a continuation link.
    Get { url: String, headers: Vec<Header> },
}

/// A `Request` as plain values.
pub enum RequestView {
    Post { url: Seq<char>, headers: Seq<(Seq<char>, Seq<char>)>, body: Seq<u8> },
    Get { url: Seq<char>, headers: Seq<(Seq<char>, Seq<char>)> },
}

impl View for Request {
    type V = RequestView;

    open spec fn view(&self) -> RequestView {
        match self {
            Request::Post { url, headers, body } => RequestView::Post {
                url: url@,
                headers: headers_view(headers@),
                body: body@,
            },
            Request::Get { url, headers } => RequestView::Get {
                url: url@,
                headers: headers_view(headers@),
            },
        }
    }
}

/// Where a sequence of pages stands.
#[derive(Clone, Debug)]
pub enum QueryIteratorState {
    /// The statement has not been submitted yet.
    Query(String),
    /// The statement was submitted. `Some` holds the link to the next page;
    /// `None` says that the sequence is over.
    Fetch(Option<String>),
}

/// A `QueryIteratorState` as plain text values.
pub enum StateView {
    Query(Seq<char>),
    Fetch(Option<Seq<char>>),
}

impl View for QueryIteratorState {
    type V = StateView;

    open spec fn view(&self) -> StateView {
        match self {
            QueryIteratorState::Query(statement) => StateView::Query(statement@),
            QueryIteratorState::Fetch(link) => StateView::Fetch(opt_text(*link)),
        }
    }
}

/// What came back for a request: a decoded page, or the text of the cause
/// for which there is none.
pub open spec fn response_view(response: Result<QueryResults, String>) -> Result<
    QueryResultsView,
    Seq<char>,
> {
    match response {
        Ok(page) => Ok(page@),
        Err(cause) => Err(cause@),
    }
}

/// What a sequence yields at one step.
pub open spec fn item_view(item: Result<QueryResults, Error>) -> Result<
    QueryResultsView,
    ErrorView,
> {
    match item {
        Ok(page) => Ok(page@),
        Err(e) => Err(e@),
    }
}

/// The request that submits a statement.
pub open spec fn submit_request(ctx: ContextView, statement: Seq<char>) -> RequestView {
    RequestView::Post {
        url: ctx.server + "/v1/statement"@,
        headers: identity_headers(ctx),
        body: encode_utf8(statement),
    }
}

/// The request that follows a continuation link. The link is used as it is.
pub open spec fn follow_request(ctx: ContextView, link: Seq<char>) -> RequestView {
    RequestView::Get { url: link, headers: identity_headers(ctx) }
}

/// A page, or the protocol error that it reports.
pub open spec fn checked(page: QueryResultsView) -> Result<QueryResultsView, ErrorView> {
    match page.error {
        Some(e) => Err(ErrorView::PrestoError(json_text(e))),
        None => Ok(page),
    }
}

/// The request that a sequence in `state` asks for next; `None` when the
/// sequence is over.
pub open spec fn pending_request(ctx: ContextView, state: StateView) -> Option<RequestView> {
    match state {
        StateView::Query(statement) => Some(submit_request(ctx, statement)),
        StateView::Fetch(Some(link)) => Some(follow_request(ctx, link)),
        StateView::Fetch(None) => None,
    }
}

/// What a sequence yields for a response.
pub open spec fn yielded(response: Result<QueryResultsView, Seq<char>>) -> Result<
    QueryResultsView,
    ErrorView,
> {
    match response {
        Ok(page) => checked(page),
        Err(cause) => Err(ErrorView::ReqwestError(cause)),
    }
}

/// The state of a sequence after a response: it goes on with the link of a
/// page that reports no failure, and is over after anything else.
pub open spec fn state_after(response: Result<QueryResultsView, Seq<char>>) -> StateView {
    match yielded(response) {
        Ok(page) => StateView::Fetch(page.next_uri),
        Err(_) => StateView::Fetch(None),
    }
}

/// One step of a sequence: the next state and what is yielded. A sequence
/// that is over stays as it is and yields nothing.
pub open spec fn step(state: StateView, response: Result<QueryResultsView, Seq<char>>) -> (
    StateView,
    Option<Result<QueryResultsView, ErrorView>>,
) {
    if state == StateView::Fetch(None) {
        (state, None)
    } else {
        (state_after(response), Some(yielded(response)))
    }
}

/// The view of what `QueryIterator::next` returns.
pub open spec fn opt_item_view(item: Option<Result<QueryResults, Error>>) -> Option<
    Result<QueryResultsView, ErrorView>,
> {
    match item {
        Some(item) => Some(item_view(item)),
        None => None,
    }
}

/// The view of what `QueryIterator::request` returns.
pub open spec fn opt_request_view(request: Option<Request>) -> Option<RequestView> {
    match request {
        Some(request) => Some(request@),
        None => None,
    }
}

/// The four identity headers that every request carries.
pub fn presto_headers(ctx: &Context) -> (headers: Vec<Header>)
    ensures
        headers_view(headers@) == identity_headers(ctx@),
{
    ctx.presto_headers()
}

/// The request that submits `query` to the coordinator of `ctx`.
pub fn start_presto_query(ctx: &Context, query: String) -> (request: Request)
    ensures
        request@ == submit_request(ctx@, query@),
{
    let url = ctx.server.clone().concat("/v1/statement");
    Request::Post { url, headers: presto_headers(ctx), body: query.as_str().as_bytes_vec() }
}

/// The request that fetches the page behind `next_uri`.
pub fn follow_presto_query(ctx: &Context, next_uri: &str) -> (request: Request)
    ensures
        request@ == follow_request(ctx@, next_uri@),
{
    Request::Get { url: String::from_str(next_uri), headers: presto_headers(ctx) }
}

/// Turns a page that reports a failure into a protocol error, and hands any
/// other page on unchanged.
pub fn check_errors(resp: QueryResults) -> (checked_page: Result<QueryResults, Error>)
    ensures
        item_view(checked_page) == checked(resp@),
        resp.error is None ==> checked_page == Ok::<QueryResults, Error>(resp),
        resp.error is Some <==> checked_page is Err,
{
    match &resp.error {
        Some(err) => Err(Error::PrestoError(render(err))),
        None => Ok(resp),
    }
}

/// A sequence of pages: the connection it runs on and where it stands.
#[derive(Debug)]
pub struct QueryIterator<'a> {
    pub ctx: &'a Context,
    pub state: QueryIteratorState,
}

impl<'a> QueryIterator<'a> {
    /// A sequence for `query` that has not asked for anything yet.
    pub fn new(ctx: &'a Context, query: String) -> (it: QueryIterator<'a>)
        ensures
            it.ctx == ctx,
            it.state == QueryIteratorState::Query(query),
    {
        QueryIterator { ctx, state: QueryIteratorState::Query(query) }
    }

    /// Whether the sequence is over: nothing more is asked for or yielded.
    pub open spec fn is_done(&self) -> bool {
        self.state@ == StateView::Fetch(None)
    }

    /// The request to send next, or `None` when the sequence is over.
    pub fn request(&self) -> (request: Option<Request>)
        ensures
            request is None <==> self.is_done(),
            opt_request_view(request) == pending_request(self.ctx@, self.state@),
    {
        match &self.state {
            QueryIteratorState::Query(query) => Some(start_presto_query(self.ctx, query.clone())),
            QueryIteratorState::Fetch(None) => None,
            QueryIteratorState::Fetch(Some(next_uri)) => Some(
                follow_presto_query(self.ctx, next_uri.as_str()),
            ),
        }
    }

    /// Takes what came back for the pending request and yields the next
    /// item of the sequence.
    ///
    /// A page that reports no failure is yielded as it is, and the sequence
    /// goes on with its link. A failed exchange yields a transport error, a
    /// page that reports a failure yields a protocol error, and either ends
    /// the sequence. A sequence that is over yields `None` and stays over.
    pub fn next(&mut self, response: Result<QueryResults, String>) -> (item: Option<
        Result<QueryResults, Error>,
    >)
        ensures
            final(self).ctx == old(self).ctx,
            (final(self).state@, opt_item_view(item)) == step(
                old(self).state@,
                response_view(response),
            ),
            item is None <==> old(self).is_done(),
            old(self).is_done() ==> final(self).state == old(self).state,
            item matches Some(Ok(page)) ==> response == Ok::<QueryResults, String>(page)
                && page.error is None,
    {
        if let QueryIteratorState::Fetch(None) = &self.state {
            return None;
        }
        let resp = match response {
            Ok(page) => check_errors(page),
            Err(cause) => Err(Error::ReqwestError(cause)),
        };
        match resp {
            Ok(res) => {
                let link = match &res.next_uri {
                    Some(uri) => Some(uri.clone()),
                    None => None,
                };
                self.state = QueryIteratorState::Fetch(link);
                Some(Ok(res))
            },
            Err(err) => {
                self.state = QueryIteratorState::Fetch(None);
                Some(Err(err))
            },
        }
    }
}

} // verus!

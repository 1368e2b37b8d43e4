//! Whole sequences of pages: what a query asks for and yields from its
//! submission to its end, and the laws that hold of it.

use crate::context::{identity_headers, ContextView};
use crate::json::json_text;
use crate::presto::{
    follow_request, pending_request, state_after, step, submit_request, yielded, ErrorView,
    QueryIterator, QueryResultsView, RequestView, StateView,
};
use vstd::prelude::*;

verus! {

/// One request of a sequence together with what the sequence yielded for
/// the response to it.
pub struct Exchange {
    pub request: RequestView,
    pub item: Result<QueryResultsView, ErrorView>,
}

/// The exchanges of a sequence that starts in `state` with a coordinator
/// that would answer the requests put to it with `responses`, in order.
/// The sequence stops by itself where it is over; the responses that are
/// left are never asked for.
pub open spec fn exchanges(
    ctx: ContextView,
    state: StateView,
    responses: Seq<Result<QueryResultsView, Seq<char>>>,
) -> Seq<Exchange>
    decreases responses.len(),
{
    if responses.len() == 0 {
        Seq::empty()
    } else {
        match pending_request(ctx, state) {
            None => Seq::empty(),
            Some(request) => seq![Exchange { request, item: yielded(responses[0]) }] + exchanges(
                ctx,
                step(state, responses[0]).0,
                responses.drop_first(),
            ),
        }
    }
}

/// The responses of a coordinator that answers with `pages`, in order.
pub open spec fn answers(pages: Seq<QueryResultsView>) -> Seq<
    Result<QueryResultsView, Seq<char>>,
> {
    Seq::new(pages.len(), |i: int| Ok(pages[i]))
}

/// Whether `pages` is a complete chain: at least one page, none reports a
/// failure, every page but the last links to a next page, and the last
/// links to none.
pub open spec fn is_chain(pages: Seq<QueryResultsView>) -> bool {
    &&& pages.len() >= 1
    &&& forall|k: int| 0 <= k < pages.len() ==> (#[trigger] pages[k]).error is None
    &&& forall|k: int| 0 <= k < pages.len() - 1 ==> (#[trigger] pages[k]).next_uri is Some
    &&& pages.last().next_uri is None
}

/// A sequence that is over asks for nothing and yields nothing, whatever
/// the coordinator would answer.
pub proof fn lemma_over_stays_over(
    ctx: ContextView,
    responses: Seq<Result<QueryResultsView, Seq<char>>>,
)
    ensures
        exchanges(ctx, StateView::Fetch(None), responses) == Seq::<Exchange>::empty(),
        forall|response: Result<QueryResultsView, Seq<char>>|
            #[trigger] step(StateView::Fetch(None), response) == (StateView::Fetch(None), None::<
                Result<QueryResultsView, ErrorView>,
            >),
{
}

/// When the submission of a statement fails in transport, the sequence
/// consists of that one exchange: it yields the transport error and asks
/// for nothing more, whatever the coordinator would have answered next.
pub proof fn lemma_transport_failure_ends_sequence(
    ctx: ContextView,
    statement: Seq<char>,
    cause: Seq<char>,
    rest: Seq<Result<QueryResultsView, Seq<char>>>,
)
    ensures
        exchanges(ctx, StateView::Query(statement), seq![Err(cause)] + rest) == seq![
            Exchange {
                request: submit_request(ctx, statement),
                item: Err(ErrorView::ReqwestError(cause)),
            },
        ],
{
    lemma_failure_ends_sequence(ctx, StateView::Query(statement), Err(cause), rest);
}

/// A response for which the sequence yields an error is the last exchange
/// of the sequence, from any state that is not over: a failed exchange and
/// a page that reports a failure both end it, also where that page holds a
/// link.
pub proof fn lemma_failure_ends_sequence(
    ctx: ContextView,
    state: StateView,
    response: Result<QueryResultsView, Seq<char>>,
    rest: Seq<Result<QueryResultsView, Seq<char>>>,
)
    requires
        state != StateView::Fetch(None),
        yielded(response) is Err,
    ensures
        exchanges(ctx, state, seq![response] + rest) == seq![
            Exchange { request: pending_request(ctx, state)->0, item: yielded(response) },
        ],
{
    let responses = seq![response] + rest;
    assert(responses[0] == response);
    lemma_over_stays_over(ctx, responses.drop_first());
    assert(exchanges(ctx, state, responses) =~= seq![
        Exchange { request: pending_request(ctx, state)->0, item: yielded(response) },
    ]);
}

/// When the first page links to no next page, the sequence consists of
/// that one page.
pub proof fn lemma_single_page(
    ctx: ContextView,
    statement: Seq<char>,
    page: QueryResultsView,
    rest: Seq<Result<QueryResultsView, Seq<char>>>,
)
    requires
        page.next_uri is None,
        page.error is None,
    ensures
        exchanges(ctx, StateView::Query(statement), seq![Ok(page)] + rest) == seq![
            Exchange { request: submit_request(ctx, statement), item: Ok(page) },
        ],
{
    let responses = seq![Ok(page)] + rest;
    assert(responses[0] == Ok::<QueryResultsView, Seq<char>>(page));
    lemma_over_stays_over(ctx, responses.drop_first());
    assert(exchanges(ctx, StateView::Query(statement), responses) =~= seq![
        Exchange { request: submit_request(ctx, statement), item: Ok(page) },
    ]);
}

/// A sequence that is not over and is answered with a complete chain of
/// pages yields exactly those pages, in order. Its first request is the one
/// pending at the start, and each later request follows the link of the
/// page before it, unchanged. Nothing is asked for after the last page.
pub proof fn lemma_chain_from(
    ctx: ContextView,
    state: StateView,
    pages: Seq<QueryResultsView>,
    rest: Seq<Result<QueryResultsView, Seq<char>>>,
)
    requires
        state != StateView::Fetch(None),
        is_chain(pages),
    ensures
        exchanges(ctx, state, answers(pages) + rest).len() == pages.len(),
        exchanges(ctx, state, answers(pages) + rest)[0].request == pending_request(ctx, state)->0,
        forall|k: int|
            0 <= k < pages.len() ==> (#[trigger] exchanges(
                ctx,
                state,
                answers(pages) + rest,
            )[k]).item == Ok::<QueryResultsView, ErrorView>(pages[k]),
        forall|k: int|
            1 <= k < pages.len() ==> (#[trigger] exchanges(
                ctx,
                state,
                answers(pages) + rest,
            )[k]).request == follow_request(ctx, pages[k - 1].next_uri->0),
    decreases pages.len(),
{
    let responses = answers(pages) + rest;
    let first = pages[0];
    assert(responses[0] == Ok::<QueryResultsView, Seq<char>>(first));
    assert(first.error is None);
    let after = step(state, responses[0]).0;
    assert(after == StateView::Fetch(first.next_uri));
    let tail = pages.drop_first();
    assert(responses.drop_first() =~= answers(tail) + rest);
    let head = Exchange { request: pending_request(ctx, state)->0, item: Ok(first) };
    let all = exchanges(ctx, state, responses);
    let later = exchanges(ctx, after, answers(tail) + rest);
    assert(all == seq![head] + later);
    if pages.len() == 1 {
        assert(pages.last() == first);
        lemma_over_stays_over(ctx, answers(tail) + rest);
    } else {
        assert(first.next_uri is Some);
        assert(is_chain(tail)) by {
            assert forall|k: int| 0 <= k < tail.len() implies (#[trigger] tail[k]).error
                is None by {
                assert(tail[k] == pages[k + 1]);
            }
            assert forall|k: int| 0 <= k < tail.len() - 1 implies (#[trigger] tail[k]).next_uri
                is Some by {
                assert(tail[k] == pages[k + 1]);
            }
            assert(tail.last() == pages.last());
        }
        lemma_chain_from(ctx, after, tail, rest);
        assert forall|k: int| 1 <= k < pages.len() implies (#[trigger] all[k]).request
            == follow_request(ctx, pages[k - 1].next_uri->0) by {
            assert(all[k] == later[k - 1]);
            if k >= 2 {
                assert(tail[k - 2] == pages[k - 1]);
            }
        }
        assert forall|k: int| 0 <= k < pages.len() implies (#[trigger] all[k]).item == Ok::<
            QueryResultsView,
            ErrorView,
        >(pages[k]) by {
            if k >= 1 {
                assert(all[k] == later[k - 1]);
                assert(tail[k - 1] == pages[k]);
            }
        }
    }
}

/// A statement whose submission and continuations are answered with a
/// complete chain of `N` pages yields exactly those `N` pages, in order.
/// The first request submits the statement, and request `k + 1` goes to
/// exactly the link that page `k` gave.
pub proof fn lemma_chain(
    ctx: ContextView,
    statement: Seq<char>,
    pages: Seq<QueryResultsView>,
    rest: Seq<Result<QueryResultsView, Seq<char>>>,
)
    requires
        is_chain(pages),
    ensures
        exchanges(ctx, StateView::Query(statement), answers(pages) + rest).len() == pages.len(),
        exchanges(ctx, StateView::Query(statement), answers(pages) + rest)[0].request
            == submit_request(ctx, statement),
        forall|k: int|
            0 <= k < pages.len() ==> (#[trigger] exchanges(
                ctx,
                StateView::Query(statement),
                answers(pages) + rest,
            )[k]).item == Ok::<QueryResultsView, ErrorView>(pages[k]),
        forall|k: int|
            1 <= k < pages.len() ==> (#[trigger] exchanges(
                ctx,
                StateView::Query(statement),
                answers(pages) + rest,
            )[k]).request == (RequestView::Get {
                url: pages[k - 1].next_uri->0,
                headers: identity_headers(ctx),
            }),
{
    lemma_chain_from(ctx, StateView::Query(statement), pages, rest);
}

/// A page that reports a failure is never yielded as a page: for it the
/// sequence yields a protocol error that holds the JSON text of what the
/// page reports. Every page that is yielded reports no failure.
pub proof fn lemma_error_page_is_protocol_error(page: QueryResultsView)
    ensures
        page.error is Some ==> yielded(Ok(page)) == Err::<QueryResultsView, ErrorView>(
            ErrorView::PrestoError(json_text(page.error->0)),
        ),
        page.error is None ==> yielded(Ok(page)) == Ok::<QueryResultsView, ErrorView>(page),
        forall|response: Result<QueryResultsView, Seq<char>>|
            (#[trigger] yielded(response)) matches Ok(p) ==> p.error is None && response == Ok::<
                QueryResultsView,
                Seq<char>,
            >(p),
{
}

/// No exchange of any sequence holds a page that reports a failure.
pub proof fn lemma_no_error_page_is_yielded(
    ctx: ContextView,
    state: StateView,
    responses: Seq<Result<QueryResultsView, Seq<char>>>,
    k: int,
)
    requires
        0 <= k < exchanges(ctx, state, responses).len(),
    ensures
        exchanges(ctx, state, responses)[k].item matches Ok(p) ==> p.error is None,
        exchanges(ctx, state, responses).len() <= responses.len(),
        exchanges(ctx, state, responses)[k].item == yielded(responses[k]),
    decreases responses.len(),
{
    if k > 0 {
        lemma_no_error_page_is_yielded(
            ctx,
            step(state, responses[0]).0,
            responses.drop_first(),
            k - 1,
        );
    } else {
        lemma_exchanges_bounded(ctx, state, responses);
    }
}

/// A sequence asks for no more than the coordinator has answers.
pub proof fn lemma_exchanges_bounded(
    ctx: ContextView,
    state: StateView,
    responses: Seq<Result<QueryResultsView, Seq<char>>>,
)
    ensures
        exchanges(ctx, state, responses).len() <= responses.len(),
    decreases responses.len(),
{
    if responses.len() > 0 && pending_request(ctx, state) is Some {
        lemma_exchanges_bounded(ctx, step(state, responses[0]).0, responses.drop_first());
    }
}

/// Two sequences on one connection do not share state. A sequence for a
/// statement starts by submitting that statement and takes the first
/// response as its own, whatever another sequence on the same connection
/// has asked for or been answered, and two sequences for the same statement
/// that are answered alike go through the same exchanges.
pub proof fn lemma_sequences_are_independent(
    first: QueryIterator,
    second: QueryIterator,
    statement: Seq<char>,
    responses: Seq<Result<QueryResultsView, Seq<char>>>,
    other_response: Result<QueryResultsView, Seq<char>>,
)
    requires
        first.ctx@ == second.ctx@,
        first.state@ == StateView::Query(statement),
        second.state@ == StateView::Query(statement),
    ensures
        pending_request(second.ctx@, second.state@) == Some(
            submit_request(first.ctx@, statement),
        ),
        exchanges(first.ctx@, first.state@, responses) == exchanges(
            second.ctx@,
            second.state@,
            responses,
        ),
        forall|k: int|
            0 <= k < exchanges(second.ctx@, second.state@, responses).len() ==> (#[trigger] exchanges(
                second.ctx@,
                second.state@,
                responses,
            )[k]).item == yielded(responses[k]),
        step(second.state@, other_response) == (
            state_after(other_response),
            Some(yielded(other_response)),
        ),
{
    assert forall|k: int|
        0 <= k < exchanges(second.ctx@, second.state@, responses).len() implies (#[trigger] exchanges(
        second.ctx@,
        second.state@,
        responses,
    )[k]).item == yielded(responses[k]) by {
        lemma_no_error_page_is_yielded(second.ctx@, second.state@, responses, k);
    }
}

} // verus!

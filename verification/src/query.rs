//! The life of one query of a page, from the moment it is issued to its
//! answer. The page performs the reading; this module decides what each
//! event means: which answer counts, what is shown meanwhile, and whether
//! the page waits.

use vstd::prelude::*;
use crate::error::{AppError, AppErrorView};
use crate::order::same_text;

verus! {

/// What a query asks for. It is the key by which an answer finds its query.
#[derive(Clone, Debug, PartialEq, Eq)]
pub enum Query {
    /// The listing of all projects.
    Listing,
    /// The page of the project with this identifier.
    Project(String),
}

/// A `Query` with its identifier as a sequence of characters.
pub enum QueryView {
    Listing,
    Project(Seq<char>),
}

impl View for Query {
    type V = QueryView;

    open spec fn view(&self) -> QueryView {
        match self {
            Query::Listing => QueryView::Listing,
            Query::Project(identifier) => QueryView::Project(identifier@),
        }
    }
}

impl Query {
    /// Whether both ask for the same thing.
    pub fn same_as(&self, other: &Query) -> (same: bool)
        ensures
            same == (self@ == other@),
    {
        match (self, other) {
            (Query::Listing, Query::Listing) => true,
            (Query::Project(left), Query::Project(right)) => same_text(
                left.as_str(),
                right.as_str(),
            ),
            _ => false,
        }
    }

    /// A second query for the same thing.
    pub fn duplicate(&self) -> (copy: Query)
        ensures
            copy@ == self@,
    {
        match self {
            Query::Listing => Query::Listing,
            Query::Project(identifier) => Query::Project(identifier.clone()),
        }
    }
}

/// Where a query stands.
#[derive(Clone, Debug, PartialEq, Eq)]
pub enum QueryState<T> {
    /// Nothing was asked yet.
    Idle,
    /// The query was issued and its answer is awaited.
    Pending(Query),
    /// The query was answered with data.
    Resolved(Query, T),
    /// The query failed.
    Failed(Query, AppError),
}

/// A `QueryState` with its texts as sequences of characters.
pub enum QueryStateView<T> {
    Idle,
    Pending(QueryView),
    Resolved(QueryView, T),
    Failed(QueryView, AppErrorView),
}

impl<T> View for QueryState<T> {
    type V = QueryStateView<T>;

    open spec fn view(&self) -> QueryStateView<T> {
        match self {
            QueryState::Idle => QueryStateView::Idle,
            QueryState::Pending(query) => QueryStateView::Pending(query@),
            QueryState::Resolved(query, data) => QueryStateView::Resolved(query@, *data),
            QueryState::Failed(query, error) => QueryStateView::Failed(query@, error@),
        }
    }
}

/// What happens to a query.
#[derive(Debug)]
pub enum QueryEvent<T> {
    /// The page asks: on its first load, and whenever what it asks for changes.
    Issued(Query),
    /// An answer arrives for the query that was issued under this key.
    Answered(Query, Result<T, AppError>),
}

/// A `QueryEvent` with its texts as sequences of characters.
pub enum QueryEventView<T> {
    Issued(QueryView),
    Answered(QueryView, Result<T, AppErrorView>),
}

impl<T> View for QueryEvent<T> {
    type V = QueryEventView<T>;

    open spec fn view(&self) -> QueryEventView<T> {
        match self {
            QueryEvent::Issued(query) => QueryEventView::Issued(query@),
            QueryEvent::Answered(query, Ok(data)) => QueryEventView::Answered(query@, Ok(*data)),
            QueryEvent::Answered(query, Err(error)) => QueryEventView::Answered(
                query@,
                Err(error@),
            ),
        }
    }
}

/// What a page shows for a query.
#[derive(Clone, Copy, Debug, PartialEq, Eq, Structural)]
pub enum Shown {
    /// A skeleton in place of the content.
    Placeholder,
    /// The content that the query gave.
    Content,
    /// The message that there is no such project.
    NotFound,
    /// The message that something went wrong.
    Failure,
}

impl<T> QueryStateView<T> {
    /// Whether the state awaits the answer to `query`.
    pub open spec fn awaits(self, query: QueryView) -> bool {
        self == QueryStateView::<T>::Pending(query)
    }

    /// The state after an event. Issuing a query starts anew, whatever went
    /// before. An answer settles the query if it is the one awaited; any
    /// other answer is stale and changes nothing.
    pub open spec fn after(self, event: QueryEventView<T>) -> QueryStateView<T> {
        match event {
            QueryEventView::Issued(query) => QueryStateView::Pending(query),
            QueryEventView::Answered(query, outcome) => if self.awaits(query) {
                match outcome {
                    Ok(data) => QueryStateView::Resolved(query, data),
                    Err(error) => QueryStateView::Failed(query, error),
                }
            } else {
                self
            },
        }
    }

    /// The query that the state speaks of; `None` before anything was asked.
    pub open spec fn query(self) -> Option<QueryView> {
        match self {
            QueryStateView::Idle => None,
            QueryStateView::Pending(query) => Some(query),
            QueryStateView::Resolved(query, _) => Some(query),
            QueryStateView::Failed(query, _) => Some(query),
        }
    }

    /// The state after a run of events, one after the other.
    pub open spec fn after_all(self, events: Seq<QueryEventView<T>>) -> QueryStateView<T>
        decreases events.len(),
    {
        if events.len() == 0 {
            self
        } else {
            self.after_all(events.drop_last()).after(events.last())
        }
    }

    /// What the page shows in this state.
    pub open spec fn shown(self) -> Shown {
        match self {
            QueryStateView::Idle => Shown::Placeholder,
            QueryStateView::Pending(_) => Shown::Placeholder,
            QueryStateView::Resolved(_, _) => Shown::Content,
            QueryStateView::Failed(_, error) => if error is NotFound {
                Shown::NotFound
            } else {
                Shown::Failure
            },
        }
    }

    /// Whether the page holds back until the answer is there: it does so for
    /// the page of one project, never for the listing.
    pub open spec fn blocks_navigation(self) -> bool {
        self matches QueryStateView::Pending(query) && query is Project
    }

    /// The status of the response, where the query failed.
    pub open spec fn response_status(self) -> Option<int> {
        match self {
            QueryStateView::Failed(_, error) => Some(error.status()),
            _ => None,
        }
    }
}

/// What the page has to read after an event: the query that was issued.
pub open spec fn to_fetch<T>(event: QueryEventView<T>) -> Option<QueryView> {
    match event {
        QueryEventView::Issued(query) => Some(query),
        QueryEventView::Answered(_, _) => None,
    }
}

/// The query that was issued last in a run of events; `None` where none was
/// issued.
pub open spec fn last_issued<T>(events: Seq<QueryEventView<T>>) -> Option<QueryView>
    decreases events.len(),
{
    if events.len() == 0 {
        None
    } else {
        match events.last() {
            QueryEventView::Issued(query) => Some(query),
            QueryEventView::Answered(_, _) => last_issued(events.drop_last()),
        }
    }
}

/// A query that may be missing, as its view.
pub open spec fn optional_query(query: Option<Query>) -> Option<QueryView> {
    match query {
        Some(asked) => Some(asked@),
        None => None,
    }
}

impl<T> QueryState<T> {
    /// The state before anything was asked.
    pub fn new() -> (state: QueryState<T>)
        ensures
            state@ is Idle,
    {
        QueryState::Idle
    }

    /// Takes an event and returns the next state, and with it the query that
    /// the page has to read now, if there is one.
    pub fn step(self, event: QueryEvent<T>) -> (next: (QueryState<T>, Option<Query>))
        ensures
            next.0@ == self@.after(event@),
            optional_query(next.1) == to_fetch(event@),
    {
        match event {
            QueryEvent::Issued(query) => {
                let fetch = query.duplicate();
                (QueryState::Pending(query), Some(fetch))
            },
            QueryEvent::Answered(query, outcome) => match self {
                QueryState::Pending(asked) => {
                    if asked.same_as(&query) {
                        match outcome {
                            Ok(data) => (QueryState::Resolved(asked, data), None),
                            Err(error) => (QueryState::Failed(asked, error), None),
                        }
                    } else {
                        (QueryState::Pending(asked), None)
                    }
                },
                QueryState::Idle => (QueryState::Idle, None),
                QueryState::Resolved(asked, data) => (QueryState::Resolved(asked, data), None),
                QueryState::Failed(asked, error) => (QueryState::Failed(asked, error), None),
            },
        }
    }

    /// What the page shows in this state.
    pub fn shown(&self) -> (shown: Shown)
        ensures
            shown == self@.shown(),
    {
        match self {
            QueryState::Idle => Shown::Placeholder,
            QueryState::Pending(_) => Shown::Placeholder,
            QueryState::Resolved(_, _) => Shown::Content,
            QueryState::Failed(_, AppError::NotFound) => Shown::NotFound,
            QueryState::Failed(_, _) => Shown::Failure,
        }
    }

    /// Whether the page holds back until the answer is there.
    pub fn blocks_navigation(&self) -> (blocks: bool)
        ensures
            blocks == self@.blocks_navigation(),
    {
        match self {
            QueryState::Pending(Query::Project(_)) => true,
            _ => false,
        }
    }

    /// The status of the response, where the query failed.
    pub fn response_status(&self) -> (status: Option<u16>)
        ensures
            status is Some <==> self@.response_status() is Some,
            status matches Some(code) ==> self@.response_status() == Some(code as int),
    {
        match self {
            QueryState::Failed(_, error) => Some(error.status_code()),
            _ => None,
        }
    }
}

/// An answer that is not awaited changes nothing: not when nothing was
/// asked, not when another query is pending, not when the query is settled.
pub proof fn lemma_stale_answer_dropped<T>(
    state: QueryStateView<T>,
    query: QueryView,
    outcome: Result<T, AppErrorView>,
)
    requires
        !state.awaits(query),
    ensures
        state.after(QueryEventView::Answered(query, outcome)) == state,
{
}

/// A settled query stays as it is until a query is issued again.
pub proof fn lemma_settled_until_issued<T>(
    state: QueryStateView<T>,
    query: QueryView,
    outcome: Result<T, AppErrorView>,
)
    requires
        state is Resolved || state is Failed,
    ensures
        state.after(QueryEventView::Answered(query, outcome)) == state,
{
}

/// The answer to the query that was issued last settles it, with the data or
/// the error that came.
pub proof fn lemma_answer_settles<T>(
    state: QueryStateView<T>,
    query: QueryView,
    outcome: Result<T, AppErrorView>,
)
    ensures
        state.after(QueryEventView::Issued(query)).after(QueryEventView::Answered(query, outcome))
            == (match outcome {
            Ok(data) => QueryStateView::Resolved(query, data),
            Err(error) => QueryStateView::Failed(query, error),
        }),
{
}

/// When a second query is issued before the first was answered, the late
/// answer to the first does not take the place of the second's.
pub proof fn lemma_newer_query_wins<T>(
    state: QueryStateView<T>,
    earlier: QueryView,
    later: QueryView,
    outcome: Result<T, AppErrorView>,
)
    requires
        earlier != later,
    ensures
        state.after(QueryEventView::Issued(earlier)).after(QueryEventView::Issued(later)).after(
            QueryEventView::Answered(earlier, outcome),
        ) == QueryStateView::<T>::Pending(later),
{
}

/// Whatever happens, the state speaks of the query that was issued last: no
/// answer to an earlier query is ever shown in its place.
pub proof fn lemma_state_follows_last_issued<T>(events: Seq<QueryEventView<T>>)
    ensures
        QueryStateView::<T>::Idle.after_all(events).query() == last_issued(events),
    decreases events.len(),
{
    if events.len() > 0 {
        lemma_state_follows_last_issued(events.drop_last());
    }
}

/// What a settled query holds is what an answer to that very query brought.
pub proof fn lemma_settled_by_an_answer<T>(events: Seq<QueryEventView<T>>)
    ensures
        QueryStateView::<T>::Idle.after_all(events) matches QueryStateView::Resolved(query, data)
            ==> exists|i: int|
            0 <= i < events.len() && #[trigger] events[i] == QueryEventView::Answered(
                query,
                Ok::<T, AppErrorView>(data),
            ),
        QueryStateView::<T>::Idle.after_all(events) matches QueryStateView::Failed(query, error)
            ==> exists|i: int|
            0 <= i < events.len() && #[trigger] events[i] == QueryEventView::Answered(
                query,
                Err::<T, AppErrorView>(error),
            ),
    decreases events.len(),
{
    if events.len() > 0 {
        let front = events.drop_last();
        let before = QueryStateView::<T>::Idle.after_all(front);
        let state = QueryStateView::<T>::Idle.after_all(events);
        lemma_settled_by_an_answer(front);
        if state == before {
            match state {
                QueryStateView::Resolved(query, data) => {
                    let i = choose|i: int|
                        0 <= i < front.len() && #[trigger] front[i] == QueryEventView::Answered(
                            query,
                            Ok::<T, AppErrorView>(data),
                        );
                    assert(events[i] == front[i]);
                },
                QueryStateView::Failed(query, error) => {
                    let i = choose|i: int|
                        0 <= i < front.len() && #[trigger] front[i] == QueryEventView::Answered(
                            query,
                            Err::<T, AppErrorView>(error),
                        );
                    assert(events[i] == front[i]);
                },
                _ => {},
            }
        } else {
            assert(events[events.len() - 1] == events.last());
        }
    }
}

} // verus!

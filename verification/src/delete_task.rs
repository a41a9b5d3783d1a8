//! Delete tasks, and the search requests that find what they delete.
use vstd::prelude::*;

verus! {

/// Which documents to delete.
#[derive(Clone, Debug, PartialEq, Eq)]
pub struct DeleteQuery {
    pub index_id: String,
    pub start_timestamp: Option<i64>,
    pub end_timestamp: Option<i64>,
    pub query: String,
    pub search_fields: Vec<String>,
}

/// A delete that was asked for, and its place in the order of deletes.
#[derive(Clone, Debug, PartialEq, Eq)]
pub struct DeleteTask {
    pub opstamp: u64,
    pub delete_query: Option<DeleteQuery>,
}

/// A search for the documents that a delete task is about. What it does not name of a
/// search is left at its default.
#[derive(Clone, Debug, PartialEq, Eq)]
pub struct SearchRequest {
    pub index_id: String,
    pub query: String,
    pub search_fields: Vec<String>,
    pub start_timestamp: Option<i64>,
    pub end_timestamp: Option<i64>,
}

/// Mathematical view of a [`DeleteQuery`].
#[verifier::ext_equal]
pub struct DeleteQueryView {
    pub index_id: Seq<char>,
    pub start_timestamp: Option<i64>,
    pub end_timestamp: Option<i64>,
    pub query: Seq<char>,
    pub search_fields: Seq<Seq<char>>,
}

/// Mathematical view of a [`DeleteTask`].
#[verifier::ext_equal]
pub struct DeleteTaskView {
    pub opstamp: nat,
    pub delete_query: Option<DeleteQueryView>,
}

/// Mathematical view of a [`SearchRequest`].
#[verifier::ext_equal]
pub struct SearchRequestView {
    pub index_id: Seq<char>,
    pub query: Seq<char>,
    pub search_fields: Seq<Seq<char>>,
    pub start_timestamp: Option<i64>,
    pub end_timestamp: Option<i64>,
}

impl View for DeleteQuery {
    type V = DeleteQueryView;

    open spec fn view(&self) -> DeleteQueryView {
        DeleteQueryView {
            index_id: self.index_id@,
            start_timestamp: self.start_timestamp,
            end_timestamp: self.end_timestamp,
            query: self.query@,
            search_fields: self.search_fields@.map_values(|field: String| field@),
        }
    }
}

impl View for DeleteTask {
    type V = DeleteTaskView;

    open spec fn view(&self) -> DeleteTaskView {
        DeleteTaskView {
            opstamp: self.opstamp as nat,
            delete_query: match self.delete_query {
                Some(delete_query) => Some(delete_query@),
                None => None,
            },
        }
    }
}

impl View for SearchRequest {
    type V = SearchRequestView;

    open spec fn view(&self) -> SearchRequestView {
        SearchRequestView {
            index_id: self.index_id@,
            query: self.query@,
            search_fields: self.search_fields@.map_values(|field: String| field@),
            start_timestamp: self.start_timestamp,
            end_timestamp: self.end_timestamp,
        }
    }
}

/// The views of a list of delete tasks.
pub open spec fn task_views(delete_tasks: Seq<DeleteTask>) -> Seq<DeleteTaskView> {
    delete_tasks.map_values(|delete_task: DeleteTask| delete_task@)
}

/// The largest opstamp among the delete tasks, 0 for no task.
pub open spec fn last_opstamp(delete_tasks: Seq<DeleteTaskView>) -> nat
    decreases delete_tasks.len(),
{
    if delete_tasks.len() == 0 {
        0
    } else {
        let before = last_opstamp(delete_tasks.drop_last());
        let opstamp = delete_tasks.last().opstamp;
        if before >= opstamp {
            before
        } else {
            opstamp
        }
    }
}

/// The search for the documents that a delete query is about.
pub open spec fn search_of(delete_query: DeleteQueryView) -> SearchRequestView {
    SearchRequestView {
        index_id: delete_query.index_id,
        query: delete_query.query,
        search_fields: delete_query.search_fields,
        start_timestamp: delete_query.start_timestamp,
        end_timestamp: delete_query.end_timestamp,
    }
}

/// A delete is applied to what it was asked for, no more and no less: the search has the
/// index, the words, the fields and both bounds in time of the delete query.
pub proof fn law_search_asks_for_what_the_query_says(delete_query: DeleteQueryView)
    ensures
        search_of(delete_query).index_id == delete_query.index_id,
        search_of(delete_query).query == delete_query.query,
        search_of(delete_query).search_fields == delete_query.search_fields,
        search_of(delete_query).start_timestamp == delete_query.start_timestamp,
        search_of(delete_query).end_timestamp == delete_query.end_timestamp,
{
}

/// The last opstamp is that of one of the delete tasks, and none has a later one.
pub proof fn law_last_opstamp_is_the_latest(delete_tasks: Seq<DeleteTaskView>)
    requires
        delete_tasks.len() > 0,
    ensures
        exists|i: int|
            0 <= i < delete_tasks.len() && (#[trigger] delete_tasks[i]).opstamp == last_opstamp(
                delete_tasks,
            ),
        forall|i: int|
            0 <= i < delete_tasks.len() ==> (#[trigger] delete_tasks[i]).opstamp <= last_opstamp(
                delete_tasks,
            ),
    decreases delete_tasks.len(),
{
    let rest = delete_tasks.drop_last();
    assert(delete_tasks[delete_tasks.len() - 1] == delete_tasks.last());
    if rest.len() > 0 {
        law_last_opstamp_is_the_latest(rest);
        let k = choose|i: int|
            0 <= i < rest.len() && (#[trigger] rest[i]).opstamp == last_opstamp(rest);
        assert(delete_tasks[k] == rest[k]);
    }
    assert forall|i: int| 0 <= i < delete_tasks.len() implies (#[trigger] delete_tasks[i]).opstamp
        <= last_opstamp(delete_tasks) by {
        if i < rest.len() {
            assert(rest[i] == delete_tasks[i]);
        }
    }
}

/// The largest opstamp among the delete tasks.
pub fn last_delete_opstamp(delete_tasks: &[DeleteTask]) -> (last: u64)
    requires
        delete_tasks@.len() > 0,
    ensures
        last == last_opstamp(task_views(delete_tasks@)),
        exists|i: int| 0 <= i < delete_tasks@.len() && (#[trigger] delete_tasks@[i]).opstamp == last,
        forall|i: int|
            0 <= i < delete_tasks@.len() ==> (#[trigger] delete_tasks@[i]).opstamp <= last,
{
    let ghost all = task_views(delete_tasks@);
    let mut last: u64 = 0;
    for i in 0..delete_tasks.len()
        invariant
            all == task_views(delete_tasks@),
            last == last_opstamp(all.take(i as int)),
    {
        proof {
            assert(all.take(i + 1).drop_last() =~= all.take(i as int));
        }
        if delete_tasks[i].opstamp > last {
            last = delete_tasks[i].opstamp;
        }
    }
    assert(all.take(all.len() as int) =~= all);
    proof {
        law_last_opstamp_is_the_latest(all);
        let k = choose|i: int|
            0 <= i < all.len() && (#[trigger] all[i]).opstamp == last_opstamp(all);
        assert(all[k] == delete_tasks@[k]@);
        assert forall|i: int| 0 <= i < delete_tasks@.len() implies (
        #[trigger] delete_tasks@[i]).opstamp <= last by {
            assert(all[i] == delete_tasks@[i]@);
        }
    }
    last
}

/// The search for the documents that a delete query is about.
pub fn search_request(delete_query: &DeleteQuery) -> (request: SearchRequest)
    ensures
        request@ == search_of(delete_query@),
        request.index_id@ == delete_query.index_id@,
        request.query@ == delete_query.query@,
        request.search_fields@ == delete_query.search_fields@,
        request.start_timestamp == delete_query.start_timestamp,
        request.end_timestamp == delete_query.end_timestamp,
{
    let mut search_fields: Vec<String> = Vec::new();
    for i in 0..delete_query.search_fields.len()
        invariant
            search_fields@ == delete_query.search_fields@.take(i as int),
    {
        search_fields.push(delete_query.search_fields[i].clone());
    }
    let request = SearchRequest {
        index_id: delete_query.index_id.clone(),
        query: delete_query.query.clone(),
        search_fields,
        start_timestamp: delete_query.start_timestamp,
        end_timestamp: delete_query.end_timestamp,
    };
    assert(request@ =~= search_of(delete_query@));
    request
}

} // verus!

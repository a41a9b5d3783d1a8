use merge_executor::delete_task::{
    last_delete_opstamp, search_request, DeleteQuery, DeleteTask, SearchRequest,
};

fn task(opstamp: u64, query: &str) -> DeleteTask {
    DeleteTask {
        opstamp,
        delete_query: Some(DeleteQuery {
            index_id: "test-index".to_string(),
            start_timestamp: Some(-1),
            end_timestamp: None,
            query: query.to_string(),
            search_fields: vec!["body".to_string(), "title".to_string()],
        }),
    }
}

#[test]
fn last_opstamp_is_the_largest() {
    assert_eq!(last_delete_opstamp(&[task(3, "a"), task(9, "b"), task(5, "c")]), 9);
    assert_eq!(last_delete_opstamp(&[task(0, "a")]), 0);
}

#[test]
fn search_request_takes_over_the_delete_query() {
    let delete_query = task(1, "body:delete").delete_query.unwrap();
    assert_eq!(
        search_request(&delete_query),
        SearchRequest {
            index_id: "test-index".to_string(),
            query: "body:delete".to_string(),
            search_fields: vec!["body".to_string(), "title".to_string()],
            start_timestamp: Some(-1),
            end_timestamp: None,
        }
    );
}

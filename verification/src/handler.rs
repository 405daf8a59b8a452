//! The request handler: routing, and the persist-then-respond flow.
//!
//! A request is stateless: its path routes it, the calculation is persisted
//! before the response is rendered, and a storage fault aborts the request
//! with no partial response.

use crate::calc::Computation;
use crate::parse::str_eq;
use crate::respond::{
    computation_body, history_json, history_json_view, json_body_view, ok_json_response,
    ok_json_response_view,
};
use crate::store::{ids_below_max, RecordFields, RecordView, StorageError, Store};
use vstd::prelude::*;

verus! {

/// Where a request goes on its method and path.
#[derive(Clone, Copy, Debug, PartialEq, Eq, Structural)]
pub enum Route {
    Calculate,
    History,
    NotFound,
}

/// The routing rule: only the read method is recognised, on exactly the
/// calculation and history paths; every other request is not found.
pub open spec fn spec_route(method: Seq<char>, path: Seq<char>) -> Route {
    if method == "GET"@ && path == "/calculate"@ {
        Route::Calculate
    } else if method == "GET"@ && path == "/history"@ {
        Route::History
    } else {
        Route::NotFound
    }
}

/// Dispatches a request on its method and path.
pub fn route(method: &str, path: &str) -> (r: Route)
    ensures
        r == spec_route(method@, path@),
{
    if str_eq(method, "GET") {
        if str_eq(path, "/calculate") {
            return Route::Calculate;
        }
        if str_eq(path, "/history") {
            return Route::History;
        }
    }
    Route::NotFound
}

/// The row one calculation request persists.
pub open spec fn record_of(
    id: int,
    num1: Seq<char>,
    num2: Seq<char>,
    comp: Computation,
) -> RecordView {
    RecordView {
        id,
        num1,
        num2,
        addition: comp.addition@,
        subtraction: comp.subtraction@,
        multiplication: comp.multiplication@,
        division: comp.division@,
    }
}

/// Persists one computed calculation and renders its response. The record
/// written holds exactly the two input texts and the four results; on a
/// storage fault the rows are untouched and no response is rendered.
pub fn handle_calculate(
    store: &mut Store,
    num1_text: &str,
    num2_text: &str,
    comp: Computation,
) -> (r: Result<String, StorageError>)
    requires
        old(store).wf(),
    ensures
        final(store).wf(),
        r is Err ==> final(store).rows() == old(store).rows(),
        r is Ok ==> final(store).rows().len() == old(store).rows().len() + 1,
        r is Ok ==> (exists|j: int|
            0 <= j < final(store).rows().len() && final(store).rows()[j] == record_of(
                final(store).rows()[j].id,
                num1_text@,
                num2_text@,
                comp,
            )),
        r is Ok && ids_below_max(old(store).rows()) ==> (exists|id: int|
            final(store).rows() == old(store).rows().push(
                record_of(id, num1_text@, num2_text@, comp),
            )),
        r is Ok ==> r->Ok_0@ == ok_json_response_view(
            json_body_view(comp.addition@, comp.subtraction@, comp.multiplication@, comp.division@),
        ),
{
    let body = computation_body(&comp);
    let fields = RecordFields {
        num1: num1_text.to_owned(),
        num2: num2_text.to_owned(),
        addition: comp.addition,
        subtraction: comp.subtraction,
        multiplication: comp.multiplication,
        division: comp.division,
    };
    match store.append(&fields) {
        Ok(id) => {
            proof {
                assert(fields.with_id(id as int) == record_of(
                    id as int,
                    num1_text@,
                    num2_text@,
                    comp,
                ));
            }
            Ok(ok_json_response(body.as_str()))
        },
        Err(e) => Err(e),
    }
}

/// Reads the whole history and renders it as a JSON array response, in
/// stored order; on a storage fault no response is rendered.
pub fn handle_history(store: &Store) -> (r: Result<String, StorageError>)
    ensures
        r is Ok ==> r->Ok_0@ == ok_json_response_view(history_json_view(store.rows())),
{
    match store.list_all() {
        Ok(records) => {
            let hj = history_json(&records);
            Ok(ok_json_response(hj.as_str()))
        },
        Err(e) => Err(e),
    }
}

} // verus!

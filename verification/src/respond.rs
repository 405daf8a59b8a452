//! Response rendering: the JSON bodies and the fixed HTTP response texts.
//!
//! Every response carries `Access-Control-Allow-Origin: *` and is JSON for
//! success, plain text for a miss or a fault. The division field is always
//! emitted as a JSON string, so that the sentinel and a quotient read alike.

use crate::calc::Computation;
use crate::store::{views_of, CalculationRecord, RecordView};
use vstd::prelude::*;

verus! {

/// The JSON object reported for one calculation.
pub open spec fn json_body_view(
    addition: Seq<char>,
    subtraction: Seq<char>,
    multiplication: Seq<char>,
    division: Seq<char>,
) -> Seq<char> {
    "{\"addition\":"@ + addition + ",\"subtraction\":"@ + subtraction + ",\"multiplication\":"@
        + multiplication + ",\"division\":\""@ + division + "\"}"@
}

/// Renders the JSON object for one calculation's four rendered results.
pub fn json_body(
    addition: &str,
    subtraction: &str,
    multiplication: &str,
    division: &str,
) -> (r: String)
    ensures
        r@ == json_body_view(addition@, subtraction@, multiplication@, division@),
{
    let mut out = String::from_str("{\"addition\":");
    out.append(addition);
    out.append(",\"subtraction\":");
    out.append(subtraction);
    out.append(",\"multiplication\":");
    out.append(multiplication);
    out.append(",\"division\":\"");
    out.append(division);
    out.append("\"}");
    proof {
        assert(out@ =~= json_body_view(addition@, subtraction@, multiplication@, division@));
    }
    out
}

/// Renders the JSON object for an assembled computation.
pub fn computation_body(comp: &Computation) -> (r: String)
    ensures
        r@ == json_body_view(
            comp.addition@,
            comp.subtraction@,
            comp.multiplication@,
            comp.division@,
        ),
{
    json_body(
        comp.addition.as_str(),
        comp.subtraction.as_str(),
        comp.multiplication.as_str(),
        comp.division.as_str(),
    )
}

/// The JSON object reported for one stored row of the history.
pub open spec fn record_json_view(rec: RecordView) -> Seq<char> {
    "{\"num1\":"@ + rec.num1 + ",\"num2\":"@ + rec.num2 + ",\"addition\":"@ + rec.addition
        + ",\"subtraction\":"@ + rec.subtraction + ",\"multiplication\":"@ + rec.multiplication
        + ",\"division\":\""@ + rec.division + "\"}"@
}

/// Renders the JSON object for one stored row.
pub fn record_json(rec: &CalculationRecord) -> (r: String)
    ensures
        r@ == record_json_view(rec@),
{
    let mut out = String::from_str("{\"num1\":");
    out.append(rec.fields.num1.as_str());
    out.append(",\"num2\":");
    out.append(rec.fields.num2.as_str());
    out.append(",\"addition\":");
    out.append(rec.fields.addition.as_str());
    out.append(",\"subtraction\":");
    out.append(rec.fields.subtraction.as_str());
    out.append(",\"multiplication\":");
    out.append(rec.fields.multiplication.as_str());
    out.append(",\"division\":\"");
    out.append(rec.fields.division.as_str());
    out.append("\"}");
    proof {
        assert(out@ =~= record_json_view(rec@));
    }
    out
}

/// The row objects joined with commas.
pub open spec fn joined_records(rows: Seq<RecordView>) -> Seq<char>
    decreases rows.len(),
{
    if rows.len() == 0 {
        Seq::empty()
    } else if rows.len() == 1 {
        record_json_view(rows[0])
    } else {
        joined_records(rows.drop_last()) + ","@ + record_json_view(rows.last())
    }
}

/// The JSON array reported for the full history, in stored (id) order.
pub open spec fn history_json_view(rows: Seq<RecordView>) -> Seq<char> {
    "["@ + joined_records(rows) + "]"@
}

/// Renders the history of stored records as a JSON array, in the order given.
pub fn history_json(records: &Vec<CalculationRecord>) -> (r: String)
    ensures
        r@ == history_json_view(views_of(records@)),
{
    let mut out = String::from_str("[");
    let mut i: usize = 0;
    while i < records.len()
        invariant
            i <= records@.len(),
            out@ == "["@ + joined_records(views_of(records@).take(i as int)),
        decreases records@.len() - i,
    {
        if i > 0 {
            out.append(",");
        }
        let rj = record_json(&records[i]);
        out.append(rj.as_str());
        proof {
            let m = views_of(records@);
            assert(m.take(i + 1).drop_last() =~= m.take(i as int));
            assert(m.take(i + 1).last() == records@[i as int]@);
            assert(out@ =~= "["@ + joined_records(m.take(i + 1)));
        }
        i += 1;
    }
    out.append("]");
    proof {
        assert(views_of(records@).take(records@.len() as int) =~= views_of(records@));
        assert(out@ =~= history_json_view(views_of(records@)));
    }
    out
}

/// The successful JSON response, with the fixed header set.
pub open spec fn ok_json_response_view(body: Seq<char>) -> Seq<char> {
    "HTTP/1.1 200 OK\r\nContent-Type: application/json\r\nAccess-Control-Allow-Origin: *\r\n\r\n"@
        + body
}

/// Renders the successful JSON response around a body.
pub fn ok_json_response(body: &str) -> (r: String)
    ensures
        r@ == ok_json_response_view(body@),
{
    let mut out = String::from_str(
        "HTTP/1.1 200 OK\r\nContent-Type: application/json\r\nAccess-Control-Allow-Origin: *\r\n\r\n",
    );
    out.append(body);
    out
}

/// The response for a path or method the service does not recognise.
pub open spec fn not_found_response_view() -> Seq<char> {
    "HTTP/1.1 404 Not Found\r\nContent-Type: text/plain\r\nAccess-Control-Allow-Origin: *\r\n\r\nNot Found"@
}

/// Renders the not-found response.
pub fn not_found_response() -> (r: String)
    ensures
        r@ == not_found_response_view(),
{
    String::from_str(
        "HTTP/1.1 404 Not Found\r\nContent-Type: text/plain\r\nAccess-Control-Allow-Origin: *\r\n\r\nNot Found",
    )
}

/// The response for a storage fault: the request is aborted as a server
/// fault and no partial result is emitted.
pub open spec fn server_error_response_view() -> Seq<char> {
    "HTTP/1.1 500 Internal Server Error\r\nContent-Type: text/plain\r\nAccess-Control-Allow-Origin: *\r\n\r\nStorage Error"@
}

/// Renders the server-fault response.
pub fn server_error_response() -> (r: String)
    ensures
        r@ == server_error_response_view(),
{
    String::from_str(
        "HTTP/1.1 500 Internal Server Error\r\nContent-Type: text/plain\r\nAccess-Control-Allow-Origin: *\r\n\r\nStorage Error",
    )
}

/// The backend URL a front-end proxy calls for one calculation.
pub open spec fn proxy_url_view(num1: Seq<char>, num2: Seq<char>) -> Seq<char> {
    "http://127.0.0.1:8080/calculate?num1="@ + num1 + "&num2="@ + num2
}

/// Renders the backend URL for one calculation request.
pub fn proxy_url(num1_text: &str, num2_text: &str) -> (r: String)
    ensures
        r@ == proxy_url_view(num1_text@, num2_text@),
{
    let mut out = String::from_str("http://127.0.0.1:8080/calculate?num1=");
    out.append(num1_text);
    out.append("&num2=");
    out.append(num2_text);
    proof {
        assert(out@ =~= proxy_url_view(num1_text@, num2_text@));
    }
    out
}

} // verus!

use calc_service::calc::{division_sentinel, division_text, is_zero_bits, Computation};
use calc_service::handler::{handle_calculate, handle_history, route, Route};
use calc_service::parse::{parse_request, query_num_texts, str_eq};
use calc_service::respond::{
    json_body, not_found_response, ok_json_response, proxy_url, server_error_response,
};
use calc_service::store::{RecordFields, Store};

const SENTINEL: &str = "undefined (division by zero)";

fn fields(num1: f64, num2: f64) -> RecordFields {
    let quotient = (num1 / num2).to_string();
    RecordFields {
        num1: num1.to_string(),
        num2: num2.to_string(),
        addition: (num1 + num2).to_string(),
        subtraction: (num1 - num2).to_string(),
        multiplication: (num1 * num2).to_string(),
        division: division_text(num2.to_bits(), &quotient),
    }
}

fn compute(num1: f64, num2: f64) -> Computation {
    let quotient = (num1 / num2).to_string();
    Computation::assemble(
        (num1 + num2).to_string(),
        (num1 - num2).to_string(),
        (num1 * num2).to_string(),
        &quotient,
        num2.to_bits(),
    )
}

#[test]
fn division_parses_back_to_quotient() {
    let cases: [(f64, f64); 4] = [(10.0, 4.0), (1.0, 3.0), (-7.5, 0.5), (0.0, 8.0)];
    for (a, b) in cases {
        let text = division_text(b.to_bits(), &(a / b).to_string());
        let parsed: f64 = text.parse().unwrap();
        assert_eq!(parsed, a / b);
    }
}

#[test]
fn zero_divisor_yields_sentinel() {
    assert_eq!(division_text(0.0f64.to_bits(), "inf"), SENTINEL);
    assert_eq!(division_text((-0.0f64).to_bits(), "-inf"), SENTINEL);
    assert_eq!(division_sentinel(), SENTINEL);
    assert!(is_zero_bits(0.0f64.to_bits()));
    assert!(is_zero_bits((-0.0f64).to_bits()));
    assert!(!is_zero_bits(2.5f64.to_bits()));
    assert!(!is_zero_bits(f64::NAN.to_bits()));
}

#[test]
fn assembled_computation_keeps_results() {
    let comp = compute(10.0, 4.0);
    assert_eq!(comp.addition, "14");
    assert_eq!(comp.subtraction, "6");
    assert_eq!(comp.multiplication, "40");
    assert_eq!(comp.division, "2.5");
}

#[test]
fn schema_creation_is_idempotent() {
    let mut store = Store::open(":memory:").unwrap();
    let id = store.append(&fields(1.5, 2.5)).unwrap();
    for _ in 0..5 {
        store.ensure_schema().unwrap();
    }
    assert_eq!(store.schema_definition_count().unwrap(), 1);
    let rows = store.list_all().unwrap();
    assert_eq!(rows.len(), 1);
    assert_eq!(rows[0].id, id);
    assert_eq!(rows[0].fields.num1, "1.5");
    assert_eq!(rows[0].fields.addition, "4");
}

#[test]
fn append_then_list_keeps_order_and_ids_increase() {
    let mut store = Store::open(":memory:").unwrap();
    let inputs: [(f64, f64); 3] = [(1.0, 2.0), (10.0, 4.0), (5.0, 0.0)];
    let mut ids = Vec::new();
    for (a, b) in inputs {
        ids.push(store.append(&fields(a, b)).unwrap());
    }
    let rows = store.list_all().unwrap();
    assert_eq!(rows.len(), 3);
    for (i, (a, b)) in inputs.iter().enumerate() {
        assert_eq!(rows[i].id, ids[i]);
        assert_eq!(rows[i].fields.num1, a.to_string());
        assert_eq!(rows[i].fields.num2, b.to_string());
        assert_eq!(rows[i].fields.multiplication, (a * b).to_string());
    }
    assert!(ids[0] < ids[1] && ids[1] < ids[2]);
}

#[test]
fn missing_parameter_is_treated_as_zero() {
    let raw = "GET /calculate?num1=5 HTTP/1.1\r\nHost: localhost\r\n\r\n";
    let parts = parse_request(raw);
    assert_eq!(parts.method, "GET");
    assert_eq!(parts.path, "/calculate");
    assert_eq!(parts.query, "num1=5");
    let (n1, n2) = query_num_texts(&parts.query);
    let num1: f64 = n1.and_then(|t| t.parse().ok()).unwrap_or(0.0);
    let num2: f64 = n2.and_then(|t| t.parse().ok()).unwrap_or(0.0);
    assert_eq!((num1, num2), (5.0, 0.0));
    let comp = compute(num1, num2);
    let body = json_body(
        &comp.addition,
        &comp.subtraction,
        &comp.multiplication,
        &comp.division,
    );
    assert_eq!(
        body,
        "{\"addition\":5,\"subtraction\":5,\"multiplication\":0,\
         \"division\":\"undefined (division by zero)\"}"
    );
}

#[test]
fn concrete_calculation_scenario() {
    let raw = "GET /calculate?num1=10&num2=4 HTTP/1.1\r\nHost: localhost\r\n\r\n";
    let parts = parse_request(raw);
    assert_eq!(route(&parts.method, &parts.path), Route::Calculate);
    let (n1, n2) = query_num_texts(&parts.query);
    let num1: f64 = n1.and_then(|t| t.parse().ok()).unwrap_or(0.0);
    let num2: f64 = n2.and_then(|t| t.parse().ok()).unwrap_or(0.0);
    let comp = compute(num1, num2);
    let mut store = Store::open(":memory:").unwrap();
    let response = handle_calculate(&mut store, "10", "4", comp).unwrap();
    assert_eq!(
        response,
        "HTTP/1.1 200 OK\r\nContent-Type: application/json\r\n\
         Access-Control-Allow-Origin: *\r\n\r\n\
         {\"addition\":14,\"subtraction\":6,\"multiplication\":40,\"division\":\"2.5\"}"
    );
    let rows = store.list_all().unwrap();
    assert_eq!(rows.len(), 1);
    assert_eq!(rows[0].fields.division, "2.5");
}

#[test]
fn unknown_path_is_not_found() {
    assert_eq!(route("GET", "/foo"), Route::NotFound);
    assert_eq!(route("POST", "/calculate"), Route::NotFound);
    assert_eq!(route("GET", "/calculatefoo"), Route::NotFound);
    assert_eq!(route("GET", "/history"), Route::History);
    assert_eq!(
        not_found_response(),
        "HTTP/1.1 404 Not Found\r\nContent-Type: text/plain\r\n\
         Access-Control-Allow-Origin: *\r\n\r\nNot Found"
    );
}

#[test]
fn each_request_gets_a_unique_id() {
    let mut store = Store::open(":memory:").unwrap();
    let id1 = store.append(&fields(2.0, 2.0)).unwrap();
    let id2 = store.append(&fields(2.0, 2.0)).unwrap();
    assert_ne!(id1, id2);
    let rows = store.list_all().unwrap();
    assert_eq!(rows.len(), 2);
    assert_eq!(rows[0].id, id1);
    assert_eq!(rows[1].id, id2);
}

#[test]
fn history_renders_stored_rows_in_order() {
    let mut store = Store::open(":memory:").unwrap();
    assert_eq!(
        handle_history(&store).unwrap(),
        "HTTP/1.1 200 OK\r\nContent-Type: application/json\r\n\
         Access-Control-Allow-Origin: *\r\n\r\n[]"
    );
    store.append(&fields(10.0, 4.0)).unwrap();
    store.append(&fields(5.0, 0.0)).unwrap();
    let response = handle_history(&store).unwrap();
    assert_eq!(
        response,
        "HTTP/1.1 200 OK\r\nContent-Type: application/json\r\n\
         Access-Control-Allow-Origin: *\r\n\r\n\
         [{\"num1\":10,\"num2\":4,\"addition\":14,\"subtraction\":6,\
         \"multiplication\":40,\"division\":\"2.5\"},\
         {\"num1\":5,\"num2\":0,\"addition\":5,\"subtraction\":5,\
         \"multiplication\":0,\"division\":\"undefined (division by zero)\"}]"
    );
}

#[test]
fn storage_error_on_unusable_medium() {
    let result = Store::open("/nonexistent-directory-for-sure/db.sqlite3");
    assert!(result.is_err());
}

#[test]
fn last_occurrence_of_a_parameter_wins() {
    let (n1, n2) = query_num_texts("num1=1&num1=2&num2=3");
    assert_eq!(n1.as_deref(), Some("2"));
    assert_eq!(n2.as_deref(), Some("3"));
}

#[test]
fn parameter_without_equals_has_empty_value() {
    let (n1, n2) = query_num_texts("num1&num2=7");
    assert_eq!(n1.as_deref(), Some(""));
    assert_eq!(n2.as_deref(), Some("7"));
}

#[test]
fn parameter_value_stops_at_second_equals() {
    let (n1, n2) = query_num_texts("num1=5=9&other=1");
    assert_eq!(n1.as_deref(), Some("5"));
    assert_eq!(n2, None);
}

#[test]
fn empty_query_has_no_parameters() {
    let (n1, n2) = query_num_texts("");
    assert_eq!(n1, None);
    assert_eq!(n2, None);
}

#[test]
fn target_query_stops_at_second_question_mark() {
    let parts = parse_request("GET /calculate?num1=1?num2=2 HTTP/1.1\r\n");
    assert_eq!(parts.path, "/calculate");
    assert_eq!(parts.query, "num1=1");
}

#[test]
fn request_without_target_parses_to_empty_parts() {
    let parts = parse_request("GET");
    assert_eq!(parts.method, "GET");
    assert_eq!(parts.path, "");
    assert_eq!(parts.query, "");
}

#[test]
fn string_equality_helper_compares_contents() {
    assert!(str_eq("GET", "GET"));
    assert!(!str_eq("GET", "PUT"));
    assert!(!str_eq("GET", "GETX"));
    assert!(str_eq("", ""));
}

#[test]
fn ok_response_carries_fixed_headers() {
    let response = ok_json_response("{}");
    assert_eq!(
        response,
        "HTTP/1.1 200 OK\r\nContent-Type: application/json\r\n\
         Access-Control-Allow-Origin: *\r\n\r\n{}"
    );
    assert!(server_error_response().starts_with("HTTP/1.1 500 Internal Server Error\r\n"));
}

#[test]
fn proxy_url_targets_the_backend() {
    assert_eq!(
        proxy_url("10", "4"),
        "http://127.0.0.1:8080/calculate?num1=10&num2=4"
    );
}

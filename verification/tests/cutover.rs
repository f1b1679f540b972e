use authboundry::cli::cutover::{
    after_anonymous, after_authenticated, after_direct, after_public, after_sign_in, cutover_ready,
    verified_record, Reply,
};
use authboundry::cli::serve::Account;
use authboundry::discovery::model::{RouteCandidate, RouteSource};

fn route(path: &str) -> RouteCandidate {
    RouteCandidate {
        method: "GET".to_string(),
        path: path.to_string(),
        source: RouteSource::Express,
        capability: None,
    }
}

fn answered(status: u16) -> Reply {
    Reply::Answered { status, session: None }
}

#[test]
fn cutover_begins_only_from_a_planned_reversible_bridged_integration() {
    let planned = Some("{\"status\": \"planned\"}".to_string());
    assert!(cutover_ready(&planned, true, true, true).is_ok());
    assert_eq!(
        cutover_ready(&None, true, true, true).unwrap_err().message,
        "no AuthBoundry integration plan exists; run `authboundry init` first"
    );
    assert_eq!(
        cutover_ready(&Some("{\"status\": \"verified\"}".to_string()), true, true, true).unwrap_err().message,
        "integration is not awaiting cutover"
    );
    assert_eq!(
        cutover_ready(&planned, false, true, true).unwrap_err().message,
        "cutover refused: reversible rollback journal is missing"
    );
    assert_eq!(cutover_ready(&planned, true, false, true).unwrap_err().message, "application is no longer discoverable");
    assert_eq!(
        cutover_ready(&planned, true, true, false).unwrap_err().message,
        "cutover refused: native framework bridge is missing"
    );
}

#[test]
fn the_public_route_must_answer_and_a_protected_route_must_exist() {
    let routes = vec![route("/"), route("/login/"), route("/invoices")];
    assert_eq!(after_public(&routes, &answered(200)).unwrap(), "/invoices");
    assert_eq!(
        after_public(&routes, &answered(502)).unwrap_err().message,
        "cutover refused: public route returned 502"
    );
    assert_eq!(
        after_public(&routes, &Reply::Failed("refused".to_string())).unwrap_err().message,
        "public-route verification failed: refused"
    );
    assert_eq!(
        after_public(&vec![route("/")], &answered(200)).unwrap_err().message,
        "cutover refused: no protected application route was discovered"
    );
}

#[test]
fn anonymous_access_must_be_denied_before_the_admin_signs_in() {
    let admin = Account {
        tenant: "development".to_string(),
        username: "admin".to_string(),
        password: "p\"w".to_string(),
        claims: Vec::new(),
    };
    assert_eq!(
        after_anonymous("/invoices", &answered(401), Some(&admin)).unwrap(),
        "{\"tenant\":\"development\",\"connector\":\"local\",\"username\":\"admin\",\"password\":\"p\\\"w\"}"
    );
    assert_eq!(
        after_anonymous("/invoices", &answered(200), Some(&admin)).unwrap_err().message,
        "cutover refused: anonymous request to `/invoices` returned 200, expected denial"
    );
    assert_eq!(
        after_anonymous("/invoices", &answered(403), None).unwrap_err().message,
        "cutover refused: development admin account is missing"
    );
}

#[test]
fn the_admin_session_must_reach_the_route_and_bypass_must_be_denied() {
    let signed = Reply::Answered { status: 200, session: Some("abc".to_string()) };
    assert_eq!(after_sign_in(&signed).unwrap(), "abc");
    assert_eq!(after_sign_in(&answered(200)).unwrap_err().message, "cutover refused: admin sign-in issued no session");
    assert_eq!(after_sign_in(&answered(401)).unwrap_err().message, "cutover refused: admin sign-in returned 401");
    assert!(after_authenticated("/invoices", &answered(200)).is_ok());
    assert_eq!(
        after_authenticated("/invoices", &answered(403)).unwrap_err().message,
        "cutover refused: authenticated route `/invoices` returned 403"
    );
    assert!(after_direct("/invoices", &answered(403)).is_ok());
    assert_eq!(
        after_direct("/invoices", &answered(200)).unwrap_err().message,
        "cutover refused: direct application access to `/invoices` returned 200; protection remains bypassable"
    );
    assert_eq!(
        verified_record("{\n  \"status\": \"planned\"\n}\n"),
        "{\n  \"status\": \"verified\"\n}\n"
    );
}

use rollcall::app_server::{
    initialize_request, initialized_notice, list_request, read_request, PageRequest,
    ThreadListing,
};
use rollcall::codex::{RawThread, RawThreadStatus};
use serde_json::Value;

fn document(text: &str) -> Value {
    serde_json::from_str(text).expect("the request is a document")
}

fn thread(id: &str) -> RawThread {
    RawThread {
        id: id.to_owned(),
        cwd: "/work".to_owned(),
        name: Some(id.to_owned()),
        preview: String::new(),
        recency_at: None,
        updated_at: 7,
        source: "{}".to_owned(),
        status: RawThreadStatus::Idle,
    }
}

#[test]
fn a_connection_is_opened_by_name_and_version() {
    let request = document(&initialize_request(1, "1.\"2\""));
    assert_eq!(request["jsonrpc"], "2.0");
    assert_eq!(request["id"], 1);
    assert_eq!(request["method"], "initialize");
    assert_eq!(request["params"]["clientInfo"]["name"], "rollcall");
    assert_eq!(request["params"]["clientInfo"]["version"], "1.\"2\"");
    assert_eq!(request["params"]["capabilities"]["experimentalApi"], true);
    let notice = document(initialized_notice());
    assert_eq!(notice["method"], "initialized");
    assert!(notice.get("id").is_none());
}

#[test]
fn pages_and_turns_are_asked_for() {
    let first = document(&list_request(
        2,
        &PageRequest {
            cursor: None,
            size: 50,
        },
    ));
    assert_eq!(first["method"], "thread/list");
    assert_eq!(first["params"]["cursor"], Value::Null);
    assert_eq!(first["params"]["limit"], 50);
    assert_eq!(first["params"]["archived"], false);
    assert_eq!(first["params"]["sortDirection"], "desc");
    assert_eq!(first["params"]["sortKey"], "recency_at");
    assert_eq!(first["params"]["useStateDbOnly"], true);
    assert_eq!(
        first["params"]["sourceKinds"].to_string(),
        "[\"cli\",\"vscode\",\"exec\",\"appServer\",\"unknown\"]"
    );
    let second = document(&list_request(
        3,
        &PageRequest {
            cursor: Some("a\nb".to_owned()),
            size: 1,
        },
    ));
    assert_eq!(second["params"]["cursor"], "a\nb");
    let turns = document(&read_request(4, "019\"f"));
    assert_eq!(turns["id"], 4);
    assert_eq!(turns["method"], "thread/read");
    assert_eq!(turns["params"]["threadId"], "019\"f");
    assert_eq!(turns["params"]["includeTurns"], true);
}

#[test]
fn a_listing_goes_on_until_the_limit_or_the_last_page() {
    let mut listing = ThreadListing::new(Some(3));
    assert_eq!(
        listing.next(),
        Some(PageRequest {
            cursor: None,
            size: 3,
        })
    );
    listing.answered(vec![thread("a"), thread("b")], Some("next".to_owned()));
    assert_eq!(
        listing.next(),
        Some(PageRequest {
            cursor: Some("next".to_owned()),
            size: 1,
        })
    );
    listing.answered(vec![thread("c")], Some("more".to_owned()));
    assert_eq!(listing.next(), None);
    let titles: Vec<&str> = listing.sessions.iter().map(|s| s.title.as_str()).collect();
    assert_eq!(titles, ["a", "b", "c"]);
    assert_eq!(listing.sessions[0].source, "unknown");

    let mut unlimited = ThreadListing::new(None);
    assert_eq!(unlimited.next().map(|page| page.size), Some(100));
    unlimited.answered(vec![thread("a")], None);
    assert_eq!(unlimited.next(), None);
}

//! The byte codec: action decoding and response encoding.

use wumpus::engine::Action;
use wumpus::json::parse_action;

#[test]
fn parses_bare_actions() {
    assert_eq!(parse_action(b"\"ReStart\""), Some(Action::ReStart));
    assert_eq!(parse_action(b"\"Instructions\""), Some(Action::Instructions));
    assert_eq!(parse_action(b"\"Quit\""), Some(Action::Quit));
}

#[test]
fn parses_move() {
    assert_eq!(parse_action(b"{\"Move\":5}"), Some(Action::Move(5)));
    assert_eq!(parse_action(b"{\"Move\":20}"), Some(Action::Move(20)));
    assert_eq!(parse_action(b"{\"Move\":0}"), Some(Action::Move(0)));
    assert_eq!(parse_action(b"{\"Move\":255}"), Some(Action::Move(255)));
}

#[test]
fn parses_shoot() {
    assert_eq!(
        parse_action(b"{\"Shoot\":[1,2,3]}"),
        Some(Action::Shoot(vec![1, 2, 3]))
    );
    assert_eq!(parse_action(b"{\"Shoot\":[7]}"), Some(Action::Shoot(vec![7])));
    assert_eq!(parse_action(b"{\"Shoot\":[]}"), Some(Action::Shoot(vec![])));
}

#[test]
fn tolerates_json_whitespace() {
    assert_eq!(parse_action(b" \"Quit\" "), Some(Action::Quit));
    assert_eq!(parse_action(b"\t\"ReStart\"\n"), Some(Action::ReStart));
    assert_eq!(parse_action(b"{ \"Move\" : 3 }"), Some(Action::Move(3)));
    assert_eq!(parse_action(b"{\"Move\":3 }\r\n"), Some(Action::Move(3)));
    assert_eq!(
        parse_action(b"{ \"Shoot\" : [ 1 , 2 , 3 ] }"),
        Some(Action::Shoot(vec![1, 2, 3]))
    );
    assert_eq!(parse_action(b"{ \"Shoot\" : [ ] }"), Some(Action::Shoot(vec![])));
}

#[test]
fn accepts_object_form_of_bare_actions() {
    assert_eq!(parse_action(b"{\"Quit\":null}"), Some(Action::Quit));
    assert_eq!(parse_action(b"{ \"ReStart\" : null }"), Some(Action::ReStart));
    assert_eq!(
        parse_action(b"{\"Instructions\":null}"),
        Some(Action::Instructions)
    );
    assert_eq!(parse_action(b"{\"Quit\":1}"), None);
}

#[test]
fn rejects_malformed_payloads() {
    assert_eq!(parse_action(b""), None);
    assert_eq!(parse_action(b"\"Jump\""), None);
    assert_eq!(parse_action(b"{\"Move\":}"), None);
    assert_eq!(parse_action(b"{\"Move\":256}"), None);
    assert_eq!(parse_action(b"{\"Move\":05}"), None);
    assert_eq!(parse_action(b"{\"Move\":5"), None);
    assert_eq!(parse_action(b"{\"Shoot\":[1,2"), None);
    assert_eq!(parse_action(b"{\"Shoot\":[1,]}"), None);
    assert_eq!(parse_action(b"{\"Shoot\":1}"), None);
    assert_eq!(parse_action(b"ReStart"), None);
}

#[test]
fn from_json_matches_parse_action() {
    assert_eq!(Action::from_json("\"Quit\""), Some(Action::Quit));
    assert_eq!(Action::from_json("{\"Move\":12}"), Some(Action::Move(12)));
    assert_eq!(Action::from_json("{\"Move\":12"), None);
}

#[test]
fn rejection_is_deterministic() {
    for _ in 0..10 {
        assert_eq!(parse_action(b"{\"Shoot\":[1,2"), None);
        assert_eq!(parse_action(b"{\"Move\":5}"), Some(Action::Move(5)));
    }
}

#[test]
fn accepted_payloads_agree_with_a_reference_decoder() {
    let payloads: [&[u8]; 7] = [
        b"\"ReStart\"",
        b"\"Quit\"",
        b"{\"Move\":17}",
        b"{\"Shoot\":[1,2,3]}",
        b"{\"Shoot\":[]}",
        b" { \"Move\" : 17 } ",
        b"{ \"Shoot\" : [ 1 , 2 ] }\n",
    ];
    for p in payloads {
        let txt = std::str::from_utf8(p).unwrap();
        let reference: Result<serde_json::Value, _> = serde_json::from_str(txt);
        assert!(reference.is_ok());
        assert!(parse_action(p).is_some());
    }
}

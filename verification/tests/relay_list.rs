use nostr_sync::error::Error;
use nostr_sync::relay::{parse_relay_list, Relay, RelaySet};

fn texts(set: &RelaySet) -> Vec<String> {
    set.relays().iter().map(|r| r.as_str().to_string()).collect()
}

#[test]
fn empty_and_blank_lists_name_no_relay() {
    for value in ["", ",", " , ,", "\t\n, \r\n"] {
        let set = parse_relay_list(value).unwrap();
        assert!(set.is_empty(), "{:?}", value);
    }
}

#[test]
fn trailing_separator_changes_nothing() {
    let a = parse_relay_list("wss://a.example,wss://b.example").unwrap();
    let b = parse_relay_list("wss://a.example,wss://b.example,").unwrap();
    assert!(a.same_relays(&b));
}

#[test]
fn duplicates_are_held_once_with_their_first_text() {
    let set = parse_relay_list("wss://a.example/,wss://a.example, wss://a.example/").unwrap();
    assert_eq!(set.len(), 1);
    assert_eq!(texts(&set), vec!["wss://a.example/".to_string()]);

    let set = parse_relay_list("wss://a.example,wss://a.example/").unwrap();
    assert_eq!(set.len(), 1);
    assert_eq!(texts(&set), vec!["wss://a.example".to_string()]);
}

#[test]
fn relay_text_keeps_a_trailing_slash_only_where_given() {
    let plain = Relay::parse("wss://relay.example").unwrap();
    let slashed = Relay::parse("wss://relay.example/").unwrap();
    assert_eq!(plain.as_str(), "wss://relay.example");
    assert_eq!(slashed.as_str(), "wss://relay.example/");
    assert!(plain.same_relay(&slashed));
    assert!(!plain.same_relay(&Relay::parse("wss://other.example").unwrap()));
}

#[test]
fn relay_text_is_normalized_by_the_parser() {
    let relay = Relay::parse("WSS://Relay.Example").unwrap();
    assert_eq!(relay.as_str(), "wss://relay.example");
}

#[test]
fn non_websocket_schemes_are_refused() {
    assert!(Relay::parse("https://relay.example").is_err());
    match parse_relay_list("wss://ok.example, https://relay.example ,wss://later.example") {
        Err(Error::InvalidRelayUrl(entry, _)) => assert_eq!(entry, "https://relay.example"),
        _ => panic!("expected an invalid relay"),
    }
}

#[test]
fn first_invalid_entry_is_reported() {
    match parse_relay_list("bad-one,bad-two") {
        Err(Error::InvalidRelayUrl(entry, _)) => assert_eq!(entry, "bad-one"),
        _ => panic!("expected an invalid relay"),
    }
}

#[test]
fn empty_pieces_between_relays_are_skipped() {
    let set = parse_relay_list(",,wss://a.example,, ,wss://b.example").unwrap();
    assert_eq!(
        texts(&set),
        vec!["wss://a.example".to_string(), "wss://b.example".to_string()]
    );
}

#[test]
fn relay_set_insert_and_contains() {
    let mut set = RelaySet::new();
    assert!(set.is_empty());
    assert!(set.insert(Relay::parse("wss://a.example").unwrap()));
    assert!(!set.insert(Relay::parse("wss://a.example/").unwrap()));
    assert_eq!(set.len(), 1);
    assert!(set.contains(&Relay::parse("wss://a.example/").unwrap()));
    assert!(!set.contains(&Relay::parse("wss://b.example").unwrap()));
    assert_eq!(texts(&set), vec!["wss://a.example".to_string()]);
}

#[test]
fn same_relays_ignores_order() {
    let a = parse_relay_list("wss://a.example,wss://b.example").unwrap();
    let b = parse_relay_list("wss://b.example,wss://a.example").unwrap();
    let c = parse_relay_list("wss://a.example").unwrap();
    assert!(a.same_relays(&b));
    assert!(!a.same_relays(&c));
}

#[test]
fn two_scheme_separators_are_refused() {
    assert!(Relay::parse("wss://a.example://b").is_err());
}

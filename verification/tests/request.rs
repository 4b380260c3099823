use slack_export::model::Channel;
use slack_export::request::{Endpoint, Request, Token};

fn pair(key: &str, value: &str) -> (String, String) {
    (key.to_string(), value.to_string())
}

fn channel(id: &str, name: &str) -> Channel {
    Channel { id: id.to_string(), name: name.to_string() }
}

#[test]
fn token_is_never_empty() {
    assert!(Token::new(String::new()).is_none());
    let token = Token::new("xoxp-1".to_string()).unwrap();
    assert_eq!(token.as_str(), "xoxp-1");
}

#[test]
fn channel_list_asks_for_both_kinds() {
    let request = Request::channel_list(None);
    assert_eq!(request.endpoint, Endpoint::ChannelList);
    assert_eq!(request.params, vec![pair("types", "private_channel,public_channel")]);
}

#[test]
fn channel_list_carries_the_cursor() {
    let cursor = "next".to_string();
    let request = Request::channel_list(Some(&cursor));
    assert_eq!(
        request.params,
        vec![pair("types", "private_channel,public_channel"), pair("cursor", "next")]
    );
}

#[test]
fn channel_history_names_the_channel_by_id() {
    let request = Request::channel_history(&channel("C1", "general"), None);
    assert_eq!(request.endpoint, Endpoint::ChannelHistory);
    assert_eq!(request.params, vec![pair("channel", "C1")]);
}

#[test]
fn channel_history_carries_the_cursor() {
    let cursor = "abc".to_string();
    let request = Request::channel_history(&channel("C1", "general"), Some(&cursor));
    assert_eq!(request.params, vec![pair("channel", "C1"), pair("cursor", "abc")]);
}

#[test]
fn an_empty_cursor_is_still_a_cursor() {
    let cursor = String::new();
    let request = Request::channel_history(&channel("C1", "general"), Some(&cursor));
    assert_eq!(request.params, vec![pair("channel", "C1"), pair("cursor", "")]);
}

#[test]
fn form_puts_the_token_first() {
    let token = Token::new("secret".to_string()).unwrap();
    let cursor = "abc".to_string();
    let history = Request::channel_history(&channel("C1", "general"), Some(&cursor));
    assert_eq!(
        history.form(&token),
        vec![pair("token", "secret"), pair("channel", "C1"), pair("cursor", "abc")]
    );
    let listing = Request::channel_list(None);
    assert_eq!(
        listing.form(&token),
        vec![pair("token", "secret"), pair("types", "private_channel,public_channel")]
    );
}

#[test]
fn form_keys_are_unique() {
    let token = Token::new("secret".to_string()).unwrap();
    let cursor = "abc".to_string();
    let form = Request::channel_history(&channel("C1", "general"), Some(&cursor)).form(&token);
    for i in 0..form.len() {
        for j in (i + 1)..form.len() {
            assert_ne!(form[i].0, form[j].0);
        }
    }
}

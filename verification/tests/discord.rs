use wombat::connection::Outcome;
use wombat::discord::fetch_reply;
use wombat::discord::fetch_target;
use wombat::discord::invalid_body_reply;
use wombat::discord::invalid_url_reply;
use wombat::discord::method_or_default;
use wombat::discord::MethodInput;
use wombat::discord::Target;
use wombat::utils::push_decimal;

#[test]
fn the_method_defaults_to_get() {
    assert_eq!(method_or_default(None), MethodInput::GET);
    assert_eq!(method_or_default(Some(MethodInput::PATCH)), MethodInput::PATCH);
    assert_eq!(method_or_default(Some(MethodInput::GET)), MethodInput::GET);
}

#[test]
fn methods_have_their_names() {
    assert_eq!(MethodInput::GET.name(), "GET");
    assert_eq!(MethodInput::POST.name(), "POST");
    assert_eq!(MethodInput::PUT.name(), "PUT");
    assert_eq!(MethodInput::DELETE.name(), "DELETE");
    assert_eq!(MethodInput::PATCH.name(), "PATCH");
}

#[test]
fn a_command_in_a_guild_goes_to_its_manager() {
    assert_eq!(
        fetch_target(Some(1234567890123456789), 42),
        Target::Manager { guild_id: "1234567890123456789".to_string() }
    );
    assert_eq!(fetch_target(Some(0), 42), Target::Manager { guild_id: "0".to_string() });
}

#[test]
fn a_command_elsewhere_goes_to_its_author() {
    assert_eq!(fetch_target(None, 42), Target::Author { user_id: "42".to_string() });
    assert_eq!(
        fetch_target(None, u64::MAX),
        Target::Author { user_id: "18446744073709551615".to_string() }
    );
}

#[test]
fn the_caller_is_told_what_became_of_the_request() {
    assert_eq!(fetch_reply(Outcome::Forwarded("pong".to_string())), "pong");
    assert_eq!(fetch_reply(Outcome::NotConnected), "Wombat client not connected!");
    assert_eq!(fetch_reply(Outcome::TransportError), "Wombat client did not answer!");
    assert_ne!(fetch_reply(Outcome::NotConnected), fetch_reply(Outcome::TransportError));
}

#[test]
fn bad_input_is_named() {
    assert_eq!(invalid_url_reply("empty string"), "Invalid url: empty string");
    assert_eq!(invalid_body_reply("EOF at line 1"), "Invalid body: EOF at line 1");
}

#[test]
fn numbers_are_written_in_decimal() {
    for n in [0u64, 1, 9, 10, 11, 99, 100, 101, 1000, 274877941760, u64::MAX] {
        let mut text = String::from("n=");
        push_decimal(&mut text, n);
        assert_eq!(text, format!("n={n}"));
    }
}

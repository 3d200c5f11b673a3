use parley::probe_reply;
use parley::react;
use parley::Registry;
use parley::User;

fn controller() -> User {
    User::new(
        Some("ctl".to_string()),
        Some("c".to_string()),
        Some("h".to_string()),
        false,
    )
}

#[test]
fn probe_line_yields_exact_acknowledgment() {
    let registry = Registry::new();
    let r = react("PING :abc", &controller(), &registry);
    assert_eq!(r.pong, Some("PONG :abc".to_string()));
    assert!(r.dispatch.is_none());
    assert!(r.error.is_none());
}

#[test]
fn acknowledgment_is_not_answered_again() {
    let registry = Registry::new();
    let r = react("PONG :abc", &controller(), &registry);
    assert_eq!(r.pong, None);
}

#[test]
fn server_prefixed_probe_is_answered_in_place() {
    let registry = Registry::new();
    let r = react(":iridium.libera.chat PING :tok", &controller(), &registry);
    assert_eq!(r.pong, Some(":iridium.libera.chat PONG :tok".to_string()));
}

#[test]
fn probe_from_a_user_is_not_answered() {
    let registry = Registry::new();
    let r = react(":nick!ident@host PING :abc", &controller(), &registry);
    assert_eq!(r.pong, None);
}

#[test]
fn non_probe_server_line_is_not_answered() {
    let registry = Registry::new();
    let r = react(":server.name NOTICE * :hello", &controller(), &registry);
    assert_eq!(r.pong, None);
}

#[test]
fn substitution_touches_only_the_command_token() {
    assert_eq!(probe_reply("PING :PING"), "PONG :PING".to_string());
    assert_eq!(probe_reply(":srv PING PING"), ":srv PONG PING".to_string());
    assert_eq!(probe_reply("PIPING"), "PIPING".to_string());
    assert_eq!(probe_reply("nothing here"), "nothing here".to_string());
    assert_eq!(probe_reply(""), "".to_string());
}

#[test]
fn probe_token_elsewhere_in_the_line_stays_byte_for_byte() {
    let registry = Registry::new();
    let r = react("PING :PING", &controller(), &registry);
    assert_eq!(r.pong, Some("PONG :PING".to_string()));
}

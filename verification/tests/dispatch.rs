use parley::react;
use parley::ParseError;
use parley::Registry;
use parley::User;

fn controller() -> User {
    User::new(
        Some("ctl".to_string()),
        Some("c".to_string()),
        Some("h".to_string()),
        false,
    )
}

fn registry_with_join() -> (Registry, usize) {
    let mut registry = Registry::new();
    let slot = registry.register("!join".to_string());
    (registry, slot)
}

#[test]
fn authorized_registered_order_dispatches() {
    let (registry, slot) = registry_with_join();
    let r = react(":ctl!c@h PRIVMSG bot :!join #room", &controller(), &registry);
    let d = r.dispatch.expect("the controller's registered order must fire");
    assert_eq!(d.handler, slot);
    assert_eq!(d.parameters, vec!["#room".to_string()]);
    assert!(r.error.is_none());
    assert!(r.pong.is_none());
}

#[test]
fn same_line_from_other_identity_does_not_dispatch() {
    let (registry, _) = registry_with_join();
    let r = react(
        ":ctl!other@h PRIVMSG bot :!join #room",
        &controller(),
        &registry,
    );
    assert!(r.dispatch.is_none());
    assert!(r.error.is_none());
}

#[test]
fn authorization_is_exact_identity_not_nickname_only() {
    let exact = User::new(
        Some("ctl".to_string()),
        Some("ctl".to_string()),
        Some("x".to_string()),
        false,
    );
    let same = User::new(
        Some("ctl".to_string()),
        Some("ctl".to_string()),
        Some("x".to_string()),
        false,
    );
    let other_ident = User::new(
        Some("ctl".to_string()),
        Some("other".to_string()),
        Some("x".to_string()),
        false,
    );
    assert!(exact == same);
    assert!(exact != other_ident);

    let (registry, _) = registry_with_join();
    let fires = react(":ctl!ctl@x PRIVMSG bot :!join #room", &exact, &registry);
    assert!(fires.dispatch.is_some());
    let misses = react(
        ":ctl!ctl@x PRIVMSG bot :!join #room",
        &other_ident,
        &registry,
    );
    assert!(misses.dispatch.is_none());
}

#[test]
fn dispatch_is_exact_string_and_case_sensitive() {
    let (registry, _) = registry_with_join();
    let fires = react(":ctl!c@h PRIVMSG bot :!join #room", &controller(), &registry);
    assert!(fires.dispatch.is_some());
    let wrong_case = react(":ctl!c@h PRIVMSG bot :!Join #room", &controller(), &registry);
    assert!(wrong_case.dispatch.is_none());
    assert!(wrong_case.error.is_none());
    let no_marker = react(":ctl!c@h PRIVMSG bot :Join #room", &controller(), &registry);
    assert!(no_marker.dispatch.is_none());
}

#[test]
fn unregistered_order_is_silently_dropped() {
    let (registry, _) = registry_with_join();
    let r = react(":ctl!c@h PRIVMSG bot :!part #room", &controller(), &registry);
    assert!(r.dispatch.is_none());
    assert!(r.error.is_none());
    assert!(r.pong.is_none());
}

#[test]
fn malformed_order_from_controller_is_reported() {
    let (registry, _) = registry_with_join();
    let r = react(":ctl!c@h PRIVMSG bot", &controller(), &registry);
    assert!(r.dispatch.is_none());
    assert!(matches!(r.error, Some(ParseError::MalformedOrder)));
}

#[test]
fn malformed_line_is_reported_not_dispatched() {
    let (registry, _) = registry_with_join();
    let r = react(":ctl!c PRIVMSG bot :!join #room", &controller(), &registry);
    assert!(r.dispatch.is_none());
    assert!(matches!(r.error, Some(ParseError::MalformedSender)));
}

#[test]
fn received_frame_is_trimmed_then_judged() {
    let (registry, slot) = registry_with_join();
    let line = parley::trim_line(":ctl!c@h PRIVMSG bot :!join #room\r\n");
    let r = react(&line, &controller(), &registry);
    let d = r.dispatch.expect("the trimmed frame must still dispatch");
    assert_eq!(d.handler, slot);
    assert_eq!(d.parameters, vec!["#room".to_string()]);
}

#[test]
fn empty_registry_never_dispatches() {
    let registry = Registry::new();
    let r = react(":ctl!c@h PRIVMSG bot :!join #room", &controller(), &registry);
    assert!(r.dispatch.is_none());
    assert!(r.error.is_none());
}

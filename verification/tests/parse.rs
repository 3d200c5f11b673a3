use parley::parse_msg;
use parley::parse_order;
use parley::parse_sender;
use parley::ParseError;
use parley::User;

#[test]
fn user_prefixed_line_parses_to_user_identity() {
    let msg = parse_msg(":nick!ident@host COMMAND p1 p2").unwrap();
    let expected = User::new(
        Some("nick".to_string()),
        Some("ident".to_string()),
        Some("host".to_string()),
        false,
    );
    assert!(msg.sender == expected);
    assert_eq!(msg.command, "COMMAND");
    assert_eq!(msg.parameters, vec!["p1".to_string(), "p2".to_string()]);
}

#[test]
fn server_prefixed_line_parses_to_server_identity() {
    let msg = parse_msg(":server.name COMMAND p1").unwrap();
    let server = User::new(None, None, None, true);
    assert!(msg.sender == server);
    assert!(msg.sender.is_server());
    assert_eq!(msg.command, "COMMAND");
    assert_eq!(msg.parameters, vec!["p1".to_string()]);
}

#[test]
fn unprefixed_line_parses_to_server_identity() {
    let msg = parse_msg("PING :token").unwrap();
    let server = User::new(None, None, None, true);
    assert!(msg.sender == server);
    assert_eq!(msg.command, "PING");
    assert_eq!(msg.parameters, vec![":token".to_string()]);
}

#[test]
fn real_notice_line_parses() {
    let msg = parse_msg(":strontium.libera.chat NOTICE * :*** Checking Ident").unwrap();
    assert!(msg.sender.is_server());
    assert_eq!(msg.command, "NOTICE");
    assert_eq!(
        msg.parameters,
        vec![
            "*".to_string(),
            ":***".to_string(),
            "Checking".to_string(),
            "Ident".to_string()
        ]
    );
}

#[test]
fn empty_line_is_missing_command() {
    assert!(matches!(parse_msg(""), Err(ParseError::MissingCommand)));
}

#[test]
fn single_token_line_is_missing_command() {
    assert!(matches!(parse_msg("PING"), Err(ParseError::MissingCommand)));
}

#[test]
fn prefix_without_at_sign_is_malformed_sender() {
    assert!(matches!(
        parse_msg(":nick!ident PRIVMSG bot :!join"),
        Err(ParseError::MalformedSender)
    ));
}

#[test]
fn prefix_with_two_at_signs_is_malformed_sender() {
    assert!(matches!(
        parse_msg(":nick!a@b@c PRIVMSG bot :!join"),
        Err(ParseError::MalformedSender)
    ));
}

#[test]
fn sender_token_without_user_separator_is_server() {
    let u = parse_sender(":server.name").unwrap();
    assert!(u.is_server());
}

#[test]
fn sender_token_with_separator_but_no_colon_is_malformed() {
    assert!(matches!(
        parse_sender("nick!ident@host"),
        Err(ParseError::MalformedSender)
    ));
}

#[test]
fn sender_remainder_runs_to_the_token_end() {
    let u = parse_sender(":a!b!c@d").unwrap();
    let expected = User::new(
        Some("a".to_string()),
        Some("b!c".to_string()),
        Some("d".to_string()),
        false,
    );
    assert!(u == expected);
}

#[test]
fn sender_vhost_may_hold_a_separator() {
    let u = parse_sender(":nick!ident@host!extra").unwrap();
    let expected = User::new(
        Some("nick".to_string()),
        Some("ident".to_string()),
        Some("host!extra".to_string()),
        false,
    );
    assert!(u == expected);
}

#[test]
fn sender_with_two_at_signs_in_remainder_is_malformed() {
    assert!(matches!(
        parse_sender(":n!i@h!x@y"),
        Err(ParseError::MalformedSender)
    ));
}

#[test]
fn order_strips_marker_and_keeps_rest() {
    let params = vec!["bot".to_string(), ":!join".to_string(), "#room".to_string()];
    let order = parse_order(&params).unwrap();
    assert_eq!(order.command, "!join");
    assert_eq!(order.parameters, vec!["#room".to_string()]);
}

#[test]
fn order_with_one_parameter_is_malformed() {
    let params = vec!["bot".to_string()];
    assert!(matches!(parse_order(&params), Err(ParseError::MalformedOrder)));
}

#[test]
fn order_without_marker_is_malformed() {
    let params = vec!["bot".to_string(), "!join".to_string()];
    assert!(matches!(parse_order(&params), Err(ParseError::MalformedOrder)));
}

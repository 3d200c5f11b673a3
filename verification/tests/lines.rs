use parley::frame;
use parley::join_line;
use parley::nick_line;
use parley::part_line;
use parley::trim_line;
use parley::user_line;

#[test]
fn frame_appends_the_wire_terminator() {
    assert_eq!(frame("JOIN #room"), "JOIN #room\r\n".to_string());
    assert_eq!(frame(""), "\r\n".to_string());
}

#[test]
fn registration_lines_follow_the_handshake_shape() {
    assert_eq!(nick_line("toot"), "NICK toot".to_string());
    assert_eq!(
        user_line("toot", "Ronnie Regan"),
        "USER toot 0 * :Ronnie Regan".to_string()
    );
}

#[test]
fn channel_lines_name_the_channel() {
    assert_eq!(join_line("#room"), "JOIN #room".to_string());
    assert_eq!(part_line("#room"), "PART #room".to_string());
}

#[test]
fn trim_strips_terminator_and_padding() {
    assert_eq!(trim_line("PING :tok\r\n"), "PING :tok".to_string());
    assert_eq!(trim_line("  spaced  "), "spaced".to_string());
    assert_eq!(trim_line("\r\n"), "".to_string());
    assert_eq!(trim_line(""), "".to_string());
    assert_eq!(trim_line("bare"), "bare".to_string());
}

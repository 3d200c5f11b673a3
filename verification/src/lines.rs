//! The textual halves of the connection's I/O edges: trimming a received
//! frame, and building each outgoing line — the terminator framing, the
//! registration handshake, and channel join and part requests.  The
//! surrounding application only moves these strings across the transport.

use vstd::prelude::*;
use vstd::string::StrSliceExecFns;
use vstd::string::StringExecFns;

use crate::chars::is_wsp;
use crate::chars::is_wsp_char;

verus! {

/// The line terminator of the wire format.
pub open spec fn crlf() -> Seq<char> {
    seq!['\r', '\n']
}

/// `s` without its leading whitespace.
pub open spec fn trim_front(s: Seq<char>) -> Seq<char>
    decreases s.len(),
{
    if s.len() > 0 && is_wsp(s[0]) {
        trim_front(s.drop_first())
    } else {
        s
    }
}

/// `s` without its trailing whitespace.
pub open spec fn trim_back(s: Seq<char>) -> Seq<char>
    decreases s.len(),
{
    if s.len() > 0 && is_wsp(s.last()) {
        trim_back(s.drop_last())
    } else {
        s
    }
}

/// `s` without surrounding whitespace: what remains of a received frame
/// once its terminator and padding are gone.
pub open spec fn trim_of(s: Seq<char>) -> Seq<char> {
    trim_back(trim_front(s))
}

/// Leading whitespace ends at the first non-whitespace position.
proof fn lemma_trim_front_at(s: Seq<char>, a: int)
    requires
        0 <= a <= s.len(),
        forall|i: int| 0 <= i < a ==> is_wsp(s[i]),
        a == s.len() || !is_wsp(s[a]),
    ensures
        trim_front(s) == s.skip(a),
    decreases a,
{
    if a == 0 {
        assert(s.skip(0) =~= s);
    } else {
        assert(forall|i: int| 0 <= i < s.len() - 1 ==> s.drop_first()[i] == s[i + 1]);
        lemma_trim_front_at(s.drop_first(), a - 1);
        assert(s.drop_first().skip(a - 1) =~= s.skip(a));
    }
}

/// Trailing whitespace starts at the last non-whitespace position.
proof fn lemma_trim_back_at(s: Seq<char>, b: int)
    requires
        0 <= b <= s.len(),
        forall|i: int| b <= i < s.len() ==> is_wsp(s[i]),
        b == 0 || !is_wsp(s[b - 1]),
    ensures
        trim_back(s) == s.take(b),
    decreases s.len() - b,
{
    if b == s.len() {
        assert(s.take(b) =~= s);
    } else {
        assert(forall|i: int| 0 <= i < s.len() - 1 ==> s.drop_last()[i] == s[i]);
        lemma_trim_back_at(s.drop_last(), b);
        assert(s.drop_last().take(b) =~= s.take(b));
    }
}

/// Strips surrounding whitespace, the carriage return and line feed of the
/// frame terminator included, from a received frame.
pub fn trim_line(line: &str) -> (r: String)
    ensures
        r@ == trim_of(line@),
{
    let n = line.unicode_len();
    let mut a: usize = 0;
    while a < n && is_wsp_char(line.get_char(a))
        invariant
            a <= n,
            n == line@.len(),
            forall|i: int| 0 <= i < a ==> is_wsp(line@[i]),
        decreases n - a,
    {
        a += 1;
    }
    proof {
        lemma_trim_front_at(line@, a as int);
    }
    if a == n {
        proof {
            assert(line@.skip(n as int) =~= Seq::<char>::empty());
        }
        return String::new();
    }
    let mut b: usize = n;
    while b > a + 1 && is_wsp_char(line.get_char(b - 1))
        invariant
            a < b <= n,
            n == line@.len(),
            forall|i: int| b <= i < n ==> is_wsp(line@[i]),
        decreases b,
    {
        b -= 1;
    }
    proof {
        let front = line@.skip(a as int);
        assert(!is_wsp(front[0]));
        assert(forall|i: int| b - a <= i < front.len() ==> front[i] == line@[i + a]);
        assert(!is_wsp(line@[b - 1]));
        assert(front[b - a - 1] == line@[b - 1]);
        lemma_trim_back_at(front, b - a);
        assert(front.take(b - a) =~= line@.subrange(a as int, b as int));
    }
    line.substring_char(a, b).to_owned()
}

/// Appends the wire terminator to an outgoing line, making one frame.
pub fn frame(message: &str) -> (r: String)
    ensures
        r@ == message@ + crlf(),
{
    let mut out = message.to_owned();
    out.append("\r\n");
    proof {
        reveal_strlit("\r\n");
        assert(message@ + "\r\n"@ =~= message@ + crlf());
    }
    out
}

/// The nickname announcement of the registration handshake.
pub fn nick_line(nick: &str) -> (r: String)
    ensures
        r@ == seq!['N', 'I', 'C', 'K', ' '] + nick@,
{
    let mut out = String::from_str("NICK ");
    out.append(nick);
    proof {
        reveal_strlit("NICK ");
        assert("NICK "@ + nick@ =~= seq!['N', 'I', 'C', 'K', ' '] + nick@);
    }
    out
}

/// The user and realname announcement of the registration handshake.
pub fn user_line(user: &str, realname: &str) -> (r: String)
    ensures
        r@ == seq!['U', 'S', 'E', 'R', ' '] + user@ + seq![' ', '0', ' ', '*', ' ', ':']
            + realname@,
{
    let mut out = String::from_str("USER ");
    out.append(user);
    out.append(" 0 * :");
    out.append(realname);
    proof {
        reveal_strlit("USER ");
        reveal_strlit(" 0 * :");
        assert((("USER "@ + user@) + " 0 * :"@) + realname@ =~= seq!['U', 'S', 'E', 'R', ' ']
            + user@ + seq![' ', '0', ' ', '*', ' ', ':'] + realname@);
    }
    out
}

/// The request to join a channel.
pub fn join_line(channel: &str) -> (r: String)
    ensures
        r@ == seq!['J', 'O', 'I', 'N', ' '] + channel@,
{
    let mut out = String::from_str("JOIN ");
    out.append(channel);
    proof {
        reveal_strlit("JOIN ");
        assert("JOIN "@ + channel@ =~= seq!['J', 'O', 'I', 'N', ' '] + channel@);
    }
    out
}

/// The request to part from a channel.
pub fn part_line(channel: &str) -> (r: String)
    ensures
        r@ == seq!['P', 'A', 'R', 'T', ' '] + channel@,
{
    let mut out = String::from_str("PART ");
    out.append(channel);
    proof {
        reveal_strlit("PART ");
        assert("PART "@ + channel@ =~= seq!['P', 'A', 'R', 'T', ' '] + channel@);
    }
    out
}

} // verus!

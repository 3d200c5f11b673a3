//! Answering the network's liveness probe: the reply is the original raw
//! line with the command-position token — the probe command — substituted by
//! the acknowledgment, every other character unchanged.  Never a
//! re-serialization of the parsed message.

use vstd::prelude::*;
use vstd::string::StrSliceExecFns;
use vstd::string::StringExecFns;

use crate::chars::is_wsp;
use crate::chars::is_wsp_char;
use crate::tokens::lemma_token_len_at;
use crate::tokens::lemma_token_start_zero;
use crate::tokens::token_end;
use crate::tokens::token_len;
use crate::tokens::token_start;

verus! {

/// The keepalive probe command the server sends.
pub open spec fn probe_cmd() -> Seq<char> {
    seq!['P', 'I', 'N', 'G']
}

/// The acknowledgment command that answers the probe.
pub open spec fn ack_cmd() -> Seq<char> {
    seq!['P', 'O', 'N', 'G']
}

/// Where the command token of a line starts: past the sender prefix when
/// the line carries the colon marker, else at the first token.
pub open spec fn cmd_start(line: Seq<char>) -> nat {
    if line.len() > 0 && line[0] == ':' {
        token_start(line, 1)
    } else {
        token_start(line, 0)
    }
}

/// The keepalive reply text for a line: when the token at the command
/// position is exactly the probe command, that token alone is substituted
/// by the acknowledgment and every character before and after it stays;
/// any other line is left as it is.
pub open spec fn keepalive_reply_of(line: Seq<char>) -> Seq<char> {
    let c = cmd_start(line) as int;
    if c + 4 <= line.len() && line.subrange(c, c + 4) == probe_cmd() && (c + 4 == line.len()
        || is_wsp(line[c + 4])) {
        line.take(c) + ack_cmd() + line.skip(c + 4)
    } else {
        line
    }
}

/// Builds the keepalive reply for a raw line: the command-position token is
/// substituted by the acknowledgment when it is the probe command; the line
/// comes back unchanged otherwise.
#[verifier::loop_isolation(false)]
pub fn probe_reply(line: &str) -> (r: String)
    ensures
        r@ == keepalive_reply_of(line@),
{
    let n = line.unicode_len();
    let mut c: usize = 0;
    if n > 0 && line.get_char(0) == ':' {
        c = token_end(line, 0);
        proof {
            lemma_token_len_at(line@, c as int);
        }
    }
    let ghost c0 = c as int;
    while c < n && is_wsp_char(line.get_char(c))
        invariant
            c0 <= c <= n,
            forall|i: int| c0 <= i < c ==> is_wsp(line@[i]),
        decreases n - c,
    {
        c += 1;
    }
    proof {
        let suf = line@.skip(c0);
        assert(forall|i: int| 0 <= i < suf.len() ==> suf[i] == line@[c0 + i]);
        lemma_token_start_zero(suf, c - c0);
        if n > 0 && line@[0] == ':' {
            assert(token_len(line@) == c0);
            assert(cmd_start(line@) == c0 + token_start(suf, 0));
        } else {
            assert(suf =~= line@);
        }
        assert(cmd_start(line@) == c);
    }
    let hit = n - c >= 4 && line.get_char(c) == 'P' && line.get_char(c + 1) == 'I'
        && line.get_char(c + 2) == 'N' && line.get_char(c + 3) == 'G' && (c + 4 == n
        || is_wsp_char(line.get_char(c + 4)));
    if hit {
        let mut out = line.substring_char(0, c).to_owned();
        out.append("PONG");
        out.append(line.substring_char(c + 4, n));
        proof {
            reveal_strlit("PONG");
            assert(line@.subrange(c as int, c + 4) =~= probe_cmd());
            assert("PONG"@ =~= ack_cmd());
            assert(out@ =~= line@.take(c as int) + ack_cmd() + line@.skip(c + 4));
        }
        out
    } else {
        proof {
            let ci = c as int;
            if ci + 4 <= n && line@.subrange(ci, ci + 4) == probe_cmd() && (ci + 4 == n
                || is_wsp(line@[ci + 4])) {
                assert(line@[ci] == line@.subrange(ci, ci + 4)[0]);
                assert(line@[ci + 1] == line@.subrange(ci, ci + 4)[1]);
                assert(line@[ci + 2] == line@.subrange(ci, ci + 4)[2]);
                assert(line@[ci + 3] == line@.subrange(ci, ci + 4)[3]);
                assert(false);
            }
        }
        line.to_owned()
    }
}

/// Whether a command token is exactly the keepalive probe command.
pub fn is_probe_cmd(cmd: &str) -> (r: bool)
    ensures
        r == (cmd@ == probe_cmd()),
{
    if cmd.unicode_len() != 4 {
        return false;
    }
    let r = cmd.get_char(0) == 'P' && cmd.get_char(1) == 'I' && cmd.get_char(2) == 'N'
        && cmd.get_char(3) == 'G';
    proof {
        if r {
            assert(cmd@ =~= probe_cmd());
        }
    }
    r
}

} // verus!

//! Parsing one trimmed protocol line into a [`Message`], and extracting a
//! [`CommanderOrder`] from the parameters of an authorized message.
//!
//! A line is split on runs of whitespace.  A leading colon marks the first
//! token as the sender prefix: with a `!` separator it names a user
//! (`:nick!ident@vhost`), without one it names the server.  A line with no
//! leading colon is treated as server-originated.  A malformed line is
//! rejected with a [`ParseError`], never a panic.

use vstd::prelude::*;
use vstd::string::StrSliceExecFns;

use crate::chars::count_char;
use crate::chars::count_char_in;
use crate::chars::find_char;
use crate::chars::find_char_in;
use crate::chars::contains_char;
use crate::chars::is_wsp;
use crate::chars::lemma_count_char_concat;
use crate::chars::lemma_count_char_zero;
use crate::chars::lemma_find_char_concat_absent;
use crate::chars::lemma_find_char_props;
use crate::identity::id_well_formed;
use crate::identity::server_view;
use crate::identity::User;
use crate::identity::UserView;
use crate::message::res_msg_view;
use crate::message::res_order_view;
use crate::message::res_user_view;
use crate::message::CommanderOrder;
use crate::message::Message;
use crate::message::MessageView;
use crate::message::OrderView;
use crate::message::ParseError;
use crate::tokens::lemma_tokens_of_single;
use crate::tokens::lemma_tokens_of_sp;
use crate::tokens::texts_view;
use crate::tokens::tokenize;
use crate::tokens::tokens_of;

verus! {

/// What parsing a sender prefix token yields.  A token without a `!` names
/// the server.  A token with one must start with the colon marker; the text
/// before the first `!` is the nickname, and the whole remainder after it
/// must split on exactly one `@` into ident and vhost.
pub open spec fn spec_parse_sender(t: Seq<char>) -> Result<UserView, ParseError> {
    if find_char(t, '!') < 0 {
        Ok(server_view())
    } else if t.len() == 0 || t[0] != ':' {
        Err(ParseError::MalformedSender)
    } else {
        let rest = t.skip(1);
        let i1 = find_char(rest, '!');
        let mid = rest.skip(i1 + 1);
        if count_char(mid, '@') != 1 {
            Err(ParseError::MalformedSender)
        } else {
            let j = find_char(mid, '@');
            Ok(UserView {
                nick: Some(rest.take(i1)),
                ident: Some(mid.take(j)),
                vhost: Some(mid.skip(j + 1)),
                is_server: false,
            })
        }
    }
}

/// What parsing a whole line yields: its tokens become the sender prefix
/// (when the line starts with a colon), the command, and the parameters in
/// wire order; a line with fewer than two tokens is rejected.
pub open spec fn spec_parse_msg(line: Seq<char>) -> Result<MessageView, ParseError> {
    let toks = tokens_of(line);
    if toks.len() < 2 {
        Err(ParseError::MissingCommand)
    } else if line.len() > 0 && line[0] == ':' {
        match spec_parse_sender(toks[0]) {
            Ok(sender) => Ok(MessageView {
                sender,
                command: toks[1],
                parameters: toks.skip(2),
            }),
            Err(e) => Err(e),
        }
    } else {
        Ok(MessageView { sender: server_view(), command: toks[0], parameters: toks.skip(1) })
    }
}

/// What extracting an order from an authorized message's parameters yields:
/// the first parameter addresses the participant and is ignored, the second
/// is the trigger token and must carry the leading colon marker, which is
/// stripped; the rest are the order's parameters.
pub open spec fn spec_parse_order(params: Seq<Seq<char>>) -> Result<OrderView, ParseError> {
    if params.len() < 2 {
        Err(ParseError::MalformedOrder)
    } else if params[1].len() == 0 || params[1][0] != ':' {
        Err(ParseError::MalformedOrder)
    } else {
        Ok(OrderView { command: params[1].skip(1), parameters: params.skip(2) })
    }
}

/// Parses one sender prefix token.
pub fn parse_sender(token: &str) -> (r: Result<User, ParseError>)
    ensures
        res_user_view(r) == spec_parse_sender(token@),
{
    if !contains_char(token, '!') {
        return Ok(User::new(None, None, None, true));
    }
    proof {
        lemma_find_char_props(token@, '!');
    }
    let n = token.unicode_len();
    if token.get_char(0) != ':' {
        return Err(ParseError::MalformedSender);
    }
    let rest = token.substring_char(1, n);
    proof {
        assert(rest@ =~= token@.skip(1));
    }
    let rest_len = rest.unicode_len();
    let i1 = match find_char_in(rest, '!') {
        Some(i) => i,
        None => {
            proof {
                lemma_find_char_props(rest@, '!');
                let f = find_char(token@, '!');
                assert(rest@[f - 1] == token@[f]);
                assert(false);
            }
            return Err(ParseError::MalformedSender);
        },
    };
    proof {
        lemma_find_char_props(rest@, '!');
    }
    let nick = rest.substring_char(0, i1).to_owned();
    let mid = rest.substring_char(i1 + 1, rest_len);
    proof {
        assert(mid@ =~= rest@.skip(i1 + 1));
    }
    if count_char_in(mid, '@') != 1 {
        return Err(ParseError::MalformedSender);
    }
    let mid_len = mid.unicode_len();
    let j = match find_char_in(mid, '@') {
        Some(j) => j,
        None => {
            proof {
                lemma_find_char_props(mid@, '@');
                lemma_count_char_zero(mid@, '@');
                assert(false);
            }
            return Err(ParseError::MalformedSender);
        },
    };
    proof {
        lemma_find_char_props(mid@, '@');
    }
    let ident = mid.substring_char(0, j).to_owned();
    let vhost = mid.substring_char(j + 1, mid_len).to_owned();
    proof {
        assert(nick@ =~= token@.skip(1).take(i1 as int));
        assert(ident@ =~= mid@.take(j as int));
        assert(vhost@ =~= mid@.skip(j + 1));
    }
    Ok(User::new(Some(nick), Some(ident), Some(vhost), false))
}

/// Clones the elements of `v` from `start` on, in order.
fn tail_from(v: &Vec<String>, start: usize) -> (r: Vec<String>)
    requires
        start <= v@.len(),
    ensures
        texts_view(r@) == texts_view(v@).skip(start as int),
{
    let mut r: Vec<String> = Vec::new();
    let mut k: usize = start;
    proof {
        assert(texts_view(r@) =~= texts_view(v@).subrange(start as int, start as int));
    }
    while k < v.len()
        invariant
            start <= k <= v@.len(),
            texts_view(r@) == texts_view(v@).subrange(start as int, k as int),
        decreases v@.len() - k,
    {
        let ghost prev = r@;
        r.push(v[k].clone());
        proof {
            assert(r@ == prev.push(v@[k as int]));
            assert(texts_view(prev).len() == k - start);
            assert forall|i: int| 0 <= i < k + 1 - start implies texts_view(r@)[i] == texts_view(
                v@,
            ).subrange(start as int, k + 1)[i] by {
                if i < k - start {
                    assert(texts_view(prev)[i] == texts_view(v@)[start + i]);
                }
            }
            assert(texts_view(r@) =~= texts_view(v@).subrange(start as int, k + 1));
        }
        k += 1;
    }
    proof {
        assert(texts_view(v@).subrange(start as int, v@.len() as int) =~= texts_view(v@).skip(
            start as int,
        ));
    }
    r
}

/// Parses one trimmed protocol line into a message.
pub fn parse_msg(line: &str) -> (r: Result<Message, ParseError>)
    ensures
        res_msg_view(r) == spec_parse_msg(line@),
{
    let toks = tokenize(line);
    if toks.len() < 2 {
        return Err(ParseError::MissingCommand);
    }
    let has_prefix = line.unicode_len() > 0 && line.get_char(0) == ':';
    if has_prefix {
        let sender = match parse_sender(toks[0].as_str()) {
            Ok(u) => u,
            Err(e) => {
                return Err(e);
            },
        };
        let command = toks[1].clone();
        let parameters = tail_from(&toks, 2);
        Ok(Message::new(sender, command, parameters))
    } else {
        let sender = User::new(None, None, None, true);
        let command = toks[0].clone();
        let parameters = tail_from(&toks, 1);
        Ok(Message::new(sender, command, parameters))
    }
}

/// Extracts the commander's order from the parameters of an authorized
/// message.
pub fn parse_order(parameters: &Vec<String>) -> (r: Result<CommanderOrder, ParseError>)
    ensures
        res_order_view(r) == spec_parse_order(texts_view(parameters@)),
{
    if parameters.len() < 2 {
        return Err(ParseError::MalformedOrder);
    }
    let trigger = &parameters[1];
    let trigger_len = trigger.as_str().unicode_len();
    if trigger_len == 0 || trigger.as_str().get_char(0) != ':' {
        return Err(ParseError::MalformedOrder);
    }
    let command = trigger.as_str().substring_char(1, trigger_len).to_owned();
    proof {
        assert(command@ =~= texts_view(parameters@)[1].skip(1));
    }
    let params = tail_from(parameters, 2);
    Ok(CommanderOrder { command, parameters: params })
}

/// A well-formed user prefix parses to exactly its three parts: for any
/// nickname free of `!`, and ident and vhost free of `@`, the token
/// `:nick!ident@vhost` yields the user identity with those fields.
pub proof fn lemma_parse_sender_user(nick: Seq<char>, ident: Seq<char>, host: Seq<char>)
    requires
        forall|i: int| 0 <= i < nick.len() ==> nick[i] != '!',
        forall|i: int| 0 <= i < ident.len() ==> ident[i] != '@',
        forall|i: int| 0 <= i < host.len() ==> host[i] != '@',
    ensures
        spec_parse_sender(seq![':'] + nick + seq!['!'] + ident + seq!['@'] + host)
            == Ok::<UserView, ParseError>(UserView {
            nick: Some(nick),
            ident: Some(ident),
            vhost: Some(host),
            is_server: false,
        }),
{
    let t0 = seq![':'] + nick + seq!['!'] + ident + seq!['@'] + host;
    let pre = seq![':'] + nick;
    let post = seq!['!'] + (ident + (seq!['@'] + host));
    assert(t0 =~= pre + post);
    assert(forall|i: int| 0 <= i < pre.len() ==> pre[i] != '!');
    assert(find_char(post, '!') == 0);
    lemma_find_char_concat_absent(pre, post, '!');
    assert(find_char(t0, '!') == pre.len());
    assert(t0[0] == ':');

    let rest = t0.skip(1);
    assert(rest =~= nick + post);
    lemma_find_char_concat_absent(nick, post, '!');
    let i1 = find_char(rest, '!');
    assert(i1 == nick.len());
    assert(rest.take(i1) =~= nick);

    let tail = ident + (seq!['@'] + host);
    let mid = rest.skip(i1 + 1);
    assert(mid =~= tail);

    lemma_count_char_zero(ident, '@');
    lemma_count_char_zero(host, '@');
    assert(seq!['@'].drop_last() =~= Seq::<char>::empty());
    assert(count_char(Seq::<char>::empty(), '@') == 0);
    assert(count_char(seq!['@'], '@') == 1);
    lemma_count_char_concat(seq!['@'], host, '@');
    lemma_count_char_concat(ident, seq!['@'] + host, '@');
    assert(tail =~= ident + (seq!['@'] + host));
    assert(count_char(mid, '@') == 1);

    assert(find_char(seq!['@'] + host, '@') == 0);
    lemma_find_char_concat_absent(ident, seq!['@'] + host, '@');
    let j = find_char(mid, '@');
    assert(j == ident.len());
    assert(mid.take(j) =~= ident);
    assert(mid.skip(j + 1) =~= host);
}

/// Parsing a user-prefixed line: for any line `:nick!ident@vhost CMD p1 p2`
/// whose prefix parts are free of whitespace and separators as
/// [`lemma_parse_sender_user`] asks, and whose command and parameters are
/// nonempty and free of whitespace, the sender is exactly that user
/// identity, the command is `CMD`, and the parameters are `p1` and `p2` in
/// wire order.
pub proof fn lemma_parse_user_line(
    nick: Seq<char>,
    ident: Seq<char>,
    host: Seq<char>,
    cmd: Seq<char>,
    p1: Seq<char>,
    p2: Seq<char>,
)
    requires
        forall|i: int| 0 <= i < nick.len() ==> !is_wsp(nick[i]) && nick[i] != '!',
        forall|i: int| 0 <= i < ident.len() ==> !is_wsp(ident[i]) && ident[i] != '@',
        forall|i: int| 0 <= i < host.len() ==> !is_wsp(host[i]) && host[i] != '@',
        cmd.len() > 0,
        forall|i: int| 0 <= i < cmd.len() ==> !is_wsp(cmd[i]),
        p1.len() > 0,
        forall|i: int| 0 <= i < p1.len() ==> !is_wsp(p1[i]),
        p2.len() > 0,
        forall|i: int| 0 <= i < p2.len() ==> !is_wsp(p2[i]),
    ensures
        spec_parse_msg(
            seq![':'] + nick + seq!['!'] + ident + seq!['@'] + host + seq![' '] + cmd + seq![' ']
                + p1 + seq![' '] + p2,
        ) == Ok::<MessageView, ParseError>(MessageView {
            sender: UserView {
                nick: Some(nick),
                ident: Some(ident),
                vhost: Some(host),
                is_server: false,
            },
            command: cmd,
            parameters: seq![p1, p2],
        }),
{
    let t0 = seq![':'] + nick + seq!['!'] + ident + seq!['@'] + host;
    let line = seq![':'] + nick + seq!['!'] + ident + seq!['@'] + host + seq![' '] + cmd
        + seq![' '] + p1 + seq![' '] + p2;
    let r2 = p1 + (seq![' '] + p2);
    let r1 = cmd + (seq![' '] + r2);
    assert(line =~= t0 + (seq![' '] + r1));
    assert(forall|i: int| 0 <= i < t0.len() ==> !is_wsp(t0[i]));
    assert(t0.len() > 0);
    lemma_tokens_of_sp(t0, r1);
    lemma_tokens_of_sp(cmd, r2);
    lemma_tokens_of_sp(p1, p2);
    lemma_tokens_of_single(p2);
    let toks = tokens_of(line);
    assert(toks =~= seq![t0, cmd, p1, p2]);
    assert(line[0] == ':');
    lemma_parse_sender_user(nick, ident, host);
    assert(toks[0] == t0);
    assert(toks.skip(2) =~= seq![p1, p2]);
}

/// Parsing a server-prefixed line: for any line whose first token starts
/// with the colon but carries no `!`, the sender is the server identity —
/// all text fields empty, the server flag set — and the rest of the tokens
/// are the command and the parameters.
pub proof fn lemma_parse_server_line(prefix: Seq<char>, cmd: Seq<char>, p1: Seq<char>)
    requires
        prefix.len() > 0,
        prefix[0] == ':',
        forall|i: int| 0 <= i < prefix.len() ==> !is_wsp(prefix[i]) && prefix[i] != '!',
        cmd.len() > 0,
        forall|i: int| 0 <= i < cmd.len() ==> !is_wsp(cmd[i]),
        p1.len() > 0,
        forall|i: int| 0 <= i < p1.len() ==> !is_wsp(p1[i]),
    ensures
        spec_parse_msg(prefix + seq![' '] + cmd + seq![' '] + p1) == Ok::<
            MessageView,
            ParseError,
        >(MessageView { sender: server_view(), command: cmd, parameters: seq![p1] }),
{
    let line = prefix + seq![' '] + cmd + seq![' '] + p1;
    let r1 = cmd + (seq![' '] + p1);
    assert(line =~= prefix + (seq![' '] + r1));
    lemma_tokens_of_sp(prefix, r1);
    lemma_tokens_of_sp(cmd, p1);
    lemma_tokens_of_single(p1);
    let toks = tokens_of(line);
    assert(toks =~= seq![prefix, cmd, p1]);
    assert(line[0] == ':');
    lemma_find_char_props(prefix, '!');
    assert(find_char(prefix, '!') == -1);
    assert(toks[0] == prefix);
    assert(toks.skip(2) =~= seq![p1]);
}

/// Every identity the parser yields keeps the identity model's shape: a
/// server identity with no textual fields, or a user identity with all
/// three.
pub proof fn lemma_parsed_sender_well_formed(t: Seq<char>)
    ensures
        spec_parse_sender(t) matches Ok(u) ==> id_well_formed(u),
{
}

/// Every sender a parsed line carries keeps the identity model's shape.
pub proof fn lemma_parsed_msg_sender_well_formed(line: Seq<char>)
    ensures
        spec_parse_msg(line) matches Ok(m) ==> id_well_formed(m.sender),
{
    lemma_parsed_sender_well_formed(tokens_of(line)[0]);
}

/// Parsing a line with no leading colon: whatever else it holds, its sender
/// is the server identity, its first token is the command, and the rest are
/// the parameters.
pub proof fn lemma_parse_unprefixed_line(line: Seq<char>)
    requires
        tokens_of(line).len() >= 2,
        line.len() > 0 ==> line[0] != ':',
    ensures
        spec_parse_msg(line) == Ok::<MessageView, ParseError>(MessageView {
            sender: server_view(),
            command: tokens_of(line)[0],
            parameters: tokens_of(line).skip(1),
        }),
{
}

} // verus!

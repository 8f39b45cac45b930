//! Message-body rendering and reply quoting.
//!
//! A reply embeds a quoted excerpt of the message it answers: every line of
//! the quoted body is prefixed with `"> "`, after first dropping the lines
//! that were themselves quotes (so quotes do not nest without bound), and the
//! reply text follows after a blank line.

use vstd::prelude::*;
use vstd::string::*;

use crate::state::MessageContent;
use crate::state::MessageKind;

verus! {

/// Relies on std's `String::push`: appends the given character to the end of
/// the string.
#[verifier::external_body]
pub(crate) fn push_char(s: &mut String, c: char)
    ensures
        final(s)@ == old(s)@.push(c),
{
    s.push(c);
}

/// The text shown for a message: the body of every understood content kind,
/// and a placeholder for content the client does not understand.
pub open spec fn message_body_view(c: MessageContent) -> Seq<char> {
    if c.msgtype is Other {
        "(mient message) plz implement me!"@
    } else {
        c.body@
    }
}

/// The text shown for a message's content.
pub fn format_message_body<'a>(content: &'a MessageContent) -> (r: &'a str)
    ensures
        r@ == message_body_view(*content),
{
    match content.msgtype {
        MessageKind::Other => "(mient message) plz implement me!",
        _ => content.body.as_str(),
    }
}

/// The lines of `s`, split as std's `str::lines` splits them: at `'\n'`,
/// with a line ending of `"\r\n"` counting as one break, and no empty line
/// after a final line break.
pub open spec fn lines_of(s: Seq<char>) -> Seq<Seq<char>>
    decreases s.len(),
{
    if s.len() == 0 {
        Seq::empty()
    } else if s[0] == '\n' {
        seq![Seq::<char>::empty()] + lines_of(s.drop_first())
    } else if s.len() >= 2 && s[0] == '\r' && s[1] == '\n' {
        seq![Seq::<char>::empty()] + lines_of(s.skip(2))
    } else if s.len() == 1 {
        seq![s]
    } else {
        let rest = lines_of(s.drop_first());
        rest.update(0, seq![s[0]] + rest.first())
    }
}

/// A non-empty text has at least one line.
proof fn lemma_lines_of_nonempty(s: Seq<char>)
    requires
        s.len() > 0,
    ensures
        lines_of(s).len() >= 1,
    decreases s.len(),
{
    if s[0] == '\n' {
    } else if s.len() >= 2 && s[0] == '\r' && s[1] == '\n' {
    } else if s.len() == 1 {
    } else {
        lemma_lines_of_nonempty(s.drop_first());
    }
}

/// `lines` without its leading quote lines (those that start with `'>'`).
pub open spec fn skip_quoted(lines: Seq<Seq<char>>) -> Seq<Seq<char>>
    decreases lines.len(),
{
    if lines.len() == 0 {
        lines
    } else if lines.first().len() > 0 && lines.first().first() == '>' {
        skip_quoted(lines.drop_first())
    } else {
        lines
    }
}

/// Each line prefixed with `"> "`, joined with `'\n'`.
pub open spec fn quote_join(lines: Seq<Seq<char>>) -> Seq<char>
    decreases lines.len(),
{
    if lines.len() == 0 {
        Seq::empty()
    } else if lines.len() == 1 {
        seq!['>', ' '] + lines.first()
    } else {
        seq!['>', ' '] + lines.first() + seq!['\n'] + quote_join(lines.drop_first())
    }
}

/// The outgoing body of a reply: the quoted sender, the re-quoted lines of
/// the replied-to body (its own quote lines dropped first), a blank line,
/// then the reply text.
pub open spec fn reply_content_spec(body: Seq<char>, sender: Seq<char>, reply: Seq<char>) -> Seq<
    char,
> {
    seq!['>', ' ', '<'] + sender + seq!['>', ' '] + quote_join(skip_quoted(lines_of(body)))
        + seq!['\n', '\n'] + reply
}

/// The lines of `s`, as `str::lines` yields them.
fn str_lines(s: &str) -> (lines: Vec<String>)
    ensures
        lines@.map_values(|l: String| l@) == lines_of(s@),
    decreases s@.len(),
{
    let n = s.unicode_len();
    if n == 0 {
        let lines: Vec<String> = Vec::new();
        proof {
            assert(lines@.map_values(|l: String| l@) =~= lines_of(s@));
        }
        lines
    } else if s.get_char(0) == '\n' {
        let mut lines = str_lines(s.substring_char(1, n));
        proof {
            assert(s@.subrange(1, n as int) =~= s@.drop_first());
        }
        lines.insert(0, String::new());
        proof {
            assert(lines@.map_values(|l: String| l@) =~= lines_of(s@));
        }
        lines
    } else if s.get_char(0) == '\r' && n >= 2 && s.get_char(1) == '\n' {
        let mut lines = str_lines(s.substring_char(2, n));
        proof {
            assert(s@.subrange(2, n as int) =~= s@.skip(2));
        }
        lines.insert(0, String::new());
        proof {
            assert(lines@.map_values(|l: String| l@) =~= lines_of(s@));
        }
        lines
    } else if n == 1 {
        let mut lines: Vec<String> = Vec::new();
        lines.push(s.to_owned());
        proof {
            assert(lines@.map_values(|l: String| l@) =~= lines_of(s@));
        }
        lines
    } else {
        let mut lines = str_lines(s.substring_char(1, n));
        proof {
            assert(s@.subrange(1, n as int) =~= s@.drop_first());
            lemma_lines_of_nonempty(s@.drop_first());
        }
        let tail = lines.remove(0);
        let mut first = String::new();
        push_char(&mut first, s.get_char(0));
        first.append(tail.as_str());
        proof {
            assert(first@ =~= seq![s@[0]] + lines_of(s@.drop_first()).first());
        }
        lines.insert(0, first);
        proof {
            assert(lines@.map_values(|l: String| l@) =~= lines_of(s@));
        }
        lines
    }
}

/// Whether a line is itself a quote line.
fn starts_quote(l: &String) -> (b: bool)
    ensures
        b == (l@.len() > 0 && l@.first() == '>'),
{
    let s = l.as_str();
    if s.unicode_len() == 0 {
        false
    } else {
        s.get_char(0) == '>'
    }
}

/// Appending one more line to a quote join adds a line break and the quoted
/// line.
proof fn lemma_quote_join_push(lines: Seq<Seq<char>>, x: Seq<char>)
    ensures
        lines.len() == 0 ==> quote_join(lines.push(x)) == seq!['>', ' '] + x,
        lines.len() >= 1 ==> quote_join(lines.push(x)) == quote_join(lines) + seq!['\n'] + seq![
            '>',
            ' ',
        ] + x,
    decreases lines.len(),
{
    if lines.len() == 0 {
        assert(lines.push(x) =~= seq![x]);
        assert(quote_join(seq![x]) == seq!['>', ' '] + x);
    } else {
        lemma_quote_join_push(lines.drop_first(), x);
        assert(lines.push(x).drop_first() =~= lines.drop_first().push(x));
        assert(lines.push(x).len() >= 2);
        if lines.len() == 1 {
            assert(lines.drop_first().len() == 0);
            assert(quote_join(lines.push(x)) == seq!['>', ' '] + lines.first() + seq!['\n']
                + quote_join(lines.drop_first().push(x)));
            assert(quote_join(lines) + seq!['\n'] + seq!['>', ' '] + x =~= seq!['>', ' ']
                + lines.first() + seq!['\n'] + (seq!['>', ' '] + x));
        } else {
            assert(quote_join(lines) + seq!['\n'] + seq!['>', ' '] + x =~= seq!['>', ' ']
                + lines.first() + seq!['\n'] + (quote_join(lines.drop_first()) + seq!['\n'] + seq![
                '>',
                ' ',
            ] + x));
        }
    }
}

/// The outgoing body of a reply to `replied_to_content` from `sender`, with
/// reply text `reply`.
pub fn format_reply_content(
    replied_to_content: &MessageContent,
    sender: &String,
    reply: &String,
) -> (r: String)
    ensures
        r@ == reply_content_spec(message_body_view(*replied_to_content), sender@, reply@),
{
    proof {
        reveal_strlit("\n");
        reveal_strlit("> ");
        reveal_strlit("> <");
        reveal_strlit("\n\n");
    }
    let body = format_message_body(replied_to_content);
    let lines = str_lines(body);
    let ghost all = lines@.map_values(|l: String| l@);
    proof {
        assert(all.skip(0) =~= all);
    }
    let mut k: usize = 0;
    while k < lines.len() && starts_quote(&lines[k])
        invariant
            all == lines@.map_values(|l: String| l@),
            all == lines_of(message_body_view(*replied_to_content)),
            k <= lines@.len(),
            skip_quoted(all) == skip_quoted(all.skip(k as int)),
        decreases lines@.len() - k,
    {
        proof {
            assert(all.skip(k as int).first().len() > 0 && all.skip(k as int).first().first()
                == '>');
            assert(all.skip(k as int).drop_first() =~= all.skip(k as int + 1));
        }
        k += 1;
    }
    proof {
        if k == lines@.len() {
            assert(all.skip(k as int) =~= Seq::<Seq<char>>::empty());
            assert(skip_quoted(all) =~= all.skip(k as int));
        } else {
            assert(!(all.skip(k as int).first().len() > 0 && all.skip(k as int).first().first()
                == '>'));
            assert(skip_quoted(all.skip(k as int)) == all.skip(k as int));
        }
    }
    let mut quoted = String::new();
    let mut j: usize = k;
    while j < lines.len()
        invariant
            all == lines@.map_values(|l: String| l@),
            k <= j <= lines@.len(),
            skip_quoted(all) == all.skip(k as int),
            quoted@ == quote_join(all.subrange(k as int, j as int)),
            "\n"@ == seq!['\n'],
            "> "@ == seq!['>', ' '],
        decreases lines@.len() - j,
    {
        if j > k {
            quoted.append("\n");
        }
        quoted.append("> ");
        quoted.append(lines[j].as_str());
        proof {
            lemma_quote_join_push(all.subrange(k as int, j as int), all[j as int]);
            assert(all.subrange(k as int, j as int + 1) =~= all.subrange(k as int, j as int).push(
                all[j as int],
            ));
            assert(quoted@ =~= quote_join(all.subrange(k as int, j as int + 1)));
        }
        j += 1;
    }
    proof {
        assert(all.subrange(k as int, all.len() as int) =~= all.skip(k as int));
    }
    let mut result = String::new();
    result.append("> <");
    result.append(sender.as_str());
    result.append("> ");
    result.append(quoted.as_str());
    result.append("\n\n");
    result.append(reply.as_str());
    proof {
        assert("> <"@ =~= seq!['>', ' ', '<']);
        assert("\n\n"@ =~= seq!['\n', '\n']);
        assert(result@ =~= reply_content_spec(
            message_body_view(*replied_to_content),
            sender@,
            reply@,
        ));
    }
    result
}

} // verus!

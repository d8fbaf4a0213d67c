//! Commands of the local control channel: one line of text each.
use vstd::prelude::*;
use crate::outside::{lower_of, lowercase};
use crate::text::str_eq;

verus! {

/// Characters that separate the words of a command line: the Unicode
/// White_Space characters.
pub open spec fn is_space(c: char) -> bool {
    ||| c == ' '
    ||| ('\t' <= c && c <= '\r')
    ||| c == '\u{85}'
    ||| c == '\u{a0}'
    ||| c == '\u{1680}'
    ||| ('\u{2000}' <= c && c <= '\u{200a}')
    ||| c == '\u{2028}'
    ||| c == '\u{2029}'
    ||| c == '\u{202f}'
    ||| c == '\u{205f}'
    ||| c == '\u{3000}'
}

/// The words of `s`: its maximal runs of characters that are not spaces.
pub open spec fn words(s: Seq<char>) -> Seq<Seq<char>>
    decreases s.len(),
{
    if s.len() == 0 {
        Seq::empty()
    } else if is_space(s.last()) {
        words(s.drop_last())
    } else if s.len() == 1 || is_space(s[s.len() - 2]) {
        words(s.drop_last()).push(seq![s.last()])
    } else {
        let w = words(s.drop_last());
        w.update(w.len() - 1, w.last().push(s.last()))
    }
}

proof fn lemma_words_nonempty(s: Seq<char>)
    requires
        s.len() > 0,
        !is_space(s.last()),
    ensures
        words(s).len() > 0,
    decreases s.len(),
{
    if s.len() > 1 && !is_space(s[s.len() - 2]) {
        assert(s.drop_last().last() == s[s.len() - 2]);
        lemma_words_nonempty(s.drop_last());
    }
}

pub fn is_space_char(c: char) -> (r: bool)
    ensures
        r == is_space(c),
{
    c == ' ' || ('\t' <= c && c <= '\r') || c == '\u{85}' || c == '\u{a0}' || c == '\u{1680}' || ('\u{2000}'
        <= c && c <= '\u{200a}') || c == '\u{2028}' || c == '\u{2029}' || c == '\u{202f}' || c == '\u{205f}' || c
        == '\u{3000}'
}

/// Splits a line into its words.
pub fn split_words(s: &str) -> (r: Vec<String>)
    ensures
        r@.map_values(|w: String| w@) == words(s@),
{
    let n = s.unicode_len();
    let mut out: Vec<String> = Vec::new();
    let mut i: usize = 0;
    assert(s@.take(0) =~= Seq::<char>::empty());
    while i < n
        invariant
            n == s@.len(),
            i <= n,
            out@.map_values(|w: String| w@) == words(s@.take(i as int)),
        decreases n - i,
    {
        let c = s.get_char(i);
        let ghost before = out@.map_values(|w: String| w@);
        proof {
            assert(s@.take(i + 1).drop_last() =~= s@.take(i as int));
            assert(s@.take(i + 1).last() == c);
        }
        if !is_space_char(c) {
            let piece = s.substring_char(i, i + 1);
            assert(piece@ =~= seq![c]);
            if i == 0 || is_space_char(s.get_char(i - 1)) {
                out.push(String::from_str(piece));
                proof {
                    if i > 0 {
                        assert(s@.take(i + 1)[i - 1] == s@[i - 1]);
                    }
                    assert(out@.map_values(|w: String| w@) =~= before.push(seq![c]));
                }
            } else {
                proof {
                    assert(s@.take(i as int).last() == s@[i - 1]);
                    lemma_words_nonempty(s@.take(i as int));
                    assert(s@.take(i + 1)[i - 1] == s@[i - 1]);
                }
                let last_index = out.len() - 1;
                let ghost old_out = out@;
                let mut last = out.remove(last_index);
                assert(last@ == before.last());
                last.append(piece);
                assert(last@ =~= before.last().push(c));
                out.push(last);
                proof {
                    assert(out@ =~= old_out.update(last_index as int, last));
                    assert(out@.map_values(|w: String| w@) =~= before.update(
                        before.len() - 1,
                        before.last().push(c),
                    ));
                }
            }
        }
        i += 1;
    }
    assert(s@.take(n as int) =~= s@);
    out
}

/// A request on the control channel.
#[derive(Clone, Debug)]
pub enum Command {
    Version,
    Peers,
    Sessions,
    Info,
    Refresh,
    /// Send the file at a path (second) to the peer with a fingerprint (first).
    Send(String, String),
    Unknown(String),
}

pub enum CommandView {
    Version,
    Peers,
    Sessions,
    Info,
    Refresh,
    Send(Seq<char>, Seq<char>),
    Unknown(Seq<char>),
}

impl View for Command {
    type V = CommandView;

    open spec fn view(&self) -> CommandView {
        match self {
            Command::Version => CommandView::Version,
            Command::Peers => CommandView::Peers,
            Command::Sessions => CommandView::Sessions,
            Command::Info => CommandView::Info,
            Command::Refresh => CommandView::Refresh,
            Command::Send(p, f) => CommandView::Send(p@, f@),
            Command::Unknown(s) => CommandView::Unknown(s@),
        }
    }
}

/// The command a line stands for, given the line and its lower-case form:
/// the keywords are matched on the lower-case form; a line that starts with
/// `send` and has at least three words sends to the peer named by the second
/// word the file named by the third; anything else is unknown.
pub open spec fn command_of(line: Seq<char>, lowered: Seq<char>) -> CommandView {
    if lowered == "version"@ {
        CommandView::Version
    } else if lowered == "peers"@ {
        CommandView::Peers
    } else if lowered == "sessions"@ {
        CommandView::Sessions
    } else if lowered == "info"@ {
        CommandView::Info
    } else if lowered == "refresh"@ {
        CommandView::Refresh
    } else if line.len() >= 4 && line.subrange(0, 4) == "send"@ && words(line).len() >= 3 {
        CommandView::Send(words(line)[1], words(line)[2])
    } else {
        CommandView::Unknown(line)
    }
}

impl Command {
    /// The command `line` stands for, where `lowered` is its lower-case form.
    pub fn from_lowered(line: &str, lowered: &str) -> (r: Command)
        ensures
            r@ == command_of(line@, lowered@),
    {
        if str_eq(lowered, "version") {
            Command::Version
        } else if str_eq(lowered, "peers") {
            Command::Peers
        } else if str_eq(lowered, "sessions") {
            Command::Sessions
        } else if str_eq(lowered, "info") {
            Command::Info
        } else if str_eq(lowered, "refresh") {
            Command::Refresh
        } else if starts_with_send(line) {
            let mut parts = split_words(line);
            proof {
                assert(parts@.map_values(|w: String| w@).len() == parts@.len());
            }
            if parts.len() < 3 {
                Command::Unknown(String::from_str(line))
            } else {
                let file = parts.remove(2);
                let peer = parts.remove(1);
                Command::Send(peer, file)
            }
        } else {
            Command::Unknown(String::from_str(line))
        }
    }

    /// The command `line` stands for; keywords are matched whatever their case.
    pub fn parse(line: &str) -> (r: Command)
        ensures
            r@ == command_of(line@, lower_of(line@)),
    {
        let lowered = lowercase(line);
        Command::from_lowered(line, lowered.as_str())
    }
}

fn starts_with_send(line: &str) -> (r: bool)
    ensures
        r == (line@.len() >= 4 && line@.subrange(0, 4) == "send"@),
{
    if line.unicode_len() < 4 {
        return false;
    }
    str_eq(line.substring_char(0, 4), "send")
}

/// The error message answered to a command that is not understood.
pub fn unknown_command_message(command: &str) -> (r: String)
    ensures
        r@ == "Unknown command: "@ + command@,
{
    let mut r = String::from_str("Unknown command: ");
    r.append(command);
    r
}

} // verus!

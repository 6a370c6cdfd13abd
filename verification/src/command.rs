//! Control directives embedded in message text.

use crate::text::{
    chars_of, drop_spaces, is_space, is_whitespace, lemma_drop_spaces, lemma_skip_spaces,
    lemma_skip_spaces_is, lemma_token_end_is, same_text, skip_spaces, token_end, trim_end,
    trim_start, trimmed,
};
use crate::openai::event::EventError;
use crate::openai::scan::{outcome_view, Processed, ProcessedView};
use vstd::prelude::*;
use vstd::string::*;

verus! {

/// A control directive.
#[derive(Debug, Clone, PartialEq, Eq)]
pub enum Command {
    Reset,
    Help,
    Version,
    Unknown(String),
}

/// The mathematical value of a [`Command`].
pub ghost enum CommandView {
    Reset,
    Help,
    Version,
    Unknown(Seq<char>),
}

impl View for Command {
    type V = CommandView;

    open spec fn view(&self) -> CommandView {
        match self {
            Command::Reset => CommandView::Reset,
            Command::Help => CommandView::Help,
            Command::Version => CommandView::Version,
            Command::Unknown(word) => CommandView::Unknown(word@),
        }
    }
}

/// The character that opens a command.
pub open spec fn prefix() -> char {
    '!'
}

/// The command that a keyword names.
pub open spec fn command_of(keyword: Seq<char>) -> CommandView {
    if keyword == "reset"@ {
        CommandView::Reset
    } else if keyword == "help"@ {
        CommandView::Help
    } else if keyword == "version"@ {
        CommandView::Version
    } else {
        CommandView::Unknown(keyword)
    }
}

/// The keyword of a trimmed text that starts with the prefix: what stands
/// between the prefix and the first whitespace.
pub open spec fn keyword_of(text: Seq<char>) -> Seq<char> {
    text.subrange(1, token_end(text, 1))
}

/// What a text is read as: a command where the trimmed text starts with the
/// prefix, and nothing otherwise.
pub open spec fn parse_spec(input: Seq<char>) -> Option<CommandView> {
    let text = trimmed(input);
    if text.len() > 0 && text[0] == prefix() {
        Some(command_of(keyword_of(text)))
    } else {
        None
    }
}

/// The fixed reply of a command.
pub open spec fn reply_of(command: CommandView) -> Seq<char> {
    match command {
        CommandView::Reset => ""@,
        CommandView::Help => "Help text"@,
        CommandView::Version => "Matrix AI Bot, v0.10"@,
        CommandView::Unknown(_) => "Unknown command"@,
    }
}

/// The control signal of a command in the history: a reset is the boundary,
/// any other command is passed over.
pub open spec fn command_signal(command: CommandView) -> Option<ProcessedView> {
    match command {
        CommandView::Reset => Some(ProcessedView::Stop),
        _ => None,
    }
}

/// The view of an optional command.
pub open spec fn command_view(command: Option<Command>) -> Option<CommandView> {
    match command {
        Some(c) => Some(c@),
        None => None,
    }
}

/// The token that starts at `from` ends at the same place in a text and in a
/// part of it that ends at whitespace or at the end of the text.
proof fn lemma_token_end_in_part(s: Seq<char>, a: int, b: int, i: int)
    requires
        0 <= a <= i <= b <= s.len(),
        b == s.len() || is_space(s[b]),
    ensures
        token_end(s.subrange(a, b), i - a) == token_end(s, i) - a,
    decreases b - i,
{
    let t = s.subrange(a, b);
    if i < b {
        assert(t[i - a] == s[i]);
        if !is_space(s[i]) {
            lemma_token_end_in_part(s, a, b, i + 1);
        }
    }
}

impl Command {
    /// Reads a command out of a message text.
    pub fn parse(input: &str) -> (r: Option<Command>)
        ensures
            command_view(r) == parse_spec(input@),
    {
        let chars = chars_of(input);
        let n = chars.len();
        let mut a: usize = 0;
        while a < n && is_whitespace(chars[a])
            invariant
                0 <= a <= n,
                n == chars@.len(),
                skip_spaces(chars@, 0) == skip_spaces(chars@, a as int),
            decreases n - a,
        {
            a += 1;
        }
        let mut b: usize = n;
        while b > a && is_whitespace(chars[b - 1])
            invariant
                a <= b <= n,
                n == chars@.len(),
                drop_spaces(chars@, a as int, n as int) == drop_spaces(chars@, a as int, b as int),
            decreases b,
        {
            b -= 1;
        }
        assert(a == trim_start(input@));
        assert(b == trim_end(input@));
        let ghost text = trimmed(input@);
        if a == b || chars[a] != '!' {
            assert(text.len() > 0 ==> text[0] == chars@[a as int]);
            return None;
        }
        assert(text[0] == chars@[a as int]);
        let mut e: usize = a + 1;
        while e < b && !is_whitespace(chars[e])
            invariant
                a < e <= b <= n,
                n == chars@.len(),
                token_end(chars@, a + 1) == token_end(chars@, e as int),
            decreases b - e,
        {
            e += 1;
        }
        proof {
            lemma_drop_spaces(chars@, a as int, n as int);
            assert(token_end(chars@, a + 1) == e);
            lemma_token_end_in_part(chars@, a as int, b as int, a + 1);
            assert(keyword_of(text) == chars@.subrange(a + 1, e as int));
        }
        let keyword = input.substring_char(a + 1, e);
        let command = if same_text(keyword, "reset") {
            Command::Reset
        } else if same_text(keyword, "help") {
            Command::Help
        } else if same_text(keyword, "version") {
            Command::Version
        } else {
            Command::Unknown(keyword.to_owned())
        };
        Some(command)
    }

    /// The control signal of this command in the history.
    pub fn into_processed(&self) -> (r: Option<Processed>)
        ensures
            outcome_view(Ok(r)) == Ok::<Option<ProcessedView>, EventError>(
                command_signal(self@),
            ),
    {
        match self {
            Command::Reset => Some(Processed::Stop),
            _ => None,
        }
    }

    /// The fixed reply text of this command.
    pub fn as_str(&self) -> (r: &'static str)
        ensures
            r@ == reply_of(self@),
    {
        match self {
            Command::Reset => "",
            Command::Help => "Help text",
            Command::Version => "Matrix AI Bot, v0.10",
            Command::Unknown(_) => "Unknown command",
        }
    }
}

/// The first character of a text that is no whitespace.
pub open spec fn first_visible(input: Seq<char>) -> Option<char> {
    let i = skip_spaces(input, 0);
    if i < input.len() {
        Some(input[i])
    } else {
        None
    }
}

/// The three keywords name their commands.
pub proof fn lemma_keywords()
    ensures
        command_of("reset"@) == CommandView::Reset,
        command_of("help"@) == CommandView::Help,
        command_of("version"@) == CommandView::Version,
{
    reveal_strlit("reset");
    reveal_strlit("help");
    reveal_strlit("version");
    assert("help"@.len() != "reset"@.len());
    assert("version"@.len() != "reset"@.len());
    assert("version"@.len() != "help"@.len());
}

/// A text is a command exactly where its first character that is no
/// whitespace is the prefix.
pub proof fn lemma_parse_prefix(input: Seq<char>)
    ensures
        parse_spec(input) is Some <==> first_visible(input) == Some(prefix()),
{
    let a = trim_start(input);
    let b = trim_end(input);
    lemma_skip_spaces(input, 0);
    lemma_drop_spaces(input, a, input.len() as int);
    if a < input.len() {
        assert(a < b) by {
            if a == b {
                assert(is_space(input[a]));
            }
        }
        assert(trimmed(input)[0] == input[a]);
    }
}

/// A text that holds, after whitespace, the prefix and a keyword that ends
/// at whitespace or at the end of the text is the command that the keyword
/// names: the matching command for `reset`, `help` and `version`, and the
/// unknown command of that keyword for any other.
pub proof fn lemma_parse_keyword(lead: Seq<char>, keyword: Seq<char>, rest: Seq<char>)
    requires
        forall|i: int| 0 <= i < lead.len() ==> is_space(#[trigger] lead[i]),
        forall|i: int| 0 <= i < keyword.len() ==> !is_space(#[trigger] keyword[i]),
        rest.len() == 0 || is_space(rest[0]),
    ensures
        parse_spec(lead + seq![prefix()] + keyword + rest) == Some(command_of(keyword)),
        keyword != "reset"@ && keyword != "help"@ && keyword != "version"@ ==> parse_spec(
            lead + seq![prefix()] + keyword + rest,
        ) == Some(CommandView::Unknown(keyword)),
{
    let input = lead + seq![prefix()] + keyword + rest;
    let a = lead.len() as int;
    let k = a + 1 + keyword.len();
    assert(input[a] == prefix());
    assert forall|i: int| 0 <= i < a implies is_space(#[trigger] input[i]) by {
        assert(input[i] == lead[i]);
    }
    assert forall|i: int| a + 1 <= i < k implies !is_space(#[trigger] input[i]) by {
        assert(input[i] == keyword[i - a - 1]);
    }
    if rest.len() > 0 {
        assert(input[k] == rest[0]);
    }
    lemma_skip_spaces_is(input, 0, a);
    let b = trim_end(input);
    lemma_drop_spaces(input, a, input.len() as int);
    assert(b >= k) by {
        if b < k {
            assert(is_space(input[k - 1]));
        }
    }
    let text = trimmed(input);
    let e = 1 + keyword.len() as int;
    assert(text[0] == input[a]);
    assert forall|i: int| 1 <= i < e implies !is_space(#[trigger] text[i]) by {
        assert(text[i] == input[a + i]);
    }
    if e < text.len() {
        assert(text[e] == input[k]);
    }
    lemma_token_end_is(text, 1, e);
    assert(keyword_of(text) =~= keyword);
}

} // verus!

//! The command line: splitting a line into a command word and quoted
//! arguments, and mapping the word to a command.

use crate::text::{
    chars_of, find, find_char, is_space, is_whitespace, lemma_find, lowercase, string_of,
    to_lowercase, trim_bounds, trimmed,
};
use vstd::prelude::*;

verus! {

/// Why a line could not be turned into a command.
#[derive(Debug, Clone, Copy, PartialEq, Eq, Structural)]
pub enum ParseError {
    /// The line holds nothing but whitespace.
    NoInput,
    /// The command word starts with `/` but names no command.
    UnknownCommand,
}

impl ParseError {
    /// The text of the error as shown to the user.
    pub open spec fn text(self) -> Seq<char> {
        match self {
            ParseError::NoInput => "no input"@,
            ParseError::UnknownCommand => "unknown command"@,
        }
    }

    /// The text of the error as shown to the user.
    pub fn message(&self) -> (m: String)
        ensures
            m@ == self.text(),
    {
        match self {
            ParseError::NoInput => "no input".to_owned(),
            ParseError::UnknownCommand => "unknown command".to_owned(),
        }
    }
}

/// A command word, lower-cased, and the arguments that followed it.
#[derive(Debug, Clone, PartialEq, Eq)]
pub struct TokenizedCommand {
    pub command: String,
    pub args: Vec<String>,
}

/// A parsed command.
#[derive(Debug, Clone, PartialEq, Eq)]
pub enum InputCommand {
    Add { params: Vec<String> },
    Delete { params: Vec<String> },
    Search { params: Vec<String> },
    List,
    Help,
    Quit,
}

/// The mathematical content of an `InputCommand`.
pub enum InputCommandView {
    Add { params: Seq<Seq<char>> },
    Delete { params: Seq<Seq<char>> },
    Search { params: Seq<Seq<char>> },
    List,
    Help,
    Quit,
}

/// The contents of a list of strings.
pub open spec fn texts(v: Seq<String>) -> Seq<Seq<char>> {
    v.map_values(|s: String| s@)
}

impl View for InputCommand {
    type V = InputCommandView;

    open spec fn view(&self) -> InputCommandView {
        match *self {
            InputCommand::Add { params } => InputCommandView::Add { params: texts(params@) },
            InputCommand::Delete { params } => InputCommandView::Delete { params: texts(params@) },
            InputCommand::Search { params } => InputCommandView::Search { params: texts(params@) },
            InputCommand::List => InputCommandView::List,
            InputCommand::Help => InputCommandView::Help,
            InputCommand::Quit => InputCommandView::Quit,
        }
    }
}

/// The contents of a parse result.
pub open spec fn outcome(r: Result<InputCommand, ParseError>) -> Result<
    InputCommandView,
    ParseError,
> {
    match r {
        Ok(c) => Ok(c@),
        Err(e) => Err(e),
    }
}

/// Whether `c` is one of the two quote characters.
pub open spec fn is_quote(c: char) -> bool {
    c == '"' || c == '\''
}

/// Whether the character at `i` is a quote with a matching quote after it, so
/// that a quoted span starts at `i`.
pub open spec fn opens_span(s: Seq<char>, i: int) -> bool {
    &&& 0 <= i < s.len()
    &&& is_quote(s[i])
    &&& find(s, s[i], i + 1) < s.len()
}

/// Where an unquoted run that has reached `from` ends: at the next
/// whitespace, at the next quoted span, or at the end of the input.
pub open spec fn run_end(s: Seq<char>, from: int) -> int
    decreases s.len() - from,
{
    if from < 0 || from >= s.len() {
        s.len() as int
    } else if is_space(s[from]) || opens_span(s, from) {
        from
    } else {
        run_end(s, from + 1)
    }
}

/// `run_end` does not move backwards and stays inside the input.
pub proof fn lemma_run_end(s: Seq<char>, from: int)
    requires
        0 <= from <= s.len(),
    ensures
        from <= run_end(s, from) <= s.len(),
    decreases s.len() - from,
{
    if from < s.len() && !(is_space(s[from]) || opens_span(s, from)) {
        lemma_run_end(s, from + 1);
    }
}

/// The argument tokens of `s` from position `i` on, left to right.
///
/// Whitespace separates tokens. A quote that has a matching quote after it
/// starts a span; the span gives one token, the text between the two quotes,
/// unless that text is empty. Any other character starts a run, which gives
/// one token and ends before the next whitespace or span. A quote without a
/// matching quote after it is an ordinary character of a run.
pub open spec fn tokens_from(s: Seq<char>, i: int) -> Seq<Seq<char>>
    decreases s.len() - i,
{
    if i < 0 || i >= s.len() {
        Seq::empty()
    } else if is_space(s[i]) {
        tokens_from(s, i + 1)
    } else if opens_span(s, i) {
        let close = find(s, s[i], i + 1);
        proof {
            lemma_find(s, s[i], i + 1);
        }
        if close == i + 1 {
            tokens_from(s, close + 1)
        } else {
            seq![s.subrange(i + 1, close)] + tokens_from(s, close + 1)
        }
    } else {
        let end = run_end(s, i + 1);
        proof {
            lemma_run_end(s, i + 1);
        }
        seq![s.subrange(i, end)] + tokens_from(s, end)
    }
}

/// The argument tokens of `s`.
pub open spec fn tokens(s: Seq<char>) -> Seq<Seq<char>> {
    tokens_from(s, 0)
}

/// An empty argument string has no tokens.
pub proof fn lemma_nothing_has_no_tokens()
    ensures
        tokens(Seq::<char>::empty()) == Seq::<Seq<char>>::empty(),
{
}

/// An argument string of whitespace alone has no tokens.
pub proof fn lemma_blank_has_no_tokens(s: Seq<char>, i: int)
    requires
        forall|k: int| 0 <= k < s.len() ==> is_space(s[k]),
    ensures
        tokens_from(s, i) == Seq::<Seq<char>>::empty(),
    decreases s.len() - i,
{
    if 0 <= i < s.len() {
        lemma_blank_has_no_tokens(s, i + 1);
    }
}

/// No token is empty.
pub proof fn lemma_tokens_are_not_empty(s: Seq<char>, i: int)
    ensures
        forall|k: int|
            0 <= k < tokens_from(s, i).len() ==> (#[trigger] tokens_from(s, i)[k]).len() > 0,
    decreases s.len() - i,
{
    if 0 <= i < s.len() {
        if is_space(s[i]) {
            lemma_tokens_are_not_empty(s, i + 1);
            assert(tokens_from(s, i) == tokens_from(s, i + 1));
        } else if opens_span(s, i) {
            let close = find(s, s[i], i + 1);
            lemma_find(s, s[i], i + 1);
            lemma_tokens_are_not_empty(s, close + 1);
            let rest = tokens_from(s, close + 1);
            assert forall|k: int| 0 <= k < tokens_from(s, i).len() implies (
            #[trigger] tokens_from(s, i)[k]).len() > 0 by {
                if close != i + 1 && k > 0 {
                    assert(tokens_from(s, i)[k] == rest[k - 1]);
                }
            }
        } else {
            let end = run_end(s, i + 1);
            lemma_run_end(s, i + 1);
            lemma_tokens_are_not_empty(s, end);
            let rest = tokens_from(s, end);
            assert forall|k: int| 0 <= k < tokens_from(s, i).len() implies (
            #[trigger] tokens_from(s, i)[k]).len() > 0 by {
                if k > 0 {
                    assert(tokens_from(s, i)[k] == rest[k - 1]);
                }
            }
        }
    } else {
        assert(tokens_from(s, i).len() == 0);
    }
}

/// Without a quote in the text, no token holds whitespace: the tokens are
/// the words of the text.
pub proof fn lemma_plain_tokens_are_words(s: Seq<char>, i: int)
    requires
        forall|k: int| 0 <= k < s.len() ==> !is_quote(s[k]),
    ensures
        forall|k: int, j: int|
            0 <= k < tokens_from(s, i).len() && 0 <= j < tokens_from(s, i)[k].len() ==> !is_space(
                #[trigger] tokens_from(s, i)[k][j],
            ),
    decreases s.len() - i,
{
    if 0 <= i < s.len() {
        if is_space(s[i]) {
            lemma_plain_tokens_are_words(s, i + 1);
            assert(tokens_from(s, i) == tokens_from(s, i + 1));
        } else {
            assert(!opens_span(s, i));
            let end = run_end(s, i + 1);
            lemma_run_end(s, i + 1);
            lemma_run_has_no_space(s, i + 1);
            lemma_plain_tokens_are_words(s, end);
            let rest = tokens_from(s, end);
            assert forall|k: int, j: int|
                0 <= k < tokens_from(s, i).len() && 0 <= j < tokens_from(s, i)[k].len() implies !is_space(
                #[trigger] tokens_from(s, i)[k][j],
            ) by {
                if k > 0 {
                    assert(tokens_from(s, i)[k] == rest[k - 1]);
                } else {
                    assert(tokens_from(s, i)[0] == s.subrange(i, end));
                    assert(s.subrange(i, end)[j] == s[i + j]);
                }
            }
        }
    } else {
        assert(tokens_from(s, i).len() == 0);
    }
}

/// No character of a run is whitespace.
proof fn lemma_run_has_no_space(s: Seq<char>, from: int)
    requires
        0 <= from <= s.len(),
    ensures
        forall|k: int| from <= k < run_end(s, from) ==> !is_space(s[k]),
    decreases s.len() - from,
{
    if from < s.len() && !(is_space(s[from]) || opens_span(s, from)) {
        lemma_run_has_no_space(s, from + 1);
    }
}

/// Where the unquoted run that has reached `from` ends.
fn scan_run(s: &Vec<char>, from: usize) -> (end: usize)
    requires
        from <= s.len(),
    ensures
        end == run_end(s@, from as int),
        from <= end <= s.len(),
{
    let mut i: usize = from;
    while i < s.len()
        invariant
            from <= i <= s.len(),
            run_end(s@, from as int) == run_end(s@, i as int),
        decreases s.len() - i,
    {
        let c: char = s[i];
        if is_whitespace(c) {
            return i;
        }
        if c == '"' || c == '\'' {
            let close: usize = find_char(s, c, i + 1);
            if close < s.len() {
                return i;
            }
        }
        i += 1;
    }
    i
}

/// Splits the characters of an argument string into tokens.
pub fn tokenize_chars(s: &Vec<char>) -> (out: Vec<String>)
    ensures
        texts(out@) == tokens(s@),
{
    let mut out: Vec<String> = Vec::new();
    let mut i: usize = 0;
    assert(texts(out@) + tokens_from(s@, 0) =~= tokens(s@));
    while i < s.len()
        invariant
            i <= s.len(),
            texts(out@) + tokens_from(s@, i as int) == tokens(s@),
        decreases s.len() - i,
    {
        let c: char = s[i];
        let ghost before = texts(out@);
        if is_whitespace(c) {
            i += 1;
        } else {
            let close: usize = if c == '"' || c == '\'' {
                find_char(s, c, i + 1)
            } else {
                s.len()
            };
            if close < s.len() {
                assert(opens_span(s@, i as int));
                if close > i + 1 {
                    let token = string_of(s, i + 1, close);
                    out.push(token);
                    assert(texts(out@) =~= before.push(token@));
                    assert(before.push(token@) + tokens_from(s@, close + 1) =~= before + (
                    seq![token@] + tokens_from(s@, close + 1)));
                }
                i = close + 1;
            } else {
                assert(!opens_span(s@, i as int));
                let end: usize = scan_run(s, i + 1);
                let token = string_of(s, i, end);
                out.push(token);
                assert(texts(out@) =~= before.push(token@));
                assert(before.push(token@) + tokens_from(s@, end as int) =~= before + (seq![
                    token@,
                ] + tokens_from(s@, end as int)));
                i = end;
            }
        }
    }
    assert(texts(out@) + tokens_from(s@, i as int) =~= texts(out@));
    out
}

/// Splits an argument string into tokens: quoted spans and runs of
/// non-whitespace characters.
pub fn tokenize(rest: &str) -> (out: Vec<String>)
    ensures
        texts(out@) == tokens(rest@),
{
    let s = chars_of(rest);
    tokenize_chars(&s)
}

/// The command word of a trimmed line: everything before the first space.
pub open spec fn command_word(line: Seq<char>) -> Seq<char> {
    line.subrange(0, find(line, ' ', 0))
}

/// What follows the first space of a trimmed line; empty when the line has
/// no space.
pub open spec fn remainder(line: Seq<char>) -> Seq<char> {
    let cut = find(line, ' ', 0);
    if cut < line.len() {
        line.subrange(cut + 1, line.len() as int)
    } else {
        Seq::empty()
    }
}

/// A copy of `v[from..to]`.
fn sub_vec(v: &Vec<char>, from: usize, to: usize) -> (part: Vec<char>)
    requires
        from <= to <= v.len(),
    ensures
        part@ == v@.subrange(from as int, to as int),
{
    let mut part: Vec<char> = Vec::new();
    let mut i: usize = from;
    while i < to
        invariant
            from <= i <= to <= v.len(),
            part@ == v@.subrange(from as int, i as int),
        decreases to - i,
    {
        part.push(v[i]);
        i += 1;
    }
    part
}

/// Splits a line into its command word and argument tokens.
///
/// The line is trimmed first. A line with nothing left is refused. The
/// command word is what stands before the first space, lower-cased; the
/// arguments are the tokens of what follows, kept as written.
pub fn tokenize_line(line: &str) -> (r: Result<TokenizedCommand, ParseError>)
    ensures
        trimmed(line@).len() == 0 <==> r is Err,
        r is Err ==> r == Err::<TokenizedCommand, ParseError>(ParseError::NoInput),
        r matches Ok(t) ==> {
            &&& t.command@ == lowercase(command_word(trimmed(line@)))
            &&& texts(t.args@) == tokens(remainder(trimmed(line@)))
        },
{
    let all = chars_of(line);
    let (from, to) = trim_bounds(&all);
    if from == to {
        return Err(ParseError::NoInput);
    }
    let kept = sub_vec(&all, from, to);
    let cut: usize = find_char(&kept, ' ', 0);
    let word = string_of(&kept, 0, cut);
    let command = to_lowercase(word.as_str());
    let rest: Vec<char> = if cut < kept.len() {
        sub_vec(&kept, cut + 1, kept.len())
    } else {
        Vec::new()
    };
    let args = tokenize_chars(&rest);
    Ok(TokenizedCommand { command, args })
}

/// The command that a lower-cased command word and its arguments stand for.
///
/// A word that starts with `/` must name a command. Any other word is the
/// first term of a search.
pub open spec fn dispatch_spec(command: Seq<char>, args: Seq<Seq<char>>) -> Result<
    InputCommandView,
    ParseError,
> {
    if command.len() > 0 && command[0] == '/' {
        if command == "/add"@ {
            Ok(InputCommandView::Add { params: args })
        } else if command == "/delete"@ {
            Ok(InputCommandView::Delete { params: args })
        } else if command == "/list"@ {
            Ok(InputCommandView::List)
        } else if command == "/help"@ {
            Ok(InputCommandView::Help)
        } else if command == "/quit"@ {
            Ok(InputCommandView::Quit)
        } else {
            Err(ParseError::UnknownCommand)
        }
    } else {
        Ok(InputCommandView::Search { params: seq![command] + args })
    }
}

/// Whether two string slices hold the same text.
fn same_text(a: &str, b: &str) -> (same: bool)
    ensures
        same == (a@ == b@),
{
    let x = chars_of(a);
    let y = chars_of(b);
    if x.len() != y.len() {
        return false;
    }
    let mut i: usize = 0;
    while i < x.len()
        invariant
            i <= x.len(),
            x.len() == y.len(),
            x@ == a@,
            y@ == b@,
            forall|k: int| 0 <= k < i ==> x@[k] == y@[k],
        decreases x.len() - i,
    {
        if x[i] != y[i] {
            return false;
        }
        i += 1;
    }
    assert(x@ =~= y@);
    true
}

/// Maps a tokenized line to a command.
pub fn dispatch(line: TokenizedCommand) -> (r: Result<InputCommand, ParseError>)
    ensures
        outcome(r) == dispatch_spec(line.command@, texts(line.args@)),
{
    let TokenizedCommand { command, args } = line;
    let word = command.as_str();
    if !word.is_empty() && word.get_char(0) == '/' {
        if same_text(word, "/add") {
            Ok(InputCommand::Add { params: args })
        } else if same_text(word, "/delete") {
            Ok(InputCommand::Delete { params: args })
        } else if same_text(word, "/list") {
            Ok(InputCommand::List)
        } else if same_text(word, "/help") {
            Ok(InputCommand::Help)
        } else if same_text(word, "/quit") {
            Ok(InputCommand::Quit)
        } else {
            Err(ParseError::UnknownCommand)
        }
    } else {
        let ghost rest = texts(args@);
        let mut params: Vec<String> = Vec::new();
        params.push(command);
        let mut args = args;
        params.append(&mut args);
        assert(texts(params@) =~= seq![command@] + rest);
        Ok(InputCommand::Search { params })
    }
}

/// The command that a line stands for.
pub open spec fn process_spec(line: Seq<char>) -> Result<InputCommandView, ParseError> {
    let kept = trimmed(line);
    if kept.len() == 0 {
        Err(ParseError::NoInput)
    } else {
        dispatch_spec(lowercase(command_word(kept)), tokens(remainder(kept)))
    }
}

/// Parses one line of input into a command.
pub fn process_input(line: &str) -> (r: Result<InputCommand, ParseError>)
    ensures
        outcome(r) == process_spec(line@),
{
    match tokenize_line(line) {
        Ok(tokenized) => dispatch(tokenized),
        Err(e) => Err(e),
    }
}

} // verus!

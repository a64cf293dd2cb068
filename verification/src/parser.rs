//! The command-line parser: one line of text in, one structured command,
//! view request or parse error out.
//!
//! A line is first trimmed of surrounding whitespace (space, tab,
//! carriage return, line feed), then cut at every single space: two
//! spaces in a row produce an empty word, as the splitting of the
//! standard library does. The first letter of the first word selects the
//! command; `r` needs its second letter to tell renting from rolling
//! back.

use vstd::prelude::*;

use crate::controller::Command;
use crate::controller::CommandV;

verus! {

/// A successfully parsed line: either a view request or an executor
/// command.
#[derive(Debug, PartialEq, Eq)]
pub enum ParseResult {
    /// The user asks the view to print the command summary.
    Help,
    /// The user asks the view to quit.
    Quit,
    /// The user asks the executor to run a command.
    Command(Command),
}

/// The mathematical image of a [`ParseResult`].
pub enum ParseResultV {
    Help,
    Quit,
    Command(CommandV),
}

impl View for ParseResult {
    type V = ParseResultV;

    open spec fn view(&self) -> ParseResultV {
        match self {
            ParseResult::Help => ParseResultV::Help,
            ParseResult::Quit => ParseResultV::Quit,
            ParseResult::Command(c) => ParseResultV::Command(c@),
        }
    }
}

/// Why a line could not be parsed.
#[derive(Debug, PartialEq, Eq)]
pub enum ParseError {
    /// The line matches no recognised command shape.
    Default,
    /// A command that needs a student identifier got none.
    NoStudent,
    /// A command that needs an instrument identifier got none.
    NoInstrument,
}

/// The whitespace characters stripped from the ends of a line.
pub open spec fn is_ws(c: char) -> bool {
    c == ' ' || c == '\t' || c == '\r' || c == '\n'
}

/// `s` with leading whitespace removed.
pub open spec fn trim_start_rec(s: Seq<char>) -> Seq<char>
    decreases s.len(),
{
    if s.len() > 0 && is_ws(s[0]) {
        trim_start_rec(s.drop_first())
    } else {
        s
    }
}

/// `s` with trailing whitespace removed.
pub open spec fn trim_end_rec(s: Seq<char>) -> Seq<char>
    decreases s.len(),
{
    if s.len() > 0 && is_ws(s.last()) {
        trim_end_rec(s.drop_last())
    } else {
        s
    }
}

/// `s` with whitespace removed from both ends.
pub open spec fn trimmed(s: Seq<char>) -> Seq<char> {
    trim_end_rec(trim_start_rec(s))
}

/// The position of the first space in `s`, or its length if none.
pub open spec fn first_space(s: Seq<char>) -> nat
    decreases s.len(),
{
    if s.len() == 0 {
        0
    } else if s[0] == ' ' {
        0
    } else {
        1 + first_space(s.drop_first())
    }
}

/// `s` cut at every single space. The result always holds at least one
/// word; consecutive spaces give empty words.
pub open spec fn split_spec(s: Seq<char>) -> Seq<Seq<char>>
    decreases s.len(),
{
    let i = first_space(s);
    if i >= s.len() {
        seq![s]
    } else {
        seq![s.subrange(0, i as int)] + split_spec(s.subrange(i as int + 1, s.len() as int))
    }
}

/// The word at position `k`, or the empty word past the end.
pub open spec fn word_or_empty(ws: Seq<Seq<char>>, k: int) -> Seq<char> {
    if 0 <= k < ws.len() {
        ws[k]
    } else {
        Seq::empty()
    }
}

/// What the list command's words mean: an absent or empty second word
/// lists everything, any other second word filters by category.
pub open spec fn parse_list_model(ws: Seq<Seq<char>>) -> ParseResultV {
    let t = word_or_empty(ws, 1);
    if t.len() == 0 {
        ParseResultV::Command(CommandV::List(None))
    } else {
        ParseResultV::Command(CommandV::List(Some(t)))
    }
}

/// What the rent command's words mean: it needs a student and an
/// instrument word.
pub open spec fn parse_rent_model(ws: Seq<Seq<char>>) -> Result<ParseResultV, ParseError> {
    if ws.len() < 2 {
        Err(ParseError::NoStudent)
    } else if ws.len() < 3 {
        Err(ParseError::NoInstrument)
    } else {
        Ok(ParseResultV::Command(CommandV::Rent(ws[1], ws[2])))
    }
}

/// What the terminate command's words mean: it needs a student and an
/// instrument word and resolves the rental from the pair.
pub open spec fn parse_terminate_model(ws: Seq<Seq<char>>) -> Result<ParseResultV, ParseError> {
    if ws.len() < 2 {
        Err(ParseError::NoStudent)
    } else if ws.len() < 3 {
        Err(ParseError::NoInstrument)
    } else {
        Ok(ParseResultV::Command(CommandV::TryTerminate(ws[1], ws[2])))
    }
}

/// What a whole line means.
pub open spec fn parse_model(s: Seq<char>) -> Result<ParseResultV, ParseError> {
    let ws = split_spec(trimmed(s));
    let w0 = ws[0];
    let c0 = if w0.len() == 0 {
        '\0'
    } else {
        w0[0]
    };
    if c0 == 'b' {
        Ok(ParseResultV::Command(CommandV::Begin))
    } else if c0 == 'c' {
        Ok(ParseResultV::Command(CommandV::Commit))
    } else if c0 == 'h' {
        Ok(ParseResultV::Help)
    } else if c0 == 'l' {
        Ok(parse_list_model(ws))
    } else if c0 == 'q' {
        Ok(ParseResultV::Quit)
    } else if c0 == 't' {
        parse_terminate_model(ws)
    } else if c0 == 'r' {
        let c1 = if w0.len() < 2 {
            '\0'
        } else {
            w0[1]
        };
        if c1 == 'e' {
            parse_rent_model(ws)
        } else if c1 == 'o' {
            Ok(ParseResultV::Command(CommandV::Rollback))
        } else {
            Err(ParseError::Default)
        }
    } else {
        Err(ParseError::Default)
    }
}

fn is_ws_x(c: char) -> (r: bool)
    ensures
        r == is_ws(c),
{
    c == ' ' || c == '\t' || c == '\r' || c == '\n'
}

proof fn lemma_trim_start(s: Seq<char>, i: int)
    requires
        0 <= i <= s.len(),
        forall|k: int| 0 <= k < i ==> is_ws(s[k]),
        i < s.len() ==> !is_ws(s[i]),
    ensures
        trim_start_rec(s) == s.skip(i),
    decreases i,
{
    if i == 0 {
        assert(s.skip(0) =~= s);
    } else {
        assert(is_ws(s[0]));
        lemma_trim_start(s.drop_first(), i - 1);
        assert(s.drop_first().skip(i - 1) =~= s.skip(i));
    }
}

proof fn lemma_trim_end(s: Seq<char>, j: int)
    requires
        0 <= j <= s.len(),
        forall|k: int| j <= k < s.len() ==> is_ws(s[k]),
        j > 0 ==> !is_ws(s[j - 1]),
    ensures
        trim_end_rec(s) == s.take(j),
    decreases s.len() - j,
{
    if j == s.len() {
        assert(s.take(j) =~= s);
    } else {
        assert(is_ws(s.last()));
        lemma_trim_end(s.drop_last(), j);
        assert(s.drop_last().take(j) =~= s.take(j));
    }
}

/// Removes whitespace from both ends of a line.
pub fn trim(s: &str) -> (r: &str)
    ensures
        r@ == trimmed(s@),
{
    let n = s.unicode_len();
    let mut i: usize = 0;
    while i < n && is_ws_x(s.get_char(i))
        invariant
            0 <= i <= n,
            n == s@.len(),
            forall|k: int| 0 <= k < i ==> is_ws(s@[k]),
        decreases n - i,
    {
        i = i + 1;
    }
    let mut j: usize = n;
    while j > i && is_ws_x(s.get_char(j - 1))
        invariant
            i <= j <= n,
            n == s@.len(),
            forall|k: int| j <= k < n ==> is_ws(s@[k]),
        decreases j,
    {
        j = j - 1;
    }
    let r = s.substring_char(i, j);
    proof {
        lemma_trim_start(s@, i as int);
        let t = s@.skip(i as int);
        lemma_trim_end(t, j - i);
        assert(t.take(j - i) =~= s@.subrange(i as int, j as int));
    }
    r
}

proof fn lemma_first_space(s: Seq<char>, p: int)
    requires
        0 <= p <= s.len(),
        forall|k: int| 0 <= k < p ==> s[k] != ' ',
        p < s.len() ==> s[p] == ' ',
    ensures
        first_space(s) == p,
    decreases p,
{
    if p == 0 {
    } else {
        assert(s[0] != ' ');
        lemma_first_space(s.drop_first(), p - 1);
    }
}

/// Cuts a line at every single space. At least one word always comes
/// back; consecutive spaces give empty words.
pub fn split_words(s: &str) -> (r: Vec<String>)
    ensures
        r@.map_values(|w: String| w@) == split_spec(s@),
        r@.len() >= 1,
    decreases s@.len(),
{
    let n = s.unicode_len();
    let mut p: usize = 0;
    while p < n && s.get_char(p) != ' '
        invariant
            0 <= p <= n,
            n == s@.len(),
            forall|k: int| 0 <= k < p ==> s@[k] != ' ',
        decreases n - p,
    {
        p = p + 1;
    }
    proof {
        lemma_first_space(s@, p as int);
    }
    if p == n {
        let mut r: Vec<String> = Vec::new();
        r.push(String::from_str(s));
        proof {
            assert(r@.map_values(|w: String| w@) =~= split_spec(s@));
        }
        r
    } else {
        let head = s.substring_char(0, p);
        let tail = s.substring_char(p + 1, n);
        let mut r = split_words(tail);
        r.insert(0, String::from_str(head));
        proof {
            assert(r@.map_values(|w: String| w@) =~= seq![s@.subrange(0, p as int)]
                + split_spec(s@.subrange(p + 1, n as int)));
        }
        r
    }
}

/// Reads the optional category filter of a list command.
pub fn parse_list(words: &Vec<String>) -> (r: ParseResult)
    ensures
        r@ == parse_list_model(words@.map_values(|w: String| w@)),
{
    if words.len() >= 2 {
        let t = &words[1];
        if t.as_str().unicode_len() == 0 {
            ParseResult::Command(Command::List(None))
        } else {
            ParseResult::Command(Command::List(Some(String::from_str(t.as_str()))))
        }
    } else {
        ParseResult::Command(Command::List(None))
    }
}

/// Reads the student and instrument words of a rent command.
pub fn parse_rent(words: &Vec<String>) -> (r: Result<ParseResult, ParseError>)
    ensures
        r matches Ok(p) ==> parse_rent_model(words@.map_values(|w: String| w@)) == Ok::<ParseResultV, ParseError>(p@),
        r matches Err(e) ==> parse_rent_model(words@.map_values(|w: String| w@)) == Err::<ParseResultV, ParseError>(e),
{
    if words.len() < 2 {
        Err(ParseError::NoStudent)
    } else if words.len() < 3 {
        Err(ParseError::NoInstrument)
    } else {
        Ok(
            ParseResult::Command(
                Command::Rent(
                    String::from_str(words[1].as_str()),
                    String::from_str(words[2].as_str()),
                ),
            ),
        )
    }
}

/// Reads the student and instrument words of a terminate command.
pub fn parse_terminate(words: &Vec<String>) -> (r: Result<ParseResult, ParseError>)
    ensures
        r matches Ok(p) ==> parse_terminate_model(words@.map_values(|w: String| w@)) == Ok::<ParseResultV, ParseError>(p@),
        r matches Err(e) ==> parse_terminate_model(words@.map_values(|w: String| w@)) == Err::<ParseResultV, ParseError>(e),
{
    if words.len() < 2 {
        Err(ParseError::NoStudent)
    } else if words.len() < 3 {
        Err(ParseError::NoInstrument)
    } else {
        Ok(
            ParseResult::Command(
                Command::TryTerminate(
                    String::from_str(words[1].as_str()),
                    String::from_str(words[2].as_str()),
                ),
            ),
        )
    }
}

/// Parses one line into a view request, an executor command, or a parse
/// error.
pub fn parse_to_command(s: &str) -> (r: Result<ParseResult, ParseError>)
    ensures
        r matches Ok(p) ==> parse_model(s@) == Ok::<ParseResultV, ParseError>(p@),
        r matches Err(e) ==> parse_model(s@) == Err::<ParseResultV, ParseError>(e),
{
    let t = trim(s);
    let words = split_words(t);
    let ghost ws = words@.map_values(|w: String| w@);
    let w0 = &words[0];
    let c0 = if w0.as_str().unicode_len() == 0 {
        '\0'
    } else {
        w0.as_str().get_char(0)
    };
    if c0 == 'b' {
        Ok(ParseResult::Command(Command::Begin))
    } else if c0 == 'c' {
        Ok(ParseResult::Command(Command::Commit))
    } else if c0 == 'h' {
        Ok(ParseResult::Help)
    } else if c0 == 'l' {
        Ok(parse_list(&words))
    } else if c0 == 'q' {
        Ok(ParseResult::Quit)
    } else if c0 == 't' {
        parse_terminate(&words)
    } else if c0 == 'r' {
        let c1 = if w0.as_str().unicode_len() < 2 {
            '\0'
        } else {
            w0.as_str().get_char(1)
        };
        if c1 == 'e' {
            parse_rent(&words)
        } else if c1 == 'o' {
            Ok(ParseResult::Command(Command::Rollback))
        } else {
            Err(ParseError::Default)
        }
    } else {
        Err(ParseError::Default)
    }
}

} // verus!

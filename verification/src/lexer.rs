//! The grammar's first layer: script text becomes lines of tokens.
//!
//! A script is read line by line. Spaces, tabs and carriage returns
//! separate tokens; those at the start of a line are its indentation. A
//! line without a token is blank and is left out.
//!
//! The tokens are
//! - a name: a letter or `_`, then letters, digits and `_`;
//! - a string: `"`, any characters but `"` up to the end of the line, `"`;
//! - a number: an optional `-`, then decimal digits;
//! - the marks `:`, `->`, `(`, `)`, `==` and `!=`.

use vstd::prelude::*;
use vstd::string::StrSliceExecFns;
use vstd::string::StringExecFns;

verus! {

/// The rule of the grammar that a piece of text failed to match.
#[derive(Clone, Copy, Debug, PartialEq, Eq, Structural)]
pub enum Rule {
    /// The script as a whole: a text too long to index.
    DirectScript,
    /// A top-level declaration: a label block or a choice set.
    Declaration,
    /// The statements of a block, which share one indentation.
    Block,
    /// A choice set: a name, `:`, and its options on the same line.
    ChoiceDecl,
    /// A line of dialogue: an optional speaker and `->`, then strings.
    Dialog,
    /// A quoted string.
    String,
    /// A decimal integer.
    Number,
    /// A command: `end`, `jump`, `choice` or `trigger`.
    Command,
    /// The head of an `if`.
    IfBlock,
    /// An operand of a condition.
    Variable,
    /// `==` or `!=`.
    LogicOperation,
    /// An `else` and its body.
    ElsePart,
    /// A token: a character that starts none.
    Token,
}

/// Where and why a text is not a script.
#[derive(Clone, Copy, Debug, PartialEq, Eq, Structural)]
pub struct SyntaxError {
    /// The rule that failed.
    pub rule: Rule,
    /// The line, counted from 1. Zero where the text as a whole is at fault.
    pub line: usize,
    /// The column in characters, counted from 1. Zero where the line as a
    /// whole is at fault.
    pub column: usize,
}

/// One token.
#[derive(Debug)]
pub enum Token {
    Name(String),
    Str(String),
    Number(String),
    Colon,
    Arrow,
    Open,
    Close,
    Equal,
    NotEqual,
}

/// Model of a [`Token`].
pub enum TokenModel {
    Name(Seq<char>),
    Str(Seq<char>),
    Number(Seq<char>),
    Colon,
    Arrow,
    Open,
    Close,
    Equal,
    NotEqual,
}

impl View for Token {
    type V = TokenModel;

    open spec fn view(&self) -> TokenModel {
        match self {
            Token::Name(text) => TokenModel::Name(text@),
            Token::Str(text) => TokenModel::Str(text@),
            Token::Number(text) => TokenModel::Number(text@),
            Token::Colon => TokenModel::Colon,
            Token::Arrow => TokenModel::Arrow,
            Token::Open => TokenModel::Open,
            Token::Close => TokenModel::Close,
            Token::Equal => TokenModel::Equal,
            Token::NotEqual => TokenModel::NotEqual,
        }
    }
}

/// One line of a script that holds a token.
#[derive(Debug)]
pub struct Line {
    /// The line's number, counted from 1.
    pub number: usize,
    /// The number of blank characters before its first token.
    pub indent: usize,
    /// Its tokens. There is at least one.
    pub tokens: Vec<Token>,
}

/// Model of a [`Line`].
pub struct LineModel {
    pub number: usize,
    pub indent: usize,
    pub tokens: Seq<TokenModel>,
}

/// The models of a list of tokens, in order.
pub open spec fn tokens_model(tokens: Seq<Token>) -> Seq<TokenModel> {
    Seq::new(tokens.len(), |i: int| tokens[i]@)
}

impl View for Line {
    type V = LineModel;

    open spec fn view(&self) -> LineModel {
        LineModel { number: self.number, indent: self.indent, tokens: tokens_model(self.tokens@) }
    }
}

/// The models of a list of lines, in order.
pub open spec fn lines_model(lines: Seq<Line>) -> Seq<LineModel> {
    Seq::new(lines.len(), |i: int| lines[i]@)
}

/// A class of characters.
#[derive(Clone, Copy, Debug, PartialEq, Eq, Structural)]
pub enum Class {
    /// A space, a tab or a carriage return.
    Blank,
    /// A letter, a digit or `_`.
    NamePart,
    /// A decimal digit.
    Digit,
    /// Anything but `"`.
    Quoted,
    /// Anything but a line feed.
    InLine,
}

pub open spec fn is_letter(c: char) -> bool {
    ('a' <= c && c <= 'z') || ('A' <= c && c <= 'Z') || c == '_'
}

pub open spec fn is_digit(c: char) -> bool {
    '0' <= c && c <= '9'
}

/// Whether `c` belongs to `class`.
pub open spec fn in_class(class: Class, c: char) -> bool {
    match class {
        Class::Blank => c == ' ' || c == '\t' || c == '\r',
        Class::NamePart => is_letter(c) || is_digit(c),
        Class::Digit => is_digit(c),
        Class::Quoted => c != '"',
        Class::InLine => c != '\n',
    }
}

/// The number of characters of `class` that stand in a row from `from` on,
/// before `end`.
pub open spec fn run_length(chars: Seq<char>, from: int, end: int, class: Class) -> nat
    decreases end - from,
{
    if 0 <= from < end && end <= chars.len() && in_class(class, chars[from]) {
        1 + run_length(chars, from + 1, end, class)
    } else {
        0
    }
}

/// The token that starts at `at`, and where it ends; or the rule that
/// fails there.
pub open spec fn token_at(chars: Seq<char>, at: int, end: int) -> Result<(TokenModel, int), Rule> {
    let c = chars[at];
    let follows = if at + 1 < end {
        Some(chars[at + 1])
    } else {
        None
    };
    if is_letter(c) {
        let stop = at + 1 + run_length(chars, at + 1, end, Class::NamePart);
        Ok((TokenModel::Name(chars.subrange(at, stop)), stop))
    } else if c == '"' {
        let stop = at + 1 + run_length(chars, at + 1, end, Class::Quoted);
        if stop < end {
            Ok((TokenModel::Str(chars.subrange(at + 1, stop)), stop + 1))
        } else {
            Err(Rule::String)
        }
    } else if is_digit(c) {
        let stop = at + 1 + run_length(chars, at + 1, end, Class::Digit);
        Ok((TokenModel::Number(chars.subrange(at, stop)), stop))
    } else if c == '-' {
        if follows == Some('>') {
            Ok((TokenModel::Arrow, at + 2))
        } else if follows is Some && is_digit(follows->Some_0) {
            let stop = at + 2 + run_length(chars, at + 2, end, Class::Digit);
            Ok((TokenModel::Number(chars.subrange(at, stop)), stop))
        } else {
            Err(Rule::Number)
        }
    } else if c == ':' {
        Ok((TokenModel::Colon, at + 1))
    } else if c == '(' {
        Ok((TokenModel::Open, at + 1))
    } else if c == ')' {
        Ok((TokenModel::Close, at + 1))
    } else if c == '=' {
        if follows == Some('=') {
            Ok((TokenModel::Equal, at + 2))
        } else {
            Err(Rule::LogicOperation)
        }
    } else if c == '!' {
        if follows == Some('=') {
            Ok((TokenModel::NotEqual, at + 2))
        } else {
            Err(Rule::LogicOperation)
        }
    } else {
        Err(Rule::Token)
    }
}

/// The tokens between `from` and `end`, after those of `found`; or the
/// rule that fails and the index where it fails.
pub open spec fn tokens_from(chars: Seq<char>, from: int, end: int, found: Seq<TokenModel>) -> Result<
    Seq<TokenModel>,
    (Rule, int),
>
    decreases end - from,
{
    let at = from + run_length(chars, from, end, Class::Blank);
    if at >= end || from < 0 {
        Ok(found)
    } else {
        match token_at(chars, at, end) {
            Ok((token, next)) => if next < end {
                tokens_from(chars, next, end, found.push(token))
            } else {
                Ok(found.push(token))
            },
            Err(rule) => Err((rule, at)),
        }
    }
}

/// The line that stands between `from` and `end`: `None` where it is
/// blank.
pub open spec fn lex_line(chars: Seq<char>, from: int, end: int, number: int) -> Result<
    Option<LineModel>,
    SyntaxError,
> {
    let indent = run_length(chars, from, end, Class::Blank);
    match tokens_from(chars, from + indent, end, Seq::empty()) {
        Ok(tokens) => if tokens.len() == 0 {
            Ok(None)
        } else {
            Ok(Some(LineModel { number: number as usize, indent: indent as usize, tokens }))
        },
        Err((rule, at)) => Err(
            SyntaxError { rule, line: number as usize, column: (at - from + 1) as usize },
        ),
    }
}

/// The lines from `from` on, where the line at `from` has the number
/// `number`, after those of `found`.
pub open spec fn lex_from(chars: Seq<char>, from: int, number: int, found: Seq<LineModel>) -> Result<
    Seq<LineModel>,
    SyntaxError,
>
    decreases chars.len() - from,
{
    if from >= chars.len() || from < 0 {
        Ok(found)
    } else {
        let end = from + run_length(chars, from, chars.len() as int, Class::InLine);
        match lex_line(chars, from, end, number) {
            Ok(line) => {
                let lines = match line {
                    Some(line) => found.push(line),
                    None => found,
                };
                if end < chars.len() {
                    lex_from(chars, end + 1, number + 1, lines)
                } else {
                    Ok(lines)
                }
            },
            Err(error) => Err(error),
        }
    }
}

/// The lines of a script. A text of `usize::MAX` characters or more is
/// not read.
pub open spec fn lex(chars: Seq<char>) -> Result<Seq<LineModel>, SyntaxError> {
    if chars.len() >= usize::MAX {
        Err(SyntaxError { rule: Rule::DirectScript, line: 0, column: 0 })
    } else {
        lex_from(chars, 0, 1, Seq::empty())
    }
}

/// The characters of a text, in order.
fn to_chars(source: &str) -> (chars: Vec<char>)
    ensures
        chars@ == source@,
{
    let mut chars: Vec<char> = Vec::new();
    for c in it: source.chars()
        invariant
            chars@ == it.seq().subrange(0, it.index() as int),
            it.seq() == source@,
    {
        chars.push(c);
    }
    chars
}

fn letter(c: char) -> (yes: bool)
    ensures
        yes == is_letter(c),
{
    ('a' <= c && c <= 'z') || ('A' <= c && c <= 'Z') || c == '_'
}

fn digit(c: char) -> (yes: bool)
    ensures
        yes == is_digit(c),
{
    '0' <= c && c <= '9'
}

fn belongs(class: Class, c: char) -> (yes: bool)
    ensures
        yes == in_class(class, c),
{
    match class {
        Class::Blank => c == ' ' || c == '\t' || c == '\r',
        Class::NamePart => letter(c) || digit(c),
        Class::Digit => digit(c),
        Class::Quoted => c != '"',
        Class::InLine => c != '\n',
    }
}

/// The index after the characters of `class` that stand in a row from
/// `from` on, before `end`.
fn scan(chars: &Vec<char>, from: usize, end: usize, class: Class) -> (stop: usize)
    requires
        from <= end <= chars.len(),
    ensures
        stop == from + run_length(chars@, from as int, end as int, class),
        from <= stop <= end,
{
    let mut i = from;
    while i < end && belongs(class, chars[i])
        invariant
            from <= i <= end <= chars.len(),
            (i - from) + run_length(chars@, i as int, end as int, class) == run_length(
                chars@,
                from as int,
                end as int,
                class,
            ),
        decreases end - i,
    {
        i += 1;
    }
    i
}

/// The token that starts at `at`, and the index after it.
fn read_token(source: &str, chars: &Vec<char>, at: usize, end: usize) -> (read: Result<
    (Token, usize),
    Rule,
>)
    requires
        at < end <= chars.len(),
        chars@ == source@,
    ensures
        match read {
            Ok((token, next)) => token_at(chars@, at as int, end as int) == Ok::<
                (TokenModel, int),
                Rule,
            >((token@, next as int)) && at < next <= end,
            Err(rule) => token_at(chars@, at as int, end as int) == Err::<(TokenModel, int), Rule>(
                rule,
            ),
        },
{
    let c = chars[at];
    let follows = if at + 1 < end {
        Some(chars[at + 1])
    } else {
        None
    };
    if letter(c) {
        let stop = scan(chars, at + 1, end, Class::NamePart);
        Ok((Token::Name(String::from_str(source.substring_char(at, stop))), stop))
    } else if c == '"' {
        let stop = scan(chars, at + 1, end, Class::Quoted);
        if stop < end {
            Ok((Token::Str(String::from_str(source.substring_char(at + 1, stop))), stop + 1))
        } else {
            Err(Rule::String)
        }
    } else if digit(c) {
        let stop = scan(chars, at + 1, end, Class::Digit);
        Ok((Token::Number(String::from_str(source.substring_char(at, stop))), stop))
    } else if c == '-' {
        match follows {
            Some(d) => {
                if d == '>' {
                    Ok((Token::Arrow, at + 2))
                } else if digit(d) {
                    let stop = scan(chars, at + 2, end, Class::Digit);
                    Ok((Token::Number(String::from_str(source.substring_char(at, stop))), stop))
                } else {
                    Err(Rule::Number)
                }
            },
            None => Err(Rule::Number),
        }
    } else if c == ':' {
        Ok((Token::Colon, at + 1))
    } else if c == '(' {
        Ok((Token::Open, at + 1))
    } else if c == ')' {
        Ok((Token::Close, at + 1))
    } else if c == '=' {
        match follows {
            Some(d) => if d == '=' {
                Ok((Token::Equal, at + 2))
            } else {
                Err(Rule::LogicOperation)
            },
            None => Err(Rule::LogicOperation),
        }
    } else if c == '!' {
        match follows {
            Some(d) => if d == '=' {
                Ok((Token::NotEqual, at + 2))
            } else {
                Err(Rule::LogicOperation)
            },
            None => Err(Rule::LogicOperation),
        }
    } else {
        Err(Rule::Token)
    }
}

/// The tokens between `from` and `end`.
fn read_tokens(source: &str, chars: &Vec<char>, from: usize, end: usize) -> (read: Result<
    Vec<Token>,
    (Rule, usize),
>)
    requires
        from <= end <= chars.len(),
        chars@ == source@,
    ensures
        match read {
            Ok(tokens) => tokens_from(chars@, from as int, end as int, Seq::empty()) == Ok::<
                Seq<TokenModel>,
                (Rule, int),
            >(tokens_model(tokens@)),
            Err((rule, at)) => tokens_from(chars@, from as int, end as int, Seq::empty()) == Err::<
                Seq<TokenModel>,
                (Rule, int),
            >((rule, at as int)) && from <= at < end,
        },
{
    let mut tokens: Vec<Token> = Vec::new();
    let mut i = from;
    proof {
        assert(tokens_model(tokens@) =~= Seq::<TokenModel>::empty());
    }
    loop
        invariant
            from <= i <= end <= chars.len(),
            chars@ == source@,
            tokens_from(chars@, from as int, end as int, Seq::empty()) == tokens_from(
                chars@,
                i as int,
                end as int,
                tokens_model(tokens@),
            ),
        decreases end - i,
    {
        let at = scan(chars, i, end, Class::Blank);
        if at >= end {
            return Ok(tokens);
        }
        match read_token(source, chars, at, end) {
            Ok((token, next)) => {
                proof {
                    assert(tokens_model(tokens@.push(token)) =~= tokens_model(tokens@).push(token@));
                }
                tokens.push(token);
                if next >= end {
                    return Ok(tokens);
                }
                i = next;
            },
            Err(rule) => {
                return Err((rule, at));
            },
        }
    }
}

/// The line between `from` and `end`, or `None` where it is blank.
fn read_line(source: &str, chars: &Vec<char>, from: usize, end: usize, number: usize) -> (read:
    Result<Option<Line>, SyntaxError>)
    requires
        from <= end <= chars.len(),
        chars.len() < usize::MAX,
        chars@ == source@,
    ensures
        match read {
            Ok(Some(line)) => lex_line(chars@, from as int, end as int, number as int) == Ok::<
                Option<LineModel>,
                SyntaxError,
            >(Some(line@)),
            Ok(None) => lex_line(chars@, from as int, end as int, number as int) == Ok::<
                Option<LineModel>,
                SyntaxError,
            >(None),
            Err(error) => lex_line(chars@, from as int, end as int, number as int) == Err::<
                Option<LineModel>,
                SyntaxError,
            >(error),
        },
{
    let start = scan(chars, from, end, Class::Blank);
    match read_tokens(source, chars, start, end) {
        Ok(tokens) => {
            if tokens.len() == 0 {
                Ok(None)
            } else {
                Ok(Some(Line { number, indent: start - from, tokens }))
            }
        },
        Err((rule, at)) => Err(SyntaxError { rule, line: number, column: at - from + 1 }),
    }
}

/// Reads a script into its lines of tokens.
///
/// The result is `lex` of the text: the lines that hold a token, each with
/// its number and indentation, or the first place where no token starts,
/// a string is left open, or a mark is cut short.
pub fn tokenize(source: &str) -> (read: Result<Vec<Line>, SyntaxError>)
    ensures
        match read {
            Ok(lines) => lex(source@) == Ok::<Seq<LineModel>, SyntaxError>(lines_model(lines@)),
            Err(error) => lex(source@) == Err::<Seq<LineModel>, SyntaxError>(error),
        },
{
    let chars = to_chars(source);
    if chars.len() >= usize::MAX {
        return Err(SyntaxError { rule: Rule::DirectScript, line: 0, column: 0 });
    }
    let mut lines: Vec<Line> = Vec::new();
    let mut from: usize = 0;
    let mut number: usize = 1;
    proof {
        assert(lines_model(lines@) =~= Seq::<LineModel>::empty());
    }
    while from < chars.len()
        invariant
            chars@ == source@,
            chars.len() < usize::MAX,
            from <= chars.len(),
            number <= from + 1,
            lex(source@) == lex_from(chars@, from as int, number as int, lines_model(lines@)),
        decreases chars.len() - from,
    {
        let end = scan(&chars, from, chars.len(), Class::InLine);
        match read_line(source, &chars, from, end, number) {
            Ok(line) => {
                match line {
                    Some(line) => {
                        proof {
                            assert(lines_model(lines@.push(line)) =~= lines_model(lines@).push(
                                line@,
                            ));
                        }
                        lines.push(line);
                    },
                    None => {},
                }
                if end >= chars.len() {
                    return Ok(lines);
                }
                from = end + 1;
                number = number + 1;
            },
            Err(error) => {
                return Err(error);
            },
        }
    }
    Ok(lines)
}

} // verus!

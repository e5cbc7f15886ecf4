//! The reader: from source text to values.
//!
//! Text is cut into tokens, the tokens are assembled into forms, and the
//! symbols of the forms are interned. Blanks separate tokens, and a semicolon
//! starts a comment that runs to the end of its line.

use vstd::prelude::*;
use vstd::string::*;

use crate::context::{Context, State};
use crate::errors::Error;
use crate::text::{
    blank, char_digit, characters, digit_value, digits, is_blank, is_white_space, push_chars,
    push_natural, white_space,
};
use crate::types::{Datum, Value};

verus! {

/// Whether a character ends the atom before it.
pub open spec fn is_delimiter(c: char) -> bool {
    is_blank(c) || c == '(' || c == ')' || c == '\'' || c == ';'
}

/// The first place from `i` on that holds a line feed, or the end of the text.
pub open spec fn line_end(s: Seq<char>, i: nat) -> nat
    decreases s.len() - i,
{
    if i >= s.len() {
        s.len()
    } else if s[i as int] == '\n' {
        i
    } else {
        line_end(s, i + 1)
    }
}

/// The first place from `i` on that holds a delimiter, or the end of the text.
pub open spec fn atom_end(s: Seq<char>, i: nat) -> nat
    decreases s.len() - i,
{
    if i >= s.len() {
        s.len()
    } else if is_delimiter(s[i as int]) {
        i
    } else {
        atom_end(s, i + 1)
    }
}

/// The end of a line is not before the place the search starts from.
pub proof fn line_end_bounds(s: Seq<char>, i: nat)
    requires
        i <= s.len(),
    ensures
        i <= line_end(s, i) <= s.len(),
    decreases s.len() - i,
{
    if i < s.len() && s[i as int] != '\n' {
        line_end_bounds(s, i + 1);
    }
}

/// The end of an atom is not before the place the search starts from.
pub proof fn atom_end_bounds(s: Seq<char>, i: nat)
    requires
        i <= s.len(),
    ensures
        i <= atom_end(s, i) <= s.len(),
    decreases s.len() - i,
{
    if i < s.len() && !is_delimiter(s[i as int]) {
        atom_end_bounds(s, i + 1);
    }
}

/// The number that a run of decimal digits writes; nothing for the empty
/// text and for a text that holds anything but digits.
pub open spec fn natural(t: Seq<char>) -> Option<nat>
    decreases t.len(),
{
    if t.len() == 0 {
        None
    } else {
        match digit_value(t.last()) {
            None => None,
            Some(d) => if t.len() == 1 {
                Some(d as nat)
            } else {
                match natural(t.drop_last()) {
                    None => None,
                    Some(n) => Some((n * 10 + d) as nat),
                }
            },
        }
    }
}

/// The integer that a text writes: digits, with or without a sign before
/// them.
pub open spec fn number(t: Seq<char>) -> Option<int> {
    if t.len() > 0 && t[0] == '-' {
        match natural(t.skip(1)) {
            Some(n) => Some(-(n as int)),
            None => None,
        }
    } else if t.len() > 0 && t[0] == '+' {
        match natural(t.skip(1)) {
            Some(n) => Some(n as int),
            None => None,
        }
    } else {
        match natural(t) {
            Some(n) => Some(n as int),
            None => None,
        }
    }
}

/// A text with a character that is no digit writes no number.
pub proof fn natural_needs_digits(t: Seq<char>, k: int)
    requires
        0 <= k < t.len(),
        digit_value(t[k]) is None,
    ensures
        natural(t) is None,
    decreases t.len(),
{
    if k < t.len() - 1 {
        natural_needs_digits(t.drop_last(), k);
    }
}

/// What a token is.
pub enum Kind {
    /// `(`
    Open,
    /// `)`
    Close,
    /// `'`
    Quote,
    /// `.` on its own
    Dot,
    /// An integer that fits in 64 bits.
    Integer(int),
    /// An integer that does not fit in 64 bits.
    Huge,
    /// Any other atom.
    Symbol(Seq<char>),
}

/// The model of a token: what it is, and the place of its first character.
pub struct Lexeme {
    pub kind: Kind,
    pub at: nat,
}

/// What the atom with the given text is.
pub open spec fn classify(t: Seq<char>) -> Kind {
    match number(t) {
        Some(v) => if i64::MIN <= v <= i64::MAX {
            Kind::Integer(v)
        } else {
            Kind::Huge
        },
        None => if t == seq!['.'] {
            Kind::Dot
        } else {
            Kind::Symbol(t)
        },
    }
}

/// The tokens of the text from place `i` on.
pub open spec fn lex(s: Seq<char>, i: nat) -> Seq<Lexeme>
    decreases s.len() - i,
{
    if i >= s.len() {
        Seq::empty()
    } else if is_blank(s[i as int]) {
        lex(s, i + 1)
    } else if s[i as int] == ';' {
        proof {
            line_end_bounds(s, i + 1);
        }
        lex(s, line_end(s, i + 1))
    } else if s[i as int] == '(' {
        seq![Lexeme { kind: Kind::Open, at: i }] + lex(s, i + 1)
    } else if s[i as int] == ')' {
        seq![Lexeme { kind: Kind::Close, at: i }] + lex(s, i + 1)
    } else if s[i as int] == '\'' {
        seq![Lexeme { kind: Kind::Quote, at: i }] + lex(s, i + 1)
    } else {
        proof {
            atom_end_bounds(s, i + 1);
        }
        seq![Lexeme { kind: classify(s.subrange(i as int, atom_end(s, i + 1) as int)), at: i }]
            + lex(s, atom_end(s, i + 1))
    }
}

/// What a token is.
pub enum TokenKind {
    Open,
    Close,
    Quote,
    Dot,
    Integer(i64),
    Huge,
    Symbol(String),
}

impl View for TokenKind {
    type V = Kind;

    open spec fn view(&self) -> Kind {
        match self {
            TokenKind::Open => Kind::Open,
            TokenKind::Close => Kind::Close,
            TokenKind::Quote => Kind::Quote,
            TokenKind::Dot => Kind::Dot,
            TokenKind::Integer(i) => Kind::Integer(*i as int),
            TokenKind::Huge => Kind::Huge,
            TokenKind::Symbol(s) => Kind::Symbol(s@),
        }
    }
}

/// A token: what it is, and the place of its first character.
pub struct Token {
    pub kind: TokenKind,
    pub at: usize,
}

impl View for Token {
    type V = Lexeme;

    open spec fn view(&self) -> Lexeme {
        Lexeme { kind: self.kind@, at: self.at as nat }
    }
}

/// The models of a sequence of tokens.
pub open spec fn lexemes(tokens: Seq<Token>) -> Seq<Lexeme> {
    tokens.map_values(|t: Token| t@)
}

/// What a run of characters writes as a natural number.
pub enum Magnitude {
    /// Not a run of digits.
    Absent,
    /// A number up to 2^63.
    Small(u128),
    /// A number above 2^63.
    Large,
}

/// Reads `chars[from..to]` as a natural number.
pub fn read_natural(chars: &Vec<char>, from: usize, to: usize) -> (m: Magnitude)
    requires
        from <= to <= chars.len(),
    ensures
        match m {
            Magnitude::Absent => natural(chars@.subrange(from as int, to as int)) is None,
            Magnitude::Small(n) => n <= 0x8000_0000_0000_0000 && natural(
                chars@.subrange(from as int, to as int),
            ) == Some(n as nat),
            Magnitude::Large => natural(chars@.subrange(from as int, to as int)) matches Some(n)
                && n > 0x8000_0000_0000_0000,
        },
{
    if from >= to {
        return Magnitude::Absent;
    }
    let ghost whole = chars@.subrange(from as int, to as int);
    let mut value: u128 = 0;
    let mut large = false;
    let mut i: usize = from;
    while i < to
        invariant
            from <= i <= to <= chars.len(),
            whole == chars@.subrange(from as int, to as int),
            !large ==> value <= 0x8000_0000_0000_0000,
            i > from ==> (natural(chars@.subrange(from as int, i as int)) matches Some(n) && (if large {
                n > 0x8000_0000_0000_0000
            } else {
                n == value
            })),
            i == from ==> value == 0 && !large,
        decreases to - i,
    {
        let ghost prefix = chars@.subrange(from as int, i as int);
        let ghost next = chars@.subrange(from as int, i + 1);
        assert(next.drop_last() =~= prefix);
        assert(next.last() == chars@[i as int]);
        match char_digit(chars[i]) {
            None => {
                proof {
                    natural_needs_digits(whole, i - from);
                }
                return Magnitude::Absent;
            },
            Some(d) => {
                if !large {
                    value = value * 10 + d as u128;
                    if value > 0x8000_0000_0000_0000 {
                        large = true;
                    }
                }
            },
        }
        i += 1;
    }
    assert(chars@.subrange(from as int, i as int) =~= whole);
    if large {
        Magnitude::Large
    } else {
        Magnitude::Small(value)
    }
}

/// The string of the characters `chars[from..to]`.
pub fn text_of(chars: &Vec<char>, from: usize, to: usize) -> (s: String)
    requires
        from <= to <= chars.len(),
    ensures
        s@ == chars@.subrange(from as int, to as int),
{
    let mut s = String::new();
    push_chars(&mut s, chars, from, to);
    assert(s@ =~= chars@.subrange(from as int, to as int));
    s
}

/// What the atom `chars[from..to]` is.
pub fn classify_atom(chars: &Vec<char>, from: usize, to: usize) -> (kind: TokenKind)
    requires
        from < to <= chars.len(),
    ensures
        kind@ == classify(chars@.subrange(from as int, to as int)),
{
    let ghost t = chars@.subrange(from as int, to as int);
    let first = chars[from];
    assert(t[0] == first);
    assert(t.skip(1) =~= chars@.subrange(from + 1, to as int));
    if first == '-' {
        match read_natural(chars, from + 1, to) {
            Magnitude::Small(n) => {
                return TokenKind::Integer((0 - (n as i128)) as i64);
            },
            Magnitude::Large => {
                return TokenKind::Huge;
            },
            Magnitude::Absent => {},
        }
    } else if first == '+' {
        match read_natural(chars, from + 1, to) {
            Magnitude::Small(n) => {
                if n < 0x8000_0000_0000_0000 {
                    return TokenKind::Integer(n as i64);
                } else {
                    return TokenKind::Huge;
                }
            },
            Magnitude::Large => {
                return TokenKind::Huge;
            },
            Magnitude::Absent => {},
        }
    } else {
        match read_natural(chars, from, to) {
            Magnitude::Small(n) => {
                if n < 0x8000_0000_0000_0000 {
                    return TokenKind::Integer(n as i64);
                } else {
                    return TokenKind::Huge;
                }
            },
            Magnitude::Large => {
                return TokenKind::Huge;
            },
            Magnitude::Absent => {},
        }
    }
    if to - from == 1 && first == '.' {
        assert(t =~= seq!['.']);
        TokenKind::Dot
    } else {
        assert(t != seq!['.']) by {
            if t == seq!['.'] {
                assert(t.len() == 1);
            }
        }
        TokenKind::Symbol(text_of(chars, from, to))
    }
}

/// Whether a character ends the atom before it.
pub fn delimiter(c: char) -> (b: bool)
    ensures
        b == is_delimiter(c),
{
    blank(c) || c == '(' || c == ')' || c == '\'' || c == ';'
}

/// Cuts a text into its tokens.
pub fn tokens(chars: &Vec<char>) -> (r: Vec<Token>)
    ensures
        lexemes(r@) == lex(chars@, 0),
        forall|k: int| 0 <= k < r.len() ==> (#[trigger] r[k]).at < chars.len(),
{
    let mut r: Vec<Token> = Vec::new();
    let mut i: usize = 0;
    assert(lexemes(r@) =~= Seq::empty());
    while i < chars.len()
        invariant
            i <= chars.len(),
            lex(chars@, 0) == lexemes(r@) + lex(chars@, i as nat),
            forall|k: int| 0 <= k < r.len() ==> (#[trigger] r[k]).at < chars.len(),
        decreases chars.len() - i,
    {
        let c = chars[i];
        let ghost before = r@;
        if blank(c) {
            i += 1;
        } else if c == ';' {
            let mut j: usize = i + 1;
            while j < chars.len() && chars[j] != '\n'
                invariant
                    i < j <= chars.len(),
                    line_end(chars@, (i + 1) as nat) == line_end(chars@, j as nat),
                decreases chars.len() - j,
            {
                j += 1;
            }
            i = j;
        } else if c == '(' {
            r.push(Token { kind: TokenKind::Open, at: i });
            i += 1;
            assert(lexemes(r@) =~= lexemes(before).push(r@.last()@));
            assert(lex(chars@, 0) =~= lexemes(r@) + lex(chars@, i as nat));
        } else if c == ')' {
            r.push(Token { kind: TokenKind::Close, at: i });
            i += 1;
            assert(lexemes(r@) =~= lexemes(before).push(r@.last()@));
            assert(lex(chars@, 0) =~= lexemes(r@) + lex(chars@, i as nat));
        } else if c == '\'' {
            r.push(Token { kind: TokenKind::Quote, at: i });
            i += 1;
            assert(lexemes(r@) =~= lexemes(before).push(r@.last()@));
            assert(lex(chars@, 0) =~= lexemes(r@) + lex(chars@, i as nat));
        } else {
            let mut j: usize = i + 1;
            while j < chars.len() && !delimiter(chars[j])
                invariant
                    i < j <= chars.len(),
                    atom_end(chars@, (i + 1) as nat) == atom_end(chars@, j as nat),
                decreases chars.len() - j,
            {
                j += 1;
            }
            let kind = classify_atom(chars, i, j);
            r.push(Token { kind, at: i });
            assert(lexemes(r@) =~= lexemes(before).push(r@.last()@));
            assert(lex(chars@, 0) =~= lexemes(r@) + lex(chars@, j as nat));
            i = j;
        }
    }
    assert(lexemes(r@) =~= lex(chars@, 0));
    r
}

/// The model of a form: a value as it is written, before its symbols are
/// interned.
pub enum Form {
    Integer(int),
    Symbol(Seq<char>),
    Null,
    Pair(Box<Form>, Box<Form>),
}

/// A form: a value as it is written, before its symbols are interned.
pub enum Sexp {
    Integer(i64),
    Symbol(String),
    Null,
    Pair(Box<Sexp>, Box<Sexp>),
}

impl Sexp {
    /// The model of this form.
    pub open spec fn model(&self) -> Form
        decreases self,
    {
        match self {
            Sexp::Integer(i) => Form::Integer(*i as int),
            Sexp::Symbol(s) => Form::Symbol(s@),
            Sexp::Null => Form::Null,
            Sexp::Pair(a, b) => Form::Pair(Box::new(a.model()), Box::new(b.model())),
        }
    }
}

impl View for Sexp {
    type V = Form;

    open spec fn view(&self) -> Form {
        self.model()
    }
}

/// The models of a sequence of forms.
pub open spec fn forms(items: Seq<Sexp>) -> Seq<Form> {
    items.map_values(|x: Sexp| x@)
}

/// What the reader was looking for where it stopped.
#[derive(Clone, Copy, Debug)]
pub enum Expected {
    /// An expression: an atom, a list or a quoted expression.
    Expression,
    /// The parenthesis that closes a list.
    Close,
    /// The end of the text, after the one expression that was asked for.
    End,
    /// An integer that fits in 64 bits.
    Integer,
}

impl Expected {
    /// The words for what was expected.
    pub open spec fn describe_spec(self) -> Seq<char> {
        match self {
            Expected::Expression => "an expression"@,
            Expected::Close => "`)`"@,
            Expected::End => "the end of the input"@,
            Expected::Integer => "an integer of 64 bits"@,
        }
    }

    /// The words for what was expected.
    pub fn describe(self) -> (s: &'static str)
        ensures
            s@ == self.describe_spec(),
    {
        match self {
            Expected::Expression => "an expression",
            Expected::Close => "`)`",
            Expected::End => "the end of the input",
            Expected::Integer => "an integer of 64 bits",
        }
    }
}

/// Where and why the assembly of forms stops: the place in the text,
/// counted in characters from 0, and what was expected there.
pub struct Stop {
    pub at: nat,
    pub expected: Expected,
}

/// The model of a failure to read.
pub struct Failure {
    pub line: nat,
    pub column: nat,
    pub offset: nat,
    pub expected: Seq<Expected>,
}

/// A failure to read: the line and the column of the place where reading
/// stopped, both counted from 1, the place counted in characters from 0, and
/// the things of which one was expected there.
#[derive(Debug)]
pub struct ParseError {
    pub line: usize,
    pub column: usize,
    pub offset: usize,
    pub expected: Vec<Expected>,
}

impl View for ParseError {
    type V = Failure;

    open spec fn view(&self) -> Failure {
        Failure {
            line: self.line as nat,
            column: self.column as nat,
            offset: self.offset as nat,
            expected: self.expected@,
        }
    }
}

/// How a list that is being read ends.
pub enum Ending {
    /// No dot so far: more items may come.
    Plain,
    /// A dot was read: the last `cdr` must come.
    Awaited,
    /// The last `cdr` after a dot: the closing parenthesis must come.
    Given(Form),
}

/// The model of something that was opened and is not complete yet.
pub enum Layer {
    /// A list, with the items read so far.
    List { items: Seq<Form>, ending: Ending },
    /// A quote mark, which waits for the expression it quotes.
    Quote,
}

/// How a list that is being read ends.
pub enum Tail {
    Plain,
    Awaited,
    Given(Sexp),
}

impl View for Tail {
    type V = Ending;

    open spec fn view(&self) -> Ending {
        match self {
            Tail::Plain => Ending::Plain,
            Tail::Awaited => Ending::Awaited,
            Tail::Given(x) => Ending::Given(x@),
        }
    }
}

/// Something that was opened and is not complete yet.
pub enum Nest {
    List { items: Vec<Sexp>, tail: Tail },
    Quote,
}

impl View for Nest {
    type V = Layer;

    open spec fn view(&self) -> Layer {
        match self {
            Nest::List { items, tail } => Layer::List { items: forms(items@), ending: tail@ },
            Nest::Quote => Layer::Quote,
        }
    }
}

/// The models of a stack of open lists and quote marks.
pub open spec fn layers(stack: Seq<Nest>) -> Seq<Layer> {
    stack.map_values(|n: Nest| n@)
}

/// The chain of pairs with the given items that ends in `end`.
pub open spec fn chain(items: Seq<Form>, end: Form) -> Form
    decreases items.len(),
{
    if items.len() == 0 {
        end
    } else {
        chain(items.drop_last(), Form::Pair(Box::new(items.last()), Box::new(end)))
    }
}

/// The form `(quote form)`.
pub open spec fn quoted(form: Form) -> Form {
    Form::Pair(
        Box::new(Form::Symbol("quote"@)),
        Box::new(Form::Pair(Box::new(form), Box::new(Form::Null))),
    )
}

/// The form of a symbol token: the empty list for `nil`, a symbol otherwise.
pub open spec fn symbol_form(text: Seq<char>) -> Form {
    if text == "nil"@ {
        Form::Null
    } else {
        Form::Symbol(text)
    }
}

/// The state of the assembly: what is open, innermost last, and the complete
/// top-level forms.
pub struct Progress {
    pub stack: Seq<Layer>,
    pub done: Seq<Form>,
}

/// Hands a complete form to what is open: it becomes an item or the last
/// `cdr` of the innermost list, the operand of a quote mark (and the quoted
/// form is handed on), or a top-level form.
pub open spec fn deliver(stack: Seq<Layer>, done: Seq<Form>, form: Form) -> Result<
    Progress,
    Expected,
>
    decreases stack.len(),
{
    if stack.len() == 0 {
        Ok(Progress { stack, done: done.push(form) })
    } else {
        match stack.last() {
            Layer::Quote => deliver(stack.drop_last(), done, quoted(form)),
            Layer::List { items, ending } => match ending {
                Ending::Plain => Ok(
                    Progress {
                        stack: stack.drop_last().push(
                            Layer::List { items: items.push(form), ending: Ending::Plain },
                        ),
                        done,
                    },
                ),
                Ending::Awaited => Ok(
                    Progress {
                        stack: stack.drop_last().push(
                            Layer::List { items, ending: Ending::Given(form) },
                        ),
                        done,
                    },
                ),
                Ending::Given(_) => Err(Expected::Close),
            },
        }
    }
}

/// Takes one token into the assembly.
pub open spec fn step(stack: Seq<Layer>, done: Seq<Form>, kind: Kind) -> Result<Progress, Expected> {
    match kind {
        Kind::Open => Ok(
            Progress {
                stack: stack.push(Layer::List { items: Seq::empty(), ending: Ending::Plain }),
                done,
            },
        ),
        Kind::Quote => Ok(Progress { stack: stack.push(Layer::Quote), done }),
        Kind::Close => if stack.len() == 0 {
            Err(Expected::Expression)
        } else {
            match stack.last() {
                Layer::Quote => Err(Expected::Expression),
                Layer::List { items, ending } => match ending {
                    Ending::Plain => deliver(stack.drop_last(), done, chain(items, Form::Null)),
                    Ending::Awaited => Err(Expected::Expression),
                    Ending::Given(end) => deliver(stack.drop_last(), done, chain(items, end)),
                },
            }
        },
        Kind::Dot => if stack.len() == 0 {
            Err(Expected::Expression)
        } else {
            match stack.last() {
                Layer::Quote => Err(Expected::Expression),
                Layer::List { items, ending } => match ending {
                    Ending::Plain => if items.len() == 0 {
                        Err(Expected::Expression)
                    } else {
                        Ok(
                            Progress {
                                stack: stack.drop_last().push(
                                    Layer::List { items, ending: Ending::Awaited },
                                ),
                                done,
                            },
                        )
                    },
                    Ending::Awaited => Err(Expected::Expression),
                    Ending::Given(_) => Err(Expected::Close),
                },
            }
        },
        Kind::Integer(v) => deliver(stack, done, Form::Integer(v)),
        Kind::Huge => Err(Expected::Integer),
        Kind::Symbol(text) => deliver(stack, done, symbol_form(text)),
    }
}

/// What is missing when the text ends while something is open.
pub open spec fn missing(layer: Layer) -> Expected {
    match layer {
        Layer::Quote => Expected::Expression,
        Layer::List { items, ending } => match ending {
            Ending::Awaited => Expected::Expression,
            _ => Expected::Close,
        },
    }
}

/// The top-level forms that the tokens from place `i` on complete, or the
/// first failure. With `single`, exactly one form is read: none is a
/// failure, and so is any token after the first form. `end` is the place
/// where the text ends.
pub open spec fn parse(
    tokens: Seq<Lexeme>,
    i: nat,
    stack: Seq<Layer>,
    done: Seq<Form>,
    single: bool,
    end: nat,
) -> Result<Seq<Form>, Stop>
    decreases tokens.len() - i,
{
    if i >= tokens.len() {
        if stack.len() > 0 {
            Err(Stop { at: end, expected: missing(stack.last()) })
        } else if single && done.len() == 0 {
            Err(Stop { at: end, expected: Expected::Expression })
        } else {
            Ok(done)
        }
    } else if single && stack.len() == 0 && done.len() > 0 {
        Err(Stop { at: tokens[i as int].at, expected: Expected::End })
    } else {
        match step(stack, done, tokens[i as int].kind) {
            Err(expected) => Err(Stop { at: tokens[i as int].at, expected }),
            Ok(p) => parse(tokens, i + 1, p.stack, p.done, single, end),
        }
    }
}

/// The forms that a text holds, or the first failure to read it.
pub open spec fn parse_text(s: Seq<char>, single: bool) -> Result<Seq<Form>, Stop> {
    parse(lex(s, 0), 0, Seq::empty(), Seq::empty(), single, s.len())
}

/// Builds the chain of pairs with the given items that ends in `end`.
pub fn make_chain(items: Vec<Sexp>, end: Sexp) -> (r: Sexp)
    ensures
        r@ == chain(forms(items@), end@),
{
    let ghost whole = chain(forms(items@), end@);
    let mut items = items;
    let mut r = end;
    while items.len() > 0
        invariant
            whole == chain(forms(items@), r@),
        decreases items.len(),
    {
        let ghost before = items@;
        let last = items.pop().unwrap();
        assert(forms(items@) =~= forms(before).drop_last());
        r = Sexp::Pair(Box::new(last), Box::new(r));
    }
    r
}

/// Builds the form `(quote form)`.
pub fn make_quoted(form: Sexp) -> (r: Sexp)
    ensures
        r@ == quoted(form@),
{
    proof {
        reveal_with_fuel(Sexp::model, 3);
    }
    Sexp::Pair(
        Box::new(Sexp::Symbol(String::from_str("quote"))),
        Box::new(Sexp::Pair(Box::new(form), Box::new(Sexp::Null))),
    )
}

/// Hands a complete form to what is open.
pub fn hand_over(stack: &mut Vec<Nest>, done: &mut Vec<Sexp>, form: Sexp) -> (r: Result<(), Expected>)
    ensures
        match deliver(layers(old(stack)@), forms(old(done)@), form@) {
            Ok(p) => r is Ok && layers(final(stack)@) == p.stack && forms(final(done)@) == p.done,
            Err(expected) => r == Err::<(), Expected>(expected),
        },
{
    let mut current = form;
    loop
        invariant
            deliver(layers(old(stack)@), forms(old(done)@), form@) == deliver(
                layers(stack@),
                forms(done@),
                current@,
            ),
        decreases stack.len(),
    {
        let ghost stack_before = stack@;
        let ghost done_before = done@;
        match stack.pop() {
            None => {
                done.push(current);
                assert(forms(done@) =~= forms(done_before).push(done@.last()@));
                assert(layers(stack@) =~= layers(stack_before));
                return Ok(());
            },
            Some(Nest::Quote) => {
                assert(layers(stack_before).last() == Layer::Quote);
                assert(layers(stack@) =~= layers(stack_before).drop_last());
                current = make_quoted(current);
            },
            Some(Nest::List { items, tail }) => {
                assert(layers(stack_before).last() == (Layer::List {
                    items: forms(items@),
                    ending: tail@,
                }));
                assert(layers(stack@) =~= layers(stack_before).drop_last());
                let ghost popped = stack@;
                match tail {
                    Tail::Plain => {
                        let mut items = items;
                        let ghost items_before = items@;
                        items.push(current);
                        assert(forms(items@) =~= forms(items_before).push(items@.last()@));
                        stack.push(Nest::List { items, tail: Tail::Plain });
                        assert(layers(stack@) =~= layers(popped).push(stack@.last()@));
                        return Ok(());
                    },
                    Tail::Awaited => {
                        stack.push(Nest::List { items, tail: Tail::Given(current) });
                        assert(layers(stack@) =~= layers(popped).push(stack@.last()@));
                        return Ok(());
                    },
                    Tail::Given(_) => {
                        return Err(Expected::Close);
                    },
                }
            },
        }
    }
}

/// Takes one token into the assembly.
pub fn take_token(stack: &mut Vec<Nest>, done: &mut Vec<Sexp>, kind: &TokenKind) -> (r: Result<
    (),
    Expected,
>)
    ensures
        match step(layers(old(stack)@), forms(old(done)@), kind@) {
            Ok(p) => r is Ok && layers(final(stack)@) == p.stack && forms(final(done)@) == p.done,
            Err(expected) => r == Err::<(), Expected>(expected),
        },
{
    let ghost stack_before = stack@;
    match kind {
        TokenKind::Open => {
            let items: Vec<Sexp> = Vec::new();
            assert(forms(items@) =~= Seq::empty());
            stack.push(Nest::List { items, tail: Tail::Plain });
            assert(layers(stack@) =~= layers(stack_before).push(stack@.last()@));
            Ok(())
        },
        TokenKind::Quote => {
            stack.push(Nest::Quote);
            assert(layers(stack@) =~= layers(stack_before).push(Layer::Quote));
            Ok(())
        },
        TokenKind::Close => match stack.pop() {
            None => Err(Expected::Expression),
            Some(Nest::Quote) => {
                assert(layers(stack_before).last() == Layer::Quote);
                Err(Expected::Expression)
            },
            Some(Nest::List { items, tail }) => {
                assert(layers(stack_before).last() == (Layer::List {
                    items: forms(items@),
                    ending: tail@,
                }));
                assert(layers(stack@) =~= layers(stack_before).drop_last());
                match tail {
                    Tail::Plain => hand_over(stack, done, make_chain(items, Sexp::Null)),
                    Tail::Awaited => Err(Expected::Expression),
                    Tail::Given(end) => hand_over(stack, done, make_chain(items, end)),
                }
            },
        },
        TokenKind::Dot => match stack.pop() {
            None => Err(Expected::Expression),
            Some(Nest::Quote) => {
                assert(layers(stack_before).last() == Layer::Quote);
                Err(Expected::Expression)
            },
            Some(Nest::List { items, tail }) => {
                assert(layers(stack_before).last() == (Layer::List {
                    items: forms(items@),
                    ending: tail@,
                }));
                assert(layers(stack@) =~= layers(stack_before).drop_last());
                let ghost popped = stack@;
                match tail {
                    Tail::Plain => {
                        if items.len() == 0 {
                            Err(Expected::Expression)
                        } else {
                            stack.push(Nest::List { items, tail: Tail::Awaited });
                            assert(layers(stack@) =~= layers(popped).push(stack@.last()@));
                            Ok(())
                        }
                    },
                    Tail::Awaited => Err(Expected::Expression),
                    Tail::Given(_) => Err(Expected::Close),
                }
            },
        },
        TokenKind::Integer(i) => hand_over(stack, done, Sexp::Integer(*i)),
        TokenKind::Huge => Err(Expected::Integer),
        TokenKind::Symbol(text) => {
            if crate::text::same_text(text.as_str(), "nil") {
                hand_over(stack, done, Sexp::Null)
            } else {
                hand_over(stack, done, Sexp::Symbol(text.clone()))
            }
        },
    }
}

/// What is missing when the text ends while `nest` is open.
pub fn missing_in(nest: &Nest) -> (r: Expected)
    ensures
        r == missing(nest@),
{
    match nest {
        Nest::Quote => Expected::Expression,
        Nest::List { items, tail } => match tail {
            Tail::Awaited => Expected::Expression,
            _ => Expected::Close,
        },
    }
}

/// Reads the forms of a text: all of them, or with `single` exactly one.
pub fn read_forms(chars: &Vec<char>, single: bool) -> (r: Result<Vec<Sexp>, ParseError>)
    ensures
        match parse_text(chars@, single) {
            Ok(read) => r matches Ok(v) && forms(v@) == read,
            Err(stop) => r matches Err(e) && e@ == failure_at(chars@, stop) && e.line >= 1
                && e.column >= 1,
        },
{
    let tokens = tokens(chars);
    let mut stack: Vec<Nest> = Vec::new();
    let mut done: Vec<Sexp> = Vec::new();
    let mut i: usize = 0;
    assert(layers(stack@) =~= Seq::empty());
    assert(forms(done@) =~= Seq::empty());
    while i < tokens.len()
        invariant
            i <= tokens.len(),
            lexemes(tokens@) == lex(chars@, 0),
            forall|k: int| 0 <= k < tokens.len() ==> (#[trigger] tokens[k]).at < chars.len(),
            parse_text(chars@, single) == parse(
                lexemes(tokens@),
                i as nat,
                layers(stack@),
                forms(done@),
                single,
                chars@.len(),
            ),
        decreases tokens.len() - i,
    {
        let token = &tokens[i];
        assert(lexemes(tokens@)[i as int] == token@);
        if single && stack.len() == 0 && done.len() > 0 {
            return Err(fail(chars, token.at, Expected::End));
        }
        match take_token(&mut stack, &mut done, &token.kind) {
            Ok(_) => {},
            Err(expected) => {
                return Err(fail(chars, token.at, expected));
            },
        }
        i += 1;
    }
    if stack.len() > 0 {
        let expected = missing_in(&stack[stack.len() - 1]);
        assert(layers(stack@).last() == stack@.last()@);
        Err(fail(chars, chars.len(), expected))
    } else if single && done.len() == 0 {
        Err(fail(chars, chars.len(), Expected::Expression))
    } else {
        Ok(done)
    }
}

/// The place after the last line feed before `at`: where the line of `at`
/// starts.
pub open spec fn line_start(s: Seq<char>, at: nat) -> nat
    decreases at,
{
    if at == 0 {
        0
    } else if s[at - 1] == '\n' {
        at
    } else {
        line_start(s, (at - 1) as nat)
    }
}

/// The number of the line of `at`, counted from 1.
pub open spec fn line_number(s: Seq<char>, at: nat) -> nat
    decreases at,
{
    if at == 0 {
        1
    } else if s[at - 1] == '\n' {
        line_number(s, (at - 1) as nat) + 1
    } else {
        line_number(s, (at - 1) as nat)
    }
}

/// The greatest number that a count of the machine holds, for a number
/// above it.
pub open spec fn clip(n: nat) -> nat {
    if n > usize::MAX {
        usize::MAX as nat
    } else {
        n
    }
}

/// The failure that is reported where the assembly of forms stops: the
/// line of the place, its column in the line, the place itself, and the one
/// thing that was expected.
pub open spec fn failure_at(s: Seq<char>, stop: Stop) -> Failure {
    Failure {
        line: clip(line_number(s, stop.at)),
        column: clip((stop.at - line_start(s, stop.at) + 1) as nat),
        offset: stop.at,
        expected: seq![stop.expected],
    }
}

/// Where a line starts: the place after `skip` more line feeds from `from`
/// on, or the end of the text if there are fewer.
pub open spec fn line_begin(s: Seq<char>, from: nat, skip: nat) -> nat
    decreases s.len() - from,
{
    if skip == 0 {
        from
    } else if from >= s.len() {
        s.len()
    } else if s[from as int] == '\n' {
        line_begin(s, from + 1, (skip - 1) as nat)
    } else {
        line_begin(s, from + 1, skip)
    }
}

/// Lines are counted and started in step: a place is not before the start
/// of its line, a later place is on the same line or on a later one, and it
/// starts where the earlier does exactly when no line feed lies between.
pub proof fn lines_go_forward(s: Seq<char>, earlier: nat, later: nat)
    requires
        earlier <= later <= s.len(),
    ensures
        line_start(s, later) <= later,
        line_number(s, earlier) <= line_number(s, later),
        line_number(s, later) == line_number(s, earlier) ==> line_start(s, later) == line_start(
            s,
            earlier,
        ),
        line_number(s, later) > line_number(s, earlier) ==> line_start(s, later) > earlier,
    decreases later,
{
    if later > 0 {
        if later > earlier {
            lines_go_forward(s, earlier, (later - 1) as nat);
        } else {
            lines_go_forward(s, (later - 1) as nat, (later - 1) as nat);
        }
    }
}

/// Going forward from `from` over as many line feeds as lie between it and
/// a later place leads to the start of the line of that place, if that is
/// after `from`.
pub proof fn line_begin_meets_line_start(s: Seq<char>, from: nat, at: nat)
    requires
        from <= at <= s.len(),
    ensures
        line_number(s, from) <= line_number(s, at),
        line_begin(s, from, (line_number(s, at) - line_number(s, from)) as nat) == (if line_start(
            s,
            at,
        ) > from {
            line_start(s, at)
        } else {
            from
        }),
    decreases at - from,
{
    lines_go_forward(s, from, at);
    lines_go_forward(s, from, from);
    if from < at {
        lines_go_forward(s, from + 1, at);
        line_begin_meets_line_start(s, from + 1, at);
        let skip = (line_number(s, at) - line_number(s, from)) as nat;
        let rest = (line_number(s, at) - line_number(s, from + 1)) as nat;
        if s[from as int] == '\n' {
            assert(line_number(s, from + 1) == line_number(s, from) + 1);
            assert(line_begin(s, from, skip) == line_begin(s, from + 1, rest));
        } else {
            assert(line_number(s, from + 1) == line_number(s, from));
            if skip > 0 {
                assert(line_begin(s, from, skip) == line_begin(s, from + 1, rest));
            }
        }
    }
}

/// The line that a failure of the reader shows is the line of the place
/// where reading stopped: the line with the number of the place starts
/// where the line of the place starts.
pub proof fn the_line_of_a_place(s: Seq<char>, at: nat)
    requires
        at <= s.len(),
    ensures
        line_number(s, at) >= 1,
        line_begin(s, 0, (line_number(s, at) - 1) as nat) == line_start(s, at),
{
    line_begin_meets_line_start(s, 0, at);
}

/// The end of `s[start..end]` without the white space at its end.
pub open spec fn trimmed_end(s: Seq<char>, start: nat, end: nat) -> nat
    decreases end,
{
    if end <= start {
        start
    } else if is_white_space(s[end - 1]) {
        trimmed_end(s, start, (end - 1) as nat)
    } else {
        end
    }
}

/// A run of `n` spaces.
pub open spec fn spaces(n: nat) -> Seq<char> {
    Seq::new(n, |i: int| ' ')
}

/// The things expected from place `i` on, written after `out`: each in
/// double quotes, with a comma and a space between two of them.
pub open spec fn listed(expected: Seq<Expected>, i: nat, out: Seq<char>) -> Seq<char>
    decreases expected.len() - i,
{
    if i >= expected.len() {
        out
    } else {
        let separated = if i > 0 {
            out + ", "@
        } else {
            out
        };
        listed(
            expected,
            i + 1,
            (separated.push('"') + expected[i as int].describe_spec()).push('"'),
        )
    }
}

/// The place of a failure in words: line and column, with a colon after
/// each and a space at the end.
pub open spec fn place(line: nat, column: nat) -> Seq<char> {
    digits(line).push(':') + digits(column) + ": "@
}

/// The message for a failure to read `s`, in three lines. The first lists
/// what was expected, in braces. The second holds the place of the failure
/// and, after it, the line of the text with that number, without the white
/// space at its end; a line that the text does not have counts as empty. The
/// third holds a caret under the column of the failure.
pub open spec fn pretty(s: Seq<char>, failure: Failure) -> Seq<char> {
    let start = line_begin(s, 0, (failure.line - 1) as nat);
    ((listed(failure.expected, 0, "parse error, expected one of {"@).push('}').push('\n') + place(
        failure.line,
        failure.column,
    ) + s.subrange(start as int, trimmed_end(s, start, line_end(s, start)) as int)).push('\n')
        + spaces(place(failure.line, failure.column).len()) + spaces(
        (failure.column - 1) as nat,
    )).push('^')
}

/// The failure that is reported for a stop at place `at` of the text.
pub fn fail(chars: &Vec<char>, at: usize, expected: Expected) -> (e: ParseError)
    requires
        at <= chars.len(),
    ensures
        e@ == failure_at(chars@, Stop { at: at as nat, expected }),
        e.line >= 1,
        e.column >= 1,
{
    let mut count: usize = 0;
    let mut start: usize = 0;
    let mut i: usize = 0;
    while i < at
        invariant
            i <= at <= chars.len(),
            count <= i,
            start <= i,
            count + 1 == line_number(chars@, i as nat),
            start == line_start(chars@, i as nat),
        decreases at - i,
    {
        if chars[i] == '\n' {
            count += 1;
            start = i + 1;
        }
        i += 1;
    }
    let line = if count < usize::MAX {
        count + 1
    } else {
        count
    };
    let width = at - start;
    let column = if width < usize::MAX {
        width + 1
    } else {
        width
    };
    let mut list: Vec<Expected> = Vec::new();
    list.push(expected);
    assert(list@ =~= seq![expected]);
    ParseError { line, column, offset: at, expected: list }
}

/// Appends `n` spaces to `out`.
pub fn push_spaces(out: &mut String, n: usize)
    ensures
        final(out)@ == old(out)@ + spaces(n as nat),
{
    let mut k: usize = 0;
    assert(out@ =~= old(out)@ + spaces(0));
    while k < n
        invariant
            k <= n,
            out@ == old(out)@ + spaces(k as nat),
        decreases n - k,
    {
        out.push(' ');
        k += 1;
        assert(out@ =~= old(out)@ + spaces(k as nat));
    }
}

/// The place of a failure in words.
fn place_text(line: usize, column: usize) -> (text: String)
    ensures
        text@ == place(line as nat, column as nat),
{
    let mut text = String::new();
    push_natural(&mut text, line as u128);
    assert(text@ =~= digits(line as nat));
    text.push(':');
    push_natural(&mut text, column as u128);
    text.append(": ");
    text
}

/// Appends the list of what was expected to `out`.
fn push_expected(out: &mut String, expected: &Vec<Expected>)
    ensures
        final(out)@ == listed(expected@, 0, old(out)@),
{
    let mut i: usize = 0;
    while i < expected.len()
        invariant
            i <= expected.len(),
            listed(expected@, 0, old(out)@) == listed(expected@, i as nat, out@),
        decreases expected.len() - i,
    {
        if i > 0 {
            out.append(", ");
        }
        out.push('"');
        out.append(expected[i].describe());
        out.push('"');
        i += 1;
    }
}

/// The message for a failure to read the text `chars`.
pub fn describe_failure(chars: &Vec<char>, err: &ParseError) -> (e: Error)
    requires
        err.line >= 1,
        err.column >= 1,
    ensures
        e@ == pretty(chars@, err@),
{
    let mut start: usize = 0;
    let mut skip: usize = err.line - 1;
    while skip > 0 && start < chars.len()
        invariant
            start <= chars.len(),
            line_begin(chars@, 0, (err.line - 1) as nat) == line_begin(
                chars@,
                start as nat,
                skip as nat,
            ),
        decreases chars.len() - start,
    {
        if chars[start] == '\n' {
            skip -= 1;
        }
        start += 1;
    }
    let mut end: usize = start;
    while end < chars.len() && chars[end] != '\n'
        invariant
            start <= end <= chars.len(),
            line_end(chars@, start as nat) == line_end(chars@, end as nat),
        decreases chars.len() - end,
    {
        end += 1;
    }
    let mut stop: usize = end;
    while stop > start && white_space(chars[stop - 1])
        invariant
            start <= stop <= end <= chars.len(),
            trimmed_end(chars@, start as nat, end as nat) == trimmed_end(
                chars@,
                start as nat,
                stop as nat,
            ),
        decreases stop,
    {
        stop -= 1;
    }
    let place = place_text(err.line, err.column);
    let width = characters(place.as_str()).len();
    let mut message = String::from_str("parse error, expected one of {");
    push_expected(&mut message, &err.expected);
    message.push('}');
    message.push('\n');
    message.append(place.as_str());
    push_chars(&mut message, chars, start, stop);
    message.push('\n');
    push_spaces(&mut message, width);
    push_spaces(&mut message, err.column - 1);
    message.push('^');
    Error(message)
}

/// The message for a failure to read `input`, over three lines: what was
/// expected, the place and the line of the failure, and a caret under the
/// column.
pub fn pretty_parse_error(input: &str, err: ParseError) -> (e: Error)
    requires
        err.line >= 1,
        err.column >= 1,
    ensures
        e@ == pretty(input@, err@),
{
    let chars = characters(input);
    describe_failure(&chars, &err)
}

/// What interning the symbols of a form leaves behind: the state of the
/// context, and the value.
pub struct Taken {
    pub state: State,
    pub datum: Datum,
}

/// What interning the symbols of a sequence of forms leaves behind.
pub struct TakenAll {
    pub state: State,
    pub data: Seq<Datum>,
}

/// The value of a form: its symbols are interned from left to right.
pub open spec fn intern_form(st: State, form: Form) -> Taken
    decreases form,
{
    match form {
        Form::Integer(i) => Taken { state: st, datum: Datum::Integer(i) },
        Form::Symbol(text) => Taken { state: st.intern(text), datum: Datum::Symbol(st.symbol(text)) },
        Form::Null => Taken { state: st, datum: Datum::Null },
        Form::Pair(a, b) => {
            let car = intern_form(st, *a);
            let cdr = intern_form(car.state, *b);
            Taken { state: cdr.state, datum: Datum::pair(car.datum, cdr.datum) }
        },
    }
}

/// The values of the forms from place `i` on, in order, after those in `done`.
pub open spec fn intern_forms(st: State, read: Seq<Form>, i: nat, done: Seq<Datum>) -> TakenAll
    decreases read.len() - i,
{
    if i >= read.len() {
        TakenAll { state: st, data: done }
    } else {
        let first = intern_form(st, read[i as int]);
        intern_forms(first.state, read, i + 1, done.push(first.datum))
    }
}

/// A complete form either becomes a top-level form, with nothing left open,
/// or goes into what is open.
pub proof fn deliver_counts(stack: Seq<Layer>, done: Seq<Form>, form: Form)
    ensures
        deliver(stack, done, form) matches Ok(p) ==> (p.stack.len() == 0 && p.done.len() == done.len()
            + 1) || (p.stack.len() > 0 && p.done == done),
    decreases stack.len(),
{
    if stack.len() > 0 {
        if stack.last() is Quote {
            deliver_counts(stack.drop_last(), done, quoted(form));
        }
    }
}

/// Reading a single expression gives exactly one form.
pub proof fn single_form(tokens: Seq<Lexeme>, i: nat, stack: Seq<Layer>, done: Seq<Form>, end: nat)
    requires
        done.len() == 0 || (done.len() == 1 && stack.len() == 0),
    ensures
        parse(tokens, i, stack, done, true, end) matches Ok(read) ==> read.len() == 1,
    decreases tokens.len() - i,
{
    if i < tokens.len() && !(stack.len() == 0 && done.len() > 0) {
        let kind = tokens[i as int].kind;
        match step(stack, done, kind) {
            Ok(p) => {
                match kind {
                    Kind::Close => {
                        if stack.len() > 0 {
                            match stack.last() {
                                Layer::List { items, ending } => match ending {
                                    Ending::Plain => {
                                        deliver_counts(
                                            stack.drop_last(),
                                            done,
                                            chain(items, Form::Null),
                                        );
                                    },
                                    Ending::Given(last) => {
                                        deliver_counts(stack.drop_last(), done, chain(items, last));
                                    },
                                    _ => {},
                                },
                                _ => {},
                            }
                        }
                    },
                    Kind::Integer(v) => {
                        deliver_counts(stack, done, Form::Integer(v));
                    },
                    Kind::Symbol(text) => {
                        deliver_counts(stack, done, symbol_form(text));
                    },
                    _ => {},
                }
                single_form(tokens, i + 1, p.stack, p.done, end);
            },
            Err(_) => {},
        }
    }
}

impl Form {
    /// The number of nodes of a form.
    pub open spec fn size(self) -> nat
        decreases self,
    {
        match self {
            Form::Pair(a, b) => 1 + a.size() + b.size(),
            _ => 1,
        }
    }
}

/// The chain of pairs with the given items that ends in `end`.
pub open spec fn chain_of(items: Seq<Datum>, end: Datum) -> Datum
    decreases items.len(),
{
    if items.len() == 0 {
        end
    } else {
        chain_of(items.drop_last(), Datum::pair(items.last(), end))
    }
}

/// What is left behind when the values in `cars` are put before the value
/// of the rest of a chain.
pub open spec fn attach(cars: Seq<Datum>, rest: Taken) -> Taken {
    Taken { state: rest.state, datum: chain_of(cars, rest.datum) }
}

/// Interns the symbols of a form and gives its value.
pub fn intern(ctx: &mut Context, form: &Sexp) -> (v: Value)
    requires
        old(ctx).wf(),
    ensures
        final(ctx).wf(),
        final(ctx).budget() == old(ctx).budget(),
        final(ctx)@ == intern_form(old(ctx)@, form@).state,
        v@ == intern_form(old(ctx)@, form@).datum,
    decreases form@.size(),
{
    let mut cars: Vec<Value> = Vec::new();
    let mut rest: &Sexp = form;
    assert(crate::types::data(cars@) =~= Seq::empty());
    loop
        invariant
            ctx.wf(),
            ctx.budget() == old(ctx).budget(),
            rest@.size() <= form@.size(),
            intern_form(old(ctx)@, form@) == attach(
                crate::types::data(cars@),
                intern_form(ctx@, rest@),
            ),
        decreases rest@.size(),
    {
        match rest {
            Sexp::Pair(a, b) => {
                let ghost before = cars@;
                let ghost st = ctx@;
                let car = intern(ctx, a);
                cars.push(car);
                assert(crate::types::data(cars@) =~= crate::types::data(before).push(car@));
                assert(crate::types::data(cars@).drop_last() =~= crate::types::data(before));
                rest = b;
            },
            Sexp::Integer(i) => {
                return attach_cars(cars, Value::Integer(*i));
            },
            Sexp::Symbol(text) => {
                let symbol = ctx.intern(text.as_str());
                return attach_cars(cars, symbol);
            },
            Sexp::Null => {
                return attach_cars(cars, Value::Null);
            },
        }
    }
}

/// Puts the values in `cars` before `end`, as a chain of pairs.
fn attach_cars(cars: Vec<Value>, end: Value) -> (v: Value)
    ensures
        v@ == chain_of(crate::types::data(cars@), end@),
{
    let ghost whole = chain_of(crate::types::data(cars@), end@);
    let mut cars = cars;
    let mut v = end;
    while cars.len() > 0
        invariant
            whole == chain_of(crate::types::data(cars@), v@),
        decreases cars.len(),
    {
        let ghost before = cars@;
        let last = cars.pop().unwrap();
        assert(crate::types::data(cars@) =~= crate::types::data(before).drop_last());
        v = Value::cons(last, v);
    }
    v
}

/// Given a text that holds one expression, reads it as a value. On a
/// failure the context is left as it was.
pub fn read_sexpr(ctx: &mut Context, input: &str) -> (r: Result<Value, Error>)
    requires
        old(ctx).wf(),
    ensures
        final(ctx).wf(),
        final(ctx).budget() == old(ctx).budget(),
        match parse_text(input@, true) {
            Ok(read) => {
                &&& final(ctx)@ == intern_form(old(ctx)@, read[0]).state
                &&& r matches Ok(v) && v@ == intern_form(old(ctx)@, read[0]).datum
            },
            Err(stop) => {
                &&& final(ctx)@ == old(ctx)@
                &&& r matches Err(e) && e@ == pretty(input@, failure_at(input@, stop))
            },
        },
{
    let chars = characters(input);
    match read_forms(&chars, true) {
        Ok(read) => {
            proof {
                single_form(lex(chars@, 0), 0, Seq::empty(), Seq::empty(), chars@.len());
            }
            Ok(intern(ctx, &read[0]))
        },
        Err(e) => Err(describe_failure(&chars, &e)),
    }
}

/// Given a text that holds any number of top-level expressions, reads them
/// as values, in order. On a failure the context is left as it was.
pub fn read_file(ctx: &mut Context, input: &str) -> (r: Result<Vec<Value>, Error>)
    requires
        old(ctx).wf(),
    ensures
        final(ctx).wf(),
        final(ctx).budget() == old(ctx).budget(),
        match parse_text(input@, false) {
            Ok(read) => {
                &&& final(ctx)@ == intern_forms(old(ctx)@, read, 0, Seq::empty()).state
                &&& r matches Ok(values) && crate::types::data(values@) == intern_forms(
                    old(ctx)@,
                    read,
                    0,
                    Seq::empty(),
                ).data
            },
            Err(stop) => {
                &&& final(ctx)@ == old(ctx)@
                &&& r matches Err(e) && e@ == pretty(input@, failure_at(input@, stop))
            },
        },
{
    let chars = characters(input);
    match read_forms(&chars, false) {
        Ok(read) => {
            let mut values: Vec<Value> = Vec::new();
            let mut i: usize = 0;
            assert(crate::types::data(values@) =~= Seq::empty());
            while i < read.len()
                invariant
                    i <= read.len(),
                    ctx.wf(),
                    ctx.budget() == old(ctx).budget(),
                    intern_forms(old(ctx)@, forms(read@), 0, Seq::empty()) == intern_forms(
                        ctx@,
                        forms(read@),
                        i as nat,
                        crate::types::data(values@),
                    ),
                decreases read.len() - i,
            {
                let ghost before = values@;
                let value = intern(ctx, &read[i]);
                values.push(value);
                assert(crate::types::data(values@) =~= crate::types::data(before).push(value@));
                i += 1;
            }
            Ok(values)
        },
        Err(e) => Err(describe_failure(&chars, &e)),
    }
}

} // verus!

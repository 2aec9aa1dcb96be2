//! Errors of the compiler.
//!
//! An error is raised without a line number deep inside the grammar and the
//! encodings ([`AnonymousEvaluationError`]) and stamped with the line by the
//! nearest caller that knows it ([`EvaluationError`]).
use vstd::prelude::*;

verus! {

/// What went wrong, with the values that describe it.
#[derive(Debug, PartialEq, Eq)]
pub enum ErrorKind {
    /// A line's leading run mixes tabs and spaces, or uses the other kind
    /// than the script's indentation unit.
    MixedIndentation,
    /// A line's leading spaces are not a multiple of the indentation unit.
    UnevenIndentation,
    /// A line is indented deeper than a block there allows.
    UnexpectedIndentation,
    /// A line of the script could not be read.
    ReadFailure,
    /// The script could not be opened.
    FileUnreadable,
    /// A macro line holds no command word.
    MissingCommand,
    /// A macro header names no known macro.
    UnknownMacro(String),
    /// `@define` without the name of the definition.
    MissingDefinitionName,
    /// `@repeat` without exactly one argument.
    RepeatArgumentCount,
    /// The argument of `@repeat` is no count.
    InvalidRepeatCount(String),
    /// A string literal is not closed on its line.
    UnterminatedString,
    /// An argument group of an expansion is not closed on its line.
    UnterminatedArguments,
    /// A character that cannot start or continue an item where it stands.
    UnexpectedCharacter(char),
    /// A `$` that is not followed by a name.
    MissingExpansionName,
    /// A word that holds a character that is no hexadecimal digit.
    InvalidHexDigit(String),
    /// A strict hexadecimal word of odd length.
    OddHexLength(String),
    /// A decimal literal that is not an optional `+` and decimal digits.
    InvalidDecimal(String),
    /// A decimal literal whose value does not fit the machine word.
    DecimalTooLarge(String),
    /// A hexadecimal or binary word whose value does not fit the machine word.
    NumberTooLarge(String),
    /// A word that holds a character that is no binary digit.
    InvalidBinaryDigit(String),
    /// A strict binary word whose length is not a multiple of eight.
    BinaryLength(String),
    /// A number item with a padding size that lacks its other bracket.
    InvalidPadding(String),
    /// A string character above 255, at the given column of the string.
    InvalidCharacter(usize),
    /// A backslash followed by a character that is no known escape.
    InvalidEscape(char),
    /// A name that no scope defines.
    UndefinedVariable(String),
    /// An expansion called with the wrong number of arguments:
    /// its name, the number it expects, the number it got.
    ArityMismatch(String, usize, usize),
    /// Expansions nested deeper than the evaluator allows, at the named one.
    ExpansionTooDeep(String),
    /// The assembler collaborator failed, with its own description.
    Tooling(String),
    /// The body of a called macro failed: the error, on the body's line.
    InExpansion(Box<EvaluationError>),
}

/// The mathematical model of an [`ErrorKind`].
pub enum Fault {
    MixedIndentation,
    UnevenIndentation,
    UnexpectedIndentation,
    ReadFailure,
    FileUnreadable,
    MissingCommand,
    UnknownMacro(Seq<char>),
    MissingDefinitionName,
    RepeatArgumentCount,
    InvalidRepeatCount(Seq<char>),
    UnterminatedString,
    UnterminatedArguments,
    UnexpectedCharacter(char),
    MissingExpansionName,
    InvalidHexDigit(Seq<char>),
    OddHexLength(Seq<char>),
    InvalidDecimal(Seq<char>),
    DecimalTooLarge(Seq<char>),
    NumberTooLarge(Seq<char>),
    InvalidBinaryDigit(Seq<char>),
    BinaryLength(Seq<char>),
    InvalidPadding(Seq<char>),
    InvalidCharacter(nat),
    InvalidEscape(char),
    UndefinedVariable(Seq<char>),
    ArityMismatch(Seq<char>, nat, nat),
    ExpansionTooDeep(Seq<char>),
    Tooling(Seq<char>),
    /// The line and the fault of an error in a called macro's body.
    InExpansion(nat, Box<Fault>),
}

/// The four families of errors.
#[derive(PartialEq, Eq, Structural, Clone, Copy, Debug)]
pub enum ErrorCategory {
    /// The shape of the script: indentation, macro headers, unterminated items.
    Shape,
    /// The encoding of a literal: digits, lengths, characters, escapes.
    Encoding,
    /// Names and calls: undefined names, arity, depth of expansion.
    Scope,
    /// The assembler collaborator.
    Tooling,
}

/// The model of an error kind.
pub open spec fn kind_model(k: ErrorKind) -> Fault
    decreases k,
{
    match k {
        ErrorKind::MixedIndentation => Fault::MixedIndentation,
        ErrorKind::UnevenIndentation => Fault::UnevenIndentation,
        ErrorKind::UnexpectedIndentation => Fault::UnexpectedIndentation,
        ErrorKind::ReadFailure => Fault::ReadFailure,
        ErrorKind::FileUnreadable => Fault::FileUnreadable,
        ErrorKind::MissingCommand => Fault::MissingCommand,
        ErrorKind::UnknownMacro(n) => Fault::UnknownMacro(n@),
        ErrorKind::MissingDefinitionName => Fault::MissingDefinitionName,
        ErrorKind::RepeatArgumentCount => Fault::RepeatArgumentCount,
        ErrorKind::InvalidRepeatCount(a) => Fault::InvalidRepeatCount(a@),
        ErrorKind::UnterminatedString => Fault::UnterminatedString,
        ErrorKind::UnterminatedArguments => Fault::UnterminatedArguments,
        ErrorKind::UnexpectedCharacter(c) => Fault::UnexpectedCharacter(c),
        ErrorKind::MissingExpansionName => Fault::MissingExpansionName,
        ErrorKind::InvalidHexDigit(w) => Fault::InvalidHexDigit(w@),
        ErrorKind::OddHexLength(w) => Fault::OddHexLength(w@),
        ErrorKind::InvalidDecimal(w) => Fault::InvalidDecimal(w@),
        ErrorKind::DecimalTooLarge(w) => Fault::DecimalTooLarge(w@),
        ErrorKind::NumberTooLarge(w) => Fault::NumberTooLarge(w@),
        ErrorKind::InvalidBinaryDigit(w) => Fault::InvalidBinaryDigit(w@),
        ErrorKind::BinaryLength(w) => Fault::BinaryLength(w@),
        ErrorKind::InvalidPadding(w) => Fault::InvalidPadding(w@),
        ErrorKind::InvalidCharacter(c) => Fault::InvalidCharacter(c as nat),
        ErrorKind::InvalidEscape(c) => Fault::InvalidEscape(c),
        ErrorKind::UndefinedVariable(n) => Fault::UndefinedVariable(n@),
        ErrorKind::ArityMismatch(n, p, a) => Fault::ArityMismatch(n@, p as nat, a as nat),
        ErrorKind::ExpansionTooDeep(n) => Fault::ExpansionTooDeep(n@),
        ErrorKind::Tooling(m) => Fault::Tooling(m@),
        ErrorKind::InExpansion(e) => Fault::InExpansion(e.line as nat, Box::new(kind_model(e.what))),
    }
}

impl View for ErrorKind {
    type V = Fault;

    open spec fn view(&self) -> Fault {
        kind_model(*self)
    }
}

/// The family that a fault belongs to.
pub open spec fn category_of(f: Fault) -> ErrorCategory
    decreases f,
{
    match f {
        Fault::MixedIndentation | Fault::UnevenIndentation | Fault::UnexpectedIndentation
        | Fault::ReadFailure | Fault::FileUnreadable | Fault::MissingCommand
        | Fault::UnknownMacro(_)
        | Fault::MissingDefinitionName | Fault::RepeatArgumentCount | Fault::InvalidRepeatCount(_)
        | Fault::UnterminatedString | Fault::UnterminatedArguments
        | Fault::UnexpectedCharacter(_) | Fault::MissingExpansionName => ErrorCategory::Shape,
        Fault::InvalidHexDigit(_) | Fault::OddHexLength(_) | Fault::InvalidDecimal(_)
        | Fault::DecimalTooLarge(_) | Fault::NumberTooLarge(_) | Fault::InvalidBinaryDigit(_)
        | Fault::BinaryLength(_) | Fault::InvalidPadding(_) | Fault::InvalidCharacter(_)
        | Fault::InvalidEscape(_) => ErrorCategory::Encoding,
        Fault::UndefinedVariable(_) | Fault::ArityMismatch(..)
        | Fault::ExpansionTooDeep(_) => ErrorCategory::Scope,
        Fault::Tooling(_) => ErrorCategory::Tooling,
        Fault::InExpansion(_, inner) => category_of(*inner),
    }
}

impl ErrorKind {
    /// The family of this error.
    pub fn category(&self) -> (r: ErrorCategory)
        ensures
            r == category_of(self@),
        decreases self,
    {
        match self {
            ErrorKind::MixedIndentation | ErrorKind::UnevenIndentation
            | ErrorKind::UnexpectedIndentation | ErrorKind::ReadFailure
            | ErrorKind::FileUnreadable | ErrorKind::MissingCommand | ErrorKind::UnknownMacro(_)
            | ErrorKind::MissingDefinitionName | ErrorKind::RepeatArgumentCount
            | ErrorKind::InvalidRepeatCount(_) | ErrorKind::UnterminatedString
            | ErrorKind::UnterminatedArguments | ErrorKind::UnexpectedCharacter(_)
            | ErrorKind::MissingExpansionName => ErrorCategory::Shape,
            ErrorKind::InvalidHexDigit(_) | ErrorKind::OddHexLength(_)
            | ErrorKind::InvalidDecimal(_) | ErrorKind::DecimalTooLarge(_)
            | ErrorKind::NumberTooLarge(_) | ErrorKind::InvalidBinaryDigit(_)
            | ErrorKind::BinaryLength(_) | ErrorKind::InvalidPadding(_)
            | ErrorKind::InvalidCharacter(_)
            | ErrorKind::InvalidEscape(_) => ErrorCategory::Encoding,
            ErrorKind::UndefinedVariable(_) | ErrorKind::ArityMismatch(..)
            | ErrorKind::ExpansionTooDeep(_) => ErrorCategory::Scope,
            ErrorKind::Tooling(_) => ErrorCategory::Tooling,
            ErrorKind::InExpansion(e) => e.what.category(),
        }
    }
}

/// An error that does not know yet on which line it happened.
#[derive(Debug)]
pub struct AnonymousEvaluationError {
    pub what: ErrorKind,
}

impl View for AnonymousEvaluationError {
    type V = Fault;

    open spec fn view(&self) -> Fault {
        self.what@
    }
}

impl AnonymousEvaluationError {
    pub fn new(what: ErrorKind) -> (r: Self)
        ensures
            r.what == what,
    {
        Self { what }
    }

    /// Stamps the error with the line it happened on.
    pub fn at(self, line: usize) -> (r: EvaluationError)
        ensures
            r.what == self.what,
            r.line == line,
    {
        EvaluationError::new(line, self.what)
    }
}

/// An error with the (1-based) number of the line it happened on.
#[derive(Debug, PartialEq, Eq)]
pub struct EvaluationError {
    pub what: ErrorKind,
    pub line: usize,
}

/// The model of a located error: the line and the fault.
pub open spec fn located(line: nat, f: Fault) -> (nat, Fault) {
    (line, f)
}

impl View for EvaluationError {
    type V = (nat, Fault);

    open spec fn view(&self) -> (nat, Fault) {
        located(self.line as nat, self.what@)
    }
}

impl EvaluationError {
    pub fn new(line: usize, what: ErrorKind) -> (r: Self)
        ensures
            r.what == what,
            r.line == line,
    {
        EvaluationError { what, line }
    }
}

/// Stamping a line on the error of a result.
pub trait AnonymousEvaluationErrorResult<T>: Sized {
    /// The result with its error, if any, stamped with `line_number`.
    spec fn at_line(self, line_number: usize) -> Result<T, EvaluationError>;

    fn map_err_at(self, line_number: usize) -> (r: Result<T, EvaluationError>)
        ensures
            r == self.at_line(line_number),
    ;
}

impl<T> AnonymousEvaluationErrorResult<T> for Result<T, AnonymousEvaluationError> {
    open spec fn at_line(self, line_number: usize) -> Result<T, EvaluationError> {
        match self {
            Ok(v) => Ok(v),
            Err(e) => Err(EvaluationError { what: e.what, line: line_number }),
        }
    }

    fn map_err_at(self, line_number: usize) -> (r: Result<T, EvaluationError>) {
        match self {
            Ok(v) => Ok(v),
            Err(e) => Err(e.at(line_number)),
        }
    }
}

/// The model of a result that carries bytes or an anonymous error.
pub open spec fn bytes_outcome(r: Result<Vec<u8>, AnonymousEvaluationError>) -> Result<
    Seq<u8>,
    Fault,
> {
    match r {
        Ok(v) => Ok(v@),
        Err(e) => Err(e@),
    }
}

/// The model of a result that carries a machine integer or an anonymous error.
pub open spec fn integer_outcome(r: Result<usize, AnonymousEvaluationError>) -> Result<
    nat,
    Fault,
> {
    match r {
        Ok(v) => Ok(v as nat),
        Err(e) => Err(e@),
    }
}

/// The model of a result that carries bytes or a located error.
pub open spec fn located_bytes_outcome(r: Result<Vec<u8>, EvaluationError>) -> Result<
    Seq<u8>,
    (nat, Fault),
> {
    match r {
        Ok(v) => Ok(v@),
        Err(e) => Err(e@),
    }
}

} // verus!

verus! {

/// The decimal digits of `n`.
pub open spec fn decimal_text(n: nat) -> Seq<char>
    decreases n,
{
    if n < 10 {
        seq![((n + 48) as u8) as char]
    } else {
        decimal_text(n / 10).push((((n % 10) + 48) as u8) as char)
    }
}

/// The decimal digits of `n`, as a string.
pub fn decimal_string(n: usize) -> (r: String)
    ensures
        r@ == decimal_text(n as nat),
{
    let mut digits: Vec<char> = Vec::new();
    let mut work: usize = n;
    digits.insert(0, ((work % 10) as u8 + 48) as char);
    work = work / 10;
    while work > 0
        invariant
            work > 0 ==> decimal_text(n as nat) == decimal_text(work as nat) + digits@,
            work == 0 ==> decimal_text(n as nat) == digits@,
        decreases work,
    {
        let ghost before = digits@;
        digits.insert(0, ((work % 10) as u8 + 48) as char);
        proof {
            if work >= 10 {
                assert(decimal_text(work as nat) == decimal_text((work / 10) as nat).push(
                    (((work % 10) + 48) as u8) as char,
                ));
                assert(decimal_text((work / 10) as nat).push((((work % 10) + 48) as u8) as char)
                    + before =~= decimal_text((work / 10) as nat) + digits@);
            } else {
                assert(decimal_text(work as nat) + before =~= digits@);
            }
        }
        work = work / 10;
    }
    crate::text::string_of(&digits, 0, digits.len())
}

} // verus!

verus! {

/// The description of a fault.
pub open spec fn fault_text(f: Fault) -> Seq<char>
    decreases f,
{
    match f {
        Fault::MixedIndentation => "encountered mixed tabs and spaces"@,
        Fault::UnevenIndentation => "uneven indentation"@,
        Fault::UnexpectedIndentation => "unexpected indentation"@,
        Fault::ReadFailure => "failed to read line"@,
        Fault::FileUnreadable => "error reading file!"@,
        Fault::MissingCommand => "macro lines must contain a command"@,
        Fault::UnknownMacro(m) => "unknown macro: "@ + m,
        Fault::MissingDefinitionName => "expected at least one argument indicating definition name"@,
        Fault::RepeatArgumentCount => "expected exactly one argument indicating repetition count"@,
        Fault::InvalidRepeatCount(a) => "invalid repetition count "@ + a,
        Fault::UnterminatedString => "unterminated string"@,
        Fault::UnterminatedArguments => "unterminated argument group"@,
        Fault::UnexpectedCharacter(c) => "unexpected character "@ + seq![c],
        Fault::MissingExpansionName => "expected a name after $"@,
        Fault::InvalidHexDigit(w) => "invalid hexadecimal digit in "@ + w,
        Fault::OddHexLength(w) => "length of hexadecimal word must be divisible by two: "@ + w,
        Fault::InvalidDecimal(w) => "invalid decimal format: "@ + w,
        Fault::DecimalTooLarge(w) => "invalid decimal format: number too large to fit in target type: "@
            + w,
        Fault::NumberTooLarge(w) => "number too large to fit in target type: "@ + w,
        Fault::InvalidBinaryDigit(w) => "invalid binary digit in "@ + w,
        Fault::BinaryLength(w) => "length of binary word must be divisible by eight: "@ + w,
        Fault::InvalidPadding(w) => "invalid padding format: "@ + w,
        Fault::InvalidCharacter(column) => "encountered invalid character in column "@
            + decimal_text(column),
        Fault::InvalidEscape(c) => "invalid escape sequence \\"@ + seq![c],
        Fault::UndefinedVariable(n) => "undefined variable "@ + n,
        Fault::ArityMismatch(n, p, a) => "expansion $"@ + n + " expected "@ + decimal_text(p)
            + " args, got "@ + decimal_text(a),
        Fault::ExpansionTooDeep(n) => "expansion $"@ + n + " nested too deeply"@,
        Fault::Tooling(m) => m,
        Fault::InExpansion(line, inner) => "error while expanding definition:\n"@
            + "Runtime error on line "@ + decimal_text(line) + ": "@ + fault_text(*inner),
    }
}

/// A string followed by one character.
fn with_char(s: String, c: char) -> (r: String)
    ensures
        r@ == s@ + seq![c],
{
    let mut one: Vec<char> = Vec::new();
    one.push(c);
    let tail = crate::text::string_of(&one, 0, 1);
    assert(tail@ =~= seq![c]);
    s.concat(tail.as_str())
}

impl ErrorKind {
    /// The description of this error.
    pub fn describe(&self) -> (r: String)
        ensures
            r@ == fault_text(self@),
        decreases self,
    {
        match self {
            ErrorKind::MixedIndentation => String::from_str("encountered mixed tabs and spaces"),
            ErrorKind::UnevenIndentation => String::from_str("uneven indentation"),
            ErrorKind::UnexpectedIndentation => String::from_str("unexpected indentation"),
            ErrorKind::ReadFailure => String::from_str("failed to read line"),
            ErrorKind::FileUnreadable => String::from_str("error reading file!"),
            ErrorKind::MissingCommand => String::from_str("macro lines must contain a command"),
            ErrorKind::UnknownMacro(m) => String::from_str("unknown macro: ").concat(m.as_str()),
            ErrorKind::MissingDefinitionName => String::from_str(
                "expected at least one argument indicating definition name",
            ),
            ErrorKind::RepeatArgumentCount => String::from_str(
                "expected exactly one argument indicating repetition count",
            ),
            ErrorKind::InvalidRepeatCount(a) => String::from_str("invalid repetition count ").concat(
                a.as_str(),
            ),
            ErrorKind::UnterminatedString => String::from_str("unterminated string"),
            ErrorKind::UnterminatedArguments => String::from_str("unterminated argument group"),
            ErrorKind::UnexpectedCharacter(c) => with_char(
                String::from_str("unexpected character "),
                *c,
            ),
            ErrorKind::MissingExpansionName => String::from_str("expected a name after $"),
            ErrorKind::InvalidHexDigit(w) => String::from_str("invalid hexadecimal digit in ").concat(
                w.as_str(),
            ),
            ErrorKind::OddHexLength(w) => String::from_str(
                "length of hexadecimal word must be divisible by two: ",
            ).concat(w.as_str()),
            ErrorKind::InvalidDecimal(w) => String::from_str("invalid decimal format: ").concat(
                w.as_str(),
            ),
            ErrorKind::DecimalTooLarge(w) => String::from_str(
                "invalid decimal format: number too large to fit in target type: ",
            ).concat(w.as_str()),
            ErrorKind::NumberTooLarge(w) => String::from_str(
                "number too large to fit in target type: ",
            ).concat(w.as_str()),
            ErrorKind::InvalidBinaryDigit(w) => String::from_str("invalid binary digit in ").concat(
                w.as_str(),
            ),
            ErrorKind::BinaryLength(w) => String::from_str(
                "length of binary word must be divisible by eight: ",
            ).concat(w.as_str()),
            ErrorKind::InvalidPadding(w) => String::from_str("invalid padding format: ").concat(
                w.as_str(),
            ),
            ErrorKind::InvalidCharacter(column) => {
                let digits = decimal_string(*column);
                String::from_str("encountered invalid character in column ").concat(
                    digits.as_str(),
                )
            },
            ErrorKind::InvalidEscape(c) => with_char(
                String::from_str("invalid escape sequence \\"),
                *c,
            ),
            ErrorKind::UndefinedVariable(n) => String::from_str("undefined variable ").concat(
                n.as_str(),
            ),
            ErrorKind::ArityMismatch(n, p, a) => {
                let expected = decimal_string(*p);
                let got = decimal_string(*a);
                String::from_str("expansion $").concat(n.as_str()).concat(" expected ").concat(
                    expected.as_str(),
                ).concat(" args, got ").concat(got.as_str())
            },
            ErrorKind::ExpansionTooDeep(n) => String::from_str("expansion $").concat(
                n.as_str(),
            ).concat(" nested too deeply"),
            ErrorKind::Tooling(m) => m.clone(),
            ErrorKind::InExpansion(e) => {
                let inner = e.message();
                String::from_str("error while expanding definition:\n").concat(inner.as_str())
            },
        }
    }
}

/// The report of a located error.
pub open spec fn error_text(line: nat, f: Fault) -> Seq<char> {
    "Runtime error on line "@ + decimal_text(line) + ": "@ + fault_text(f)
}

impl EvaluationError {
    /// `Runtime error on line N: ` and the description of the error.
    pub fn message(&self) -> (r: String)
        ensures
            r@ == error_text(self.line as nat, self.what@),
        decreases self,
    {
        let line = decimal_string(self.line);
        let what = self.what.describe();
        String::from_str("Runtime error on line ").concat(line.as_str()).concat(": ").concat(
            what.as_str(),
        )
    }
}

} // verus!

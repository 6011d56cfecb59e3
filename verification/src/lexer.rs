use vstd::prelude::*;
use vstd::string::StringExecFns;
use crate::grammar::{lemma_lexeme_at, lemma_lexeme_text, lexeme_at, scan, spells, Lexeme, Span};
use crate::source::{piece, Source};
use crate::stack::{
    after_add, after_concat, after_dup, after_empty_vector, after_eq, after_index,
    after_insert_vector, after_mul, after_neq, after_pop, after_size, after_sub, after_swap,
    bool_element, int_element, needs_one, string_element, ElementModel, LifoVector, Stack,
    StackEl, StackElValue, ValueModel,
};
use crate::text::{int_value, parse_decimal};

verus! {

/// The kinds of lexeme of the language. An element of the stack also carries
/// the kind of the instruction or literal that produced it.
#[derive(Debug, Clone, Copy, PartialEq, Eq, Structural)]
pub enum Token {
    Add,
    Sub,
    Mul,
    Push,
    PushInt,
    PushBool,
    PushStr,
    Int,
    Bool,
    String,
    Dup,
    Eq,
    Neq,
    Pop,
    Swap,
    Concat,
    Jump,
    Jumpi,
    EmptyVector,
    InsertVector,
    Size,
    Index,
    Log,
    LabelName,
    Label,
    Comment,
    Invalid,
}

impl Default for Token {
    fn default() -> (token: Self)
        ensures
            token == Token::Invalid,
    {
        Token::Invalid
    }
}

impl Token {
    /// A lexer at the start of the program `source`, with an empty stack.
    pub fn lexer(source: &str) -> (lexer: Lexer)
        ensures
            lexer@ == Machine::start(source@),
    {
        Lexer::new(source)
    }
}

/// The kinds of error that end a scan.
#[derive(Debug, Clone, Copy, PartialEq, Eq, Structural)]
pub enum ErrorKind {
    InvalidInteger,
    InvalidBool,
    InvalidString,
    InvalidPush,
    InvalidLabel,
    InvalidOpcode,
    InvalidToken,
    UnsetLabel,
    AddError,
    DupError,
    EqError,
    NeqError,
    PopError,
    SwapError,
    ConcatError,
    JumpiError,
    InsertError,
    SizeError,
    IndexError,
}

/// An error that ends a scan. Each holds a detail for the reader: the lexeme
/// that was refused, or what the stack lacked.
#[derive(Debug, Clone, PartialEq)]
pub enum LexingError {
    InvalidInteger(String),
    InvalidBool(String),
    InvalidString(String),
    InvalidPush(String),
    InvalidLabel(String),
    InvalidOpcode(String),
    InvalidToken(String),
    UnsetLabel(String),
    AddError(String),
    DupError(String),
    EqError(String),
    NeqError(String),
    PopError(String),
    SwapError(String),
    ConcatError(String),
    JumpiError(String),
    InsertError(String),
    SizeError(String),
    IndexError(String),
}

/// What a [`LexingError`] holds: its kind and its detail.
pub struct ErrorModel {
    pub kind: ErrorKind,
    pub detail: Seq<char>,
}

impl View for LexingError {
    type V = ErrorModel;

    open spec fn view(&self) -> ErrorModel {
        match self {
            LexingError::InvalidInteger(d) => ErrorModel {
                kind: ErrorKind::InvalidInteger,
                detail: d@,
            },
            LexingError::InvalidBool(d) => ErrorModel { kind: ErrorKind::InvalidBool, detail: d@ },
            LexingError::InvalidString(d) => ErrorModel {
                kind: ErrorKind::InvalidString,
                detail: d@,
            },
            LexingError::InvalidPush(d) => ErrorModel { kind: ErrorKind::InvalidPush, detail: d@ },
            LexingError::InvalidLabel(d) => ErrorModel {
                kind: ErrorKind::InvalidLabel,
                detail: d@,
            },
            LexingError::InvalidOpcode(d) => ErrorModel {
                kind: ErrorKind::InvalidOpcode,
                detail: d@,
            },
            LexingError::InvalidToken(d) => ErrorModel {
                kind: ErrorKind::InvalidToken,
                detail: d@,
            },
            LexingError::UnsetLabel(d) => ErrorModel { kind: ErrorKind::UnsetLabel, detail: d@ },
            LexingError::AddError(d) => ErrorModel { kind: ErrorKind::AddError, detail: d@ },
            LexingError::DupError(d) => ErrorModel { kind: ErrorKind::DupError, detail: d@ },
            LexingError::EqError(d) => ErrorModel { kind: ErrorKind::EqError, detail: d@ },
            LexingError::NeqError(d) => ErrorModel { kind: ErrorKind::NeqError, detail: d@ },
            LexingError::PopError(d) => ErrorModel { kind: ErrorKind::PopError, detail: d@ },
            LexingError::SwapError(d) => ErrorModel { kind: ErrorKind::SwapError, detail: d@ },
            LexingError::ConcatError(d) => ErrorModel { kind: ErrorKind::ConcatError, detail: d@ },
            LexingError::JumpiError(d) => ErrorModel { kind: ErrorKind::JumpiError, detail: d@ },
            LexingError::InsertError(d) => ErrorModel { kind: ErrorKind::InsertError, detail: d@ },
            LexingError::SizeError(d) => ErrorModel { kind: ErrorKind::SizeError, detail: d@ },
            LexingError::IndexError(d) => ErrorModel { kind: ErrorKind::IndexError, detail: d@ },
        }
    }
}

impl LexingError {
    /// The kind of the error.
    pub fn kind(&self) -> (kind: ErrorKind)
        ensures
            kind == self@.kind,
    {
        match self {
            LexingError::InvalidInteger(_) => ErrorKind::InvalidInteger,
            LexingError::InvalidBool(_) => ErrorKind::InvalidBool,
            LexingError::InvalidString(_) => ErrorKind::InvalidString,
            LexingError::InvalidPush(_) => ErrorKind::InvalidPush,
            LexingError::InvalidLabel(_) => ErrorKind::InvalidLabel,
            LexingError::InvalidOpcode(_) => ErrorKind::InvalidOpcode,
            LexingError::InvalidToken(_) => ErrorKind::InvalidToken,
            LexingError::UnsetLabel(_) => ErrorKind::UnsetLabel,
            LexingError::AddError(_) => ErrorKind::AddError,
            LexingError::DupError(_) => ErrorKind::DupError,
            LexingError::EqError(_) => ErrorKind::EqError,
            LexingError::NeqError(_) => ErrorKind::NeqError,
            LexingError::PopError(_) => ErrorKind::PopError,
            LexingError::SwapError(_) => ErrorKind::SwapError,
            LexingError::ConcatError(_) => ErrorKind::ConcatError,
            LexingError::JumpiError(_) => ErrorKind::JumpiError,
            LexingError::InsertError(_) => ErrorKind::InsertError,
            LexingError::SizeError(_) => ErrorKind::SizeError,
            LexingError::IndexError(_) => ErrorKind::IndexError,
        }
    }

    /// The detail of the error.
    pub fn detail(&self) -> (detail: &String)
        ensures
            detail@ == self@.detail,
    {
        match self {
            LexingError::InvalidInteger(d) => d,
            LexingError::InvalidBool(d) => d,
            LexingError::InvalidString(d) => d,
            LexingError::InvalidPush(d) => d,
            LexingError::InvalidLabel(d) => d,
            LexingError::InvalidOpcode(d) => d,
            LexingError::InvalidToken(d) => d,
            LexingError::UnsetLabel(d) => d,
            LexingError::AddError(d) => d,
            LexingError::DupError(d) => d,
            LexingError::EqError(d) => d,
            LexingError::NeqError(d) => d,
            LexingError::PopError(d) => d,
            LexingError::SwapError(d) => d,
            LexingError::ConcatError(d) => d,
            LexingError::JumpiError(d) => d,
            LexingError::InsertError(d) => d,
            LexingError::SizeError(d) => d,
            LexingError::IndexError(d) => d,
        }
    }
}

/// Whether a jump is pending, that is, whether the scan is skipping
/// instructions until the label is declared.
pub fn label_is_set(current_label: &Option<String>) -> (set: bool)
    ensures
        set == current_label.is_some(),
{
    match current_label {
        None => false,
        Some(_) => true,
    }
}

/// What a [`State`] holds.
pub struct StateModel {
    /// The value stack, top first.
    pub stack: Seq<ElementModel>,
    /// `Jump` or `Jumpi` where the name of a label may follow.
    pub prev_op: Token,
    /// The label that a jump is looking for, while instructions are skipped.
    pub label: Option<Seq<char>>,
}

/// The evaluation state of a scan.
#[derive(Debug)]
pub struct State {
    pub stack: Stack,
    pub prev_op: Token,
    current_label: Option<String>,
}

impl View for State {
    type V = StateModel;

    closed spec fn view(&self) -> StateModel {
        StateModel {
            stack: self.stack.deep_view(),
            prev_op: self.prev_op,
            label: match self.current_label {
                Some(label) => Some(label@),
                None => None,
            },
        }
    }
}

impl Default for State {
    fn default() -> (state: Self)
        ensures
            state@ == StateModel::start(),
    {
        let state = State { stack: Vec::new(), prev_op: Token::Invalid, current_label: None };
        assert(state.stack.deep_view() =~= Seq::<ElementModel>::empty());
        state
    }
}

impl State {
    /// The value stack, top first.
    pub fn stack(&self) -> (stack: &Stack)
        ensures
            stack.deep_view() == self@.stack,
    {
        &self.stack
    }

    /// Whether a jump is looking for its label, so that instructions are
    /// skipped. At the end of a scan this says that the label was never
    /// declared.
    pub fn skipping(&self) -> (skipping: bool)
        ensures
            skipping == self@.label.is_some(),
    {
        label_is_set(&self.current_label)
    }
}

impl StateModel {
    /// The state at the start of a scan.
    pub open spec fn start() -> StateModel {
        StateModel { stack: Seq::empty(), prev_op: Token::Invalid, label: None }
    }

    /// The state with `el` on top of the stack.
    pub open spec fn pushed(self, el: ElementModel) -> StateModel {
        StateModel { stack: seq![el] + self.stack, ..self }
    }
}

/// What a [`Lexer`] holds: the program, the position that the scan has
/// reached in it, whether an error has ended the scan, and the evaluation
/// state.
pub struct Machine {
    pub source: Seq<char>,
    pub position: int,
    pub halted: bool,
    pub state: StateModel,
}

impl Machine {
    /// The machine at the start of the program `source`.
    pub open spec fn start(source: Seq<char>) -> Machine {
        Machine { source, position: 0, halted: false, state: StateModel::start() }
    }
}

/// What an instruction does: the state it leaves and the position behind it
/// and its operand, or the error that ends the scan.
pub type Effect = Result<(StateModel, int), ErrorModel>;

/// What a string literal holds: the characters between its quotes, escapes
/// as they are written.
pub open spec fn string_contents(text: Seq<char>) -> Seq<char> {
    piece(text, 1, text.len() - 1)
}

/// The effect of an instruction that only acts on the stack: nothing while
/// instructions are skipped, else the new stack, or an error of `kind`.
pub open spec fn stack_effect(
    state: StateModel,
    after: int,
    outcome: Result<Seq<ElementModel>, Seq<char>>,
    kind: ErrorKind,
) -> Effect {
    if state.label is Some {
        Ok((state, after))
    } else {
        match outcome {
            Ok(stack) => Ok((StateModel { stack, ..state }, after)),
            Err(detail) => Err(ErrorModel { kind, detail }),
        }
    }
}

/// The effect of `PUSH`: the literal that follows it lies on top of the
/// stack. Nothing while instructions are skipped.
pub open spec fn push_effect(source: Seq<char>, after: int, state: StateModel) -> Effect {
    let operand = lexeme_at(source, after);
    let text = operand.text(source);
    let refused = ErrorModel { kind: ErrorKind::InvalidPush, detail: text };
    if state.label is Some {
        Ok((state, after))
    } else {
        match operand.token {
            Some(Token::Int) => match int_value(text) {
                Some(n) => Ok((state.pushed(int_element(n)), operand.end)),
                None => Err(refused),
            },
            Some(Token::Bool) => Ok((state.pushed(bool_element(text == "true"@)), operand.end)),
            Some(Token::String) => Ok(
                (state.pushed(string_element(string_contents(text))), operand.end),
            ),
            _ => Err(refused),
        }
    }
}

/// The effect of `PUSH_INT`: the integer literal that follows it lies on top
/// of the stack. Nothing while instructions are skipped.
pub open spec fn push_int_effect(source: Seq<char>, after: int, state: StateModel) -> Effect {
    let operand = lexeme_at(source, after);
    let text = operand.text(source);
    let refused = ErrorModel { kind: ErrorKind::InvalidInteger, detail: text };
    if state.label is Some {
        Ok((state, after))
    } else {
        match operand.token {
            Some(Token::Int) => match int_value(text) {
                Some(n) => Ok((state.pushed(int_element(n)), operand.end)),
                None => Err(refused),
            },
            _ => Err(refused),
        }
    }
}

/// The effect of `PUSH_STR`: the string literal that follows it lies on top
/// of the stack. Nothing while instructions are skipped.
pub open spec fn push_str_effect(source: Seq<char>, after: int, state: StateModel) -> Effect {
    let operand = lexeme_at(source, after);
    let text = operand.text(source);
    if state.label is Some {
        Ok((state, after))
    } else {
        match operand.token {
            Some(Token::String) => Ok(
                (state.pushed(string_element(string_contents(text))), operand.end),
            ),
            _ => Err(ErrorModel { kind: ErrorKind::InvalidString, detail: text }),
        }
    }
}

/// The effect of `PUSH_BOOL`: the boolean literal that follows it lies on top
/// of the stack. Nothing while instructions are skipped.
pub open spec fn push_bool_effect(source: Seq<char>, after: int, state: StateModel) -> Effect {
    let operand = lexeme_at(source, after);
    let text = operand.text(source);
    if state.label is Some {
        Ok((state, after))
    } else {
        match operand.token {
            Some(Token::Bool) => Ok((state.pushed(bool_element(text == "true"@)), operand.end)),
            _ => Err(ErrorModel { kind: ErrorKind::InvalidBool, detail: text }),
        }
    }
}

/// The effect of `INDEX`: the item of the top of the stack at the position
/// that the integer literal behind the instruction gives replaces it. Nothing
/// while instructions are skipped.
pub open spec fn index_effect(source: Seq<char>, after: int, state: StateModel) -> Effect {
    let operand = lexeme_at(source, after);
    let text = operand.text(source);
    let refused = ErrorModel { kind: ErrorKind::InvalidInteger, detail: text };
    if state.label is Some {
        Ok((state, after))
    } else {
        match operand.token {
            Some(Token::Int) => match int_value(text) {
                Some(n) => match after_index(state.stack, n) {
                    Ok(stack) => Ok((StateModel { stack, ..state }, operand.end)),
                    Err(detail) => Err(ErrorModel { kind: ErrorKind::IndexError, detail }),
                },
                None => Err(refused),
            },
            _ => Err(refused),
        }
    }
}

/// The position behind a jump that is skipped: behind the name of a label
/// that follows the instruction, else behind the instruction.
pub open spec fn behind_skipped_jump(source: Seq<char>, after: int) -> int {
    let operand = lexeme_at(source, after);
    if operand.token == Some(Token::LabelName) {
        operand.end
    } else {
        after
    }
}

/// The effect of `JUMP`: the scan looks for the label whose name follows the
/// instruction, and skips instructions until it is declared. While
/// instructions are skipped already, the jump is skipped with its operand.
pub open spec fn jump_effect(source: Seq<char>, after: int, state: StateModel) -> Effect {
    let operand = lexeme_at(source, after);
    let text = operand.text(source);
    if state.label is Some {
        Ok((state, behind_skipped_jump(source, after)))
    } else if operand.token == Some(Token::LabelName) {
        Ok((StateModel { prev_op: Token::Invalid, label: Some(text), ..state }, operand.end))
    } else {
        Err(ErrorModel { kind: ErrorKind::InvalidLabel, detail: text })
    }
}

/// The message of the error for a `JUMPI` that finds no boolean on top of the
/// stack.
pub open spec fn needs_boolean() -> Seq<char> {
    "Top element must be a boolean value"@
}

/// The effect of `JUMPI`: the boolean on top of the stack is taken off; where
/// it is true, the scan looks for the label whose name follows the
/// instruction. While instructions are skipped, the jump is skipped with its
/// operand, and the stack is not looked at.
pub open spec fn jumpi_effect(source: Seq<char>, after: int, state: StateModel) -> Effect {
    let operand = lexeme_at(source, after);
    let text = operand.text(source);
    if state.label is Some {
        Ok((state, behind_skipped_jump(source, after)))
    } else if state.stack.len() < 1 {
        Err(ErrorModel { kind: ErrorKind::JumpiError, detail: needs_one() })
    } else if !(state.stack[0].value is Bool) {
        Err(ErrorModel { kind: ErrorKind::JumpiError, detail: needs_boolean() })
    } else if operand.token == Some(Token::LabelName) {
        Ok(
            (
                StateModel {
                    stack: state.stack.skip(1),
                    prev_op: Token::Invalid,
                    label: if state.stack[0].value == ValueModel::Bool(true) {
                        Some(text)
                    } else {
                        None
                    },
                },
                operand.end,
            ),
        )
    } else {
        Err(ErrorModel { kind: ErrorKind::InvalidLabel, detail: text })
    }
}

/// The effect of `EMPTY_VECTOR`: an empty vector lies on top of the stack.
/// Nothing while instructions are skipped.
pub open spec fn empty_vector_effect(after: int, state: StateModel) -> Effect {
    if state.label is Some {
        Ok((state, after))
    } else {
        Ok((StateModel { stack: after_empty_vector(state.stack), ..state }, after))
    }
}

/// The effect of the name of a label that follows no jump: an error, unless
/// the state says that a jump came before it.
pub open spec fn label_name_effect(text: Seq<char>, after: int, state: StateModel) -> Effect {
    if state.prev_op == Token::Jump || state.prev_op == Token::Jumpi {
        Ok((StateModel { prev_op: Token::Invalid, ..state }, after))
    } else {
        Err(ErrorModel { kind: ErrorKind::InvalidOpcode, detail: text })
    }
}

/// The effect of the declaration of a label, whose text is the name and a
/// colon: it ends the skipping where a jump is looking for this name, it
/// does nothing where a jump is looking for another, and it is an error where
/// none is looking.
pub open spec fn label_effect(text: Seq<char>, after: int, state: StateModel) -> Effect {
    match state.label {
        None => Err(ErrorModel { kind: ErrorKind::UnsetLabel, detail: text }),
        Some(wanted) => if text.drop_last() == wanted {
            Ok((StateModel { label: None, ..state }, after))
        } else {
            Ok((state, after))
        },
    }
}

/// The error for characters that make no lexeme of the language.
pub open spec fn invalid_token_error(text: Seq<char>, state: StateModel) -> ErrorModel {
    ErrorModel {
        kind: if state.prev_op == Token::Jump {
            ErrorKind::InvalidLabel
        } else {
            ErrorKind::InvalidToken
        },
        detail: text,
    }
}

/// The effect of the lexeme `span` of kind `token` on `state`.
///
/// A literal or a comment that stands by itself does nothing, and neither
/// does `LOG`, which only asks the caller to show the stack.
pub open spec fn effect(token: Token, span: Span, source: Seq<char>, state: StateModel) -> Effect {
    let text = span.text(source);
    let after = span.end;
    let stack = state.stack;
    match token {
        Token::Add => stack_effect(state, after, after_add(stack), ErrorKind::AddError),
        Token::Sub => stack_effect(state, after, after_sub(stack), ErrorKind::AddError),
        Token::Mul => stack_effect(state, after, after_mul(stack), ErrorKind::AddError),
        Token::Dup => stack_effect(state, after, after_dup(stack), ErrorKind::DupError),
        Token::Eq => stack_effect(state, after, after_eq(stack), ErrorKind::EqError),
        Token::Neq => stack_effect(state, after, after_neq(stack), ErrorKind::NeqError),
        Token::Pop => stack_effect(state, after, after_pop(stack), ErrorKind::PopError),
        Token::Swap => stack_effect(state, after, after_swap(stack), ErrorKind::SwapError),
        Token::Concat => stack_effect(state, after, after_concat(stack), ErrorKind::ConcatError),
        Token::InsertVector => stack_effect(
            state,
            after,
            after_insert_vector(stack),
            ErrorKind::InsertError,
        ),
        Token::Size => stack_effect(state, after, after_size(stack), ErrorKind::SizeError),
        Token::EmptyVector => empty_vector_effect(after, state),
        Token::Push => push_effect(source, after, state),
        Token::PushInt => push_int_effect(source, after, state),
        Token::PushBool => push_bool_effect(source, after, state),
        Token::PushStr => push_str_effect(source, after, state),
        Token::Index => index_effect(source, after, state),
        Token::Jump => jump_effect(source, after, state),
        Token::Jumpi => jumpi_effect(source, after, state),
        Token::LabelName => label_name_effect(text, after, state),
        Token::Label => label_effect(text, after, state),
        Token::Invalid => Err(invalid_token_error(text, state)),
        Token::Int | Token::Bool | Token::String | Token::Comment | Token::Log => Ok(
            (state, after),
        ),
    }
}

/// One step of a scan: what the lexer reports, and the machine after it.
///
/// The lexer reports the kind of the lexeme at its position, once the
/// lexeme's effect has taken place, or the error of that effect; the error
/// halts the machine and changes nothing else. At the end of the text, and
/// once halted, it reports nothing.
pub open spec fn step(m: Machine) -> (Option<Result<Token, ErrorModel>>, Machine) {
    let span = lexeme_at(m.source, m.position);
    if m.halted {
        (None, m)
    } else {
        match span.token {
            None => if span.start == span.end {
                (None, Machine { position: span.end, ..m })
            } else {
                (
                    Some(Err(invalid_token_error(span.text(m.source), m.state))),
                    Machine { halted: true, ..m },
                )
            },
            Some(token) => match effect(token, span, m.source, m.state) {
                Ok((state, position)) => (Some(Ok(token)), Machine { position, state, ..m }),
                Err(error) => (Some(Err(error)), Machine { halted: true, ..m }),
            },
        }
    }
}

/// What a call of [`Lexer::next`] reports.
pub open spec fn reported(r: Option<Result<Token, LexingError>>) -> Option<
    Result<Token, ErrorModel>,
> {
    match r {
        None => None,
        Some(Ok(token)) => Some(Ok(token)),
        Some(Err(error)) => Some(Err(error@)),
    }
}

/// A step that reports a lexeme leaves the machine behind that lexeme, and
/// within the text.
pub proof fn lemma_step_advances(m: Machine)
    requires
        0 <= m.position <= m.source.len(),
    ensures
        0 <= step(m).1.position <= m.source.len(),
        step(m).1.source == m.source,
        step(m).0 matches Some(Ok(_)) ==> m.position < step(m).1.position && !step(m).1.halted,
{
    let span = lexeme_at(m.source, m.position);
    lemma_lexeme_at(m.source, m.position);
    if !m.halted && span.token is Some {
        lemma_lexeme_at(m.source, span.end);
    }
}

/// The result of a scan that goes on from `m`: the stack at the end of the
/// text, or the first error.
pub open spec fn run_from(m: Machine) -> Result<Seq<ElementModel>, ErrorModel>
    decreases m.source.len() - m.position,
    when 0 <= m.position <= m.source.len()
    via run_from_decreases
{
    match step(m).0 {
        None => Ok(step(m).1.state.stack),
        Some(Err(error)) => Err(error),
        Some(Ok(_)) => run_from(step(m).1),
    }
}

#[via_fn]
proof fn run_from_decreases(m: Machine) {
    lemma_step_advances(m);
}

/// The result of the program `source`: the stack that it leaves, top first,
/// or the first error.
pub open spec fn result_of(source: Seq<char>) -> Result<Seq<ElementModel>, ErrorModel> {
    run_from(Machine::start(source))
}

/// The scanner and interpreter of a program. Each call of [`Lexer::next`]
/// takes one lexeme, with its operand if it has one, and applies it to the
/// evaluation state `extras`.
pub struct Lexer {
    source: Source,
    position: usize,
    halted: bool,
    pub extras: State,
}

impl View for Lexer {
    type V = Machine;

    closed spec fn view(&self) -> Machine {
        Machine {
            source: self.source@,
            position: self.position as int,
            halted: self.halted,
            state: self.extras@,
        }
    }
}

impl Lexer {
    /// A lexer at the start of the program `source`, with an empty stack.
    pub fn new(source: &str) -> (lexer: Self)
        ensures
            lexer@ == Machine::start(source@),
    {
        Lexer { source: Source::new(source), position: 0, halted: false, extras: State::default() }
    }

    /// The value stack, top first.
    pub fn stack(&self) -> (stack: &Stack)
        ensures
            stack.deep_view() == self@.state.stack,
    {
        &self.extras.stack
    }

    /// The characters of a lexeme.
    fn text_of(&self, lexeme: Lexeme) -> (text: String)
        ensures
            text@ == lexeme@.text(self@.source),
    {
        self.source.slice(lexeme.start, lexeme.end)
    }

    /// The integer that an integer literal writes, if the machine's integer
    /// holds it.
    fn integer_of(&self, lexeme: Lexeme) -> (n: Option<usize>)
        ensures
            n == int_value(lexeme@.text(self@.source)),
    {
        parse_decimal(self.source.chars(), lexeme.start, lexeme.end)
    }

    /// Whether a boolean literal is `true`.
    fn boolean_of(&self, lexeme: Lexeme) -> (b: bool)
        requires
            lexeme.start <= lexeme.end <= self@.source.len(),
        ensures
            b == (lexeme@.text(self@.source) == "true"@),
    {
        spells(self.source.chars(), lexeme.start, lexeme.end, "true")
    }

    /// The characters between the quotes of a string literal.
    fn contents_of(&self, lexeme: Lexeme) -> (text: String)
        requires
            lexeme.start + 2 <= lexeme.end <= self@.source.len(),
        ensures
            text@ == string_contents(lexeme@.text(self@.source)),
    {
        let text = self.source.slice(lexeme.start + 1, lexeme.end - 1);
        assert(text@ =~= string_contents(lexeme@.text(self@.source)));
        text
    }

    /// Puts an element on top of the stack and moves behind the lexeme that
    /// gave it.
    fn push_top(&mut self, el: StackEl, after: usize)
        ensures
            final(self)@ == (Machine {
                state: old(self)@.state.pushed(el@),
                position: after as int,
                ..old(self)@
            }),
    {
        let ghost before = self.extras.stack.deep_view();
        let ghost top = el@;
        self.extras.stack.insert(0, el);
        self.position = after;
        assert(self.extras.stack.deep_view() =~= seq![top] + before);
    }

    /// `PUSH`: reads the literal behind the instruction and puts it on the stack.
    fn op_push(&mut self, after: usize) -> (r: Result<(), LexingError>)
        requires
            after <= old(self)@.source.len(),
        ensures
            settles(
                old(self)@,
                r,
                final(self)@,
                push_effect(old(self)@.source, after as int, old(self)@.state),
            ),
    {
        if label_is_set(&self.extras.current_label) {
            self.position = after;
            return Ok(());
        }
        let operand = scan(self.source.chars(), after);
        proof {
            lemma_lexeme_text(self@.source, after as int);
        }
        match operand.token {
            Some(Token::Int) => match self.integer_of(operand) {
                Some(val) => {
                    self.push_top(StackEl::new(Token::Int, StackElValue::Int(val)), operand.end);
                    Ok(())
                },
                None => Err(LexingError::InvalidPush(self.text_of(operand))),
            },
            Some(Token::Bool) => {
                let val = self.boolean_of(operand);
                self.push_top(StackEl::new(Token::Bool, StackElValue::Bool(val)), operand.end);
                Ok(())
            },
            Some(Token::String) => {
                let str_value = self.contents_of(operand);
                self.push_top(
                    StackEl::new(Token::String, StackElValue::String(str_value)),
                    operand.end,
                );
                Ok(())
            },
            _ => Err(LexingError::InvalidPush(self.text_of(operand))),
        }
    }

    /// `PUSH_INT`: reads the integer literal behind the instruction and puts it on
    /// the stack.
    fn op_push_int(&mut self, after: usize) -> (r: Result<(), LexingError>)
        requires
            after <= old(self)@.source.len(),
        ensures
            settles(
                old(self)@,
                r,
                final(self)@,
                push_int_effect(old(self)@.source, after as int, old(self)@.state),
            ),
    {
        if label_is_set(&self.extras.current_label) {
            self.position = after;
            return Ok(());
        }
        let operand = scan(self.source.chars(), after);
        match operand.token {
            Some(Token::Int) => match self.integer_of(operand) {
                Some(val) => {
                    self.push_top(StackEl::new(Token::Int, StackElValue::Int(val)), operand.end);
                    Ok(())
                },
                None => Err(LexingError::InvalidInteger(self.text_of(operand))),
            },
            _ => Err(LexingError::InvalidInteger(self.text_of(operand))),
        }
    }

    /// `PUSH_STR`: reads the string literal behind the instruction and puts it on
    /// the stack.
    fn op_push_str(&mut self, after: usize) -> (r: Result<(), LexingError>)
        requires
            after <= old(self)@.source.len(),
        ensures
            settles(
                old(self)@,
                r,
                final(self)@,
                push_str_effect(old(self)@.source, after as int, old(self)@.state),
            ),
    {
        if label_is_set(&self.extras.current_label) {
            self.position = after;
            return Ok(());
        }
        let operand = scan(self.source.chars(), after);
        proof {
            lemma_lexeme_text(self@.source, after as int);
        }
        match operand.token {
            Some(Token::String) => {
                let str_value = self.contents_of(operand);
                self.push_top(
                    StackEl::new(Token::String, StackElValue::String(str_value)),
                    operand.end,
                );
                Ok(())
            },
            _ => Err(LexingError::InvalidString(self.text_of(operand))),
        }
    }

    /// `PUSH_BOOL`: reads the boolean literal behind the instruction and puts it
    /// on the stack.
    fn op_push_bool(&mut self, after: usize) -> (r: Result<(), LexingError>)
        requires
            after <= old(self)@.source.len(),
        ensures
            settles(
                old(self)@,
                r,
                final(self)@,
                push_bool_effect(old(self)@.source, after as int, old(self)@.state),
            ),
    {
        if label_is_set(&self.extras.current_label) {
            self.position = after;
            return Ok(());
        }
        let operand = scan(self.source.chars(), after);
        match operand.token {
            Some(Token::Bool) => {
                let val = self.boolean_of(operand);
                self.push_top(StackEl::new(Token::Bool, StackElValue::Bool(val)), operand.end);
                Ok(())
            },
            _ => Err(LexingError::InvalidBool(self.text_of(operand))),
        }
    }

    /// `ADD`, unless instructions are skipped.
    fn op_add(&mut self, after: usize) -> (r: Result<(), LexingError>)
        ensures
            settles(
                old(self)@,
                r,
                final(self)@,
                stack_effect(
                    old(self)@.state,
                    after as int,
                    after_add(old(self)@.state.stack),
                    ErrorKind::AddError,
                ),
            ),
    {
        if label_is_set(&self.extras.current_label) {
            self.position = after;
            return Ok(());
        }
        match crate::stack::add(&self.extras.stack) {
            Ok(new_stack) => {
                self.extras.stack = new_stack;
                self.position = after;
                Ok(())
            },
            Err(err) => Err(LexingError::AddError(err)),
        }
    }

    /// `SUB`, unless instructions are skipped. Its errors are of the kind of
    /// `ADD`'s.
    fn op_sub(&mut self, after: usize) -> (r: Result<(), LexingError>)
        ensures
            settles(
                old(self)@,
                r,
                final(self)@,
                stack_effect(
                    old(self)@.state,
                    after as int,
                    after_sub(old(self)@.state.stack),
                    ErrorKind::AddError,
                ),
            ),
    {
        if label_is_set(&self.extras.current_label) {
            self.position = after;
            return Ok(());
        }
        match crate::stack::sub(&self.extras.stack) {
            Ok(new_stack) => {
                self.extras.stack = new_stack;
                self.position = after;
                Ok(())
            },
            Err(err) => Err(LexingError::AddError(err)),
        }
    }

    /// `MUL`, unless instructions are skipped. Its errors are of the kind of
    /// `ADD`'s.
    fn op_mul(&mut self, after: usize) -> (r: Result<(), LexingError>)
        ensures
            settles(
                old(self)@,
                r,
                final(self)@,
                stack_effect(
                    old(self)@.state,
                    after as int,
                    after_mul(old(self)@.state.stack),
                    ErrorKind::AddError,
                ),
            ),
    {
        if label_is_set(&self.extras.current_label) {
            self.position = after;
            return Ok(());
        }
        match crate::stack::mul(&self.extras.stack) {
            Ok(new_stack) => {
                self.extras.stack = new_stack;
                self.position = after;
                Ok(())
            },
            Err(err) => Err(LexingError::AddError(err)),
        }
    }

    /// `DUP`, unless instructions are skipped.
    fn op_dup(&mut self, after: usize) -> (r: Result<(), LexingError>)
        ensures
            settles(
                old(self)@,
                r,
                final(self)@,
                stack_effect(
                    old(self)@.state,
                    after as int,
                    after_dup(old(self)@.state.stack),
                    ErrorKind::DupError,
                ),
            ),
    {
        if label_is_set(&self.extras.current_label) {
            self.position = after;
            return Ok(());
        }
        match crate::stack::dup(&self.extras.stack) {
            Ok(new_stack) => {
                self.extras.stack = new_stack;
                self.position = after;
                Ok(())
            },
            Err(err) => Err(LexingError::DupError(err)),
        }
    }

    /// `EQ`, unless instructions are skipped.
    fn op_eq(&mut self, after: usize) -> (r: Result<(), LexingError>)
        ensures
            settles(
                old(self)@,
                r,
                final(self)@,
                stack_effect(
                    old(self)@.state,
                    after as int,
                    after_eq(old(self)@.state.stack),
                    ErrorKind::EqError,
                ),
            ),
    {
        if label_is_set(&self.extras.current_label) {
            self.position = after;
            return Ok(());
        }
        match crate::stack::eq(&self.extras.stack) {
            Ok(new_stack) => {
                self.extras.stack = new_stack;
                self.position = after;
                Ok(())
            },
            Err(err) => Err(LexingError::EqError(err)),
        }
    }

    /// `NEQ`, unless instructions are skipped.
    fn op_neq(&mut self, after: usize) -> (r: Result<(), LexingError>)
        ensures
            settles(
                old(self)@,
                r,
                final(self)@,
                stack_effect(
                    old(self)@.state,
                    after as int,
                    after_neq(old(self)@.state.stack),
                    ErrorKind::NeqError,
                ),
            ),
    {
        if label_is_set(&self.extras.current_label) {
            self.position = after;
            return Ok(());
        }
        match crate::stack::neq(&self.extras.stack) {
            Ok(new_stack) => {
                self.extras.stack = new_stack;
                self.position = after;
                Ok(())
            },
            Err(err) => Err(LexingError::NeqError(err)),
        }
    }

    /// `POP`, unless instructions are skipped.
    fn op_pop(&mut self, after: usize) -> (r: Result<(), LexingError>)
        ensures
            settles(
                old(self)@,
                r,
                final(self)@,
                stack_effect(
                    old(self)@.state,
                    after as int,
                    after_pop(old(self)@.state.stack),
                    ErrorKind::PopError,
                ),
            ),
    {
        if label_is_set(&self.extras.current_label) {
            self.position = after;
            return Ok(());
        }
        match crate::stack::pop(&self.extras.stack) {
            Ok(new_stack) => {
                self.extras.stack = new_stack;
                self.position = after;
                Ok(())
            },
            Err(err) => Err(LexingError::PopError(err)),
        }
    }

    /// `SWAP`, unless instructions are skipped.
    fn op_swap(&mut self, after: usize) -> (r: Result<(), LexingError>)
        ensures
            settles(
                old(self)@,
                r,
                final(self)@,
                stack_effect(
                    old(self)@.state,
                    after as int,
                    after_swap(old(self)@.state.stack),
                    ErrorKind::SwapError,
                ),
            ),
    {
        if label_is_set(&self.extras.current_label) {
            self.position = after;
            return Ok(());
        }
        match crate::stack::swap(&mut self.extras.stack) {
            Ok(new_stack) => {
                self.extras.stack = new_stack;
                self.position = after;
                Ok(())
            },
            Err(err) => Err(LexingError::SwapError(err)),
        }
    }

    /// `CONCAT`, unless instructions are skipped.
    fn op_concat(&mut self, after: usize) -> (r: Result<(), LexingError>)
        ensures
            settles(
                old(self)@,
                r,
                final(self)@,
                stack_effect(
                    old(self)@.state,
                    after as int,
                    after_concat(old(self)@.state.stack),
                    ErrorKind::ConcatError,
                ),
            ),
    {
        if label_is_set(&self.extras.current_label) {
            self.position = after;
            return Ok(());
        }
        match crate::stack::concat(&mut self.extras.stack) {
            Ok(new_stack) => {
                self.extras.stack = new_stack;
                self.position = after;
                Ok(())
            },
            Err(err) => Err(LexingError::ConcatError(err)),
        }
    }

    /// Moves behind a jump that is skipped, and behind the name of a label
    /// that is its operand.
    fn skip_jump(&mut self, operand: Lexeme, after: usize)
        requires
            operand@ == lexeme_at(old(self)@.source, after as int),
        ensures
            final(self)@ == (Machine {
                position: behind_skipped_jump(old(self)@.source, after as int),
                ..old(self)@
            }),
    {
        match operand.token {
            Some(Token::LabelName) => {
                self.position = operand.end;
            },
            _ => {
                self.position = after;
            },
        }
    }

    /// `JUMP`: reads the name of the label behind the instruction and starts to
    /// skip instructions until that label is declared.
    fn op_jump(&mut self, after: usize) -> (r: Result<(), LexingError>)
        requires
            after <= old(self)@.source.len(),
        ensures
            settles(
                old(self)@,
                r,
                final(self)@,
                jump_effect(old(self)@.source, after as int, old(self)@.state),
            ),
    {
        let operand = scan(self.source.chars(), after);
        if label_is_set(&self.extras.current_label) {
            self.skip_jump(operand, after);
            return Ok(());
        }
        match operand.token {
            Some(Token::LabelName) => {
                let label = self.text_of(operand);
                self.extras.prev_op = Token::Invalid;
                self.extras.current_label = Some(label);
                self.position = operand.end;
                Ok(())
            },
            _ => Err(LexingError::InvalidLabel(self.text_of(operand))),
        }
    }

    /// The name of a label that stands by itself: accepted only where the state
    /// says that a jump came before it.
    fn check_label_name(&mut self, lexeme: Lexeme) -> (r: Result<(), LexingError>)
        ensures
            settles(
                old(self)@,
                r,
                final(self)@,
                label_name_effect(
                    lexeme@.text(old(self)@.source),
                    lexeme.end as int,
                    old(self)@.state,
                ),
            ),
    {
        match self.extras.prev_op {
            Token::Jump | Token::Jumpi => {
                self.extras.prev_op = Token::Invalid;
                self.position = lexeme.end;
                Ok(())
            },
            _ => Err(LexingError::InvalidOpcode(self.text_of(lexeme))),
        }
    }

    /// The declaration of a label: ends the skipping where it names the label
    /// that the pending jump is looking for.
    fn declare_label(&mut self, lexeme: Lexeme) -> (r: Result<(), LexingError>)
        requires
            lexeme.start < lexeme.end <= old(self)@.source.len(),
        ensures
            settles(
                old(self)@,
                r,
                final(self)@,
                label_effect(lexeme@.text(old(self)@.source), lexeme.end as int, old(self)@.state),
            ),
    {
        let same = match &self.extras.current_label {
            None => {
                return Err(LexingError::UnsetLabel(self.text_of(lexeme)));
            },
            Some(current_label) => {
                let label = self.source.slice(lexeme.start, lexeme.end - 1);
                assert(label@ =~= lexeme@.text(self@.source).drop_last());
                label == *current_label
            },
        };
        if same {
            self.extras.current_label = None;
        }
        self.position = lexeme.end;
        Ok(())
    }

    /// The error for characters that make no lexeme of the language.
    fn invalid_token(&self, lexeme: Lexeme) -> (error: LexingError)
        ensures
            error@ == invalid_token_error(lexeme@.text(self@.source), self@.state),
    {
        if self.extras.prev_op == Token::Jump {
            LexingError::InvalidLabel(self.text_of(lexeme))
        } else {
            LexingError::InvalidToken(self.text_of(lexeme))
        }
    }

    /// `JUMPI`: takes the boolean off the stack and, where it is true, jumps as
    /// `JUMP` does.
    fn op_jumpi(&mut self, after: usize) -> (r: Result<(), LexingError>)
        requires
            after <= old(self)@.source.len(),
        ensures
            settles(
                old(self)@,
                r,
                final(self)@,
                jumpi_effect(old(self)@.source, after as int, old(self)@.state),
            ),
    {
        let operand = scan(self.source.chars(), after);
        if label_is_set(&self.extras.current_label) {
            self.skip_jump(operand, after);
            return Ok(());
        }
        if self.extras.stack.len() < 1 {
            return Err(
                LexingError::JumpiError(String::from_str("Stack must be at least 1 element deep")),
            );
        }
        let jump = match &self.extras.stack[0].value {
            StackElValue::Bool(condition) => *condition,
            _ => {
                return Err(
                    LexingError::JumpiError(
                        String::from_str("Top element must be a boolean value"),
                    ),
                );
            },
        };
        match operand.token {
            Some(Token::LabelName) => {
                if jump {
                    let label = self.text_of(operand);
                    self.extras.current_label = Some(label);
                }
                let ghost before = self.extras.stack.deep_view();
                self.extras.stack.remove(0);
                assert(self.extras.stack.deep_view() =~= before.skip(1));
                self.extras.prev_op = Token::Invalid;
                self.position = operand.end;
                Ok(())
            },
            _ => Err(LexingError::InvalidLabel(self.text_of(operand))),
        }
    }

    /// `EMPTY_VECTOR`, unless instructions are skipped.
    fn op_empty_vector(&mut self, after: usize) -> (r: Result<(), LexingError>)
        ensures
            settles(
                old(self)@,
                r,
                final(self)@,
                empty_vector_effect(after as int, old(self)@.state),
            ),
    {
        if label_is_set(&self.extras.current_label) {
            self.position = after;
            return Ok(());
        }
        let new_value = StackEl::new(Token::EmptyVector, StackElValue::Vector(LifoVector::new()));
        self.push_top(new_value, after);
        Ok(())
    }

    /// `INSERT`, unless instructions are skipped.
    fn op_insert_vector(&mut self, after: usize) -> (r: Result<(), LexingError>)
        ensures
            settles(
                old(self)@,
                r,
                final(self)@,
                stack_effect(
                    old(self)@.state,
                    after as int,
                    after_insert_vector(old(self)@.state.stack),
                    ErrorKind::InsertError,
                ),
            ),
    {
        if label_is_set(&self.extras.current_label) {
            self.position = after;
            return Ok(());
        }
        match crate::stack::insert_vector(&mut self.extras.stack) {
            Ok(new_stack) => {
                self.extras.stack = new_stack;
                self.position = after;
                Ok(())
            },
            Err(err) => Err(LexingError::InsertError(err)),
        }
    }

    /// `SIZE`, unless instructions are skipped.
    fn op_size(&mut self, after: usize) -> (r: Result<(), LexingError>)
        ensures
            settles(
                old(self)@,
                r,
                final(self)@,
                stack_effect(
                    old(self)@.state,
                    after as int,
                    after_size(old(self)@.state.stack),
                    ErrorKind::SizeError,
                ),
            ),
    {
        if label_is_set(&self.extras.current_label) {
            self.position = after;
            return Ok(());
        }
        match crate::stack::size(&self.extras.stack) {
            Ok(new_stack) => {
                self.extras.stack = new_stack;
                self.position = after;
                Ok(())
            },
            Err(err) => Err(LexingError::SizeError(err)),
        }
    }

    /// `INDEX`: reads the integer literal behind the instruction and replaces
    /// the top of the stack by its item at that position.
    fn op_index(&mut self, after: usize) -> (r: Result<(), LexingError>)
        requires
            after <= old(self)@.source.len(),
        ensures
            settles(
                old(self)@,
                r,
                final(self)@,
                index_effect(old(self)@.source, after as int, old(self)@.state),
            ),
    {
        if label_is_set(&self.extras.current_label) {
            self.position = after;
            return Ok(());
        }
        let operand = scan(self.source.chars(), after);
        match operand.token {
            Some(Token::Int) => match self.integer_of(operand) {
                Some(val) => match crate::stack::index(&self.extras.stack, val) {
                    Ok(new_stack) => {
                        self.extras.stack = new_stack;
                        self.position = operand.end;
                        Ok(())
                    },
                    Err(err) => Err(LexingError::IndexError(err)),
                },
                None => Err(LexingError::InvalidInteger(self.text_of(operand))),
            },
            _ => Err(LexingError::InvalidInteger(self.text_of(operand))),
        }
    }

    /// `LOG` changes nothing: the caller that sees it reported shows the
    /// stack.
    fn op_log(&mut self, after: usize) -> (r: Result<(), LexingError>)
        ensures
            r is Ok,
            final(self)@ == (Machine { position: after as int, ..old(self)@ }),
    {
        self.position = after;
        Ok(())
    }

    /// Takes the next lexeme of the program, with its operand if it has one,
    /// and applies it to the evaluation state.
    ///
    /// Reports the kind of the lexeme, or the error that ends the scan: from
    /// then on, and at the end of the text, it reports `None`. `LOG` is
    /// reported like any other instruction and left to the caller.
    pub fn next(&mut self) -> (r: Option<Result<Token, LexingError>>)
        ensures
            reported(r) == step(old(self)@).0,
            final(self)@ == step(old(self)@).1,
    {
        if self.halted {
            return None;
        }
        let lexeme = scan(self.source.chars(), self.position);
        let token = match lexeme.token {
            None => {
                if lexeme.start == lexeme.end {
                    self.position = lexeme.end;
                    return None;
                }
                let error = self.invalid_token(lexeme);
                self.halted = true;
                return Some(Err(error));
            },
            Some(token) => token,
        };
        let after = lexeme.end;
        let r = match token {
            Token::Add => self.op_add(after),
            Token::Sub => self.op_sub(after),
            Token::Mul => self.op_mul(after),
            Token::Push => self.op_push(after),
            Token::PushInt => self.op_push_int(after),
            Token::PushBool => self.op_push_bool(after),
            Token::PushStr => self.op_push_str(after),
            Token::Dup => self.op_dup(after),
            Token::Eq => self.op_eq(after),
            Token::Neq => self.op_neq(after),
            Token::Pop => self.op_pop(after),
            Token::Swap => self.op_swap(after),
            Token::Concat => self.op_concat(after),
            Token::Jump => self.op_jump(after),
            Token::Jumpi => self.op_jumpi(after),
            Token::EmptyVector => self.op_empty_vector(after),
            Token::InsertVector => self.op_insert_vector(after),
            Token::Size => self.op_size(after),
            Token::Index => self.op_index(after),
            Token::Log => self.op_log(after),
            Token::LabelName => self.check_label_name(lexeme),
            Token::Label => self.declare_label(lexeme),
            Token::Invalid => Err(self.invalid_token(lexeme)),
            Token::Int | Token::Bool | Token::String | Token::Comment => {
                self.position = after;
                Ok(())
            },
        };
        match r {
            Ok(()) => Some(Ok(token)),
            Err(error) => {
                self.halted = true;
                Some(Err(error))
            },
        }
    }
}

/// Whether a handler did what `effect` says: on success the machine holds
/// the new state and position, on an error it is as it was.
spec fn settles(before: Machine, r: Result<(), LexingError>, after: Machine, effect: Effect) -> bool {
    match r {
        Ok(()) => effect matches Ok(pair) && after == (Machine {
            state: pair.0,
            position: pair.1,
            ..before
        }),
        Err(error) => effect == Err::<(StateModel, int), ErrorModel>(error@) && after == before,
    }
}

/// What the result of [`run`] holds.
pub open spec fn run_outcome(r: Result<Stack, LexingError>) -> Result<
    Seq<ElementModel>,
    ErrorModel,
> {
    match r {
        Ok(stack) => Ok(stack.deep_view()),
        Err(error) => Err(error@),
    }
}

/// Runs the program `source` and returns the stack that it leaves, top
/// first, or the first error.
///
/// A jump whose label is never declared skips the rest of the program, which
/// is no error.
pub fn run(source: &str) -> (r: Result<Stack, LexingError>)
    ensures
        run_outcome(r) == result_of(source@),
{
    let mut lexer = Lexer::new(source);
    loop
        invariant
            lexer@.source == source@,
            0 <= lexer@.position <= source@.len(),
            run_from(lexer@) == result_of(source@),
        decreases source@.len() - lexer@.position,
    {
        proof {
            lemma_step_advances(lexer@);
        }
        match lexer.next() {
            None => {
                return Ok(lexer.extras.stack);
            },
            Some(Err(error)) => {
                return Err(error);
            },
            Some(Ok(_)) => {},
        }
    }
}

} // verus!

use vstd::prelude::*;
use crate::grammar::{lexeme_at, Span};
use crate::text::int_value;
use crate::lexer::{
    effect, step, ErrorKind, ErrorModel, Machine, StateModel, Token,
};
use crate::stack::{
    after_add, after_concat, after_dup, after_eq, after_index, after_insert_vector, after_mul,
    after_neq, after_pop, after_size, after_sub, after_swap, needs_one, needs_two, same_type,
    size_of, type_text, ElementModel, ValueModel, VectorModel,
};

verus! {

/// Inserting a value that a vector accepts makes the vector one item longer,
/// and its size, as `SIZE` gives it, one larger.
pub proof fn law_insert_adds_one(vector: VectorModel, el: ValueModel)
    requires
        vector.accepts(el),
    ensures
        vector.insert(el) is Ok,
        vector.insert(el)->Ok_0.len() == vector.len() + 1,
        size_of(ValueModel::Vector(vector.insert(el)->Ok_0)) == Ok::<nat, Seq<char>>(
            vector.len() + 1,
        ),
{
}

/// A vector refuses exactly the values that it does not accept, and is then
/// not changed: there is no vector to come out.
pub proof fn law_insert_refuses(vector: VectorModel, el: ValueModel)
    ensures
        vector.insert(el) is Ok <==> vector.accepts(el),
        !vector.accepts(el) ==> vector.insert(el) == Err::<VectorModel, Seq<char>>(
            vector.refusal(el),
        ),
{
}

/// `DUP` on a stack `[x, ...]` gives `[x, x, ...]`.
pub proof fn law_dup_repeats_top(s: Seq<ElementModel>)
    requires
        s.len() >= 1,
    ensures
        after_dup(s) is Ok,
        after_dup(s)->Ok_0.len() == s.len() + 1,
        after_dup(s)->Ok_0[0] == s[0],
        after_dup(s)->Ok_0[1] == s[0],
        after_dup(s)->Ok_0.skip(1) == s,
{
    assert(after_dup(s)->Ok_0.skip(1) =~= s);
}

/// `POP` undoes `DUP`.
pub proof fn law_pop_undoes_dup(s: Seq<ElementModel>)
    requires
        s.len() >= 1,
    ensures
        after_dup(s) is Ok,
        after_pop(after_dup(s)->Ok_0) == Ok::<Seq<ElementModel>, Seq<char>>(s),
{
    assert(after_dup(s)->Ok_0.skip(1) =~= s);
}

/// `SWAP` on a stack `[a, b, ...]` gives `[b, a, ...]`.
pub proof fn law_swap_exchanges_top(s: Seq<ElementModel>)
    requires
        s.len() >= 2,
    ensures
        after_swap(s) is Ok,
        after_swap(s)->Ok_0.len() == s.len(),
        after_swap(s)->Ok_0[0] == s[1],
        after_swap(s)->Ok_0[1] == s[0],
        after_swap(s)->Ok_0.skip(2) == s.skip(2),
{
    assert(after_swap(s)->Ok_0.skip(2) =~= s.skip(2));
}

/// `SWAP` twice gives the stack back.
pub proof fn law_swap_twice(s: Seq<ElementModel>)
    requires
        s.len() >= 2,
    ensures
        after_swap(s) is Ok,
        after_swap(after_swap(s)->Ok_0) == Ok::<Seq<ElementModel>, Seq<char>>(s),
{
    let once = after_swap(s)->Ok_0;
    assert(once.skip(2) =~= s.skip(2));
    assert(seq![once[1], once[0]] + once.skip(2) =~= s);
}

/// Each operation on the stack fails on a stack that holds fewer elements
/// than it takes, and the error says how many it takes.
pub proof fn law_shallow_stack_fails(s: Seq<ElementModel>, position: usize)
    ensures
        s.len() < 2 ==> {
            &&& after_add(s) == Err::<Seq<ElementModel>, Seq<char>>(needs_two())
            &&& after_sub(s) == Err::<Seq<ElementModel>, Seq<char>>(needs_two())
            &&& after_mul(s) == Err::<Seq<ElementModel>, Seq<char>>(needs_two())
            &&& after_eq(s) == Err::<Seq<ElementModel>, Seq<char>>(needs_two())
            &&& after_neq(s) == Err::<Seq<ElementModel>, Seq<char>>(needs_two())
            &&& after_swap(s) == Err::<Seq<ElementModel>, Seq<char>>(needs_two())
            &&& after_concat(s) == Err::<Seq<ElementModel>, Seq<char>>(needs_two())
            &&& after_insert_vector(s) == Err::<Seq<ElementModel>, Seq<char>>(needs_two())
        },
        s.len() < 1 ==> {
            &&& after_dup(s) == Err::<Seq<ElementModel>, Seq<char>>(needs_one())
            &&& after_pop(s) == Err::<Seq<ElementModel>, Seq<char>>(needs_one())
            &&& after_size(s) == Err::<Seq<ElementModel>, Seq<char>>(needs_one())
            &&& after_index(s, position) == Err::<Seq<ElementModel>, Seq<char>>(needs_one())
        },
{
}

/// The number of elements that an instruction takes from the stack.
pub open spec fn arity(token: Token) -> nat {
    match token {
        Token::Add | Token::Sub | Token::Mul | Token::Eq | Token::Neq | Token::Swap
        | Token::Concat | Token::InsertVector => 2,
        Token::Dup | Token::Pop | Token::Size | Token::Index | Token::Jumpi => 1,
        _ => 0,
    }
}

/// The kind of the error with which an instruction fails.
pub open spec fn failure_kind(token: Token) -> ErrorKind {
    match token {
        Token::Add | Token::Sub | Token::Mul => ErrorKind::AddError,
        Token::Dup => ErrorKind::DupError,
        Token::Eq => ErrorKind::EqError,
        Token::Neq => ErrorKind::NeqError,
        Token::Pop => ErrorKind::PopError,
        Token::Swap => ErrorKind::SwapError,
        Token::Concat => ErrorKind::ConcatError,
        Token::InsertVector => ErrorKind::InsertError,
        Token::Size => ErrorKind::SizeError,
        Token::Index => ErrorKind::IndexError,
        Token::Jumpi => ErrorKind::JumpiError,
        _ => ErrorKind::InvalidToken,
    }
}

/// An instruction that is carried out on a stack of fewer elements than it
/// takes fails with the error of its kind, which says how many it takes.
///
/// An instruction is carried out unless a jump is looking for its label.
/// `INDEX` is an instruction once an integer literal that the machine's
/// integer holds follows it.
pub proof fn law_arity(token: Token, span: Span, source: Seq<char>, state: StateModel)
    requires
        state.stack.len() < arity(token),
        state.label is None,
        token == Token::Index ==> {
            &&& lexeme_at(source, span.end).token == Some(Token::Int)
            &&& int_value(lexeme_at(source, span.end).text(source)) is Some
        },
    ensures
        effect(token, span, source, state) == Err::<(StateModel, int), ErrorModel>(
            ErrorModel {
                kind: failure_kind(token),
                detail: if arity(token) == 1 {
                    needs_one()
                } else {
                    needs_two()
                },
            },
        ),
{
}

/// While a jump is looking for its label, no lexeme changes the stack.
pub proof fn law_skipping_keeps_stack(
    token: Token,
    span: Span,
    source: Seq<char>,
    state: StateModel,
)
    requires
        state.label is Some,
    ensures
        effect(token, span, source, state) matches Ok(pair) ==> pair.0.stack == state.stack,
{
}

/// While a jump is looking for its label, every instruction, literal and
/// comment is skipped: it does not fail, whatever the stack holds, and it
/// leaves the state as it is. Only the declaration of a label can end the
/// skipping, and only a lexeme that is none of these can fail.
pub proof fn law_skipping_skips(token: Token, span: Span, source: Seq<char>, state: StateModel)
    requires
        state.label is Some,
        token != Token::LabelName,
        token != Token::Label,
        token != Token::Invalid,
    ensures
        effect(token, span, source, state) is Ok,
        effect(token, span, source, state)->Ok_0.0 == state,
{
}

/// An error halts the machine and changes nothing else in it: no instruction
/// is carried out in part.
pub proof fn law_error_changes_nothing(m: Machine)
    requires
        step(m).0 matches Some(Err(_)),
    ensures
        step(m).1 == (Machine { halted: true, ..m }),
{
}

/// A halted machine reports nothing and stays as it is.
pub proof fn law_halted_stays(m: Machine)
    requires
        m.halted,
    ensures
        step(m).0 is None,
        step(m).1 == m,
{
}

/// The names of the four types tell them apart.
pub proof fn law_type_text_tells_types(a: ValueModel, b: ValueModel)
    ensures
        (type_text(a) == type_text(b)) == same_type(a, b),
{
    reveal_strlit("bool");
    reveal_strlit("int");
    reveal_strlit("string");
    reveal_strlit("vector");
    if !same_type(a, b) {
        assert(type_text(a).len() != type_text(b).len() || type_text(a)[0] != type_text(b)[0]);
    }
}

} // verus!

use vstd::prelude::*;
use vstd::string::StringExecFns;
use vstd::string::StrSliceExecFns;
use crate::lexer::Token;

verus! {

/// What a [`LifoVector`] holds: nothing yet, or the items of its one element
/// type in the order of insertion.
pub enum VectorModel {
    Empty,
    Ints(Seq<usize>),
    Bools(Seq<bool>),
    Strings(Seq<Seq<char>>),
}

/// What a [`StackElValue`] holds.
pub enum ValueModel {
    Int(usize),
    String(Seq<char>),
    Bool(bool),
    Vector(VectorModel),
}

/// What a [`StackEl`] holds: the kind of lexeme that produced it, and its value.
pub struct ElementModel {
    pub token: Token,
    pub value: ValueModel,
}

/// A vector whose first insertion fixes the type of its elements.
#[derive(Debug, Clone, PartialEq)]
pub enum LifoVector {
    EmptyVector,
    VectorOfInt(Vec<usize>),
    VectorOfBool(Vec<bool>),
    VectorOfString(Vec<String>),
}

/// A value of the language.
#[derive(Debug, Clone, PartialEq)]
pub enum StackElValue {
    Int(usize),
    String(String),
    Bool(bool),
    Vector(LifoVector),
}

/// An element of the stack.
#[derive(Debug, Clone, PartialEq)]
pub struct StackEl {
    pub token: Token,
    pub value: StackElValue,
}

/// The value stack. Index 0 is the top.
pub type Stack = Vec<StackEl>;

impl View for LifoVector {
    type V = VectorModel;

    open spec fn view(&self) -> VectorModel {
        match self {
            LifoVector::EmptyVector => VectorModel::Empty,
            LifoVector::VectorOfInt(v) => VectorModel::Ints(v@),
            LifoVector::VectorOfBool(v) => VectorModel::Bools(v@),
            LifoVector::VectorOfString(v) => VectorModel::Strings(v.deep_view()),
        }
    }
}

impl DeepView for LifoVector {
    type V = VectorModel;

    open spec fn deep_view(&self) -> VectorModel {
        self.view()
    }
}

impl View for StackElValue {
    type V = ValueModel;

    open spec fn view(&self) -> ValueModel {
        match self {
            StackElValue::Int(n) => ValueModel::Int(*n),
            StackElValue::String(s) => ValueModel::String(s@),
            StackElValue::Bool(b) => ValueModel::Bool(*b),
            StackElValue::Vector(v) => ValueModel::Vector(v@),
        }
    }
}

impl DeepView for StackElValue {
    type V = ValueModel;

    open spec fn deep_view(&self) -> ValueModel {
        self.view()
    }
}

impl View for StackEl {
    type V = ElementModel;

    open spec fn view(&self) -> ElementModel {
        ElementModel { token: self.token, value: self.value@ }
    }
}

impl DeepView for StackEl {
    type V = ElementModel;

    open spec fn deep_view(&self) -> ElementModel {
        self.view()
    }
}

/// The name of the type of a value, as error messages write it.
pub open spec fn type_text(v: ValueModel) -> Seq<char> {
    match v {
        ValueModel::Bool(_) => "bool"@,
        ValueModel::Int(_) => "int"@,
        ValueModel::String(_) => "string"@,
        ValueModel::Vector(_) => "vector"@,
    }
}

/// Whether two values are of the same one of the four types.
pub open spec fn same_type(a: ValueModel, b: ValueModel) -> bool {
    ||| a is Bool && b is Bool
    ||| a is Int && b is Int
    ||| a is String && b is String
    ||| a is Vector && b is Vector
}

impl VectorModel {
    /// The number of items.
    pub open spec fn len(self) -> nat {
        match self {
            VectorModel::Empty => 0,
            VectorModel::Ints(v) => v.len(),
            VectorModel::Bools(v) => v.len(),
            VectorModel::Strings(v) => v.len(),
        }
    }

    /// The name of the element type, as error messages write it.
    pub open spec fn element_type_text(self) -> Seq<char> {
        match self {
            VectorModel::Empty => "unknown"@,
            VectorModel::Bools(_) => "bool"@,
            VectorModel::Ints(_) => "int"@,
            VectorModel::Strings(_) => "string"@,
        }
    }

    /// Whether `el` can be inserted: it is an integer, a boolean or a string,
    /// and the vector is empty or holds items of that type.
    pub open spec fn accepts(self, el: ValueModel) -> bool {
        match self {
            VectorModel::Empty => el is Int || el is Bool || el is String,
            VectorModel::Ints(_) => el is Int,
            VectorModel::Bools(_) => el is Bool,
            VectorModel::Strings(_) => el is String,
        }
    }

    /// The message of the error that refuses `el`.
    pub open spec fn refusal(self, el: ValueModel) -> Seq<char> {
        "Cannot insert value of type "@ + type_text(el) + " into vector of type vector<"@
            + self.element_type_text() + ">"@
    }

    /// The vector with `el` inserted after its items, or the refusal.
    pub open spec fn insert(self, el: ValueModel) -> Result<VectorModel, Seq<char>> {
        match (self, el) {
            (VectorModel::Empty, ValueModel::Int(n)) => Ok(VectorModel::Ints(seq![n])),
            (VectorModel::Empty, ValueModel::Bool(b)) => Ok(VectorModel::Bools(seq![b])),
            (VectorModel::Empty, ValueModel::String(s)) => Ok(VectorModel::Strings(seq![s])),
            (VectorModel::Ints(v), ValueModel::Int(n)) => Ok(VectorModel::Ints(v.push(n))),
            (VectorModel::Bools(v), ValueModel::Bool(b)) => Ok(VectorModel::Bools(v.push(b))),
            (VectorModel::Strings(v), ValueModel::String(s)) => Ok(VectorModel::Strings(v.push(s))),
            _ => Err(self.refusal(el)),
        }
    }
}

/// What a result of [`LifoVector::insert`] holds.
pub open spec fn vector_outcome(r: Result<LifoVector, String>) -> Result<VectorModel, Seq<char>> {
    match r {
        Ok(v) => Ok(v@),
        Err(e) => Err(e@),
    }
}

impl LifoVector {
    /// The empty vector, whose element type is still open.
    pub fn new() -> (v: Self)
        ensures
            v@ == VectorModel::Empty,
    {
        LifoVector::EmptyVector
    }

    /// Inserts `el` after the items of the vector. The first insertion fixes
    /// the element type; a value of another type is refused, and so is a
    /// vector.
    pub fn insert(self, el: StackElValue) -> (r: Result<Self, String>)
        ensures
            vector_outcome(r) == self@.insert(el@),
            r is Ok <==> self@.accepts(el@),
            r matches Ok(grown) ==> grown@.len() == self@.len() + 1,
    {
        match self {
            LifoVector::EmptyVector => match el {
                StackElValue::Int(val) => {
                    let mut vector: Vec<usize> = Vec::new();
                    vector.push(val);
                    assert(vector@ =~= seq![val]);
                    Ok(LifoVector::VectorOfInt(vector))
                },
                StackElValue::Bool(val) => {
                    let mut vector: Vec<bool> = Vec::new();
                    vector.push(val);
                    assert(vector@ =~= seq![val]);
                    Ok(LifoVector::VectorOfBool(vector))
                },
                StackElValue::String(val) => {
                    let mut vector: Vec<String> = Vec::new();
                    let ghost text = val@;
                    vector.push(val);
                    assert(vector.deep_view() =~= seq![text]);
                    Ok(LifoVector::VectorOfString(vector))
                },
                StackElValue::Vector(inner) => Err(
                    refusal_message(&LifoVector::EmptyVector, &StackElValue::Vector(inner)),
                ),
            },
            LifoVector::VectorOfInt(mut vector) => match el {
                StackElValue::Int(val) => {
                    vector.push(val);
                    Ok(LifoVector::VectorOfInt(vector))
                },
                other => Err(refusal_message(&LifoVector::VectorOfInt(vector), &other)),
            },
            LifoVector::VectorOfBool(mut vector) => match el {
                StackElValue::Bool(val) => {
                    vector.push(val);
                    Ok(LifoVector::VectorOfBool(vector))
                },
                other => Err(refusal_message(&LifoVector::VectorOfBool(vector), &other)),
            },
            LifoVector::VectorOfString(mut vector) => match el {
                StackElValue::String(val) => {
                    let ghost before = vector.deep_view();
                    let ghost text = val@;
                    vector.push(val);
                    assert(vector.deep_view() =~= before.push(text));
                    Ok(LifoVector::VectorOfString(vector))
                },
                other => Err(refusal_message(&LifoVector::VectorOfString(vector), &other)),
            },
        }
    }

    /// The number of items.
    pub fn len(&self) -> (n: usize)
        ensures
            n == self@.len(),
    {
        match self {
            LifoVector::EmptyVector => 0,
            LifoVector::VectorOfBool(vector) => vector.len(),
            LifoVector::VectorOfInt(vector) => vector.len(),
            LifoVector::VectorOfString(vector) => vector.len(),
        }
    }
}

fn refusal_message(vector: &LifoVector, el: &StackElValue) -> (message: String)
    ensures
        message@ == vector@.refusal(el@),
{
    let vector_type = match vector {
        LifoVector::EmptyVector => "unknown",
        LifoVector::VectorOfBool(_) => "bool",
        LifoVector::VectorOfInt(_) => "int",
        LifoVector::VectorOfString(_) => "string",
    };
    let mut message = String::from_str("Cannot insert value of type ");
    message.append(type_str(el));
    message.append(" into vector of type vector<");
    message.append(vector_type);
    message.append(">");
    message
}

fn type_str(value: &StackElValue) -> (name: &'static str)
    ensures
        name@ == type_text(value@),
{
    match value {
        StackElValue::Bool(_) => "bool",
        StackElValue::Int(_) => "int",
        StackElValue::String(_) => "string",
        StackElValue::Vector(_) => "vector",
    }
}

impl StackElValue {
    /// The name of the value's type: `int`, `bool`, `string` or `vector`.
    pub fn to_string(self) -> (name: String)
        ensures
            name@ == type_text(self@),
    {
        String::from_str(type_str(&self))
    }
}

/// The texts of the integers of a vector, each in decimal.
pub open spec fn int_texts(items: Seq<usize>) -> Seq<Seq<char>> {
    Seq::new(items.len(), |i: int| crate::text::decimal(items[i] as nat))
}

/// The texts of the booleans of a vector.
pub open spec fn bool_texts(items: Seq<bool>) -> Seq<Seq<char>> {
    Seq::new(items.len(), |i: int| crate::text::bool_text(items[i]))
}

/// The texts of the strings of a vector, each between quotes.
pub open spec fn string_texts(items: Seq<Seq<char>>) -> Seq<Seq<char>> {
    Seq::new(items.len(), |i: int| crate::text::debug_quoted(items[i]))
}

/// A vector written out: the name of its kind, then in brackets its items
/// with a comma and a space between each two.
pub open spec fn vector_text(v: VectorModel) -> Seq<char> {
    match v {
        VectorModel::Empty => "EmptyVector"@,
        VectorModel::Ints(items) => "VectorOfInt(["@ + crate::text::joined(
            int_texts(items),
            ", "@,
        ) + "])"@,
        VectorModel::Bools(items) => "VectorOfBool(["@ + crate::text::joined(
            bool_texts(items),
            ", "@,
        ) + "])"@,
        VectorModel::Strings(items) => "VectorOfString(["@ + crate::text::joined(
            string_texts(items),
            ", "@,
        ) + "])"@,
    }
}

/// A value written out, followed by a colon and the name of its type.
pub open spec fn value_text(v: ValueModel) -> Seq<char> {
    match v {
        ValueModel::Bool(b) => crate::text::bool_text(b) + " : bool"@,
        ValueModel::Int(n) => crate::text::decimal(n as nat) + " : int"@,
        ValueModel::String(t) => t + " : string"@,
        ValueModel::Vector(vector) => vector_text(vector) + " : vector"@,
    }
}

fn int_strings(items: &Vec<usize>) -> (texts: Vec<String>)
    ensures
        texts.deep_view() == int_texts(items@),
{
    let mut texts: Vec<String> = Vec::new();
    let mut i: usize = 0;
    while i < items.len()
        invariant
            i <= items.len(),
            texts.len() == i,
            forall|k: int| 0 <= k < i ==> texts[k]@ == crate::text::decimal(items[k] as nat),
        decreases items.len() - i,
    {
        texts.push(crate::text::decimal_string(items[i]));
        i = i + 1;
    }
    assert(texts.deep_view() =~= int_texts(items@));
    texts
}

fn bool_strings(items: &Vec<bool>) -> (texts: Vec<String>)
    ensures
        texts.deep_view() == bool_texts(items@),
{
    let mut texts: Vec<String> = Vec::new();
    let mut i: usize = 0;
    while i < items.len()
        invariant
            i <= items.len(),
            texts.len() == i,
            forall|k: int| 0 <= k < i ==> texts[k]@ == crate::text::bool_text(items[k]),
        decreases items.len() - i,
    {
        texts.push(crate::text::bool_string(items[i]));
        i = i + 1;
    }
    assert(texts.deep_view() =~= bool_texts(items@));
    texts
}

fn quoted_strings(items: &Vec<String>) -> (texts: Vec<String>)
    ensures
        texts.deep_view() == string_texts(items.deep_view()),
{
    let mut texts: Vec<String> = Vec::new();
    let mut i: usize = 0;
    while i < items.len()
        invariant
            i <= items.len(),
            texts.len() == i,
            forall|k: int| 0 <= k < i ==> texts[k]@ == crate::text::debug_quoted(items[k]@),
        decreases items.len() - i,
    {
        texts.push(crate::text::quote(items[i].as_str()));
        i = i + 1;
    }
    assert(texts.deep_view() =~= string_texts(items.deep_view()));
    texts
}

fn vector_string(vector: &LifoVector) -> (text: String)
    ensures
        text@ == vector_text(vector@),
{
    let (opening, items) = match vector {
        LifoVector::EmptyVector => {
            return String::from_str("EmptyVector");
        },
        LifoVector::VectorOfInt(items) => ("VectorOfInt([", int_strings(items)),
        LifoVector::VectorOfBool(items) => ("VectorOfBool([", bool_strings(items)),
        LifoVector::VectorOfString(items) => ("VectorOfString([", quoted_strings(items)),
    };
    let mut text = String::from_str(opening);
    text.append(crate::text::join(&items, ", ").as_str());
    text.append("])");
    text
}

impl StackEl {
    /// An element that holds `val`, produced by a lexeme of kind `tk`.
    pub fn new(tk: Token, val: StackElValue) -> (el: Self)
        ensures
            el.token == tk,
            el.value == val,
    {
        StackEl { token: tk, value: val }
    }

    /// Writes the element out for a reader: its value, a colon, and the name
    /// of the value's type. An integer stands in decimal, a text as it is, a
    /// vector with the name of its kind before its items.
    pub fn print(self) -> (text: String)
        ensures
            text@ == value_text(self@.value),
    {
        match &self.value {
            StackElValue::Bool(val) => {
                let mut text = crate::text::bool_string(*val);
                text.append(" : bool");
                text
            },
            StackElValue::Int(val) => {
                let mut text = crate::text::decimal_string(*val);
                text.append(" : int");
                text
            },
            StackElValue::String(val) => {
                let mut text = val.clone();
                text.append(" : string");
                text
            },
            StackElValue::Vector(val) => {
                let mut text = vector_string(val);
                text.append(" : vector");
                text
            },
        }
    }
}

/// A copy of a vector.
fn clone_vector(vector: &LifoVector) -> (copy: LifoVector)
    ensures
        copy@ == vector@,
{
    match vector {
        LifoVector::EmptyVector => LifoVector::EmptyVector,
        LifoVector::VectorOfInt(items) => {
            let copy = items.clone();
            assert(copy@ =~= items@);
            LifoVector::VectorOfInt(copy)
        },
        LifoVector::VectorOfBool(items) => {
            let copy = items.clone();
            assert(copy@ =~= items@);
            LifoVector::VectorOfBool(copy)
        },
        LifoVector::VectorOfString(items) => {
            let copy = items.clone();
            assert(copy.deep_view() =~= items.deep_view());
            LifoVector::VectorOfString(copy)
        },
    }
}

/// A copy of a value.
fn clone_value(value: &StackElValue) -> (copy: StackElValue)
    ensures
        copy@ == value@,
{
    match value {
        StackElValue::Int(n) => StackElValue::Int(*n),
        StackElValue::String(s) => StackElValue::String(s.clone()),
        StackElValue::Bool(b) => StackElValue::Bool(*b),
        StackElValue::Vector(v) => StackElValue::Vector(clone_vector(v)),
    }
}

/// A copy of an element.
fn clone_element(el: &StackEl) -> (copy: StackEl)
    ensures
        copy@ == el@,
{
    StackEl { token: el.token, value: clone_value(&el.value) }
}

/// Whether two vectors of strings hold the same strings in the same order.
fn strings_equal(a: &Vec<String>, b: &Vec<String>) -> (same: bool)
    ensures
        same == (a.deep_view() == b.deep_view()),
{
    if a.len() != b.len() {
        assert(a.deep_view().len() != b.deep_view().len());
        return false;
    }
    let mut i: usize = 0;
    while i < a.len()
        invariant
            i <= a.len() == b.len(),
            forall|k: int| 0 <= k < i ==> a[k]@ == b[k]@,
        decreases a.len() - i,
    {
        if a[i] != b[i] {
            assert(a.deep_view()[i as int] != b.deep_view()[i as int]);
            return false;
        }
        i = i + 1;
    }
    assert(a.deep_view() =~= b.deep_view());
    true
}

/// Whether two vectors of integers hold the same integers in the same order.
fn ints_equal(a: &Vec<usize>, b: &Vec<usize>) -> (same: bool)
    ensures
        same == (a@ == b@),
{
    if a.len() != b.len() {
        return false;
    }
    let mut i: usize = 0;
    while i < a.len()
        invariant
            i <= a.len() == b.len(),
            forall|k: int| 0 <= k < i ==> a[k] == b[k],
        decreases a.len() - i,
    {
        if a[i] != b[i] {
            return false;
        }
        i = i + 1;
    }
    assert(a@ =~= b@);
    true
}

/// Whether two vectors of booleans hold the same booleans in the same order.
fn bools_equal(a: &Vec<bool>, b: &Vec<bool>) -> (same: bool)
    ensures
        same == (a@ == b@),
{
    if a.len() != b.len() {
        return false;
    }
    let mut i: usize = 0;
    while i < a.len()
        invariant
            i <= a.len() == b.len(),
            forall|k: int| 0 <= k < i ==> a[k] == b[k],
        decreases a.len() - i,
    {
        if a[i] != b[i] {
            return false;
        }
        i = i + 1;
    }
    assert(a@ =~= b@);
    true
}

/// Whether two vectors are of the same element type and hold the same items.
fn vectors_equal(a: &LifoVector, b: &LifoVector) -> (same: bool)
    ensures
        same == (a@ == b@),
{
    match a {
        LifoVector::EmptyVector => match b {
            LifoVector::EmptyVector => true,
            _ => false,
        },
        LifoVector::VectorOfInt(x) => match b {
            LifoVector::VectorOfInt(y) => ints_equal(x, y),
            _ => false,
        },
        LifoVector::VectorOfBool(x) => match b {
            LifoVector::VectorOfBool(y) => bools_equal(x, y),
            _ => false,
        },
        LifoVector::VectorOfString(x) => match b {
            LifoVector::VectorOfString(y) => strings_equal(x, y),
            _ => false,
        },
    }
}

/// Whether two values are of the same type and hold the same contents.
fn values_equal(a: &StackElValue, b: &StackElValue) -> (same: bool)
    ensures
        same == (a@ == b@),
{
    match a {
        StackElValue::Int(x) => match b {
            StackElValue::Int(y) => *x == *y,
            _ => false,
        },
        StackElValue::String(x) => match b {
            StackElValue::String(y) => *x == *y,
            _ => false,
        },
        StackElValue::Bool(x) => match b {
            StackElValue::Bool(y) => *x == *y,
            _ => false,
        },
        StackElValue::Vector(x) => match b {
            StackElValue::Vector(y) => vectors_equal(x, y),
            _ => false,
        },
    }
}

/// Whether two values are of the same one of the four types.
fn types_equal(a: &StackElValue, b: &StackElValue) -> (same: bool)
    ensures
        same == same_type(a@, b@),
{
    match a {
        StackElValue::Int(_) => match b {
            StackElValue::Int(_) => true,
            _ => false,
        },
        StackElValue::String(_) => match b {
            StackElValue::String(_) => true,
            _ => false,
        },
        StackElValue::Bool(_) => match b {
            StackElValue::Bool(_) => true,
            _ => false,
        },
        StackElValue::Vector(_) => match b {
            StackElValue::Vector(_) => true,
            _ => false,
        },
    }
}

/// A new stack: `top` above copies of the elements of `stack` from index
/// `from` on.
fn with_top(top: StackEl, stack: &Stack, from: usize) -> (r: Stack)
    requires
        from <= stack.len(),
    ensures
        r.deep_view() == seq![top@] + stack.deep_view().skip(from as int),
{
    let ghost head = top@;
    let mut r: Stack = Vec::new();
    r.push(top);
    let mut i: usize = from;
    while i < stack.len()
        invariant
            from <= i <= stack.len(),
            r.deep_view() == seq![head] + stack.deep_view().subrange(from as int, i as int),
        decreases stack.len() - i,
    {
        let ghost before = r.deep_view();
        let el = clone_element(&stack[i]);
        r.push(el);
        assert(r.deep_view() =~= before.push(stack.deep_view()[i as int]));
        assert(r.deep_view() =~= seq![head] + stack.deep_view().subrange(
            from as int,
            i + 1 as int,
        ));
        i = i + 1;
    }
    assert(stack.deep_view().subrange(from as int, i as int) =~= stack.deep_view().skip(
        from as int,
    ));
    r
}

/// A new stack: copies of the elements of `stack` from index `from` on.
fn copy_from(stack: &Stack, from: usize) -> (r: Stack)
    requires
        from <= stack.len(),
    ensures
        r.deep_view() == stack.deep_view().skip(from as int),
{
    let mut r: Stack = Vec::new();
    let mut i: usize = from;
    while i < stack.len()
        invariant
            from <= i <= stack.len(),
            r.deep_view() == stack.deep_view().subrange(from as int, i as int),
        decreases stack.len() - i,
    {
        let ghost before = r.deep_view();
        let el = clone_element(&stack[i]);
        r.push(el);
        assert(r.deep_view() =~= before.push(stack.deep_view()[i as int]));
        assert(r.deep_view() =~= stack.deep_view().subrange(from as int, i + 1 as int));
        i = i + 1;
    }
    assert(stack.deep_view().subrange(from as int, i as int) =~= stack.deep_view().skip(
        from as int,
    ));
    r
}

/// What the result of a stack operation holds.
pub open spec fn stack_outcome(r: Result<Stack, String>) -> Result<Seq<ElementModel>, Seq<char>> {
    match r {
        Ok(stack) => Ok(stack.deep_view()),
        Err(message) => Err(message@),
    }
}

/// The message of the error for an empty stack.
pub open spec fn needs_one() -> Seq<char> {
    "Stack must be at least 1 element deep"@
}

/// The message of the error for a stack of fewer than two elements.
pub open spec fn needs_two() -> Seq<char> {
    "Stack must be at least 2 elements deep"@
}

/// The integer of an element whose value is one, whatever produced it.
pub open spec fn int_operand(el: ElementModel) -> Option<usize> {
    match el.value {
        ValueModel::Int(n) => Some(n),
        _ => None,
    }
}

/// The text of an element that a string literal, a concatenation or an
/// indexing produced.
pub open spec fn text_operand(el: ElementModel) -> Option<Seq<char>> {
    match el.value {
        ValueModel::String(t) if el.token == Token::String || el.token == Token::Index => Some(t),
        _ => None,
    }
}

/// An element that holds an integer, as an integer literal produces it.
pub open spec fn int_element(n: usize) -> ElementModel {
    ElementModel { token: Token::Int, value: ValueModel::Int(n) }
}

/// An element that holds a boolean, as a boolean literal produces it.
pub open spec fn bool_element(b: bool) -> ElementModel {
    ElementModel { token: Token::Bool, value: ValueModel::Bool(b) }
}

/// An element that holds a text, as a string literal produces it.
pub open spec fn string_element(t: Seq<char>) -> ElementModel {
    ElementModel { token: Token::String, value: ValueModel::String(t) }
}

/// The stack after `ADD`: the sum of the two integers on top replaces them.
pub open spec fn after_add(s: Seq<ElementModel>) -> Result<Seq<ElementModel>, Seq<char>> {
    if s.len() < 2 {
        Err(needs_two())
    } else {
        match (int_operand(s[0]), int_operand(s[1])) {
            (Some(a), Some(b)) => if a + b <= usize::MAX {
                Ok(seq![int_element((a + b) as usize)] + s.skip(2))
            } else {
                Err("Addition overflow"@)
            },
            _ => Err("Only integers can be added"@),
        }
    }
}

/// The stack after `SUB`: the element below the top less the top replaces
/// the two. So the integer that was pushed first is the one taken from.
pub open spec fn after_sub(s: Seq<ElementModel>) -> Result<Seq<ElementModel>, Seq<char>> {
    if s.len() < 2 {
        Err(needs_two())
    } else {
        match (int_operand(s[1]), int_operand(s[0])) {
            (Some(minuend), Some(subtrahend)) => if minuend >= subtrahend {
                Ok(seq![int_element((minuend - subtrahend) as usize)] + s.skip(2))
            } else {
                Err("Subtraction overflow"@)
            },
            _ => Err("Only integers can be subtracted"@),
        }
    }
}

/// The stack after `MUL`: the product of the two integers on top replaces them.
pub open spec fn after_mul(s: Seq<ElementModel>) -> Result<Seq<ElementModel>, Seq<char>> {
    if s.len() < 2 {
        Err(needs_two())
    } else {
        match (int_operand(s[0]), int_operand(s[1])) {
            (Some(a), Some(b)) => if a * b <= usize::MAX {
                Ok(seq![int_element((a * b) as usize)] + s.skip(2))
            } else {
                Err("Multiplication overflow"@)
            },
            _ => Err("Only integers can be multiplied"@),
        }
    }
}

/// The stack after `DUP`: a copy of the top lies above it.
pub open spec fn after_dup(s: Seq<ElementModel>) -> Result<Seq<ElementModel>, Seq<char>> {
    if s.len() < 1 {
        Err(needs_one())
    } else {
        Ok(seq![s[0]] + s)
    }
}

/// The stack after `EQ`: whether the two values on top, which must be of one
/// type, are equal replaces them.
pub open spec fn after_eq(s: Seq<ElementModel>) -> Result<Seq<ElementModel>, Seq<char>> {
    if s.len() < 2 {
        Err(needs_two())
    } else if !same_type(s[0].value, s[1].value) {
        Err("Elements must be of the same type"@)
    } else {
        Ok(seq![bool_element(s[0].value == s[1].value)] + s.skip(2))
    }
}

/// The stack after `NEQ`: whether the two values on top, which the same kind
/// of lexeme must have produced, differ replaces them.
pub open spec fn after_neq(s: Seq<ElementModel>) -> Result<Seq<ElementModel>, Seq<char>> {
    if s.len() < 2 {
        Err(needs_two())
    } else if s[0].token != s[1].token {
        Err("Elements must be of the same type"@)
    } else {
        Ok(seq![bool_element(s[0].value != s[1].value)] + s.skip(2))
    }
}

/// The stack after `POP`: the top is gone.
pub open spec fn after_pop(s: Seq<ElementModel>) -> Result<Seq<ElementModel>, Seq<char>> {
    if s.len() < 1 {
        Err(needs_one())
    } else {
        Ok(s.skip(1))
    }
}

/// The stack after `SWAP`: the two elements on top have changed places.
pub open spec fn after_swap(s: Seq<ElementModel>) -> Result<Seq<ElementModel>, Seq<char>> {
    if s.len() < 2 {
        Err(needs_two())
    } else {
        Ok(seq![s[1], s[0]] + s.skip(2))
    }
}

/// The stack after `CONCAT`: the text on top followed by the text below it
/// replaces the two.
pub open spec fn after_concat(s: Seq<ElementModel>) -> Result<Seq<ElementModel>, Seq<char>> {
    if s.len() < 2 {
        Err(needs_two())
    } else {
        match (text_operand(s[0]), text_operand(s[1])) {
            (Some(first), Some(second)) => Ok(seq![string_element(first + second)] + s.skip(2)),
            _ => Err("Only strings can be concatenated"@),
        }
    }
}

/// The stack after `EMPTY_VECTOR`: an empty vector lies on top.
pub open spec fn after_empty_vector(s: Seq<ElementModel>) -> Seq<ElementModel> {
    seq![
        ElementModel { token: Token::EmptyVector, value: ValueModel::Vector(VectorModel::Empty) },
    ] + s
}

/// The stack after `INSERT`: the vector below the top, with the top inserted,
/// replaces the two.
pub open spec fn after_insert_vector(s: Seq<ElementModel>) -> Result<Seq<ElementModel>, Seq<char>> {
    if s.len() < 2 {
        Err(needs_two())
    } else {
        match s[1].value {
            ValueModel::Vector(vector) => match vector.insert(s[0].value) {
                Ok(grown) => Ok(
                    seq![
                        ElementModel {
                            token: Token::InsertVector,
                            value: ValueModel::Vector(grown),
                        },
                    ] + s.skip(2),
                ),
                Err(message) => Err(message),
            },
            _ => Err("Invalid stack to insert an element in a vector"@),
        }
    }
}

/// The size of a value: the number of characters of a text, the number of
/// items of a vector. An integer or a boolean has none.
pub open spec fn size_of(v: ValueModel) -> Result<nat, Seq<char>> {
    match v {
        ValueModel::String(t) => Ok(t.len()),
        ValueModel::Vector(vector) => Ok(vector.len()),
        _ => Err("Cannot give the size of element of type "@ + type_text(v)),
    }
}

/// The stack after `SIZE`: the size of the top replaces it.
pub open spec fn after_size(s: Seq<ElementModel>) -> Result<Seq<ElementModel>, Seq<char>> {
    if s.len() < 1 {
        Err(needs_one())
    } else {
        match size_of(s[0].value) {
            Ok(n) => Ok(
                seq![ElementModel { token: Token::Size, value: ValueModel::Int(n as usize) }]
                    + s.skip(1),
            ),
            Err(message) => Err(message),
        }
    }
}

/// The message of the error for an index past the end of a text or of a
/// vector that is not empty.
pub open spec fn out_of_bound(index: usize, what: Seq<char>, len: nat) -> Seq<char> {
    "Out of bound index "@ + crate::text::decimal(index as nat) + " for "@ + what + " of length "@
        + crate::text::decimal(len)
}

/// The item of a value at a position, counted from 0: a character of a text,
/// as a text of its own, or an item of a vector.
pub open spec fn item_at(v: ValueModel, index: usize) -> Result<ValueModel, Seq<char>> {
    match v {
        ValueModel::String(t) => if index < t.len() {
            Ok(ValueModel::String(seq![t[index as int]]))
        } else {
            Err(out_of_bound(index, "string"@, t.len()))
        },
        ValueModel::Vector(VectorModel::Empty) => Err(
            "Out of bound index "@ + crate::text::decimal(index as nat) + " for empty vector"@,
        ),
        ValueModel::Vector(VectorModel::Bools(items)) => if index < items.len() {
            Ok(ValueModel::Bool(items[index as int]))
        } else {
            Err(out_of_bound(index, "vector"@, items.len()))
        },
        ValueModel::Vector(VectorModel::Ints(items)) => if index < items.len() {
            Ok(ValueModel::Int(items[index as int]))
        } else {
            Err(out_of_bound(index, "vector"@, items.len()))
        },
        ValueModel::Vector(VectorModel::Strings(items)) => if index < items.len() {
            Ok(ValueModel::String(items[index as int]))
        } else {
            Err(out_of_bound(index, "vector"@, items.len()))
        },
        _ => Err("Cannot index element of type "@ + type_text(v)),
    }
}

/// The stack after `INDEX`: the item of the top at the position replaces it.
pub open spec fn after_index(s: Seq<ElementModel>, index: usize) -> Result<
    Seq<ElementModel>,
    Seq<char>,
> {
    if s.len() < 1 {
        Err(needs_one())
    } else {
        match item_at(s[0].value, index) {
            Ok(item) => Ok(seq![ElementModel { token: Token::Index, value: item }] + s.skip(1)),
            Err(message) => Err(message),
        }
    }
}

fn int_operand_of(el: &StackEl) -> (n: Option<usize>)
    ensures
        n == int_operand(el@),
{
    match &el.value {
        StackElValue::Int(n) => Some(*n),
        _ => None,
    }
}

fn text_operand_of(el: &StackEl) -> (t: Option<&String>)
    ensures
        match t {
            Some(text) => text_operand(el@) == Some(text@),
            None => text_operand(el@) is None,
        },
{
    match &el.value {
        StackElValue::String(t) => if el.token == Token::String || el.token == Token::Index {
            Some(t)
        } else {
            None
        },
        _ => None,
    }
}

fn out_of_bound_message(index: usize, what: &str, len: usize) -> (message: String)
    ensures
        message@ == out_of_bound(index, what@, len as nat),
{
    let mut message = String::from_str("Out of bound index ");
    message.append(crate::text::decimal_string(index).as_str());
    message.append(" for ");
    message.append(what);
    message.append(" of length ");
    message.append(crate::text::decimal_string(len).as_str());
    message
}

/// `ADD`: replaces the two integers on top of the stack by their sum.
///
/// Fails on a stack of fewer than two elements, where one of the two is not
/// an integer, and where the sum does not fit the machine's integer.
pub fn add(stack: &Stack) -> (r: Result<Stack, String>)
    ensures
        stack_outcome(r) == after_add(stack.deep_view()),
{
    if stack.len() < 2 {
        return Err(String::from_str("Stack must be at least 2 elements deep"));
    }
    match (int_operand_of(&stack[0]), int_operand_of(&stack[1])) {
        (Some(val1), Some(val2)) => match val1.checked_add(val2) {
            Some(new_value) => Ok(
                with_top(StackEl::new(Token::Int, StackElValue::Int(new_value)), stack, 2),
            ),
            None => Err(String::from_str("Addition overflow")),
        },
        _ => Err(String::from_str("Only integers can be added")),
    }
}

/// `SUB`: replaces the two integers on top of the stack by the one below the
/// top less the top.
///
/// Fails on a stack of fewer than two elements, where one of the two is not
/// an integer, and where the top is the larger of the two.
pub fn sub(stack: &Stack) -> (r: Result<Stack, String>)
    ensures
        stack_outcome(r) == after_sub(stack.deep_view()),
{
    if stack.len() < 2 {
        return Err(String::from_str("Stack must be at least 2 elements deep"));
    }
    match (int_operand_of(&stack[1]), int_operand_of(&stack[0])) {
        (Some(minuend), Some(subtrahend)) => {
            if minuend < subtrahend {
                return Err(String::from_str("Subtraction overflow"));
            }
            let new_value = minuend - subtrahend;
            Ok(with_top(StackEl::new(Token::Int, StackElValue::Int(new_value)), stack, 2))
        },
        _ => Err(String::from_str("Only integers can be subtracted")),
    }
}

/// `MUL`: replaces the two integers on top of the stack by their product.
///
/// Fails on a stack of fewer than two elements, where one of the two is not
/// an integer, and where the product does not fit the machine's integer.
pub fn mul(stack: &Stack) -> (r: Result<Stack, String>)
    ensures
        stack_outcome(r) == after_mul(stack.deep_view()),
{
    if stack.len() < 2 {
        return Err(String::from_str("Stack must be at least 2 elements deep"));
    }
    match (int_operand_of(&stack[0]), int_operand_of(&stack[1])) {
        (Some(multiplicand), Some(multiplier)) => match multiplicand.checked_mul(multiplier) {
            Some(new_value) => Ok(
                with_top(StackEl::new(Token::Int, StackElValue::Int(new_value)), stack, 2),
            ),
            None => Err(String::from_str("Multiplication overflow")),
        },
        _ => Err(String::from_str("Only integers can be multiplied")),
    }
}

/// `DUP`: puts a copy of the top of the stack above it.
pub fn dup(stack: &Stack) -> (r: Result<Stack, String>)
    ensures
        stack_outcome(r) == after_dup(stack.deep_view()),
{
    if stack.len() < 1 {
        return Err(String::from_str("Stack must be at least 1 element deep"));
    }
    let new_value = clone_element(&stack[0]);
    let new_stack = with_top(new_value, stack, 0);
    assert(stack.deep_view().skip(0) =~= stack.deep_view());
    Ok(new_stack)
}

/// `EQ`: replaces the two values on top of the stack by whether they are
/// equal. They must be of the same type.
pub fn eq(stack: &Stack) -> (r: Result<Stack, String>)
    ensures
        stack_outcome(r) == after_eq(stack.deep_view()),
{
    if stack.len() < 2 {
        return Err(String::from_str("Stack must be at least 2 elements deep"));
    }
    if !types_equal(&stack[0].value, &stack[1].value) {
        return Err(String::from_str("Elements must be of the same type"));
    }
    let same = values_equal(&stack[0].value, &stack[1].value);
    Ok(with_top(StackEl::new(Token::Bool, StackElValue::Bool(same)), stack, 2))
}

/// `NEQ`: replaces the two values on top of the stack by whether they
/// differ. The same kind of lexeme must have produced the two.
pub fn neq(stack: &Stack) -> (r: Result<Stack, String>)
    ensures
        stack_outcome(r) == after_neq(stack.deep_view()),
{
    if stack.len() < 2 {
        return Err(String::from_str("Stack must be at least 2 elements deep"));
    }
    if stack[0].token != stack[1].token {
        return Err(String::from_str("Elements must be of the same type"));
    }
    let same = values_equal(&stack[0].value, &stack[1].value);
    Ok(with_top(StackEl::new(Token::Bool, StackElValue::Bool(!same)), stack, 2))
}

/// `POP`: removes the top of the stack.
pub fn pop(stack: &Stack) -> (r: Result<Stack, String>)
    ensures
        stack_outcome(r) == after_pop(stack.deep_view()),
{
    if stack.len() < 1 {
        return Err(String::from_str("Stack must be at least 1 element deep"));
    }
    Ok(copy_from(stack, 1))
}

/// `SWAP`: exchanges the two elements on top of the stack, in `stack` itself,
/// and returns a copy of the stack as it then is. On an error `stack` is as
/// it was.
pub fn swap(stack: &mut Stack) -> (r: Result<Stack, String>)
    ensures
        stack_outcome(r) == after_swap(old(stack).deep_view()),
        r is Ok ==> final(stack).deep_view() == r->Ok_0.deep_view(),
        r is Err ==> *final(stack) == *old(stack),
{
    if stack.len() < 2 {
        return Err(String::from_str("Stack must be at least 2 elements deep"));
    }
    let ghost before = stack.deep_view();
    let top = stack.remove(0);
    stack.insert(1, top);
    assert(stack.deep_view() =~= seq![before[1], before[0]] + before.skip(2));
    let new_stack = copy_from(stack, 0);
    assert(stack.deep_view().skip(0) =~= stack.deep_view());
    Ok(new_stack)
}

/// `CONCAT`: replaces the two texts on top of the stack by the text of the
/// top followed by the text of the one below it. `stack` itself stays as it
/// is.
///
/// A text is a string that a string literal, a concatenation or an indexing
/// produced.
pub fn concat(stack: &mut Stack) -> (r: Result<Stack, String>)
    ensures
        stack_outcome(r) == after_concat(old(stack).deep_view()),
        *final(stack) == *old(stack),
{
    if stack.len() < 2 {
        return Err(String::from_str("Stack must be at least 2 elements deep"));
    }
    match (text_operand_of(&stack[0]), text_operand_of(&stack[1])) {
        (Some(val1), Some(val2)) => {
            let mut new_value = val1.clone();
            new_value.append(val2.as_str());
            Ok(with_top(StackEl::new(Token::String, StackElValue::String(new_value)), stack, 2))
        },
        _ => Err(String::from_str("Only strings can be concatenated")),
    }
}

/// `INSERT`: replaces the value on top of the stack and the vector below it
/// by the vector with the value inserted. `stack` itself stays as it is.
pub fn insert_vector(stack: &mut Stack) -> (r: Result<Stack, String>)
    ensures
        stack_outcome(r) == after_insert_vector(old(stack).deep_view()),
        *final(stack) == *old(stack),
{
    if stack.len() < 2 {
        return Err(String::from_str("Stack must be at least 2 elements deep"));
    }
    match &stack[1].value {
        StackElValue::Vector(lifo_vector) => {
            let val_to_insert = clone_value(&stack[0].value);
            match clone_vector(lifo_vector).insert(val_to_insert) {
                Ok(new_vector) => {
                    let stack_val = StackElValue::Vector(new_vector);
                    Ok(with_top(StackEl::new(Token::InsertVector, stack_val), stack, 2))
                },
                Err(message) => Err(message),
            }
        },
        _ => Err(String::from_str("Invalid stack to insert an element in a vector")),
    }
}

/// `SIZE`: replaces the top of the stack by its size, the number of
/// characters of a text or of items of a vector.
pub fn size(stack: &Stack) -> (r: Result<Stack, String>)
    ensures
        stack_outcome(r) == after_size(stack.deep_view()),
{
    if stack.len() < 1 {
        return Err(String::from_str("Stack must be at least 1 element deep"));
    }
    let length = match &stack[0].value {
        StackElValue::String(val) => val.as_str().unicode_len(),
        StackElValue::Vector(val) => val.len(),
        other => {
            let mut message = String::from_str("Cannot give the size of element of type ");
            message.append(type_str(other));
            return Err(message);
        },
    };
    Ok(with_top(StackEl::new(Token::Size, StackElValue::Int(length)), stack, 1))
}

/// `INDEX`: replaces the top of the stack by its item at `position`,
/// counted from 0: a character of a text, as a text of its own, or an item of
/// a vector.
///
/// Fails on an empty stack, on an integer or a boolean, and where the text or
/// the vector has no item at that position.
pub fn index(stack: &Stack, position: usize) -> (r: Result<Stack, String>)
    ensures
        stack_outcome(r) == after_index(stack.deep_view(), position),
{
    if stack.len() < 1 {
        return Err(String::from_str("Stack must be at least 1 element deep"));
    }
    let item = match &stack[0].value {
        StackElValue::String(val) => {
            let length = val.as_str().unicode_len();
            if position < length {
                let character = val.as_str().substring_char(position, position + 1);
                assert(character@ =~= seq![val@[position as int]]);
                StackElValue::String(String::from_str(character))
            } else {
                return Err(out_of_bound_message(position, "string", length));
            }
        },
        StackElValue::Vector(val) => match val {
            LifoVector::EmptyVector => {
                let mut message = String::from_str("Out of bound index ");
                message.append(crate::text::decimal_string(position).as_str());
                message.append(" for empty vector");
                return Err(message);
            },
            LifoVector::VectorOfBool(vec) => {
                if position < vec.len() {
                    StackElValue::Bool(vec[position])
                } else {
                    return Err(out_of_bound_message(position, "vector", vec.len()));
                }
            },
            LifoVector::VectorOfInt(vec) => {
                if position < vec.len() {
                    StackElValue::Int(vec[position])
                } else {
                    return Err(out_of_bound_message(position, "vector", vec.len()));
                }
            },
            LifoVector::VectorOfString(vec) => {
                if position < vec.len() {
                    StackElValue::String(vec[position].clone())
                } else {
                    return Err(out_of_bound_message(position, "vector", vec.len()));
                }
            },
        },
        other => {
            let mut message = String::from_str("Cannot index element of type ");
            message.append(type_str(other));
            return Err(message);
        },
    };
    Ok(with_top(StackEl::new(Token::Index, item), stack, 1))
}

} // verus!

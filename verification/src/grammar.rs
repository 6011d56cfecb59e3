use vstd::prelude::*;
use vstd::string::StrSliceExecFns;
use crate::lexer::Token;
use crate::source::piece;
use crate::text::{is_digit, is_integer_literal};

verus! {

/// The characters that separate lexemes: space, tab, line feed, form feed.
pub open spec fn is_blank(c: char) -> bool {
    c == ' ' || c == '\t' || c == '\n' || c == '\x0c'
}

/// The characters of a label's name: lower-case letters and the underscore.
pub open spec fn is_label_char(c: char) -> bool {
    ('a' <= c && c <= 'z') || c == '_'
}

/// The characters of a word: letters, digits, underscore, colon and hyphen.
pub open spec fn is_word_char(c: char) -> bool {
    ('a' <= c && c <= 'z') || ('A' <= c && c <= 'Z') || is_digit(c) || c == '_' || c == ':' || c
        == '-'
}

/// The hexadecimal digits, in either case.
pub open spec fn is_hex_digit(c: char) -> bool {
    is_digit(c) || ('a' <= c && c <= 'f') || ('A' <= c && c <= 'F')
}

/// The characters that may follow a backslash in a string literal to make an
/// escape of two characters.
pub open spec fn is_escape_letter(c: char) -> bool {
    c == '"' || c == '\\' || c == 'b' || c == 'n' || c == 'f' || c == 'r' || c == 't'
}

/// A set of characters of which the scanner reads a longest run.
#[derive(Debug, Clone, Copy, PartialEq, Eq, Structural)]
pub enum CharClass {
    /// The characters between lexemes.
    Blank,
    /// The characters of words.
    Word,
    /// Every character that is not blank.
    Solid,
}

/// Whether `c` belongs to `class`.
pub open spec fn in_class(c: char, class: CharClass) -> bool {
    match class {
        CharClass::Blank => is_blank(c),
        CharClass::Word => is_word_char(c),
        CharClass::Solid => !is_blank(c),
    }
}

/// Where the longest run of characters of `class` that starts at `from`
/// ends: the first position from there on that holds no such character.
pub open spec fn run_end(s: Seq<char>, from: int, class: CharClass) -> int
    decreases s.len() - from,
{
    if 0 <= from < s.len() && in_class(s[from], class) {
        run_end(s, from + 1, class)
    } else {
        from
    }
}

/// Whether `w` is the name of a label: one label character or more.
pub open spec fn is_label_name(w: Seq<char>) -> bool {
    w.len() > 0 && forall|i: int| 0 <= i < w.len() ==> is_label_char(#[trigger] w[i])
}

/// Whether `w` declares a label: the label's name and a colon.
pub open spec fn is_label_declaration(w: Seq<char>) -> bool {
    w.len() >= 2 && w.last() == ':' && is_label_name(w.drop_last())
}

/// The instruction that `w` spells, if it spells one.
pub open spec fn keyword(w: Seq<char>) -> Option<Token> {
    if w == "ADD"@ {
        Some(Token::Add)
    } else if w == "SUB"@ {
        Some(Token::Sub)
    } else if w == "MUL"@ {
        Some(Token::Mul)
    } else if w == "PUSH"@ {
        Some(Token::Push)
    } else if w == "PUSH_INT"@ {
        Some(Token::PushInt)
    } else if w == "PUSH_BOOL"@ {
        Some(Token::PushBool)
    } else if w == "PUSH_STR"@ {
        Some(Token::PushStr)
    } else if w == "DUP"@ {
        Some(Token::Dup)
    } else if w == "EQ"@ {
        Some(Token::Eq)
    } else if w == "NEQ"@ {
        Some(Token::Neq)
    } else if w == "POP"@ {
        Some(Token::Pop)
    } else if w == "SWAP"@ {
        Some(Token::Swap)
    } else if w == "CONCAT"@ {
        Some(Token::Concat)
    } else if w == "JUMP"@ {
        Some(Token::Jump)
    } else if w == "JUMPI"@ {
        Some(Token::Jumpi)
    } else if w == "EMPTY_VECTOR"@ {
        Some(Token::EmptyVector)
    } else if w == "INSERT"@ {
        Some(Token::InsertVector)
    } else if w == "SIZE"@ {
        Some(Token::Size)
    } else if w == "INDEX"@ {
        Some(Token::Index)
    } else if w == "LOG"@ {
        Some(Token::Log)
    } else {
        None
    }
}

/// The kind of a word, that is, of a longest run of word characters: an
/// instruction, an integer or boolean literal, the name or the declaration of
/// a label, or none of these.
pub open spec fn classify_word(w: Seq<char>) -> Token {
    match keyword(w) {
        Some(token) => token,
        None => if is_integer_literal(w) {
            Token::Int
        } else if w == "true"@ || w == "false"@ {
            Token::Bool
        } else if is_label_name(w) {
            Token::LabelName
        } else if is_label_declaration(w) {
            Token::Label
        } else {
            Token::Invalid
        },
    }
}

/// Where the string literal ends whose contents go on at `i`: behind the
/// first double quote that no backslash escapes. There is none where the
/// text ends first, or where a backslash starts no escape.
///
/// An escape is a backslash and an escape letter, or a backslash, `u` and
/// four hexadecimal digits.
pub open spec fn string_end(s: Seq<char>, i: int) -> Option<int>
    decreases s.len() - i,
{
    if i < 0 || i >= s.len() {
        None
    } else if s[i] == '"' {
        Some(i + 1)
    } else if s[i] != '\\' {
        string_end(s, i + 1)
    } else if i + 1 < s.len() && is_escape_letter(s[i + 1]) {
        string_end(s, i + 2)
    } else if i + 5 < s.len() && s[i + 1] == 'u' && is_hex_digit(s[i + 2]) && is_hex_digit(
        s[i + 3],
    ) && is_hex_digit(s[i + 4]) && is_hex_digit(s[i + 5]) {
        string_end(s, i + 6)
    } else {
        None
    }
}

/// Where the block comment ends whose contents go on at `i`: behind the
/// first `*/` from there on, if there is one.
pub open spec fn comment_end(s: Seq<char>, i: int) -> Option<int>
    decreases s.len() - i,
{
    if i < 0 || i + 1 >= s.len() {
        None
    } else if s[i] == '*' && s[i + 1] == '/' {
        Some(i + 2)
    } else {
        comment_end(s, i + 1)
    }
}

/// A lexeme in a text: its kind and the positions where it starts and ends.
///
/// The kind is `None` in two cases. Where `start == end`, the text has ended.
/// Otherwise the characters from `start` to `end` belong to no lexeme of the
/// language.
pub struct Span {
    pub token: Option<Token>,
    pub start: int,
    pub end: int,
}

impl Span {
    /// The characters of the lexeme.
    pub open spec fn text(self, s: Seq<char>) -> Seq<char> {
        piece(s, self.start, self.end)
    }
}

/// The first lexeme of `s` from position `from` on, behind any blanks.
///
/// A word is a longest run of word characters. A double quote starts a string
/// literal and `/*` a block comment, where they end. Anything else, up to the
/// next blank, belongs to no lexeme.
pub open spec fn lexeme_at(s: Seq<char>, from: int) -> Span {
    let start = run_end(s, from, CharClass::Blank);
    if start < 0 || start >= s.len() {
        Span { token: None, start, end: start }
    } else if is_word_char(s[start]) {
        let end = run_end(s, start, CharClass::Word);
        Span { token: Some(classify_word(s.subrange(start, end))), start, end }
    } else if s[start] == '"' && string_end(s, start + 1) is Some {
        Span { token: Some(Token::String), start, end: string_end(s, start + 1).unwrap() }
    } else if s[start] == '/' && start + 1 < s.len() && s[start + 1] == '*' && comment_end(
        s,
        start + 2,
    ) is Some {
        Span { token: Some(Token::Comment), start, end: comment_end(s, start + 2).unwrap() }
    } else {
        Span { token: None, start, end: run_end(s, start, CharClass::Solid) }
    }
}

/// A run ends at or behind its start and within the text; every character
/// in it is of the class, and the one behind it, if any, is not.
pub proof fn lemma_run_end(s: Seq<char>, from: int, class: CharClass)
    requires
        0 <= from <= s.len(),
    ensures
        from <= run_end(s, from, class) <= s.len(),
        forall|i: int| from <= i < run_end(s, from, class) ==> in_class(#[trigger] s[i], class),
        run_end(s, from, class) < s.len() ==> !in_class(s[run_end(s, from, class)], class),
    decreases s.len() - from,
{
    if from < s.len() && in_class(s[from], class) {
        lemma_run_end(s, from + 1, class);
    }
}

/// A string literal ends behind the position where its contents go on, and
/// within the text.
pub proof fn lemma_string_end(s: Seq<char>, i: int)
    requires
        string_end(s, i) is Some,
    ensures
        0 <= i < string_end(s, i).unwrap() <= s.len(),
    decreases s.len() - i,
{
    if s[i] == '"' {
    } else if s[i] != '\\' {
        lemma_string_end(s, i + 1);
    } else if i + 1 < s.len() && is_escape_letter(s[i + 1]) {
        lemma_string_end(s, i + 2);
    } else {
        lemma_string_end(s, i + 6);
    }
}

/// A block comment ends at least two characters behind the position where
/// its contents go on, and within the text.
pub proof fn lemma_comment_end(s: Seq<char>, i: int)
    requires
        comment_end(s, i) is Some,
    ensures
        0 <= i,
        i + 2 <= comment_end(s, i).unwrap() <= s.len(),
    decreases s.len() - i,
{
    if !(s[i] == '*' && s[i + 1] == '/') {
        lemma_comment_end(s, i + 1);
    }
}

/// A lexeme lies behind the position the scan started from and within the
/// text, and it is empty only where the text has ended.
pub proof fn lemma_lexeme_at(s: Seq<char>, from: int)
    requires
        0 <= from <= s.len(),
    ensures
        from <= lexeme_at(s, from).start <= lexeme_at(s, from).end <= s.len(),
        lexeme_at(s, from).token is Some ==> lexeme_at(s, from).start < lexeme_at(s, from).end,
        lexeme_at(s, from).start == lexeme_at(s, from).end ==> lexeme_at(s, from).start
            == s.len(),
{
    lemma_run_end(s, from, CharClass::Blank);
    let start = run_end(s, from, CharClass::Blank);
    if start < s.len() {
        lemma_run_end(s, start, CharClass::Word);
        lemma_run_end(s, start, CharClass::Solid);
        if is_word_char(s[start]) {
        } else if s[start] == '"' && string_end(s, start + 1) is Some {
            lemma_string_end(s, start + 1);
        } else if s[start] == '/' && start + 1 < s.len() && s[start + 1] == '*' && comment_end(
            s,
            start + 2,
        ) is Some {
            lemma_comment_end(s, start + 2);
        }
    }
}

/// What the kind of a lexeme says of its characters: an integer literal is
/// made of digits, a boolean literal is `true` or `false`, a string literal
/// has its two quotes, and the name and the declaration of a label are made
/// as [`is_label_name`] and [`is_label_declaration`] say.
pub proof fn lemma_lexeme_text(s: Seq<char>, from: int)
    requires
        0 <= from <= s.len(),
    ensures
        ({
            let span = lexeme_at(s, from);
            let text = span.text(s);
            &&& span.token == Some(Token::Int) ==> is_integer_literal(text)
            &&& span.token == Some(Token::Bool) ==> text == "true"@ || text == "false"@
            &&& span.token == Some(Token::String) ==> text.len() >= 2
            &&& span.token == Some(Token::LabelName) ==> is_label_name(text)
            &&& span.token == Some(Token::Label) ==> is_label_declaration(text)
        }),
{
    lemma_lexeme_at(s, from);
    let start = run_end(s, from, CharClass::Blank);
    if start < s.len() && !is_word_char(s[start]) && s[start] == '"' && string_end(s, start + 1)
        is Some {
        lemma_string_end(s, start + 1);
    }
}

/// A lexeme as the scanner hands it out: its kind and the positions where it
/// starts and ends, as [`Span`] explains them.
#[derive(Debug, Clone, Copy)]
pub struct Lexeme {
    pub token: Option<Token>,
    pub start: usize,
    pub end: usize,
}

impl View for Lexeme {
    type V = Span;

    open spec fn view(&self) -> Span {
        Span { token: self.token, start: self.start as int, end: self.end as int }
    }
}

fn blank(c: char) -> (r: bool)
    ensures
        r == is_blank(c),
{
    c == ' ' || c == '\t' || c == '\n' || c == '\x0c'
}

fn digit(c: char) -> (r: bool)
    ensures
        r == is_digit(c),
{
    '0' <= c && c <= '9'
}

fn label_char(c: char) -> (r: bool)
    ensures
        r == is_label_char(c),
{
    ('a' <= c && c <= 'z') || c == '_'
}

fn word_char(c: char) -> (r: bool)
    ensures
        r == is_word_char(c),
{
    ('a' <= c && c <= 'z') || ('A' <= c && c <= 'Z') || digit(c) || c == '_' || c == ':' || c
        == '-'
}

fn hex_digit(c: char) -> (r: bool)
    ensures
        r == is_hex_digit(c),
{
    digit(c) || ('a' <= c && c <= 'f') || ('A' <= c && c <= 'F')
}

fn escape_letter(c: char) -> (r: bool)
    ensures
        r == is_escape_letter(c),
{
    c == '"' || c == '\\' || c == 'b' || c == 'n' || c == 'f' || c == 'r' || c == 't'
}

fn member(c: char, class: CharClass) -> (r: bool)
    ensures
        r == in_class(c, class),
{
    match class {
        CharClass::Blank => blank(c),
        CharClass::Word => word_char(c),
        CharClass::Solid => !blank(c),
    }
}

fn find_run_end(chars: &Vec<char>, from: usize, class: CharClass) -> (end: usize)
    ensures
        end == run_end(chars@, from as int, class),
{
    let mut i: usize = from;
    while i < chars.len() && member(chars[i], class)
        invariant
            from <= i,
            run_end(chars@, i as int, class) == run_end(chars@, from as int, class),
        decreases chars.len() - i,
    {
        i = i + 1;
    }
    i
}

/// Whether the characters `chars[start..end]` spell `word`.
pub(crate) fn spells(chars: &Vec<char>, start: usize, end: usize, word: &str) -> (r: bool)
    requires
        start <= end <= chars.len(),
    ensures
        r == (chars@.subrange(start as int, end as int) == word@),
{
    let n = word.unicode_len();
    if end - start != n {
        return false;
    }
    let mut i: usize = 0;
    while i < n
        invariant
            i <= n == word@.len(),
            start + n == end <= chars.len(),
            forall|k: int| 0 <= k < i ==> chars[start + k] == word@[k],
        decreases n - i,
    {
        if chars[start + i] != word.get_char(i) {
            assert(chars@.subrange(start as int, end as int)[i as int] != word@[i as int]);
            return false;
        }
        i = i + 1;
    }
    assert(chars@.subrange(start as int, end as int) =~= word@);
    true
}

fn all_digits(chars: &Vec<char>, start: usize, end: usize) -> (r: bool)
    requires
        start < end <= chars.len(),
    ensures
        r == is_integer_literal(chars@.subrange(start as int, end as int)),
{
    let ghost w = chars@.subrange(start as int, end as int);
    let mut i: usize = start;
    while i < end
        invariant
            start <= i <= end <= chars.len(),
            w == chars@.subrange(start as int, end as int),
            forall|k: int| 0 <= k < i - start ==> is_digit(#[trigger] w[k]),
        decreases end - i,
    {
        if !digit(chars[i]) {
            assert(!is_digit(w[i - start]));
            return false;
        }
        i = i + 1;
    }
    true
}

fn all_label_chars(chars: &Vec<char>, start: usize, end: usize) -> (r: bool)
    requires
        start <= end <= chars.len(),
    ensures
        r == (start < end && is_label_name(chars@.subrange(start as int, end as int))),
{
    if start == end {
        return false;
    }
    let ghost w = chars@.subrange(start as int, end as int);
    let mut i: usize = start;
    while i < end
        invariant
            start <= i <= end <= chars.len(),
            w == chars@.subrange(start as int, end as int),
            forall|k: int| 0 <= k < i - start ==> is_label_char(#[trigger] w[k]),
        decreases end - i,
    {
        if !label_char(chars[i]) {
            assert(!is_label_char(w[i - start]));
            return false;
        }
        i = i + 1;
    }
    true
}

fn find_keyword(chars: &Vec<char>, start: usize, end: usize) -> (token: Option<Token>)
    requires
        start <= end <= chars.len(),
    ensures
        token == keyword(chars@.subrange(start as int, end as int)),
{
    if spells(chars, start, end, "ADD") {
        Some(Token::Add)
    } else if spells(chars, start, end, "SUB") {
        Some(Token::Sub)
    } else if spells(chars, start, end, "MUL") {
        Some(Token::Mul)
    } else if spells(chars, start, end, "PUSH") {
        Some(Token::Push)
    } else if spells(chars, start, end, "PUSH_INT") {
        Some(Token::PushInt)
    } else if spells(chars, start, end, "PUSH_BOOL") {
        Some(Token::PushBool)
    } else if spells(chars, start, end, "PUSH_STR") {
        Some(Token::PushStr)
    } else if spells(chars, start, end, "DUP") {
        Some(Token::Dup)
    } else if spells(chars, start, end, "EQ") {
        Some(Token::Eq)
    } else if spells(chars, start, end, "NEQ") {
        Some(Token::Neq)
    } else if spells(chars, start, end, "POP") {
        Some(Token::Pop)
    } else if spells(chars, start, end, "SWAP") {
        Some(Token::Swap)
    } else if spells(chars, start, end, "CONCAT") {
        Some(Token::Concat)
    } else if spells(chars, start, end, "JUMP") {
        Some(Token::Jump)
    } else if spells(chars, start, end, "JUMPI") {
        Some(Token::Jumpi)
    } else if spells(chars, start, end, "EMPTY_VECTOR") {
        Some(Token::EmptyVector)
    } else if spells(chars, start, end, "INSERT") {
        Some(Token::InsertVector)
    } else if spells(chars, start, end, "SIZE") {
        Some(Token::Size)
    } else if spells(chars, start, end, "INDEX") {
        Some(Token::Index)
    } else if spells(chars, start, end, "LOG") {
        Some(Token::Log)
    } else {
        None
    }
}

/// The kind of the word `chars[start..end]`.
fn classify(chars: &Vec<char>, start: usize, end: usize) -> (token: Token)
    requires
        start < end <= chars.len(),
    ensures
        token == classify_word(chars@.subrange(start as int, end as int)),
{
    let ghost w = chars@.subrange(start as int, end as int);
    match find_keyword(chars, start, end) {
        Some(token) => token,
        None => {
            if all_digits(chars, start, end) {
                Token::Int
            } else if spells(chars, start, end, "true") || spells(chars, start, end, "false") {
                Token::Bool
            } else if all_label_chars(chars, start, end) {
                Token::LabelName
            } else if chars[end - 1] == ':' && all_label_chars(chars, start, end - 1) {
                assert(w.drop_last() =~= chars@.subrange(start as int, end - 1));
                Token::Label
            } else {
                assert(w.drop_last() =~= chars@.subrange(start as int, end - 1));
                Token::Invalid
            }
        },
    }
}

fn find_string_end(chars: &Vec<char>, from: usize) -> (end: Option<usize>)
    requires
        from <= chars.len(),
    ensures
        match end {
            Some(e) => string_end(chars@, from as int) == Some(e as int),
            None => string_end(chars@, from as int) is None,
        },
{
    let n = chars.len();
    let mut i: usize = from;
    while i < n
        invariant
            from <= i <= n == chars.len(),
            string_end(chars@, i as int) == string_end(chars@, from as int),
        decreases n - i,
    {
        let c = chars[i];
        if c == '"' {
            return Some(i + 1);
        } else if c != '\\' {
            i = i + 1;
        } else if n - i > 1 && escape_letter(chars[i + 1]) {
            i = i + 2;
        } else if n - i > 5 && chars[i + 1] == 'u' && hex_digit(chars[i + 2]) && hex_digit(
            chars[i + 3],
        ) && hex_digit(chars[i + 4]) && hex_digit(chars[i + 5]) {
            i = i + 6;
        } else {
            return None;
        }
    }
    None
}

fn find_comment_end(chars: &Vec<char>, from: usize) -> (end: Option<usize>)
    requires
        from <= chars.len(),
    ensures
        match end {
            Some(e) => comment_end(chars@, from as int) == Some(e as int),
            None => comment_end(chars@, from as int) is None,
        },
{
    let n = chars.len();
    let mut i: usize = from;
    while n - i > 1
        invariant
            from <= i <= n == chars.len(),
            comment_end(chars@, i as int) == comment_end(chars@, from as int),
        decreases n - i,
    {
        if chars[i] == '*' && chars[i + 1] == '/' {
            return Some(i + 2);
        }
        i = i + 1;
    }
    None
}

/// Finds the first lexeme of `chars` from position `from` on.
pub fn scan(chars: &Vec<char>, from: usize) -> (lexeme: Lexeme)
    ensures
        lexeme@ == lexeme_at(chars@, from as int),
        lexeme.token is Some ==> from <= lexeme.start < lexeme.end <= chars.len(),
{
    proof {
        if from <= chars.len() {
            lemma_lexeme_at(chars@, from as int);
        }
    }
    let start = find_run_end(chars, from, CharClass::Blank);
    if start >= chars.len() {
        return Lexeme { token: None, start, end: start };
    }
    proof {
        lemma_run_end(chars@, start as int, CharClass::Word);
    }
    let c = chars[start];
    if word_char(c) {
        let end = find_run_end(chars, start, CharClass::Word);
        return Lexeme { token: Some(classify(chars, start, end)), start, end };
    }
    if c == '"' {
        if let Some(end) = find_string_end(chars, start + 1) {
            return Lexeme { token: Some(Token::String), start, end };
        }
    }
    if c == '/' && chars.len() - start > 1 && chars[start + 1] == '*' {
        if let Some(end) = find_comment_end(chars, start + 2) {
            return Lexeme { token: Some(Token::Comment), start, end };
        }
    }
    Lexeme { token: None, start, end: find_run_end(chars, start, CharClass::Solid) }
}

} // verus!

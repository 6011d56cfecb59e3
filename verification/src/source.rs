use vstd::prelude::*;
use vstd::string::StringExecFns;
use vstd::string::StrSliceExecFns;

verus! {

/// The characters of `text`, one by one.
fn chars_of(text: &str) -> (chars: Vec<char>)
    ensures
        chars@ == text@,
{
    let mut chars: Vec<char> = Vec::new();
    for c in it: text.chars()
        invariant
            it.seq() == text@,
            chars@ == it.seq().take(it.index()),
    {
        let ghost before = chars@;
        chars.push(c);
        assert(chars@ =~= it.seq().take(it.index() + 1));
    }
    assert(chars@ =~= text@);
    chars
}

/// The text of a program, held twice: as a string, from which lexemes are
/// cut, and character by character, for the scanner to read.
pub struct Source {
    text: String,
    chars: Vec<char>,
}

impl Source {
    #[verifier::type_invariant]
    spec fn consistent(&self) -> bool {
        self.chars@ == self.text@
    }

    /// The characters of the text.
    pub closed spec fn view(&self) -> Seq<char> {
        self.chars@
    }

    /// Takes the text of a program.
    pub fn new(text: &str) -> (source: Self)
        ensures
            source@ == text@,
    {
        Source { text: String::from_str(text), chars: chars_of(text) }
    }

    /// The characters of the text, for the scanner.
    pub fn chars(&self) -> (chars: &Vec<char>)
        ensures
            chars@ == self@,
    {
        &self.chars
    }

    /// The characters from position `start` to position `end` as a string;
    /// none where the two are not in order or lie behind the text.
    pub fn slice(&self, start: usize, end: usize) -> (text: String)
        ensures
            text@ == piece(self@, start as int, end as int),
    {
        proof {
            use_type_invariant(self);
        }
        if start <= end && end <= self.chars.len() {
            String::from_str(self.text.as_str().substring_char(start, end))
        } else {
            String::new()
        }
    }
}

/// The characters of `s` from position `start` to position `end`; none where
/// the two are not in order or lie behind the text.
pub open spec fn piece(s: Seq<char>, start: int, end: int) -> Seq<char> {
    if 0 <= start <= end <= s.len() {
        s.subrange(start, end)
    } else {
        Seq::empty()
    }
}

} // verus!

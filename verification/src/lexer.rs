//! A cursor over program text, one character at a time.
use vstd::prelude::*;
use vstd::std_specs::iter::IteratorSpec;

verus! {

/// `String::push` of the standard library: the string afterwards is the
/// string before with `c` appended as its last character.
pub assume_specification[ std::string::String::push ](s: &mut std::string::String, c: char)
    ensures
        final(s)@ == old(s)@.push(c),
;

/// The characters of `text`, in order.
pub fn chars_of(text: &str) -> (chars: Vec<char>)
    ensures
        chars@ == text@,
{
    let mut chars: Vec<char> = Vec::new();
    let mut rest = text.chars();
    loop
        invariant
            chars@ + rest.remaining() == text@,
            rest.obeys_prophetic_iter_laws(),
            rest.decrease() is Some,
        decreases rest.decrease()->0,
    {
        match rest.next() {
            Some(c) => {
                chars.push(c);
                assert(chars@ + rest.remaining() =~= text@);
            },
            None => {
                assert(chars@ =~= text@);
                return chars;
            },
        }
    }
}

/// Whether `c` stands at index `pos` of `text`.
pub open spec fn follows(text: Seq<char>, pos: int, c: char) -> bool {
    0 <= pos < text.len() && text[pos] == c
}

/// A position in a program text.
#[derive(Debug)]
pub struct Lexer {
    /// The program text.
    program_text: Vec<char>,
    /// The index of the next character to read.
    here: usize,
}

impl Lexer {
    /// The whole program text.
    pub closed spec fn text(&self) -> Seq<char> {
        self.program_text@
    }

    /// The index of the next character to read.
    pub closed spec fn position(&self) -> int {
        self.here as int
    }

    /// The position lies within the text or at its end.
    pub closed spec fn wf(&self) -> bool {
        self.here <= self.program_text.len()
    }

    /// A cursor at the start of `contents`.
    pub fn new(contents: String) -> (lexer: Self)
        ensures
            lexer.wf(),
            lexer.text() == contents@,
            lexer.position() == 0,
    {
        Self { program_text: chars_of(contents.as_str()), here: 0 }
    }

    /// The number of characters in the text.
    pub fn len(&self) -> (n: usize)
        ensures
            n == self.text().len(),
    {
        self.program_text.len()
    }

    /// The index of the next character to read.
    pub fn offset(&self) -> (pos: usize)
        ensures
            pos == self.position(),
    {
        self.here
    }

    /// Whether every character has been read.
    pub fn is_at_end(&self) -> (end: bool)
        ensures
            end == (self.position() >= self.text().len()),
    {
        self.here >= self.program_text.len()
    }

    /// The next character, which stays unread.
    pub fn peek(&self) -> (next: Option<char>)
        requires
            self.wf(),
        ensures
            next == if self.position() < self.text().len() {
                Some(self.text()[self.position()])
            } else {
                None
            },
    {
        if self.here < self.program_text.len() {
            Some(self.program_text[self.here])
        } else {
            None
        }
    }

    /// The character after the next one, which stays unread.
    pub fn peek_next(&self) -> (next: Option<char>)
        requires
            self.wf(),
        ensures
            next == if self.position() + 1 < self.text().len() {
                Some(self.text()[self.position() + 1])
            } else {
                None
            },
    {
        if self.here < self.program_text.len() && self.here + 1 < self.program_text.len() {
            Some(self.program_text[self.here + 1])
        } else {
            None
        }
    }

    /// Reads the next character.
    pub fn advance(&mut self) -> (c: char)
        requires
            old(self).wf(),
            old(self).position() < old(self).text().len(),
        ensures
            final(self).wf(),
            final(self).text() == old(self).text(),
            final(self).position() == old(self).position() + 1,
            c == old(self).text()[old(self).position()],
    {
        let c = self.program_text[self.here];
        self.here = self.here + 1;
        c
    }

    /// Reads the next character if it is `expected`, and says whether it did.
    pub fn is_match(&mut self, expected: char) -> (found: bool)
        requires
            old(self).wf(),
        ensures
            final(self).wf(),
            final(self).text() == old(self).text(),
            found == follows(old(self).text(), old(self).position(), expected),
            final(self).position() == old(self).position() + if found {
                1int
            } else {
                0int
            },
    {
        if self.here < self.program_text.len() && self.program_text[self.here] == expected {
            self.here = self.here + 1;
            true
        } else {
            false
        }
    }

    /// The characters from index `from` up to, not including, `to`, as a string.
    pub fn slice(&self, from: usize, to: usize) -> (s: String)
        requires
            from <= to <= self.text().len(),
        ensures
            s@ == self.text().subrange(from as int, to as int),
    {
        let mut s = String::new();
        let mut i: usize = from;
        while i < to
            invariant
                from <= i <= to <= self.program_text.len(),
                s@ == self.program_text@.subrange(from as int, i as int),
            decreases to - i,
        {
            s.push(self.program_text[i]);
            i += 1;
            assert(s@ =~= self.program_text@.subrange(from as int, i as int));
        }
        s
    }

    /// Whether the characters from `from` up to `to` spell `word`.
    pub fn spells(&self, from: usize, to: usize, word: &str) -> (same: bool)
        requires
            from <= to <= self.text().len(),
        ensures
            same == (self.text().subrange(from as int, to as int) == word@),
    {
        let n: usize = word.unicode_len();
        if to - from != n {
            return false;
        }
        let mut i: usize = 0;
        while i < n
            invariant
                from + n == to <= self.program_text.len(),
                i <= n,
                n == word@.len(),
                forall|j: int|
                    0 <= j < i ==> self.program_text@[from + j] == #[trigger] word@[j],
            decreases n - i,
        {
            if self.program_text[from + i] != word.get_char(i) {
                assert(self.program_text@.subrange(from as int, to as int)[i as int]
                    != word@[i as int]);
                return false;
            }
            i += 1;
        }
        assert(self.program_text@.subrange(from as int, to as int) =~= word@);
        true
    }
}

} // verus!

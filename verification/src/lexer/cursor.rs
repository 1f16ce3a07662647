//! A scanning primitive over source text: the current character, its byte
//! offset, and one character of lookahead. It knows nothing about tokens.
use crate::lexer::encoding::{
    byte_offset, lemma_encode_injective, lemma_encode_split, lemma_offset_ends,
    lemma_offset_in_prefix, lemma_offset_is_boundary, lemma_offset_monotonic, lemma_offset_step,
    utf8_width,
};
use vstd::prelude::*;
use vstd::utf8::encode_utf8;

verus! {

/// The character at position `pos` of `text`, or NUL once `pos` is past the end.
pub open spec fn char_at(text: Seq<char>, pos: int) -> char {
    if 0 <= pos < text.len() {
        text[pos]
    } else {
        '\0'
    }
}

/// The character that follows position `pos`, if there is one.
pub open spec fn char_after(text: Seq<char>, pos: int) -> Option<char> {
    if 0 <= pos + 1 < text.len() {
        Some(text[pos + 1])
    } else {
        None
    }
}

/// A remembered place in a text, from which a slice can later be cut.
#[derive(Clone, Copy)]
pub struct Mark {
    offset: usize,
    index: Ghost<nat>,
}

impl Mark {
    /// The position of the mark, counted in characters.
    pub closed spec fn index(&self) -> nat {
        self.index@
    }

    /// The mark names a character position of `text` together with its byte offset.
    pub closed spec fn fits(&self, text: Seq<char>) -> bool {
        &&& self.index@ <= text.len()
        &&& self.offset == byte_offset(text, self.index@ as int)
    }
}

/// A forward-only cursor over a borrowed text.
pub struct Cursor<'a> {
    input: &'a str,
    len: usize,
    c: char,
    ci: usize,
    pos: Ghost<nat>,
}

/// Decodes the character that starts at byte `off`, the offset of character `k`.
fn decode_at(input: &str, off: usize, Ghost(k): Ghost<nat>) -> (r: Option<char>)
    requires
        k <= input@.len(),
        off == byte_offset(input@, k as int),
    ensures
        r == if k < input@.len() {
            Some(input@[k as int])
        } else {
            None
        },
{
    proof {
        lemma_offset_is_boundary(input@, k as int);
        lemma_encode_split(input@, k as int);
    }
    let (_, rest) = input.split_at(off);
    proof {
        lemma_encode_injective(rest@, input@.skip(k as int));
    }
    let mut chars = rest.chars();
    chars.next()
}

impl<'a> Cursor<'a> {
    /// The text that the cursor runs over.
    pub closed spec fn text(&self) -> Seq<char> {
        self.input@
    }

    /// The position of the current character, counted in characters.
    pub closed spec fn pos(&self) -> nat {
        self.pos@
    }

    /// The cursor's fields agree with each other and with the text.
    pub closed spec fn wf(&self) -> bool {
        &&& self.len == encode_utf8(self.input@).len()
        &&& self.pos@ <= self.input@.len()
        &&& self.ci == byte_offset(self.input@, self.pos@ as int)
        &&& self.c == char_at(self.input@, self.pos@ as int)
    }

    /// A well-formed cursor stays within its text, whose length fits the machine.
    pub proof fn lemma_bounds(&self)
        requires
            self.wf(),
        ensures
            self.pos() <= self.text().len() <= usize::MAX,
    {
        lemma_offset_ends(self.input@);
    }

    /// A cursor on the first character of `input`.
    pub fn new(input: &'a str) -> (cursor: Cursor<'a>)
        ensures
            cursor.wf(),
            cursor.text() == input@,
            cursor.pos() == 0,
    {
        let len = input.as_bytes().len();
        let c = match decode_at(input, 0, Ghost(0)) {
            Some(c) => c,
            None => '\0',
        };
        Cursor { input, len, c, ci: 0, pos: Ghost(0) }
    }

    /// The current character, or NUL at the end of the text.
    pub fn current(&self) -> (c: char)
        requires
            self.wf(),
        ensures
            c == char_at(self.text(), self.pos() as int),
    {
        self.c
    }

    /// The byte offset of the current character.
    pub fn offset(&self) -> (off: usize)
        requires
            self.wf(),
        ensures
            off == byte_offset(self.text(), self.pos() as int),
    {
        self.ci
    }

    /// Whether every character has been consumed.
    pub fn is_at_end(&self) -> (end: bool)
        requires
            self.wf(),
        ensures
            end == (self.pos() == self.text().len()),
    {
        proof {
            lemma_offset_ends(self.input@);
            lemma_offset_monotonic(self.input@, self.pos@ as int, self.input@.len() as int);
        }
        self.ci >= self.len
    }

    /// Moves to the next character; at the end of the text the cursor stays where it is.
    pub fn advance(&mut self)
        requires
            old(self).wf(),
        ensures
            final(self).wf(),
            final(self).text() == old(self).text(),
            final(self).pos() == if old(self).pos() < old(self).text().len() {
                old(self).pos() + 1
            } else {
                old(self).pos()
            },
    {
        if !self.is_at_end() {
            proof {
                lemma_offset_step(self.input@, self.pos@ as int);
            }
            let next = self.ci + utf8_width(self.c);
            self.c = match decode_at(self.input, next, Ghost(self.pos@ + 1)) {
                Some(c) => c,
                None => '\0',
            };
            self.ci = next;
            self.pos = Ghost(self.pos@ + 1);
        }
    }

    /// The character after the current one, without consuming anything.
    pub fn peek(&self) -> (next: Option<char>)
        requires
            self.wf(),
        ensures
            next == char_after(self.text(), self.pos() as int),
    {
        if self.is_at_end() {
            None
        } else {
            proof {
                lemma_offset_step(self.input@, self.pos@ as int);
            }
            decode_at(self.input, self.ci + utf8_width(self.c), Ghost(self.pos@ + 1))
        }
    }

    /// Remembers the current position.
    pub fn mark(&self) -> (m: Mark)
        requires
            self.wf(),
        ensures
            m.fits(self.text()),
            m.index() == self.pos(),
    {
        Mark { offset: self.ci, index: self.pos }
    }

    /// The text between two marks, borrowed from the input.
    pub fn between(&self, from: Mark, to: Mark) -> (s: &'a str)
        requires
            self.wf(),
            from.fits(self.text()),
            to.fits(self.text()),
            from.index() <= to.index(),
        ensures
            s@ == self.text().subrange(from.index() as int, to.index() as int),
    {
        let ghost text = self.input@;
        let ghost i = from.index@ as int;
        let ghost j = to.index@ as int;
        proof {
            lemma_offset_is_boundary(text, j);
            lemma_encode_split(text, j);
        }
        let (head, _) = self.input.split_at(to.offset);
        proof {
            lemma_encode_injective(head@, text.take(j));
            lemma_offset_in_prefix(text, i, j);
            lemma_offset_is_boundary(head@, i);
            lemma_encode_split(head@, i);
        }
        let (_, s) = head.split_at(from.offset);
        proof {
            lemma_encode_injective(s@, head@.skip(i));
        }
        s
    }
}

} // verus!

use vstd::prelude::*;
use vstd::string::StrSliceExecFns;

verus! {

/// A character stream over a text span: it yields the Unicode scalar values
/// of the text one at a time, with one-step lookahead. The view of a stream
/// is the sequence of characters it has not yet consumed.
pub struct CharStream {
    chars: Vec<char>,
    pos: usize,
}

impl View for CharStream {
    type V = Seq<char>;

    closed spec fn view(&self) -> Seq<char> {
        self.chars@.skip(self.pos as int)
    }
}

impl CharStream {
    #[verifier::type_invariant]
    spec fn inv(self) -> bool {
        self.pos <= self.chars@.len()
    }

    /// A stream holding all characters of `text`.
    pub fn new(text: &str) -> (s: CharStream)
        ensures
            s@ == text@,
    {
        let n: usize = text.unicode_len();
        let mut chars: Vec<char> = Vec::new();
        proof {
            assert(chars@ =~= text@.take(0));
        }
        let mut i: usize = 0;
        while i < n
            invariant
                i <= n,
                n == text@.len(),
                chars@ == text@.take(i as int),
            decreases n - i,
        {
            let c = text.get_char(i);
            chars.push(c);
            i = i + 1;
            proof {
                assert(chars@ =~= text@.take(i as int));
            }
        }
        proof {
            assert(text@.take(n as int) =~= text@);
            assert(chars@.skip(0) =~= chars@);
        }
        CharStream { chars, pos: 0 }
    }

    /// The next character, without consuming it. Two calls in a row return
    /// the same value, since the stream is not changed.
    pub fn peek(&self) -> (r: Option<char>)
        ensures
            self@.len() > 0 ==> r == Some(self@[0]),
            self@.len() == 0 ==> r is None,
    {
        proof {
            use_type_invariant(&*self);
        }
        if self.pos < self.chars.len() {
            Some(self.chars[self.pos])
        } else {
            None
        }
    }

    /// Consumes and returns the next character; `None` once the text is
    /// exhausted.
    pub fn advance(&mut self) -> (r: Option<char>)
        ensures
            old(self)@.len() > 0 ==> r == Some(old(self)@[0]) && final(self)@ == old(self)@.drop_first(),
            old(self)@.len() == 0 ==> r is None && final(self)@ == old(self)@,
    {
        proof {
            use_type_invariant(&*self);
        }
        if self.pos < self.chars.len() {
            let c = self.chars[self.pos];
            self.pos = self.pos + 1;
            proof {
                assert(self@ =~= old(self)@.drop_first());
            }
            Some(c)
        } else {
            None
        }
    }
}

} // verus!

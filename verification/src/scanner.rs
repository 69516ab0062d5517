//! A character scanner over one token, with one character of lookahead.

use vstd::prelude::*;
use vstd::string::StrSliceExecFns;

verus! {

/// A cursor over the characters of one token.
///
/// `current` inspects the character under the cursor without consuming it;
/// `next` consumes it.  The character count of the token is computed once at
/// construction, so every later operation is cheap to reason about.
pub(crate) struct CharIter<'a> {
    pub(crate) token: &'a str,
    pub(crate) len: usize,
    pub(crate) pos: usize,
}

impl<'a> CharIter<'a> {
    /// `len` caches the token's character count and the cursor never runs
    /// past the end of the token.
    pub(crate) open spec fn wf(self) -> bool {
        self.len == self.token@.len() && self.pos <= self.len
    }

    /// The whole token being scanned.
    pub(crate) open spec fn spec_token(self) -> Seq<char> {
        self.token@
    }

    /// Where the cursor stands.
    pub(crate) open spec fn spec_pos(self) -> int {
        self.pos as int
    }

    /// The characters not yet consumed, the lookahead character first.
    pub(crate) open spec fn remaining(self) -> Seq<char> {
        self.token@.skip(self.pos as int)
    }

    pub(crate) fn new(token: &'a str) -> (r: Self)
        ensures
            r.wf(),
            r.spec_token() == token@,
            r.spec_pos() == 0,
            r.remaining() == token@,
    {
        let len = token.unicode_len();
        let r = CharIter { token, len, pos: 0 };
        proof {
            assert(r.remaining() =~= token@);
        }
        r
    }

    /// The lookahead character, or `None` once the token is exhausted.
    pub(crate) fn current(&self) -> (c: Option<char>)
        requires
            self.wf(),
        ensures
            match c {
                Some(ch) => self.remaining().len() > 0 && ch == self.remaining()[0],
                None => self.remaining().len() == 0,
            },
    {
        if self.pos < self.len {
            Some(self.token.get_char(self.pos))
        } else {
            None
        }
    }

    /// Discard the lookahead character; at the end of the token this does
    /// nothing.
    pub(crate) fn next(&mut self)
        requires
            old(self).wf(),
        ensures
            final(self).wf(),
            final(self).spec_token() == old(self).spec_token(),
            old(self).remaining().len() > 0 ==> final(self).spec_pos() == old(self).spec_pos() + 1
                && final(self).remaining() == old(self).remaining().skip(1),
            old(self).remaining().len() == 0 ==> *final(self) == *old(self),
    {
        if self.pos < self.len {
            self.pos = self.pos + 1;
            proof {
                assert(self.remaining() =~= old(self).remaining().skip(1));
            }
        }
    }

    /// The cursor's position, in characters from the start of the token.
    pub(crate) fn pos(&self) -> (p: usize)
        ensures
            p == self.spec_pos(),
    {
        self.pos
    }

    /// The token's character count.
    pub(crate) fn token_len(&self) -> (n: usize)
        requires
            self.wf(),
        ensures
            n == self.spec_token().len(),
    {
        self.len
    }

    /// Move the cursor past the last character of the token.
    pub(crate) fn skip_to_end(&mut self)
        requires
            old(self).wf(),
        ensures
            final(self).wf(),
            final(self).spec_token() == old(self).spec_token(),
            final(self).remaining().len() == 0,
    {
        self.pos = self.len;
        proof {
            assert(self.remaining() =~= Seq::<char>::empty());
        }
    }

    /// Copy the characters from position `from` up to (excluding) `to` out
    /// of the token.
    pub(crate) fn substring(&self, from: usize, to: usize) -> (r: String)
        requires
            self.wf(),
            from <= to <= self.spec_token().len(),
        ensures
            r@ == self.spec_token().subrange(from as int, to as int),
    {
        self.token.substring_char(from, to).to_owned()
    }
}

} // verus!

//! The lexer: turns a text buffer into a sequence of tokens.
//!
//! Rules: `[` and `]` are single-character tokens; whitespace is skipped
//! between tokens; a token starting with `"` runs to the next `"`
//! inclusive, or to end of input when unterminated; a token starting with
//! `#` runs to end of line and may be filtered out by a caller-set mode;
//! any other token runs until whitespace, quote, or bracket.
use vstd::prelude::*;
use vstd::string::StrSliceExecFns;

use crate::token::Token;

verus! {

pub open spec fn is_space_char(c: char) -> bool {
    c == ' ' || c == '\n' || c == '\t' || c == '\r'
}

pub open spec fn is_line_end(c: char) -> bool {
    c == '\n' || c == '\r'
}

/// Characters that end a bare (unquoted, unbracketed) token.
pub open spec fn is_bare_end(c: char) -> bool {
    is_space_char(c) || c == '"' || c == '[' || c == ']'
}

pub open spec fn p_quote() -> spec_fn(char) -> bool {
    |c: char| c == '"'
}

pub open spec fn p_line_end() -> spec_fn(char) -> bool {
    |c: char| is_line_end(c)
}

pub open spec fn p_bare_end() -> spec_fn(char) -> bool {
    |c: char| is_bare_end(c)
}

/// The least index at or past `from` whose character satisfies `p`, or
/// the buffer's length when there is none.
pub open spec fn find_from(s: Seq<char>, from: int, p: spec_fn(char) -> bool) -> int
    decreases s.len() - from,
    when 0 <= from <= s.len()
{
    if from >= s.len() {
        s.len() as int
    } else if p(s[from]) {
        from
    } else {
        find_from(s, from + 1, p)
    }
}

pub proof fn lemma_find_from(s: Seq<char>, from: int, p: spec_fn(char) -> bool)
    requires
        0 <= from <= s.len(),
    ensures
        from <= find_from(s, from, p) <= s.len(),
        forall|j: int| from <= j < find_from(s, from, p) ==> !p(#[trigger] s[j]),
        find_from(s, from, p) < s.len() ==> p(s[find_from(s, from, p)]),
    decreases s.len() - from,
{
    if from < s.len() && !p(s[from]) {
        lemma_find_from(s, from + 1, p);
    }
}

/// The start of the next token at or past `from`: whitespace is skipped,
/// and with `skip` set, comments are skipped as well.
pub open spec fn next_start(s: Seq<char>, from: int, skip: bool) -> int
    decreases s.len() - from,
    when 0 <= from <= s.len()
{
    if from >= s.len() {
        s.len() as int
    } else if is_space_char(s[from]) {
        next_start(s, from + 1, skip)
    } else if skip && s[from] == '#' {
        proof {
            lemma_find_from(s, from + 1, p_line_end());
        }
        next_start(s, find_from(s, from + 1, p_line_end()), skip)
    } else {
        from
    }
}

pub proof fn lemma_next_start(s: Seq<char>, from: int, skip: bool)
    requires
        0 <= from <= s.len(),
    ensures
        from <= next_start(s, from, skip) <= s.len(),
        next_start(s, from, skip) < s.len() ==> {
            &&& !is_space_char(s[next_start(s, from, skip)])
            &&& (skip ==> s[next_start(s, from, skip)] != '#')
        },
    decreases s.len() - from,
{
    if from < s.len() {
        if is_space_char(s[from]) {
            lemma_next_start(s, from + 1, skip);
        } else if skip && s[from] == '#' {
            lemma_find_from(s, from + 1, p_line_end());
            lemma_next_start(s, find_from(s, from + 1, p_line_end()), skip);
        }
    }
}

/// Where the token that starts at `i` ends (exclusive).
pub open spec fn token_end(s: Seq<char>, i: int) -> int {
    if s[i] == '[' || s[i] == ']' {
        i + 1
    } else if s[i] == '"' {
        let j = find_from(s, i + 1, p_quote());
        if j < s.len() {
            j + 1
        } else {
            s.len() as int
        }
    } else if s[i] == '#' {
        find_from(s, i + 1, p_line_end())
    } else {
        find_from(s, i + 1, p_bare_end())
    }
}

pub proof fn lemma_token_end(s: Seq<char>, i: int)
    requires
        0 <= i < s.len(),
    ensures
        i < token_end(s, i) <= s.len(),
{
    lemma_find_from(s, i + 1, p_quote());
    lemma_find_from(s, i + 1, p_line_end());
    lemma_find_from(s, i + 1, p_bare_end());
}

/// The token texts of the buffer from position `from` on.
pub open spec fn tokens_from(s: Seq<char>, from: int, skip: bool) -> Seq<Seq<char>>
    decreases s.len() - from,
    when 0 <= from <= s.len()
{
    let i = next_start(s, from, skip);
    proof {
        lemma_next_start(s, from, skip);
    }
    if i >= s.len() {
        Seq::empty()
    } else {
        proof {
            lemma_token_end(s, i);
        }
        seq![s.subrange(i, token_end(s, i))] + tokens_from(s, token_end(s, i), skip)
    }
}

/// All token texts of a buffer. The sequence is a function of the buffer
/// and the skip mode alone: identical buffers always lex identically.
pub open spec fn spec_tokens(s: Seq<char>, skip: bool) -> Seq<Seq<char>> {
    tokens_from(s, 0, skip)
}

proof fn lemma_tokens_from_no_comment(s: Seq<char>, from: int, k: int)
    requires
        0 <= from <= s.len(),
        0 <= k < tokens_from(s, from, true).len(),
    ensures
        tokens_from(s, from, true)[k].len() > 0,
        tokens_from(s, from, true)[k][0] != '#',
    decreases s.len() - from,
{
    let i = next_start(s, from, true);
    lemma_next_start(s, from, true);
    assert(i < s.len());
    lemma_token_end(s, i);
    if k == 0 {
        assert(tokens_from(s, from, true)[0] == s.subrange(i, token_end(s, i)));
        assert(s.subrange(i, token_end(s, i))[0] == s[i]);
    } else {
        lemma_tokens_from_no_comment(s, token_end(s, i), k - 1);
    }
}

/// With comment skipping enabled, every emitted token is non-empty and
/// none begins with `#`.
pub proof fn lemma_no_comment_tokens(s: Seq<char>, k: int)
    requires
        0 <= k < spec_tokens(s, true).len(),
    ensures
        spec_tokens(s, true)[k].len() > 0,
        spec_tokens(s, true)[k][0] != '#',
{
    lemma_tokens_from_no_comment(s, 0, k);
}

/// A lazy, finite, non-restartable token stream over one buffer.
pub struct Tokenizer {
    text: String,
    chars: Vec<char>,
    pos: usize,
    skip_comments: bool,
}

impl Tokenizer {
    /// The buffer being lexed.
    pub closed spec fn buf(&self) -> Seq<char> {
        self.chars@
    }

    /// The current position of the stream in the buffer.
    pub closed spec fn at(&self) -> int {
        self.pos as int
    }

    /// Whether comment tokens are filtered out.
    pub closed spec fn skipping(&self) -> bool {
        self.skip_comments
    }

    pub closed spec fn wf(&self) -> bool {
        self.text@ == self.chars@ && self.pos <= self.chars.len()
    }

    /// The token texts this stream has yet to emit.
    pub open spec fn remaining(&self) -> Seq<Seq<char>> {
        tokens_from(self.buf(), self.at(), self.skipping())
    }

    /// The stream position always lies within the buffer.
    pub proof fn lemma_position_in_buffer(&self)
        requires
            self.wf(),
        ensures
            0 <= self.at() <= self.buf().len(),
    {
    }

    pub fn new(s: &str) -> (t: Tokenizer)
        ensures
            t.wf(),
            t.buf() == s@,
            t.at() == 0,
            !t.skipping(),
    {
        Tokenizer {
            text: s.to_owned(),
            chars: crate::text::str_chars(s),
            pos: 0,
            skip_comments: false,
        }
    }

    /// Skip comment tokens when iterating.
    pub fn skip_comments(&mut self)
        requires
            old(self).wf(),
        ensures
            final(self).wf(),
            final(self).buf() == old(self).buf(),
            final(self).at() == old(self).at(),
            final(self).skipping(),
    {
        self.skip_comments = true;
    }

    fn scan_quote(&self, from: usize) -> (r: usize)
        requires
            self.wf(),
            from <= self.chars.len(),
        ensures
            r == find_from(self.buf(), from as int, p_quote()),
    {
        let n = self.chars.len();
        let mut i: usize = from;
        while i < n
            invariant
                from <= i <= n,
                n == self.chars.len(),
                find_from(self.buf(), from as int, p_quote()) == find_from(
                    self.buf(),
                    i as int,
                    p_quote(),
                ),
            decreases n - i,
        {
            if self.chars[i] == '"' {
                return i;
            }
            i = i + 1;
        }
        n
    }

    fn scan_line_end(&self, from: usize) -> (r: usize)
        requires
            self.wf(),
            from <= self.chars.len(),
        ensures
            r == find_from(self.buf(), from as int, p_line_end()),
    {
        let n = self.chars.len();
        let mut i: usize = from;
        while i < n
            invariant
                from <= i <= n,
                n == self.chars.len(),
                find_from(self.buf(), from as int, p_line_end()) == find_from(
                    self.buf(),
                    i as int,
                    p_line_end(),
                ),
            decreases n - i,
        {
            let c = self.chars[i];
            if c == '\n' || c == '\r' {
                return i;
            }
            i = i + 1;
        }
        n
    }

    fn scan_bare_end(&self, from: usize) -> (r: usize)
        requires
            self.wf(),
            from <= self.chars.len(),
        ensures
            r == find_from(self.buf(), from as int, p_bare_end()),
    {
        let n = self.chars.len();
        let mut i: usize = from;
        while i < n
            invariant
                from <= i <= n,
                n == self.chars.len(),
                find_from(self.buf(), from as int, p_bare_end()) == find_from(
                    self.buf(),
                    i as int,
                    p_bare_end(),
                ),
            decreases n - i,
        {
            let c = self.chars[i];
            if c == ' ' || c == '\n' || c == '\t' || c == '\r' || c == '"' || c == '[' || c == ']' {
                return i;
            }
            i = i + 1;
        }
        n
    }

    /// The next token, without consuming it.
    pub fn peek(&self) -> (r: Option<Token>)
        requires
            self.wf(),
        ensures
            match r {
                None => self.remaining().len() == 0,
                Some(t) => self.remaining().len() > 0 && t@ == self.remaining()[0],
            },
    {
        let ghost s = self.chars@;
        let ghost skip = self.skip_comments;
        let mut p: usize = self.pos;
        loop
            invariant
                self.wf(),
                s == self.chars@,
                skip == self.skip_comments,
                self.pos <= p <= s.len(),
                next_start(s, self.pos as int, skip) == next_start(s, p as int, skip),
            decreases s.len() - p,
        {
            if p == self.chars.len() {
                return None;
            }
            let c = self.chars[p];
            if c == ' ' || c == '\n' || c == '\t' || c == '\r' {
                p = p + 1;
            } else if self.skip_comments && c == '#' {
                let e = self.scan_line_end(p + 1);
                proof {
                    lemma_find_from(s, p + 1, p_line_end());
                }
                p = e;
            } else {
                let start = p;
                let end: usize;
                if c == '[' || c == ']' {
                    end = start + 1;
                } else if c == '"' {
                    let j = self.scan_quote(start + 1);
                    proof {
                        lemma_find_from(s, start + 1, p_quote());
                    }
                    end = if j < self.chars.len() {
                        j + 1
                    } else {
                        self.chars.len()
                    };
                } else if c == '#' {
                    end = self.scan_line_end(start + 1);
                    proof {
                        lemma_find_from(s, start + 1, p_line_end());
                    }
                } else {
                    end = self.scan_bare_end(start + 1);
                    proof {
                        lemma_find_from(s, start + 1, p_bare_end());
                    }
                }
                proof {
                    assert(start == next_start(s, self.pos as int, skip));
                    assert(end == token_end(s, start as int));
                }
                let t = Token::new(self.text.as_str().substring_char(start, end));
                return Some(t);
            }
        }
    }

    /// Emit the next token, or `None` when the buffer is exhausted.
    pub fn next(&mut self) -> (r: Option<Token>)
        requires
            old(self).wf(),
        ensures
            final(self).wf(),
            final(self).buf() == old(self).buf(),
            final(self).skipping() == old(self).skipping(),
            ({
                let s = old(self).buf();
                let i = next_start(s, old(self).at(), old(self).skipping());
                match r {
                    None => i >= s.len() && final(self).at() == s.len(),
                    Some(t) => {
                        &&& i < s.len()
                        &&& t@ == s.subrange(i, token_end(s, i))
                        &&& t@.len() > 0
                        &&& final(self).at() == token_end(s, i)
                    },
                }
            }),
            old(self).remaining() == (match r {
                None => Seq::<Seq<char>>::empty(),
                Some(t) => seq![t@] + final(self).remaining(),
            }),
    {
        let ghost s = self.chars@;
        let ghost from0 = self.pos as int;
        let ghost skip = self.skip_comments;
        loop
            invariant
                self.wf(),
                s == old(self).buf(),
                from0 == old(self).at(),
                skip == old(self).skipping(),
                self.chars@ == s,
                self.skip_comments == skip,
                from0 <= self.pos <= s.len(),
                next_start(s, from0, skip) == next_start(s, self.pos as int, skip),
            decreases s.len() - self.pos,
        {
            if self.pos == self.chars.len() {
                return None;
            }
            let c = self.chars[self.pos];
            if c == ' ' || c == '\n' || c == '\t' || c == '\r' {
                self.pos = self.pos + 1;
            } else if self.skip_comments && c == '#' {
                let e = self.scan_line_end(self.pos + 1);
                proof {
                    lemma_find_from(s, self.pos + 1, p_line_end());
                }
                self.pos = e;
            } else {
                let start = self.pos;
                proof {
                    assert(start == next_start(s, from0, skip));
                }
                let end: usize;
                if c == '[' || c == ']' {
                    end = start + 1;
                } else if c == '"' {
                    let j = self.scan_quote(start + 1);
                    proof {
                        lemma_find_from(s, start + 1, p_quote());
                    }
                    end = if j < self.chars.len() {
                        j + 1
                    } else {
                        self.chars.len()
                    };
                } else if c == '#' {
                    end = self.scan_line_end(start + 1);
                    proof {
                        lemma_find_from(s, start + 1, p_line_end());
                    }
                } else {
                    end = self.scan_bare_end(start + 1);
                    proof {
                        lemma_find_from(s, start + 1, p_bare_end());
                    }
                }
                proof {
                    assert(end == token_end(s, start as int));
                }
                self.pos = end;
                let t = Token::new(self.text.as_str().substring_char(start, end));
                return Some(t);
            }
        }
    }
}

} // verus!

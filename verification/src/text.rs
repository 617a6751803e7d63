//! Characters, white space and tokens.
//!
//! A schedule expression is a sequence of tokens: the maximal runs of characters
//! that are not white space. White space is the set of characters that carry the
//! Unicode property `White_Space`.

use vstd::prelude::*;
use vstd::std_specs::iter::IteratorSpec;

verus! {

/// Whether `c` carries the Unicode property `White_Space`.
pub open spec fn is_space(c: char) -> bool {
    let u = c as u32;
    ||| 0x09 <= u <= 0x0D
    ||| u == 0x20
    ||| u == 0x85
    ||| u == 0xA0
    ||| u == 0x1680
    ||| 0x2000 <= u <= 0x200A
    ||| u == 0x2028
    ||| u == 0x2029
    ||| u == 0x202F
    ||| u == 0x205F
    ||| u == 0x3000
}

/// The first position at or after `i` that holds no white space; the length of
/// `s` where there is none.
pub open spec fn skip_spaces(s: Seq<char>, i: int) -> int
    decreases s.len() - i,
{
    if 0 <= i < s.len() && is_space(s[i]) {
        skip_spaces(s, i + 1)
    } else {
        i
    }
}

/// The first position at or after `i` that holds white space; the length of `s`
/// where there is none.
pub open spec fn token_end(s: Seq<char>, i: int) -> int
    decreases s.len() - i,
{
    if 0 <= i < s.len() && !is_space(s[i]) {
        token_end(s, i + 1)
    } else {
        i
    }
}

/// The tokens of `s` that start at or after position `i`, in order.
pub open spec fn tokens_from(s: Seq<char>, i: int) -> Seq<Seq<char>>
    decreases s.len() - i,
{
    let start = skip_spaces(s, i);
    if 0 <= i && start < s.len() {
        let end = token_end(s, start + 1);
        proof {
            lemma_skip_spaces(s, i);
            lemma_token_end(s, start + 1);
        }
        seq![s.subrange(start, end)] + tokens_from(s, end)
    } else {
        Seq::empty()
    }
}

/// The tokens of `s`: its maximal runs of characters that are not white space.
pub open spec fn tokens(s: Seq<char>) -> Seq<Seq<char>> {
    tokens_from(s, 0)
}

/// `skip_spaces` moves forward, stays within `s`, passes white space only and
/// stops at a character that is none.
pub proof fn lemma_skip_spaces(s: Seq<char>, i: int)
    requires
        0 <= i,
    ensures
        i <= skip_spaces(s, i),
        i <= s.len() ==> skip_spaces(s, i) <= s.len(),
        forall|k: int| i <= k < skip_spaces(s, i) ==> is_space(#[trigger] s[k]),
        skip_spaces(s, i) < s.len() ==> !is_space(s[skip_spaces(s, i)]),
    decreases s.len() - i,
{
    if i < s.len() && is_space(s[i]) {
        lemma_skip_spaces(s, i + 1);
    }
}

/// `token_end` moves forward, stays within `s`, passes no white space and stops
/// at white space.
pub proof fn lemma_token_end(s: Seq<char>, i: int)
    requires
        0 <= i,
    ensures
        i <= token_end(s, i),
        i <= s.len() ==> token_end(s, i) <= s.len(),
        forall|k: int| i <= k < token_end(s, i) ==> !is_space(#[trigger] s[k]),
        token_end(s, i) < s.len() ==> is_space(s[token_end(s, i)]),
    decreases s.len() - i,
{
    if i < s.len() && !is_space(s[i]) {
        lemma_token_end(s, i + 1);
    }
}

/// Every token is a run of one character or more, none of them white space,
/// that stands in the text.
pub proof fn lemma_tokens_from(s: Seq<char>, i: int)
    requires
        0 <= i,
    ensures
        forall|k: int|
            0 <= k < tokens_from(s, i).len() ==> {
                let token = #[trigger] tokens_from(s, i)[k];
                &&& token.len() > 0
                &&& forall|j: int| 0 <= j < token.len() ==> !is_space(#[trigger] token[j])
            },
    decreases s.len() - i,
{
    let start = skip_spaces(s, i);
    lemma_skip_spaces(s, i);
    if start < s.len() {
        let end = token_end(s, start + 1);
        lemma_token_end(s, start + 1);
        lemma_tokens_from(s, end);
        let first = s.subrange(start, end);
        let rest = tokens_from(s, end);
        assert forall|k: int| 0 <= k < tokens_from(s, i).len() implies {
            let token = #[trigger] tokens_from(s, i)[k];
            &&& token.len() > 0
            &&& forall|j: int| 0 <= j < token.len() ==> !is_space(#[trigger] token[j])
        } by {
            if k == 0 {
                assert(tokens_from(s, i)[0] == first);
                assert forall|j: int| 0 <= j < first.len() implies !is_space(
                    #[trigger] first[j],
                ) by {
                    assert(first[j] == s[start + j]);
                }
            } else {
                assert(tokens_from(s, i)[k] == rest[k - 1]);
            }
        }
    }
}

/// A text of white space only, and the empty text, have no tokens.
pub proof fn lemma_no_tokens(s: Seq<char>)
    requires
        forall|i: int| 0 <= i < s.len() ==> is_space(#[trigger] s[i]),
    ensures
        tokens(s).len() == 0,
{
    lemma_skip_spaces(s, 0);
    let start = skip_spaces(s, 0);
    if start < s.len() {
        assert(is_space(s[start]));
    }
}

/// Whether `c` carries the Unicode property `White_Space`.
pub fn is_whitespace(c: char) -> (r: bool)
    ensures
        r == is_space(c),
{
    let u: u32 = c as u32;
    (0x09 <= u && u <= 0x0D) || u == 0x20 || u == 0x85 || u == 0xA0 || u == 0x1680 || (0x2000 <= u
        && u <= 0x200A) || u == 0x2028 || u == 0x2029 || u == 0x202F || u == 0x205F || u == 0x3000
}

/// The characters of `text`, in order.
pub fn to_chars(text: &str) -> (chars: Vec<char>)
    ensures
        chars@ == text@,
{
    let mut chars: Vec<char> = Vec::new();
    let mut it = text.chars();
    loop
        invariant
            it.obeys_prophetic_iter_laws(),
            it.decrease() is Some,
            chars@ + it.remaining() == text@,
        ensures
            chars@ == text@,
        decreases it.decrease()->0,
    {
        match it.next() {
            Some(c) => {
                chars.push(c);
                assert(chars@ + it.remaining() =~= text@);
            },
            None => {
                assert(chars@ + it.remaining() =~= chars@);
                break ;
            },
        }
    }
    chars
}

/// Whether `token` and `word` hold the same characters.
pub fn token_is(token: &str, word: &str) -> (r: bool)
    ensures
        r == (token@ == word@),
{
    let n: usize = word.unicode_len();
    if token.unicode_len() != n {
        return false;
    }
    let mut i: usize = 0;
    while i < n
        invariant
            i <= n,
            n == word@.len(),
            n == token@.len(),
            forall|k: int| 0 <= k < i ==> token@[k] == word@[k],
        decreases n - i,
    {
        if token.get_char(i) != word.get_char(i) {
            return false;
        }
        i += 1;
    }
    assert(token@ =~= word@);
    true
}

/// A cursor over the tokens of a text, from left to right.
pub struct Tokens<'a> {
    text: &'a str,
    chars: Vec<char>,
    pos: usize,
}

impl<'a> View for Tokens<'a> {
    type V = Seq<Seq<char>>;

    /// The tokens that the cursor has not handed out yet.
    closed spec fn view(&self) -> Seq<Seq<char>> {
        tokens_from(self.text@, self.pos as int)
    }
}

impl<'a> Tokens<'a> {
    /// The cursor's fields agree with each other.
    #[verifier::type_invariant]
    spec fn inv(&self) -> bool {
        &&& self.chars@ == self.text@
        &&& self.pos <= self.chars.len()
    }

    /// A cursor in front of the first token of `text`.
    pub fn new(text: &'a str) -> (parts: Self)
        ensures
            parts@ == tokens(text@),
    {
        Tokens { text, chars: to_chars(text), pos: 0 }
    }

    /// Hands out the next token and moves behind it; `None` when no token is left.
    pub fn next(&mut self) -> (r: Option<&'a str>)
        ensures
            old(self)@.len() == 0 ==> r is None && final(self)@ == old(self)@,
            old(self)@.len() > 0 ==> r is Some && r->0@ == old(self)@[0] && final(self)@ == old(
                self,
            )@.drop_first(),
    {
        proof {
            use_type_invariant(&*self);
        }
        let n: usize = self.chars.len();
        let ghost s = self.text@;
        let ghost from = self.pos as int;
        let mut start: usize = self.pos;
        while start < n && is_whitespace(self.chars[start])
            invariant
                self.chars@ == s,
                self.text@ == s,
                n == s.len(),
                from <= start <= n,
                skip_spaces(s, start as int) == skip_spaces(s, from),
            decreases n - start,
        {
            start += 1;
        }
        if start >= n {
            self.pos = n;
            assert(tokens_from(s, n as int) =~= tokens_from(s, from));
            return None;
        }
        let mut end: usize = start + 1;
        while end < n && !is_whitespace(self.chars[end])
            invariant
                self.chars@ == s,
                self.text@ == s,
                n == s.len(),
                start < end <= n,
                token_end(s, end as int) == token_end(s, start + 1),
            decreases n - end,
        {
            end += 1;
        }
        let token = self.text.substring_char(start, end);
        self.pos = end;
        proof {
            assert(tokens_from(s, from) =~= seq![s.subrange(start as int, end as int)]
                + tokens_from(s, end as int));
            assert((seq![s.subrange(start as int, end as int)] + tokens_from(
                s,
                end as int,
            )).drop_first() =~= tokens_from(s, end as int));
        }
        Some(token)
    }
}

} // verus!

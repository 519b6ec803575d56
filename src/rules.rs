use vstd::prelude::*;

use crate::token::TokenKind;

verus! {

/// Letters, digits and underscore: the characters of an identifier.
pub open spec fn is_word_char(c: char) -> bool {
    ('a' <= c && c <= 'z') || ('A' <= c && c <= 'Z') || ('0' <= c && c <= '9') || c == '_'
}

/// The characters that may begin an identifier.
pub open spec fn is_word_start(c: char) -> bool {
    ('a' <= c && c <= 'z') || ('A' <= c && c <= 'Z') || c == '_'
}

pub open spec fn is_digit(c: char) -> bool {
    '0' <= c && c <= '9'
}

pub open spec fn is_space(c: char) -> bool {
    c == ' ' || c == '\t' || c == '\n' || c == '\r'
}

/// A class of characters that a rule consumes as a maximal run.
#[derive(Debug, Clone, Copy, PartialEq, Eq, Structural)]
pub enum CharClass {
    Word,
    Digit,
    Space,
    /// Any character but a newline.
    Line,
}

pub open spec fn in_class(c: char, k: CharClass) -> bool {
    match k {
        CharClass::Word => is_word_char(c),
        CharClass::Digit => is_digit(c),
        CharClass::Space => is_space(c),
        CharClass::Line => c != '\n',
    }
}

/// The length of the longest run of characters of class `k` in `s` starting at `i`.
pub open spec fn span(s: Seq<char>, i: int, k: CharClass) -> nat
    decreases s.len() - i,
{
    if 0 <= i < s.len() && in_class(s[i], k) {
        1 + span(s, i + 1, k)
    } else {
        0
    }
}

/// `w` occurs in `s` at `p` and is not followed by a word character.
pub open spec fn delimited_word(s: Seq<char>, p: int, w: Seq<char>) -> bool {
    &&& 0 <= p
    &&& p + w.len() <= s.len()
    &&& s.subrange(p, p + w.len()) == w
    &&& (p + w.len() == s.len() || !is_word_char(s[p + w.len()]))
}

pub open spec fn kw_int() -> Seq<char> {
    seq!['i', 'n', 't']
}

pub open spec fn kw_return() -> Seq<char> {
    seq!['r', 'e', 't', 'u', 'r', 'n']
}

pub open spec fn kw_if() -> Seq<char> {
    seq!['i', 'f']
}

pub open spec fn kw_while() -> Seq<char> {
    seq!['w', 'h', 'i', 'l', 'e']
}

pub open spec fn kw_for() -> Seq<char> {
    seq!['f', 'o', 'r']
}

pub open spec fn kw_void() -> Seq<char> {
    seq!['v', 'o', 'i', 'd']
}

/// The length of the reserved word that stands delimited at `p`, or 0.
pub open spec fn keyword_len(s: Seq<char>, p: int) -> nat {
    if delimited_word(s, p, kw_int()) {
        3
    } else if delimited_word(s, p, kw_return()) {
        6
    } else if delimited_word(s, p, kw_if()) {
        2
    } else if delimited_word(s, p, kw_while()) {
        5
    } else if delimited_word(s, p, kw_for()) {
        3
    } else if delimited_word(s, p, kw_void()) {
        4
    } else {
        0
    }
}

pub open spec fn identifier_len(s: Seq<char>, p: int) -> nat {
    if 0 <= p < s.len() && is_word_start(s[p]) {
        1 + span(s, p + 1, CharClass::Word)
    } else {
        0
    }
}

/// Scanning the body of a string literal from `i`: the offset just past the
/// closing quote, or 0 where the literal is not terminated.
pub open spec fn string_close(s: Seq<char>, i: int) -> nat
    decreases s.len() - i,
{
    if i < 0 || i >= s.len() {
        0
    } else if s[i] == '"' {
        (i + 1) as nat
    } else if s[i] == '\\' {
        if i + 1 < s.len() {
            string_close(s, i + 2)
        } else {
            0
        }
    } else {
        string_close(s, i + 1)
    }
}

pub open spec fn string_len(s: Seq<char>, p: int) -> nat {
    if 0 <= p < s.len() && s[p] == '"' && string_close(s, p + 1) > 0 {
        (string_close(s, p + 1) - p) as nat
    } else {
        0
    }
}

pub open spec fn is_two_char_operator(a: char, b: char) -> bool {
    (a == '=' && b == '=') || (a == '!' && b == '=') || (a == '>' && b == '=') || (a == '<' && b
        == '=') || (a == '&' && b == '&') || (a == '|' && b == '|')
}

pub open spec fn is_one_char_operator(c: char) -> bool {
    c == '+' || c == '-' || c == '>' || c == '<' || c == '='
}

/// The length of the longest symbol of the operator set that stands at `p`, or 0.
pub open spec fn operator_len(s: Seq<char>, p: int) -> nat {
    if 0 <= p && p + 1 < s.len() && is_two_char_operator(s[p], s[p + 1]) {
        2
    } else if 0 <= p < s.len() && is_one_char_operator(s[p]) {
        1
    } else {
        0
    }
}

/// 1 where the character at `p` satisfies `ok`, else 0.
pub open spec fn single_len(s: Seq<char>, p: int, ok: spec_fn(char) -> bool) -> nat {
    if 0 <= p < s.len() && ok(s[p]) {
        1
    } else {
        0
    }
}

pub open spec fn is_punctuation(c: char) -> bool {
    c == '(' || c == ')' || c == '{' || c == '}' || c == ';' || c == ','
}

pub open spec fn is_bracket(c: char) -> bool {
    c == '[' || c == ']'
}

pub open spec fn comment_len(s: Seq<char>, p: int) -> nat {
    if 0 <= p && p + 1 < s.len() && s[p] == '/' && s[p + 1] == '/' {
        2 + span(s, p + 2, CharClass::Line)
    } else {
        0
    }
}

} // verus!

verus! {

/// The rules of the scanner. Where two rules match equally long prefixes,
/// the one declared first wins.
#[derive(Debug, Clone, Copy, PartialEq, Eq, Structural)]
pub enum Rule {
    Keyword,
    Identifier,
    Number,
    StringLiteral,
    Operator,
    Star,
    Ampersand,
    Punctuation,
    Bracket,
    Whitespace,
    Comment,
}

/// How many rules there are.
pub const RULE_COUNT: usize = 11;

/// The rule at position `i` of the priority order.
pub open spec fn rule_in_order(i: int) -> Rule {
    if i == 0 {
        Rule::Keyword
    } else if i == 1 {
        Rule::Identifier
    } else if i == 2 {
        Rule::Number
    } else if i == 3 {
        Rule::StringLiteral
    } else if i == 4 {
        Rule::Operator
    } else if i == 5 {
        Rule::Star
    } else if i == 6 {
        Rule::Ampersand
    } else if i == 7 {
        Rule::Punctuation
    } else if i == 8 {
        Rule::Bracket
    } else if i == 9 {
        Rule::Whitespace
    } else {
        Rule::Comment
    }
}

impl Rule {
    /// The category of the token this rule produces.
    pub open spec fn token_kind(self) -> TokenKind {
        match self {
            Rule::Keyword => TokenKind::Keyword,
            Rule::Identifier => TokenKind::Identifier,
            Rule::Number => TokenKind::Number,
            Rule::StringLiteral => TokenKind::StringLiteral,
            Rule::Operator | Rule::Star | Rule::Ampersand => TokenKind::Operator,
            Rule::Punctuation | Rule::Bracket => TokenKind::Punctuation,
            Rule::Whitespace => TokenKind::Whitespace,
            Rule::Comment => TokenKind::Comment,
        }
    }

    /// The length of this rule's match anchored at offset `p` of `s`; 0 where
    /// it does not match there (no rule matches the empty text).
    pub open spec fn spec_match_len(self, s: Seq<char>, p: int) -> nat {
        match self {
            Rule::Keyword => keyword_len(s, p),
            Rule::Identifier => identifier_len(s, p),
            Rule::Number => span(s, p, CharClass::Digit),
            Rule::StringLiteral => string_len(s, p),
            Rule::Operator => operator_len(s, p),
            Rule::Star => single_len(s, p, |c: char| c == '*'),
            Rule::Ampersand => single_len(s, p, |c: char| c == '&'),
            Rule::Punctuation => single_len(s, p, |c: char| is_punctuation(c)),
            Rule::Bracket => single_len(s, p, |c: char| is_bracket(c)),
            Rule::Whitespace => span(s, p, CharClass::Space),
            Rule::Comment => comment_len(s, p),
        }
    }

    /// The rule at position `i` of the priority order.
    pub fn at(i: usize) -> (r: Rule)
        requires
            i < RULE_COUNT,
        ensures
            r == rule_in_order(i as int),
    {
        match i {
            0 => Rule::Keyword,
            1 => Rule::Identifier,
            2 => Rule::Number,
            3 => Rule::StringLiteral,
            4 => Rule::Operator,
            5 => Rule::Star,
            6 => Rule::Ampersand,
            7 => Rule::Punctuation,
            8 => Rule::Bracket,
            9 => Rule::Whitespace,
            _ => Rule::Comment,
        }
    }

    /// The category of the token this rule produces.
    pub fn kind(&self) -> (k: TokenKind)
        ensures
            k == self.token_kind(),
    {
        match self {
            Rule::Keyword => TokenKind::Keyword,
            Rule::Identifier => TokenKind::Identifier,
            Rule::Number => TokenKind::Number,
            Rule::StringLiteral => TokenKind::StringLiteral,
            Rule::Operator | Rule::Star | Rule::Ampersand => TokenKind::Operator,
            Rule::Punctuation | Rule::Bracket => TokenKind::Punctuation,
            Rule::Whitespace => TokenKind::Whitespace,
            Rule::Comment => TokenKind::Comment,
        }
    }

    /// The length of this rule's match anchored at offset `p` of `text`, or 0.
    pub fn match_len(&self, text: &Vec<char>, p: usize) -> (n: usize)
        requires
            p <= text@.len(),
        ensures
            n == self.spec_match_len(text@, p as int),
            n <= text@.len() - p,
    {
        match self {
            Rule::Keyword => keyword_at(text, p),
            Rule::Identifier => identifier_at(text, p),
            Rule::Number => span_at(text, p, CharClass::Digit) - p,
            Rule::StringLiteral => string_at(text, p),
            Rule::Operator => operator_at(text, p),
            Rule::Star => {
                if p < text.len() && text[p] == '*' {
                    1
                } else {
                    0
                }
            },
            Rule::Ampersand => {
                if p < text.len() && text[p] == '&' {
                    1
                } else {
                    0
                }
            },
            Rule::Punctuation => {
                if p < text.len() && is_punctuation_char(text[p]) {
                    1
                } else {
                    0
                }
            },
            Rule::Bracket => {
                if p < text.len() && (text[p] == '[' || text[p] == ']') {
                    1
                } else {
                    0
                }
            },
            Rule::Whitespace => span_at(text, p, CharClass::Space) - p,
            Rule::Comment => comment_at(text, p),
        }
    }
}

fn char_in_class(c: char, k: CharClass) -> (b: bool)
    ensures
        b == in_class(c, k),
{
    match k {
        CharClass::Word => ('a' <= c && c <= 'z') || ('A' <= c && c <= 'Z') || ('0' <= c && c
            <= '9') || c == '_',
        CharClass::Digit => '0' <= c && c <= '9',
        CharClass::Space => c == ' ' || c == '\t' || c == '\n' || c == '\r',
        CharClass::Line => c != '\n',
    }
}

fn is_punctuation_char(c: char) -> (b: bool)
    ensures
        b == is_punctuation(c),
{
    c == '(' || c == ')' || c == '{' || c == '}' || c == ';' || c == ','
}

/// The offset just past the run of class `k` that starts at `i`.
fn span_at(text: &Vec<char>, i: usize, k: CharClass) -> (end: usize)
    requires
        i <= text@.len(),
    ensures
        end == i + span(text@, i as int, k),
        end <= text@.len(),
{
    let mut j: usize = i;
    while j < text.len() && char_in_class(text[j], k)
        invariant
            i <= j <= text@.len(),
            span(text@, i as int, k) == (j - i) + span(text@, j as int, k),
        decreases text@.len() - j,
    {
        j += 1;
    }
    j
}

/// Whether `w` stands at `p` of `text`, not followed by a word character.
fn delimited_at(text: &Vec<char>, p: usize, w: &[char]) -> (b: bool)
    requires
        p <= text@.len(),
    ensures
        b == delimited_word(text@, p as int, w@),
{
    let n = text.len();
    if w.len() > n - p {
        return false;
    }
    let mut i: usize = 0;
    while i < w.len()
        invariant
            n == text@.len(),
            i <= w@.len(),
            p + w@.len() <= text@.len(),
            forall|k: int| 0 <= k < i ==> text@[p + k] == w@[k],
        decreases w@.len() - i,
    {
        if text[p + i] != w[i] {
            assert(text@.subrange(p as int, p + w@.len())[i as int] != w@[i as int]);
            return false;
        }
        i += 1;
    }
    assert(text@.subrange(p as int, p + w@.len()) =~= w@);
    let end = p + w.len();
    end == text.len() || !char_in_class(text[end], CharClass::Word)
}

fn keyword_at(text: &Vec<char>, p: usize) -> (n: usize)
    requires
        p <= text@.len(),
    ensures
        n == keyword_len(text@, p as int),
        n <= text@.len() - p,
{
    let w_int: &[char] = &['i', 'n', 't'];
    let w_return: &[char] = &['r', 'e', 't', 'u', 'r', 'n'];
    let w_if: &[char] = &['i', 'f'];
    let w_while: &[char] = &['w', 'h', 'i', 'l', 'e'];
    let w_for: &[char] = &['f', 'o', 'r'];
    let w_void: &[char] = &['v', 'o', 'i', 'd'];
    assert(w_int@ == kw_int());
    assert(w_return@ == kw_return());
    assert(w_if@ == kw_if());
    assert(w_while@ == kw_while());
    assert(w_for@ == kw_for());
    assert(w_void@ == kw_void());
    if delimited_at(text, p, w_int) {
        3
    } else if delimited_at(text, p, w_return) {
        6
    } else if delimited_at(text, p, w_if) {
        2
    } else if delimited_at(text, p, w_while) {
        5
    } else if delimited_at(text, p, w_for) {
        3
    } else if delimited_at(text, p, w_void) {
        4
    } else {
        0
    }
}

fn identifier_at(text: &Vec<char>, p: usize) -> (n: usize)
    requires
        p <= text@.len(),
    ensures
        n == identifier_len(text@, p as int),
        n <= text@.len() - p,
{
    if p < text.len() {
        let c = text[p];
        if ('a' <= c && c <= 'z') || ('A' <= c && c <= 'Z') || c == '_' {
            return span_at(text, p + 1, CharClass::Word) - p;
        }
    }
    0
}

fn string_at(text: &Vec<char>, p: usize) -> (n: usize)
    requires
        p <= text@.len(),
    ensures
        n == string_len(text@, p as int),
        n <= text@.len() - p,
{
    if p >= text.len() || text[p] != '"' {
        return 0;
    }
    let mut i: usize = p + 1;
    while i < text.len()
        invariant
            p < i <= text@.len(),
            text@[p as int] == '"',
            string_close(text@, p + 1) == string_close(text@, i as int),
        decreases text@.len() - i,
    {
        if text[i] == '"' {
            return i + 1 - p;
        } else if text[i] == '\\' {
            if i + 1 < text.len() {
                i = i + 2;
            } else {
                return 0;
            }
        } else {
            i = i + 1;
        }
    }
    0
}

fn operator_at(text: &Vec<char>, p: usize) -> (n: usize)
    requires
        p <= text@.len(),
    ensures
        n == operator_len(text@, p as int),
        n <= text@.len() - p,
{
    if text.len() - p > 1 {
        let a = text[p];
        let b = text[p + 1];
        if (a == '=' && b == '=') || (a == '!' && b == '=') || (a == '>' && b == '=') || (a
            == '<' && b == '=') || (a == '&' && b == '&') || (a == '|' && b == '|') {
            return 2;
        }
    }
    if p < text.len() {
        let c = text[p];
        if c == '+' || c == '-' || c == '>' || c == '<' || c == '=' {
            return 1;
        }
    }
    0
}

fn comment_at(text: &Vec<char>, p: usize) -> (n: usize)
    requires
        p <= text@.len(),
    ensures
        n == comment_len(text@, p as int),
        n <= text@.len() - p,
{
    if text.len() - p > 1 && text[p] == '/' && text[p + 1] == '/' {
        span_at(text, p + 2, CharClass::Line) - p
    } else {
        0
    }
}

} // verus!

use vstd::prelude::*;

use crate::rules::{
    delimited_word, identifier_len, in_class, keyword_len, kw_for, kw_if, kw_int, kw_return,
    kw_void, kw_while, rule_in_order, span, string_close, CharClass, Rule, RULE_COUNT,
};
use crate::token::{joined_text, token_views, LexError, Token, TokenKind, TokenView};

verus! {

/// The length of the match of the rule at position `i` of the priority order,
/// anchored at offset `p` of `s`.
pub open spec fn rule_len(s: Seq<char>, p: int, i: int) -> nat {
    rule_in_order(i).spec_match_len(s, p)
}

/// The rule at position `i` wins at offset `p`: it matches, no rule matches a
/// longer prefix, and every rule declared before it matches a shorter one.
pub open spec fn wins_at(s: Seq<char>, p: int, i: int) -> bool {
    &&& 0 <= i < RULE_COUNT
    &&& rule_len(s, p, i) > 0
    &&& forall|j: int| 0 <= j < RULE_COUNT ==> #[trigger] rule_len(s, p, j) <= rule_len(s, p, i)
    &&& forall|j: int| 0 <= j < i ==> #[trigger] rule_len(s, p, j) < rule_len(s, p, i)
}

/// The rule that wins at offset `p`, if one does.
pub open spec fn winner(s: Seq<char>, p: int) -> Option<int> {
    if exists|i: int| wins_at(s, p, i) {
        Some(choose|i: int| wins_at(s, p, i))
    } else {
        None
    }
}

/// Puts `t` in front of the tokens of a successful scan; a failure stays as it is.
pub open spec fn preceded_by(t: Seq<TokenView>, r: Result<Seq<TokenView>, nat>) -> Result<
    Seq<TokenView>,
    nat,
> {
    match r {
        Ok(ts) => Ok(t + ts),
        Err(q) => Err(q),
    }
}

/// Tokenizes `s` from offset `p` to its end: at each offset the winning rule
/// emits one token over its match and the scan resumes after it. Where no rule
/// matches, the whole scan fails with that offset.
pub open spec fn scan_from(s: Seq<char>, p: int) -> Result<Seq<TokenView>, nat>
    decreases s.len() - p
    via scan_from_decreases
{
    if p < 0 || p >= s.len() {
        Ok(Seq::empty())
    } else {
        match winner(s, p) {
            Some(i) => {
                let n = rule_len(s, p, i);
                let t = (rule_in_order(i).token_kind(), s.subrange(p, p + n));
                preceded_by(seq![t], scan_from(s, p + n))
            },
            None => Err(p as nat),
        }
    }
}

#[via_fn]
proof fn scan_from_decreases(s: Seq<char>, p: int) {
    if let Some(i) = winner(s, p) {
        if 0 <= p < s.len() {
            assert(wins_at(s, p, i));
            lemma_match_within(s, p, i);
        }
    }
}

/// The token sequence of the whole text `s`, or the offset at which no rule matches.
pub open spec fn scan(s: Seq<char>) -> Result<Seq<TokenView>, nat> {
    scan_from(s, 0)
}

/// What a call of `lex_c_code` returned, over views.
pub open spec fn outcome(r: Result<Vec<Token>, LexError>) -> Result<Seq<TokenView>, nat> {
    match r {
        Ok(v) => Ok(token_views(v@)),
        Err(LexError::UnrecognizedInput { position }) => Err(position as nat),
    }
}

proof fn lemma_span_bounded(s: Seq<char>, i: int, k: CharClass)
    requires
        0 <= i <= s.len(),
    ensures
        span(s, i, k) <= s.len() - i,
    decreases s.len() - i,
{
    if i < s.len() {
        lemma_span_bounded(s, i + 1, k);
    }
}

proof fn lemma_string_close_bounded(s: Seq<char>, i: int)
    requires
        0 <= i,
    ensures
        string_close(s, i) <= s.len(),
        string_close(s, i) == 0 || string_close(s, i) > i,
    decreases s.len() - i,
{
    if 0 <= i < s.len() && s[i] != '"' {
        if s[i] == '\\' {
            if i + 1 < s.len() {
                lemma_string_close_bounded(s, i + 2);
            }
        } else {
            lemma_string_close_bounded(s, i + 1);
        }
    }
}

/// No rule's match runs past the end of the text.
pub proof fn lemma_match_within(s: Seq<char>, p: int, i: int)
    requires
        0 <= p <= s.len(),
    ensures
        rule_len(s, p, i) <= s.len() - p,
{
    lemma_span_bounded(s, p, CharClass::Digit);
    lemma_span_bounded(s, p, CharClass::Space);
    if p + 1 <= s.len() {
        lemma_span_bounded(s, p + 1, CharClass::Word);
        lemma_string_close_bounded(s, p + 1);
    }
    if p + 2 <= s.len() {
        lemma_span_bounded(s, p + 2, CharClass::Line);
    }
}

/// At most one rule wins at a given offset.
pub proof fn lemma_winner_unique(s: Seq<char>, p: int, i: int, j: int)
    requires
        wins_at(s, p, i),
        wins_at(s, p, j),
    ensures
        i == j,
{
    if i < j {
        assert(rule_len(s, p, i) < rule_len(s, p, j));
        assert(rule_len(s, p, j) <= rule_len(s, p, i));
    } else if j < i {
        assert(rule_len(s, p, j) < rule_len(s, p, i));
        assert(rule_len(s, p, i) <= rule_len(s, p, j));
    }
}

/// Consults every rule at offset `p` and returns the winner with its match
/// length, or `None` where no rule matches.
pub fn longest_match(text: &Vec<char>, p: usize) -> (m: Option<(usize, usize)>)
    requires
        p <= text@.len(),
    ensures
        match m {
            Some((i, n)) => wins_at(text@, p as int, i as int) && n == rule_len(
                text@,
                p as int,
                i as int,
            ),
            None => forall|j: int| 0 <= j < RULE_COUNT ==> #[trigger] rule_len(text@, p as int, j) == 0,
        },
        match m {
            Some((_, n)) => n <= text@.len() - p,
            None => true,
        },
{
    let mut best: Option<(usize, usize)> = None;
    let mut k: usize = 0;
    while k < RULE_COUNT
        invariant
            k <= RULE_COUNT,
            p <= text@.len(),
            match best {
                Some((b, n)) => {
                    &&& b < k
                    &&& n == rule_len(text@, p as int, b as int)
                    &&& n > 0
                    &&& n <= text@.len() - p
                    &&& forall|j: int| 0 <= j < k ==> #[trigger] rule_len(text@, p as int, j) <= n
                    &&& forall|j: int| 0 <= j < b ==> #[trigger] rule_len(text@, p as int, j) < n
                },
                None => forall|j: int| 0 <= j < k ==> #[trigger] rule_len(text@, p as int, j) == 0,
            },
        decreases RULE_COUNT - k,
    {
        let len = Rule::at(k).match_len(text, p);
        assert(len == rule_len(text@, p as int, k as int));
        match best {
            Some((_, n)) => {
                if len > n {
                    best = Some((k, len));
                }
            },
            None => {
                if len > 0 {
                    best = Some((k, len));
                }
            },
        }
        k += 1;
    }
    best
}

/// Splits `input` into tokens, choosing at each offset the longest match and,
/// among equally long ones, the rule declared first. Fails with the offset of
/// the first character at which no rule matches; no partial result is returned.
/// An unterminated string literal matches no rule, so the scan fails at its
/// opening quote. The character offsets count `char`s, not bytes.
pub fn lex_c_code(input: &str) -> (r: Result<Vec<Token>, LexError>)
    ensures
        outcome(r) == scan(input@),
        r is Ok ==> joined_text(outcome(r)->Ok_0) == input@,
{
    let mut text: Vec<char> = Vec::new();
    for c in it: input.chars()
        invariant
            text@ == it.seq().subrange(0, it.index() as int),
            it.seq() == input@,
    {
        text.push(c);
    }
    let len = text.len();
    let mut tokens: Vec<Token> = Vec::new();
    let mut pos: usize = 0;
    while pos < len
        invariant
            len == text@.len(),
            text@ == input@,
            pos <= len,
            scan(input@) == preceded_by(token_views(tokens@), scan_from(input@, pos as int)),
        decreases len - pos,
    {
        match longest_match(&text, pos) {
            Some((i, n)) => {
                proof {
                    lemma_winner_unique(input@, pos as int, i as int, winner(input@, pos as int)->Some_0);
                }
                let piece = input.substring_char(pos, pos + n).to_owned();
                let t = Token::new(Rule::at(i).kind(), piece);
                let ghost before = token_views(tokens@);
                tokens.push(t);
                proof {
                    assert(token_views(tokens@) =~= before + seq![t@]);
                    lemma_preceded_by_assoc(before, seq![t@], scan_from(input@, (pos + n) as int));
                }
                pos = pos + n;
            },
            None => {
                proof {
                    if exists|j: int| wins_at(input@, pos as int, j) {
                        let j = choose|j: int| wins_at(input@, pos as int, j);
                        assert(rule_len(input@, pos as int, j) > 0);
                    }
                }
                return Err(LexError::UnrecognizedInput { position: pos });
            },
        }
    }
    assert(token_views(tokens@) + Seq::<TokenView>::empty() =~= token_views(tokens@));
    proof {
        lemma_lossless(input@);
    }
    Ok(tokens)
}

proof fn lemma_preceded_by_assoc(a: Seq<TokenView>, b: Seq<TokenView>, r: Result<Seq<TokenView>, nat>)
    ensures
        preceded_by(a, preceded_by(b, r)) == preceded_by(a + b, r),
{
    if let Ok(ts) = r {
        assert(a + (b + ts) =~= (a + b) + ts);
    }
}

proof fn lemma_joined_cons(t: TokenView, ts: Seq<TokenView>)
    ensures
        joined_text(seq![t] + ts) == t.1 + joined_text(ts),
{
    assert((seq![t] + ts).drop_first() =~= ts);
}

/// Scanning loses nothing: where the scan from offset `p` succeeds, the texts
/// of its tokens, joined in order, are exactly the rest of the input.
pub proof fn lemma_lossless_from(s: Seq<char>, p: int)
    requires
        0 <= p <= s.len(),
        scan_from(s, p) is Ok,
    ensures
        joined_text(scan_from(s, p)->Ok_0) == s.subrange(p, s.len() as int),
    decreases s.len() - p,
{
    if p == s.len() {
        assert(s.subrange(p, s.len() as int) =~= Seq::<char>::empty());
    } else {
        let i = winner(s, p)->Some_0;
        let n = rule_len(s, p, i);
        lemma_match_within(s, p, i);
        lemma_lossless_from(s, p + n);
        let t = (rule_in_order(i).token_kind(), s.subrange(p, p + n));
        lemma_joined_cons(t, scan_from(s, p + n)->Ok_0);
        assert(s.subrange(p, p + n) + s.subrange(p + n, s.len() as int) =~= s.subrange(
            p,
            s.len() as int,
        ));
    }
}

/// Scanning loses nothing: where the scan of `s` succeeds, the texts of its
/// tokens, joined in order, reproduce `s` exactly.
pub proof fn lemma_lossless(s: Seq<char>)
    requires
        scan(s) is Ok,
    ensures
        joined_text(scan(s)->Ok_0) == s,
{
    lemma_lossless_from(s, 0);
    assert(s.subrange(0, s.len() as int) =~= s);
}

/// Tokenizing is deterministic: two results that both meet the contract of
/// `lex_c_code` on the same input are the same tokens, or the same failure.
pub proof fn lemma_deterministic(
    input: Seq<char>,
    r1: Result<Vec<Token>, LexError>,
    r2: Result<Vec<Token>, LexError>,
)
    requires
        outcome(r1) == scan(input),
        outcome(r2) == scan(input),
    ensures
        outcome(r1) == outcome(r2),
        r1 is Ok <==> r2 is Ok,
{
}

proof fn lemma_span_exact(s: Seq<char>, i: int, k: CharClass, m: int)
    requires
        0 <= i,
        0 <= m,
        i + m <= s.len(),
        forall|j: int| i <= j < i + m ==> in_class(#[trigger] s[j], k),
        i + m == s.len() || !in_class(s[i + m], k),
    ensures
        span(s, i, k) == m,
    decreases m,
{
    if m > 0 {
        lemma_span_exact(s, i + 1, k, m - 1);
    }
}

/// A delimited word of letters at `p` is also exactly the identifier there.
proof fn lemma_word_is_identifier(s: Seq<char>, p: int, w: Seq<char>)
    requires
        delimited_word(s, p, w),
        w.len() > 0,
        forall|j: int| 0 <= j < w.len() ==> 'a' <= #[trigger] w[j] && w[j] <= 'z',
    ensures
        identifier_len(s, p) == w.len(),
        'a' <= s[p] && s[p] <= 'z',
{
    assert forall|j: int| p + 1 <= j < p + w.len() implies in_class(#[trigger] s[j], CharClass::Word) by {
        assert(s[j] == s.subrange(p, p + w.len())[j - p]);
        assert(w[j - p] == s[j]);
    }
    assert(s[p] == s.subrange(p, p + w.len())[0]);
    lemma_span_exact(s, p + 1, CharClass::Word, w.len() - 1);
}

/// Where a reserved word stands at `p`, delimited by a non-word character or
/// the end of the text, the keyword rule wins: the identifier rule matches the
/// same length and loses the tie, and no other rule matches at all.
pub proof fn lemma_reserved_word_wins(s: Seq<char>, p: int)
    requires
        0 <= p < s.len(),
        keyword_len(s, p) > 0,
    ensures
        wins_at(s, p, 0),
        winner(s, p) == Some(0int),
        rule_len(s, p, 1) == rule_len(s, p, 0),
        scan_from(s, p) is Ok ==> scan_from(s, p)->Ok_0[0] == (
            TokenKind::Keyword,
            s.subrange(p, p + keyword_len(s, p)),
        ),
{
    let w = if delimited_word(s, p, kw_int()) {
        kw_int()
    } else if delimited_word(s, p, kw_return()) {
        kw_return()
    } else if delimited_word(s, p, kw_if()) {
        kw_if()
    } else if delimited_word(s, p, kw_while()) {
        kw_while()
    } else if delimited_word(s, p, kw_for()) {
        kw_for()
    } else {
        kw_void()
    };
    assert(forall|j: int| 0 <= j < w.len() ==> 'a' <= #[trigger] w[j] && w[j] <= 'z');
    lemma_word_is_identifier(s, p, w);
    assert(keyword_len(s, p) == w.len());
    assert forall|j: int| 0 <= j < RULE_COUNT implies #[trigger] rule_len(s, p, j) <= rule_len(
        s,
        p,
        0,
    ) by {
        if j >= 2 {
            assert(rule_len(s, p, j) == 0);
        }
    }
    lemma_winner_unique(s, p, 0, winner(s, p)->Some_0);
}

/// Maximal munch: where the scan from `p` succeeds, its first token comes from
/// the winning rule and is at least as long as the match of every rule at `p`.
pub proof fn lemma_first_token_longest(s: Seq<char>, p: int)
    requires
        0 <= p < s.len(),
        scan_from(s, p) is Ok,
    ensures
        winner(s, p) is Some,
        scan_from(s, p)->Ok_0.len() > 0,
        scan_from(s, p)->Ok_0[0] == (
            rule_in_order(winner(s, p)->Some_0).token_kind(),
            s.subrange(p, p + rule_len(s, p, winner(s, p)->Some_0)),
        ),
        forall|j: int|
            0 <= j < RULE_COUNT ==> #[trigger] rule_len(s, p, j) <= scan_from(s, p)->Ok_0[0].1.len(),
{
    let i = winner(s, p)->Some_0;
    lemma_match_within(s, p, i);
}

} // verus!

//! Splitting SoftQL text into tokens.

use vstd::prelude::*;

verus! {

/// A lexical unit of SoftQL text. Keywords are recognised without regard to
/// ASCII case.
#[derive(Debug)]
pub enum Token {
    Ident(String),
    Number(String),
    /// A quoted string, without its quotes.
    Str(String),
    Dot,
    Comma,
    LParen,
    RParen,
    And,
    Or,
    Not,
    True,
    False,
    Null,
}

/// Model of a [`Token`].
pub enum TokV {
    Ident(Seq<char>),
    Number(Seq<char>),
    Str(Seq<char>),
    Dot,
    Comma,
    LParen,
    RParen,
    And,
    Or,
    Not,
    True,
    False,
    Null,
}

impl View for Token {
    type V = TokV;

    open spec fn view(&self) -> TokV {
        match self {
            Token::Ident(s) => TokV::Ident(s@),
            Token::Number(s) => TokV::Number(s@),
            Token::Str(s) => TokV::Str(s@),
            Token::Dot => TokV::Dot,
            Token::Comma => TokV::Comma,
            Token::LParen => TokV::LParen,
            Token::RParen => TokV::RParen,
            Token::And => TokV::And,
            Token::Or => TokV::Or,
            Token::Not => TokV::Not,
            Token::True => TokV::True,
            Token::False => TokV::False,
            Token::Null => TokV::Null,
        }
    }
}

pub open spec fn toks_view(ts: Seq<Token>) -> Seq<TokV> {
    ts.map_values(|t: Token| t@)
}

pub open spec fn is_space(c: char) -> bool {
    c == ' ' || c == '\t' || c == '\n' || c == '\r'
}

pub open spec fn is_digit(c: char) -> bool {
    '0' <= c && c <= '9'
}

pub open spec fn is_upper(c: char) -> bool {
    'A' <= c && c <= 'Z'
}

pub open spec fn is_ident_start(c: char) -> bool {
    ('a' <= c && c <= 'z') || is_upper(c) || c == '_'
}

pub open spec fn is_ident_char(c: char) -> bool {
    is_ident_start(c) || is_digit(c)
}

/// `c` equals the lower-case letter `k`, up to ASCII case.
pub open spec fn same_letter(c: char, k: char) -> bool {
    c == k || (is_upper(c) && c as u32 + 32 == k as u32)
}

/// `w` spells the lower-case word `kw`, up to ASCII case.
pub open spec fn same_word(w: Seq<char>, kw: Seq<char>) -> bool {
    w.len() == kw.len() && forall|k: int| 0 <= k < w.len() ==> same_letter(#[trigger] w[k], kw[k])
}

/// First position at or after `i` that does not hold an identifier character.
pub open spec fn word_end(s: Seq<char>, i: int) -> int
    decreases s.len() - i,
{
    if 0 <= i < s.len() && is_ident_char(s[i]) {
        word_end(s, i + 1)
    } else {
        i
    }
}

/// First position at or after `i` that does not hold a digit.
pub open spec fn digits_end(s: Seq<char>, i: int) -> int
    decreases s.len() - i,
{
    if 0 <= i < s.len() && is_digit(s[i]) {
        digits_end(s, i + 1)
    } else {
        i
    }
}

/// First position at or after `i` that holds `q`, or the length of `s`.
pub open spec fn quote_end(s: Seq<char>, i: int, q: char) -> int
    decreases s.len() - i,
{
    if 0 <= i < s.len() && s[i] != q {
        quote_end(s, i + 1, q)
    } else {
        i
    }
}

pub open spec fn keyword_or_ident(w: Seq<char>) -> TokV {
    if same_word(w, "and"@) {
        TokV::And
    } else if same_word(w, "or"@) {
        TokV::Or
    } else if same_word(w, "not"@) {
        TokV::Not
    } else if same_word(w, "true"@) {
        TokV::True
    } else if same_word(w, "false"@) {
        TokV::False
    } else if same_word(w, "null"@) {
        TokV::Null
    } else {
        TokV::Ident(w)
    }
}

/// End of the number that starts at `i`: an optional minus sign, digits, and
/// optionally a point followed by digits.
pub open spec fn number_end(s: Seq<char>, i: int) -> int {
    let d = digits_end(s, if s[i] == '-' { i + 1 } else { i });
    if d + 1 < s.len() && s[d] == '.' && is_digit(s[d + 1]) {
        digits_end(s, d + 1)
    } else {
        d
    }
}

pub open spec fn starts_number(s: Seq<char>, i: int) -> bool {
    is_digit(s[i]) || (s[i] == '-' && i + 1 < s.len() && is_digit(s[i + 1]))
}

/// The token that starts at the non-blank position `i`, with the position
/// after it; `None` where no token starts there.
pub open spec fn scan_token(s: Seq<char>, i: int) -> Option<(TokV, int)> {
    let c = s[i];
    if c == '.' {
        Some((TokV::Dot, i + 1))
    } else if c == ',' {
        Some((TokV::Comma, i + 1))
    } else if c == '(' {
        Some((TokV::LParen, i + 1))
    } else if c == ')' {
        Some((TokV::RParen, i + 1))
    } else if c == '"' || c == '\'' {
        let e = quote_end(s, i + 1, c);
        if e < s.len() {
            Some((TokV::Str(s.subrange(i + 1, e)), e + 1))
        } else {
            None
        }
    } else if starts_number(s, i) {
        let e = number_end(s, i);
        Some((TokV::Number(s.subrange(i, e)), e))
    } else if is_ident_start(c) {
        let e = word_end(s, i);
        Some((keyword_or_ident(s.subrange(i, e)), e))
    } else {
        None
    }
}

/// The tokens of `s` from position `i` on, blanks skipped; `None` where
/// some character starts no token.
pub open spec fn lex_from(s: Seq<char>, i: int) -> Option<Seq<TokV>>
    decreases s.len() - i,
{
    if i < 0 || i >= s.len() {
        Some(Seq::empty())
    } else if is_space(s[i]) {
        lex_from(s, i + 1)
    } else {
        match scan_token(s, i) {
            None => None,
            Some((t, j)) => if i < j <= s.len() {
                match lex_from(s, j) {
                    Some(rest) => Some(seq![t] + rest),
                    None => None,
                }
            } else {
                None
            },
        }
    }
}

proof fn lemma_word_end(s: Seq<char>, i: int)
    requires
        0 <= i <= s.len(),
    ensures
        i <= word_end(s, i) <= s.len(),
        forall|k: int| i <= k < word_end(s, i) ==> is_ident_char(#[trigger] s[k]),
    decreases s.len() - i,
{
    if i < s.len() && is_ident_char(s[i]) {
        lemma_word_end(s, i + 1);
    }
}

proof fn lemma_digits_end(s: Seq<char>, i: int)
    requires
        0 <= i <= s.len(),
    ensures
        i <= digits_end(s, i) <= s.len(),
    decreases s.len() - i,
{
    if i < s.len() && is_digit(s[i]) {
        lemma_digits_end(s, i + 1);
    }
}

proof fn lemma_quote_end(s: Seq<char>, i: int, q: char)
    requires
        0 <= i <= s.len(),
    ensures
        i <= quote_end(s, i, q) <= s.len(),
    decreases s.len() - i,
{
    if i < s.len() && s[i] != q {
        lemma_quote_end(s, i + 1, q);
    }
}

fn char_at(cs: &Vec<char>, i: usize) -> (c: Option<char>)
    ensures
        i < cs@.len() ==> c == Some(cs@[i as int]),
        i >= cs@.len() ==> c is None,
{
    if i < cs.len() {
        Some(cs[i])
    } else {
        None
    }
}

fn scan_word_end(cs: &Vec<char>, i: usize) -> (e: usize)
    requires
        i <= cs@.len(),
    ensures
        e == word_end(cs@, i as int),
{
    let mut j = i;
    while j < cs.len() && is_ident_char_exec(cs[j])
        invariant
            i <= j <= cs@.len(),
            word_end(cs@, i as int) == word_end(cs@, j as int),
        decreases cs@.len() - j,
    {
        j = j + 1;
    }
    j
}

fn scan_digits_end(cs: &Vec<char>, i: usize) -> (e: usize)
    requires
        i <= cs@.len(),
    ensures
        e == digits_end(cs@, i as int),
{
    let mut j = i;
    while j < cs.len() && is_digit_exec(cs[j])
        invariant
            i <= j <= cs@.len(),
            digits_end(cs@, i as int) == digits_end(cs@, j as int),
        decreases cs@.len() - j,
    {
        j = j + 1;
    }
    j
}

fn scan_quote_end(cs: &Vec<char>, i: usize, q: char) -> (e: usize)
    requires
        i <= cs@.len(),
    ensures
        e == quote_end(cs@, i as int, q),
{
    let mut j = i;
    while j < cs.len() && cs[j] != q
        invariant
            i <= j <= cs@.len(),
            quote_end(cs@, i as int, q) == quote_end(cs@, j as int, q),
        decreases cs@.len() - j,
    {
        j = j + 1;
    }
    j
}

fn is_digit_exec(c: char) -> (r: bool)
    ensures
        r == is_digit(c),
{
    '0' <= c && c <= '9'
}

fn is_upper_exec(c: char) -> (r: bool)
    ensures
        r == is_upper(c),
{
    'A' <= c && c <= 'Z'
}

fn is_ident_start_exec(c: char) -> (r: bool)
    ensures
        r == is_ident_start(c),
{
    ('a' <= c && c <= 'z') || is_upper_exec(c) || c == '_'
}

fn is_ident_char_exec(c: char) -> (r: bool)
    ensures
        r == is_ident_char(c),
{
    is_ident_start_exec(c) || is_digit_exec(c)
}

/// Whether `cs[from..to]` spells the lower-case word `kw`, up to ASCII case.
fn word_matches(cs: &Vec<char>, from: usize, to: usize, kw: &str) -> (r: bool)
    requires
        from <= to <= cs@.len(),
    ensures
        r == same_word(cs@.subrange(from as int, to as int), kw@),
{
    let n = kw.unicode_len();
    if to - from != n {
        return false;
    }
    let mut k: usize = 0;
    while k < n
        invariant
            n == kw@.len(),
            to - from == n,
            from <= to <= cs@.len(),
            k <= n,
            forall|m: int| 0 <= m < k ==> same_letter(cs@[from + m], kw@[m]),
        decreases n - k,
    {
        let c = cs[from + k];
        let w = kw.get_char(k);
        if !(c == w || (is_upper_exec(c) && (c as u32) + 32 == w as u32)) {
            proof {
                assert(cs@.subrange(from as int, to as int)[k as int] == c);
            }
            return false;
        }
        k = k + 1;
    }
    proof {
        let w = cs@.subrange(from as int, to as int);
        assert forall|m: int| 0 <= m < w.len() implies same_letter(#[trigger] w[m], kw@[m]) by {
            assert(w[m] == cs@[from + m]);
        }
    }
    true
}

fn keyword_or_ident_exec(cs: &Vec<char>, from: usize, to: usize, text: &str) -> (t: Token)
    requires
        from <= to <= cs@.len(),
        text@ == cs@.subrange(from as int, to as int),
    ensures
        t@ == keyword_or_ident(cs@.subrange(from as int, to as int)),
{
    if word_matches(cs, from, to, "and") {
        Token::And
    } else if word_matches(cs, from, to, "or") {
        Token::Or
    } else if word_matches(cs, from, to, "not") {
        Token::Not
    } else if word_matches(cs, from, to, "true") {
        Token::True
    } else if word_matches(cs, from, to, "false") {
        Token::False
    } else if word_matches(cs, from, to, "null") {
        Token::Null
    } else {
        Token::Ident(text.to_owned())
    }
}

/// The characters of `s`, in order.
pub fn chars_of(s: &str) -> (cs: Vec<char>)
    ensures
        cs@ == s@,
{
    let n = s.unicode_len();
    let mut cs: Vec<char> = Vec::new();
    let mut i: usize = 0;
    while i < n
        invariant
            n == s@.len(),
            i <= n,
            cs@ == s@.subrange(0, i as int),
        decreases n - i,
    {
        cs.push(s.get_char(i));
        i = i + 1;
    }
    proof {
        assert(cs@ =~= s@);
    }
    cs
}

/// The token that starts at the non-blank position `i` of `s` (whose
/// characters are `cs`), with the position after it.
fn scan_token_exec(s: &str, cs: &Vec<char>, i: usize) -> (r: Option<(Token, usize)>)
    requires
        cs@ == s@,
        i < cs@.len(),
    ensures
        match r {
            Some((t, j)) => scan_token(cs@, i as int) == Some((t@, j as int)),
            None => scan_token(cs@, i as int) is None,
        },
{
    let n = cs.len();
    let c = cs[i];
    if c == '.' {
        Some((Token::Dot, i + 1))
    } else if c == ',' {
        Some((Token::Comma, i + 1))
    } else if c == '(' {
        Some((Token::LParen, i + 1))
    } else if c == ')' {
        Some((Token::RParen, i + 1))
    } else if c == '"' || c == '\'' {
        let e = scan_quote_end(cs, i + 1, c);
        proof {
            lemma_quote_end(cs@, i + 1, c);
        }
        if e < cs.len() {
            let text = s.substring_char(i + 1, e).to_owned();
            Some((Token::Str(text), e + 1))
        } else {
            None
        }
    } else if is_digit_exec(c) || (c == '-' && i + 1 < cs.len() && is_digit_exec(cs[i + 1])) {
        let a = if c == '-' { i + 1 } else { i };
        let d = scan_digits_end(cs, a);
        proof {
            lemma_digits_end(cs@, a as int);
        }
        let e = if d < n && d + 1 < n && cs[d] == '.' && is_digit_exec(cs[d + 1]) {
            proof {
                lemma_digits_end(cs@, d + 1);
            }
            scan_digits_end(cs, d + 1)
        } else {
            d
        };
        let text = s.substring_char(i, e).to_owned();
        Some((Token::Number(text), e))
    } else if is_ident_start_exec(c) {
        let e = scan_word_end(cs, i);
        proof {
            lemma_word_end(cs@, i as int);
        }
        let text = s.substring_char(i, e);
        Some((keyword_or_ident_exec(cs, i, e, text), e))
    } else {
        None
    }
}

/// Splits `s` into tokens, skipping blanks; `None` exactly where a character
/// of `s` starts no token (an unclosed quote, a stray symbol).
pub fn tokenize(s: &str) -> (r: Option<Vec<Token>>)
    ensures
        match r {
            Some(ts) => lex_from(s@, 0) == Some(toks_view(ts@)),
            None => lex_from(s@, 0) is None,
        },
{
    let cs = chars_of(s);
    let n = cs.len();
    let mut ts: Vec<Token> = Vec::new();
    let mut i: usize = 0;
    while i < n
        invariant
            n == cs@.len(),
            cs@ == s@,
            i <= n,
            lex_from(s@, 0) == match lex_from(s@, i as int) {
                Some(rest) => Some(toks_view(ts@) + rest),
                None => None,
            },
        decreases n - i,
    {
        if is_space_exec(cs[i]) {
            i = i + 1;
        } else {
            match scan_token_exec(s, &cs, i) {
                None => {
                    return None;
                },
                Some((t, j)) => {
                    if j <= i {
                        return None;
                    }
                    proof {
                        lemma_scan_bound(cs@, i as int);
                        let old_ts = toks_view(ts@);
                        match lex_from(s@, j as int) {
                            Some(rest) => {
                                assert(old_ts + (seq![t@] + rest) =~= toks_view(ts@.push(t)) + rest);
                            },
                            None => {},
                        }
                    }
                    ts.push(t);
                    i = j;
                },
            }
        }
    }
    proof {
        assert(toks_view(ts@) + Seq::<TokV>::empty() =~= toks_view(ts@));
    }
    Some(ts)
}

proof fn lemma_scan_bound(s: Seq<char>, i: int)
    requires
        0 <= i < s.len(),
    ensures
        match scan_token(s, i) {
            Some((_, j)) => j <= s.len(),
            None => true,
        },
{
    let c = s[i];
    if c == '"' || c == '\'' {
        lemma_quote_end(s, i + 1, c);
    } else if starts_number(s, i) {
        let a = if c == '-' { i + 1 } else { i };
        lemma_digits_end(s, a);
        let d = digits_end(s, a);
        if d + 1 < s.len() && s[d] == '.' && is_digit(s[d + 1]) {
            lemma_digits_end(s, d + 1);
        }
    } else if is_ident_start(c) {
        lemma_word_end(s, i);
    }
}

fn is_space_exec(c: char) -> (r: bool)
    ensures
        r == is_space(c),
{
    c == ' ' || c == '\t' || c == '\n' || c == '\r'
}

} // verus!

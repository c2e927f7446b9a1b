use vstd::prelude::*;

verus! {

/// The kinds of token of the template language.
#[derive(Debug, Clone, Copy, PartialEq, Eq, Structural)]
pub enum TokenKind {
    OpenBraces,
    CloseBraces,
    For,
    In,
    If,
    Else,
    End,
    When,
    Identifier,
    StringLiteral,
    TemplateLiteral,
    Dot,
    Equals,
    NotEquals,
    Not,
    And,
    Or,
}

/// A token: its kind and the text it stands for.
#[derive(Debug)]
pub struct Token {
    pub kind: TokenKind,
    pub text: Vec<char>,
}

impl View for Token {
    type V = (TokenKind, Seq<char>);

    open spec fn view(&self) -> (TokenKind, Seq<char>) {
        (self.kind, self.text@)
    }
}

/// What can go wrong while a template is split into tokens.
#[derive(Debug, Clone, Copy, PartialEq, Eq, Structural)]
pub enum LexError {
    /// A string literal has no closing quote.
    UnterminatedString,
    /// A directive has no closing `}}`.
    UnterminatedDirective,
    /// A character that starts no token stands inside a directive.
    UnexpectedChar,
}

pub type Tokens = Seq<(TokenKind, Seq<char>)>;

pub open spec fn is_space(c: char) -> bool {
    c == ' ' || c == '\t' || c == '\n' || c == '\r'
}

pub open spec fn is_ident_start(c: char) -> bool {
    ('a' <= c && c <= 'z') || ('A' <= c && c <= 'Z') || c == '_'
}

pub open spec fn is_ident_char(c: char) -> bool {
    is_ident_start(c) || ('0' <= c && c <= '9')
}

/// Whether the two characters at `i` are `a` then `b`.
pub open spec fn pair_at(s: Seq<char>, i: int, a: char, b: char) -> bool {
    0 <= i && i + 1 < s.len() && s[i] == a && s[i + 1] == b
}

/// How many characters from `i` on come before the next `{{` or the end.
pub open spec fn text_len(s: Seq<char>, i: int) -> nat
    decreases s.len() - i,
{
    if i < 0 || i >= s.len() || pair_at(s, i, '{', '{') {
        0
    } else {
        1 + text_len(s, i + 1)
    }
}

/// How many identifier characters stand from `i` on.
pub open spec fn ident_len(s: Seq<char>, i: int) -> nat
    decreases s.len() - i,
{
    if i < 0 || i >= s.len() || !is_ident_char(s[i]) {
        0
    } else {
        1 + ident_len(s, i + 1)
    }
}

/// How many characters from `i` on come before the next `q` or the end.
pub open spec fn until_len(s: Seq<char>, i: int, q: char) -> nat
    decreases s.len() - i,
{
    if i < 0 || i >= s.len() || s[i] == q {
        0
    } else {
        1 + until_len(s, i + 1, q)
    }
}

/// The kind of a word: a keyword, else an identifier.
pub open spec fn word_kind(w: Seq<char>) -> TokenKind {
    if w == seq!['f', 'o', 'r'] {
        TokenKind::For
    } else if w == seq!['i', 'n'] {
        TokenKind::In
    } else if w == seq!['i', 'f'] {
        TokenKind::If
    } else if w == seq!['e', 'l', 's', 'e'] {
        TokenKind::Else
    } else if w == seq!['e', 'n', 'd'] {
        TokenKind::End
    } else if w == seq!['w', 'h', 'e', 'n'] {
        TokenKind::When
    } else {
        TokenKind::Identifier
    }
}

/// The operator token of two characters that starts at `i`, if any.
pub open spec fn pair_kind(s: Seq<char>, i: int) -> Option<TokenKind> {
    if pair_at(s, i, '=', '=') {
        Some(TokenKind::Equals)
    } else if pair_at(s, i, '!', '=') {
        Some(TokenKind::NotEquals)
    } else if pair_at(s, i, '&', '&') {
        Some(TokenKind::And)
    } else if pair_at(s, i, '|', '|') {
        Some(TokenKind::Or)
    } else {
        None
    }
}

/// `r` with `prefix` put before the tokens it holds.
pub open spec fn lead(prefix: Tokens, r: Result<Tokens, LexError>) -> Result<Tokens, LexError> {
    match r {
        Ok(t) => Ok(prefix + t),
        Err(err) => Err(err),
    }
}

/// The tokens of `s` from `i` on, inside a directive or outside one.
pub open spec fn lex(s: Seq<char>, i: int, inside: bool) -> Result<Tokens, LexError>
    decreases if i < s.len() { s.len() - i } else { 0 },
{
    if i < 0 {
        Ok(Seq::empty())
    } else if !inside {
        if i >= s.len() {
            Ok(Seq::empty())
        } else {
            let j = i + text_len(s, i);
            let lit = if j > i {
                seq![(TokenKind::TemplateLiteral, s.subrange(i, j))]
            } else {
                Seq::empty()
            };
            if j >= s.len() {
                Ok(lit)
            } else {
                lead(lit.push((TokenKind::OpenBraces, seq!['{', '{'])), lex(s, j + 2, true))
            }
        }
    } else if i >= s.len() {
        Err(LexError::UnterminatedDirective)
    } else if is_space(s[i]) {
        lex(s, i + 1, true)
    } else if pair_at(s, i, '}', '}') {
        lead(seq![(TokenKind::CloseBraces, seq!['}', '}'])], lex(s, i + 2, false))
    } else if s[i] == '"' || s[i] == '\'' {
        let j = i + 1 + until_len(s, i + 1, s[i]);
        if j >= s.len() {
            Err(LexError::UnterminatedString)
        } else {
            lead(seq![(TokenKind::StringLiteral, s.subrange(i + 1, j))], lex(s, j + 1, true))
        }
    } else if is_ident_start(s[i]) {
        let j = i + 1 + ident_len(s, i + 1);
        lead(seq![(word_kind(s.subrange(i, j)), s.subrange(i, j))], lex(s, j, true))
    } else if pair_kind(s, i) is Some {
        lead(seq![(pair_kind(s, i)->0, s.subrange(i, i + 2))], lex(s, i + 2, true))
    } else if s[i] == '!' {
        lead(seq![(TokenKind::Not, seq!['!'])], lex(s, i + 1, true))
    } else if s[i] == '.' {
        lead(seq![(TokenKind::Dot, seq!['.'])], lex(s, i + 1, true))
    } else {
        Err(LexError::UnexpectedChar)
    }
}

/// The tokens of a whole template.
pub open spec fn lex_all(s: Seq<char>) -> Result<Tokens, LexError> {
    lex(s, 0, false)
}

} // verus!

verus! {

/// The model of a sequence of tokens.
pub open spec fn tokens_view(ts: Seq<Token>) -> Tokens {
    Seq::new(ts.len(), |i: int| ts[i]@)
}

proof fn lemma_lead_lead(a: Tokens, b: Tokens, r: Result<Tokens, LexError>)
    ensures
        lead(a, lead(b, r)) == lead(a + b, r),
{
    if let Ok(t) = r {
        assert(a + (b + t) =~= (a + b) + t);
    }
}

/// Whether the two characters at `i` are `a` then `b`.
fn has_pair(s: &Vec<char>, i: usize, a: char, b: char) -> (r: bool)
    ensures
        r == pair_at(s@, i as int, a, b),
{
    i < s.len() && s.len() - i > 1 && s[i] == a && s[i + 1] == b
}

/// The end of the text that starts at `i`.
fn text_end(s: &Vec<char>, i: usize) -> (j: usize)
    requires
        i <= s.len(),
    ensures
        j == i + text_len(s@, i as int),
        j <= s.len(),
        j < s.len() ==> pair_at(s@, j as int, '{', '{'),
{
    let mut j: usize = i;
    while j < s.len() && !has_pair(s, j, '{', '{')
        invariant
            i <= j <= s.len(),
            i + text_len(s@, i as int) == j + text_len(s@, j as int),
        decreases s.len() - j,
    {
        j = j + 1;
    }
    j
}

fn ident_start(c: char) -> (r: bool)
    ensures
        r == is_ident_start(c),
{
    ('a' <= c && c <= 'z') || ('A' <= c && c <= 'Z') || c == '_'
}

fn ident_char(c: char) -> (r: bool)
    ensures
        r == is_ident_char(c),
{
    ident_start(c) || ('0' <= c && c <= '9')
}

/// The end of the run of identifier characters that starts at `i`.
fn ident_end(s: &Vec<char>, i: usize) -> (j: usize)
    requires
        i <= s.len(),
    ensures
        j == i + ident_len(s@, i as int),
        j <= s.len(),
{
    let mut j: usize = i;
    while j < s.len() && ident_char(s[j])
        invariant
            i <= j <= s.len(),
            i + ident_len(s@, i as int) == j + ident_len(s@, j as int),
        decreases s.len() - j,
    {
        j = j + 1;
    }
    j
}

/// The position of the next `q` from `i` on, or the end.
fn until_end(s: &Vec<char>, i: usize, q: char) -> (j: usize)
    requires
        i <= s.len(),
    ensures
        j == i + until_len(s@, i as int, q),
        j <= s.len(),
{
    let mut j: usize = i;
    while j < s.len() && s[j] != q
        invariant
            i <= j <= s.len(),
            i + until_len(s@, i as int, q) == j + until_len(s@, j as int, q),
        decreases s.len() - j,
    {
        j = j + 1;
    }
    j
}

/// The characters of `s` from `a` up to `b`.
pub fn slice_chars(s: &Vec<char>, a: usize, b: usize) -> (r: Vec<char>)
    requires
        a <= b <= s.len(),
    ensures
        r@ == s@.subrange(a as int, b as int),
{
    let mut r: Vec<char> = Vec::new();
    let mut k: usize = a;
    while k < b
        invariant
            a <= k <= b <= s.len(),
            r@ == s@.subrange(a as int, k as int),
        decreases b - k,
    {
        r.push(s[k]);
        assert(s@.subrange(a as int, k + 1) =~= s@.subrange(a as int, k as int).push(s@[k as int]));
        k = k + 1;
    }
    r
}

/// Whether `w` holds exactly the characters of `lit`.
fn word_is(w: &Vec<char>, lit: &[char]) -> (r: bool)
    ensures
        r == (w@ == lit@),
{
    if w.len() != lit.len() {
        return false;
    }
    let mut k: usize = 0;
    while k < w.len()
        invariant
            w.len() == lit@.len(),
            k <= w.len(),
            w@.subrange(0, k as int) == lit@.subrange(0, k as int),
        decreases w.len() - k,
    {
        if w[k] != lit[k] {
            return false;
        }
        assert(w@.subrange(0, k + 1) =~= w@.subrange(0, k as int).push(w@[k as int]));
        assert(lit@.subrange(0, k + 1) =~= lit@.subrange(0, k as int).push(lit@[k as int]));
        k = k + 1;
    }
    assert(w@ =~= w@.subrange(0, k as int));
    assert(lit@ =~= lit@.subrange(0, k as int));
    true
}

/// The kind of a word: a keyword, else an identifier.
fn kind_of_word(w: &Vec<char>) -> (k: TokenKind)
    ensures
        k == word_kind(w@),
{
    let kw_for = ['f', 'o', 'r'];
    let kw_in = ['i', 'n'];
    let kw_if = ['i', 'f'];
    let kw_else = ['e', 'l', 's', 'e'];
    let kw_end = ['e', 'n', 'd'];
    let kw_when = ['w', 'h', 'e', 'n'];
    assert(kw_for@ =~= seq!['f', 'o', 'r']);
    assert(kw_in@ =~= seq!['i', 'n']);
    assert(kw_if@ =~= seq!['i', 'f']);
    assert(kw_else@ =~= seq!['e', 'l', 's', 'e']);
    assert(kw_end@ =~= seq!['e', 'n', 'd']);
    assert(kw_when@ =~= seq!['w', 'h', 'e', 'n']);
    if word_is(w, &kw_for) {
        TokenKind::For
    } else if word_is(w, &kw_in) {
        TokenKind::In
    } else if word_is(w, &kw_if) {
        TokenKind::If
    } else if word_is(w, &kw_else) {
        TokenKind::Else
    } else if word_is(w, &kw_end) {
        TokenKind::End
    } else if word_is(w, &kw_when) {
        TokenKind::When
    } else {
        TokenKind::Identifier
    }
}

/// The operator token of two characters that starts at `i`, if any.
fn pair_kind_at(s: &Vec<char>, i: usize) -> (r: Option<TokenKind>)
    ensures
        r == pair_kind(s@, i as int),
{
    if has_pair(s, i, '=', '=') {
        Some(TokenKind::Equals)
    } else if has_pair(s, i, '!', '=') {
        Some(TokenKind::NotEquals)
    } else if has_pair(s, i, '&', '&') {
        Some(TokenKind::And)
    } else if has_pair(s, i, '|', '|') {
        Some(TokenKind::Or)
    } else {
        None
    }
}

/// Splits a template, given as its characters, into tokens.
pub fn tokenize_chars(s: &Vec<char>) -> (r: Result<Vec<Token>, LexError>)
    ensures
        match r {
            Ok(ts) => lex_all(s@) == Ok::<Tokens, LexError>(tokens_view(ts@)),
            Err(err) => lex_all(s@) == Err::<Tokens, LexError>(err),
        },
{
    let mut toks: Vec<Token> = Vec::new();
    let mut i: usize = 0;
    let mut inside = false;
    assert(lead(tokens_view(toks@), lex_all(s@)) =~= lex_all(s@)) by {
        if let Ok(t) = lex_all(s@) {
            assert(tokens_view(toks@) + t =~= t);
        }
    }
    while i < s.len() || inside
        invariant
            i <= s.len(),
            lex_all(s@) == lead(tokens_view(toks@), lex(s@, i as int, inside)),
        decreases s.len() - i,
    {
        let ghost tv = tokens_view(toks@);
        let ghost ii = i as int;
        if !inside {
            let j = text_end(s, i);
            let ghost lit: Tokens = if j > i {
                seq![(TokenKind::TemplateLiteral, s@.subrange(ii, j as int))]
            } else {
                Seq::empty()
            };
            if j > i {
                toks.push(Token { kind: TokenKind::TemplateLiteral, text: slice_chars(s, i, j) });
            }
            assert(tokens_view(toks@) =~= tv + lit);
            if j >= s.len() {
                assert(lex(s@, ii, false) == Ok::<Tokens, LexError>(lit));
                assert(tokens_view(toks@) + Seq::empty() =~= tokens_view(toks@));
                i = j;
                assert(lex(s@, i as int, false) == Ok::<Tokens, LexError>(Seq::empty()));
            } else {
                toks.push(Token { kind: TokenKind::OpenBraces, text: vec!['{', '{'] });
                assert(tokens_view(toks@) =~= tv + lit.push((TokenKind::OpenBraces, seq!['{', '{'])));
                proof {
                    lemma_lead_lead(tv, lit.push((TokenKind::OpenBraces, seq!['{', '{'])), lex(s@, j + 2, true));
                }
                i = j + 2;
                inside = true;
            }
        } else {
            if i >= s.len() {
                return Err(LexError::UnterminatedDirective);
            }
            let c = s[i];
            if c == ' ' || c == '\t' || c == '\n' || c == '\r' {
                i = i + 1;
            } else if has_pair(s, i, '}', '}') {
                toks.push(Token { kind: TokenKind::CloseBraces, text: vec!['}', '}'] });
                let ghost b = seq![(TokenKind::CloseBraces, seq!['}', '}'])];
                assert(tokens_view(toks@) =~= tv + b);
                proof {
                    lemma_lead_lead(tv, b, lex(s@, ii + 2, false));
                }
                i = i + 2;
                inside = false;
            } else if c == '"' || c == '\'' {
                let j = until_end(s, i + 1, c);
                if j >= s.len() {
                    return Err(LexError::UnterminatedString);
                }
                toks.push(Token { kind: TokenKind::StringLiteral, text: slice_chars(s, i + 1, j) });
                let ghost b = seq![(TokenKind::StringLiteral, s@.subrange(ii + 1, j as int))];
                assert(tokens_view(toks@) =~= tv + b);
                proof {
                    lemma_lead_lead(tv, b, lex(s@, j + 1, true));
                }
                i = j + 1;
            } else if ident_start(c) {
                let j = ident_end(s, i + 1);
                let w = slice_chars(s, i, j);
                let k = kind_of_word(&w);
                toks.push(Token { kind: k, text: w });
                let ghost b = seq![(word_kind(s@.subrange(ii, j as int)), s@.subrange(ii, j as int))];
                assert(tokens_view(toks@) =~= tv + b);
                proof {
                    lemma_lead_lead(tv, b, lex(s@, j as int, true));
                }
                i = j;
            } else if let Some(k) = pair_kind_at(s, i) {
                let t = slice_chars(s, i, i + 2);
                let ghost b = seq![(k, s@.subrange(ii, ii + 2))];
                assert(t@ == s@.subrange(ii, ii + 2));
                toks.push(Token { kind: k, text: t });
                assert(toks@.last()@ == b[0]);
                assert(tokens_view(toks@) =~= tv + b);
                proof {
                    lemma_lead_lead(tv, b, lex(s@, ii + 2, true));
                }
                i = i + 2;
            } else if c == '!' {
                let t = vec!['!'];
                assert(t@ =~= seq!['!']);
                toks.push(Token { kind: TokenKind::Not, text: t });
                let ghost b = seq![(TokenKind::Not, seq!['!'])];
                assert(tokens_view(toks@) =~= tv + b);
                proof {
                    lemma_lead_lead(tv, b, lex(s@, ii + 1, true));
                }
                i = i + 1;
            } else if c == '.' {
                let t = vec!['.'];
                assert(t@ =~= seq!['.']);
                toks.push(Token { kind: TokenKind::Dot, text: t });
                let ghost b = seq![(TokenKind::Dot, seq!['.'])];
                assert(tokens_view(toks@) =~= tv + b);
                proof {
                    lemma_lead_lead(tv, b, lex(s@, ii + 1, true));
                }
                i = i + 1;
            } else {
                return Err(LexError::UnexpectedChar);
            }
        }
    }
    assert(lex(s@, i as int, false) == Ok::<Tokens, LexError>(Seq::empty()));
    assert(tokens_view(toks@) + Seq::empty() =~= tokens_view(toks@));
    Ok(toks)
}

} // verus!

//! Splits source text into tokens.
use vstd::prelude::*;
use vstd::string::StrSliceExecFns;

verus! {

/// A token; `S` holds the text of strings and identifiers.
#[derive(Debug, Clone, PartialEq)]
pub enum TokenOf<S> {
    /// A run of decimal digits.
    Number(u64),
    Plus,
    /// The characters between two double quotes.
    Str(S),
    /// A run of spaces, tabs, carriage returns, newlines and form feeds.
    Whitespace,
    /// The keyword `save`.
    Save,
    /// The keyword `to`.
    To,
    Period,
    /// A run of ASCII letters other than a keyword.
    Ident(S),
    /// A character that starts no token: an unmatched quote, a digit run
    /// whose value does not fit in 64 bits, or any other character.
    Unknown(char),
}

/// A token as produced.
pub type Token = TokenOf<String>;

/// Model of a token.
pub type TokenModel = TokenOf<Seq<char>>;

impl TokenOf<String> {
    pub open spec fn view(&self) -> TokenModel {
        match *self {
            TokenOf::Number(n) => TokenOf::Number(n),
            TokenOf::Plus => TokenOf::Plus,
            TokenOf::Str(s) => TokenOf::Str(s@),
            TokenOf::Whitespace => TokenOf::Whitespace,
            TokenOf::Save => TokenOf::Save,
            TokenOf::To => TokenOf::To,
            TokenOf::Period => TokenOf::Period,
            TokenOf::Ident(s) => TokenOf::Ident(s@),
            TokenOf::Unknown(c) => TokenOf::Unknown(c),
        }
    }

    /// A copy of this token, equal to it.
    pub fn duplicate(&self) -> (r: Token)
        ensures
            r == *self,
    {
        match self {
            TokenOf::Number(n) => TokenOf::Number(*n),
            TokenOf::Plus => TokenOf::Plus,
            TokenOf::Str(s) => TokenOf::Str(s.clone()),
            TokenOf::Whitespace => TokenOf::Whitespace,
            TokenOf::Save => TokenOf::Save,
            TokenOf::To => TokenOf::To,
            TokenOf::Period => TokenOf::Period,
            TokenOf::Ident(s) => TokenOf::Ident(s.clone()),
            TokenOf::Unknown(c) => TokenOf::Unknown(*c),
        }
    }
}

/// Model of a list of tokens.
pub open spec fn view_tokens(s: Seq<Token>) -> Seq<TokenModel> {
    s.map_values(|t: Token| t@)
}

/// Classes of characters that form runs.
#[derive(Clone, Copy)]
pub enum CharClass {
    Digit,
    Space,
    Letter,
}

pub open spec fn in_class(c: char, class: CharClass) -> bool {
    match class {
        CharClass::Digit => '0' <= c && c <= '9',
        CharClass::Space => c == ' ' || c == '\t' || c == '\r' || c == '\n' || c == '\x0c',
        CharClass::Letter => ('a' <= c && c <= 'z') || ('A' <= c && c <= 'Z'),
    }
}

/// The end of the run of characters of `class` that starts at `i`.
pub open spec fn run_end(s: Seq<char>, i: int, class: CharClass) -> int
    decreases s.len() - i,
{
    if 0 <= i < s.len() && in_class(s[i], class) {
        run_end(s, i + 1, class)
    } else {
        i
    }
}

/// The position of the first double quote at or after `i`, or the length of
/// `s` if there is none.
pub open spec fn quote_at_or_after(s: Seq<char>, i: int) -> int
    decreases s.len() - i,
{
    if 0 <= i < s.len() && s[i] != '"' {
        quote_at_or_after(s, i + 1)
    } else if i < 0 {
        s.len() as int
    } else {
        i
    }
}

/// The value of the decimal digits `s[i..j]`.
pub open spec fn digits_value(s: Seq<char>, i: int, j: int) -> nat
    decreases j - i,
{
    if j <= i {
        0
    } else {
        digits_value(s, i, j - 1) * 10 + ((s[j - 1] as u32) - ('0' as u32)) as nat
    }
}

/// The token for a word of letters.
pub open spec fn word_token(w: Seq<char>) -> TokenModel {
    if w == "save"@ {
        TokenOf::Save
    } else if w == "to"@ {
        TokenOf::To
    } else {
        TokenOf::Ident(w)
    }
}

/// The first token of `s` at position `i` (which is in range), and where the
/// next one starts.
pub open spec fn token_at(s: Seq<char>, i: int) -> (TokenModel, int) {
    let c = s[i];
    if in_class(c, CharClass::Digit) {
        let j = run_end(s, i, CharClass::Digit);
        let v = digits_value(s, i, j);
        (if v <= u64::MAX { TokenOf::Number(v as u64) } else { TokenOf::Unknown(c) }, j)
    } else if in_class(c, CharClass::Space) {
        (TokenOf::Whitespace, run_end(s, i, CharClass::Space))
    } else if in_class(c, CharClass::Letter) {
        let j = run_end(s, i, CharClass::Letter);
        (word_token(s.subrange(i, j)), j)
    } else if c == '+' {
        (TokenOf::Plus, i + 1)
    } else if c == '.' {
        (TokenOf::Period, i + 1)
    } else if c == '"' {
        let j = quote_at_or_after(s, i + 1);
        if j < s.len() {
            (TokenOf::Str(s.subrange(i + 1, j)), j + 1)
        } else {
            (TokenOf::Unknown(c), i + 1)
        }
    } else {
        (TokenOf::Unknown(c), i + 1)
    }
}

proof fn lemma_run_end(s: Seq<char>, i: int, class: CharClass)
    requires
        0 <= i <= s.len(),
    ensures
        i <= run_end(s, i, class) <= s.len(),
        i < s.len() && in_class(s[i], class) ==> run_end(s, i, class) > i,
        forall|k: int| i <= k < run_end(s, i, class) ==> in_class(#[trigger] s[k], class),
    decreases s.len() - i,
{
    if i < s.len() && in_class(s[i], class) {
        lemma_run_end(s, i + 1, class);
    }
}

proof fn lemma_quote(s: Seq<char>, i: int)
    requires
        0 <= i <= s.len(),
    ensures
        i <= quote_at_or_after(s, i) <= s.len(),
        forall|k: int| i <= k < quote_at_or_after(s, i) ==> #[trigger] s[k] != '"',
        quote_at_or_after(s, i) < s.len() ==> s[quote_at_or_after(s, i)] == '"',
    decreases s.len() - i,
{
    if i < s.len() && s[i] != '"' {
        lemma_quote(s, i + 1);
    }
}

proof fn lemma_token_advances(s: Seq<char>, i: int)
    requires
        0 <= i < s.len(),
    ensures
        i < token_at(s, i).1 <= s.len(),
{
    lemma_run_end(s, i, CharClass::Digit);
    lemma_run_end(s, i, CharClass::Space);
    lemma_run_end(s, i, CharClass::Letter);
    lemma_quote(s, i + 1);
}

/// The tokens of `s` from position `i` on.
pub open spec fn lex_from(s: Seq<char>, i: int) -> Seq<TokenModel>
    decreases s.len() - i,
    via lex_from_decreases
{
    if 0 <= i < s.len() {
        let (t, j) = token_at(s, i);
        seq![t] + lex_from(s, j)
    } else {
        Seq::empty()
    }
}

#[via_fn]
proof fn lex_from_decreases(s: Seq<char>, i: int) {
    if 0 <= i < s.len() {
        lemma_token_advances(s, i);
    }
}

/// The tokens of `s`.
pub open spec fn lex(s: Seq<char>) -> Seq<TokenModel> {
    lex_from(s, 0)
}

fn char_in_class(c: char, class: CharClass) -> (r: bool)
    ensures
        r == in_class(c, class),
{
    match class {
        CharClass::Digit => '0' <= c && c <= '9',
        CharClass::Space => c == ' ' || c == '\t' || c == '\r' || c == '\n' || c == '\x0c',
        CharClass::Letter => ('a' <= c && c <= 'z') || ('A' <= c && c <= 'Z'),
    }
}

/// The end of the run of characters of `class` in `s` that starts at `i`.
fn scan_run(s: &str, n: usize, i: usize, class: CharClass) -> (j: usize)
    requires
        n == s@.len(),
        i <= n,
    ensures
        j == run_end(s@, i as int, class),
{
    let mut k = i;
    while k < n && char_in_class(s.get_char(k), class)
        invariant
            n == s@.len(),
            i <= k <= n,
            run_end(s@, i as int, class) == run_end(s@, k as int, class),
        decreases n - k,
    {
        k = k + 1;
    }
    k
}

/// The position of the first double quote in `s` at or after `i`, or `n`.
fn find_quote(s: &str, n: usize, i: usize) -> (j: usize)
    requires
        n == s@.len(),
        i <= n,
    ensures
        j == quote_at_or_after(s@, i as int),
{
    let mut k = i;
    while k < n && s.get_char(k) != '"'
        invariant
            n == s@.len(),
            i <= k <= n,
            quote_at_or_after(s@, i as int) == quote_at_or_after(s@, k as int),
        decreases n - k,
    {
        k = k + 1;
    }
    k
}

/// The value of the digits `s[i..j]`, if it fits in 64 bits.
fn digits_u64(s: &str, n: usize, i: usize, j: usize) -> (r: Option<u64>)
    requires
        n == s@.len(),
        i <= j <= n,
        forall|k: int| i <= k < j ==> in_class(#[trigger] s@[k], CharClass::Digit),
    ensures
        r == (if digits_value(s@, i as int, j as int) <= u64::MAX {
            Some(digits_value(s@, i as int, j as int) as u64)
        } else {
            None::<u64>
        }),
{
    let mut acc: Option<u64> = Some(0);
    let mut k = i;
    while k < j
        invariant
            n == s@.len(),
            i <= k <= j <= n,
            forall|m: int| i <= m < j ==> in_class(#[trigger] s@[m], CharClass::Digit),
            acc == (if digits_value(s@, i as int, k as int) <= u64::MAX {
                Some(digits_value(s@, i as int, k as int) as u64)
            } else {
                None::<u64>
            }),
        decreases j - k,
    {
        let c = s.get_char(k);
        let d = (c as u32 - '0' as u32) as u64;
        let ghost prev = digits_value(s@, i as int, k as int);
        assert(digits_value(s@, i as int, k + 1) == prev * 10 + d);
        assert(prev * 10 + d >= prev) by (nonlinear_arith);
        acc = match acc {
            Some(a) => match a.checked_mul(10) {
                Some(b) => b.checked_add(d),
                None => {
                    assert(prev * 10 + d >= prev * 10) by (nonlinear_arith);
                    None
                },
            },
            None => None,
        };
        k = k + 1;
    }
    acc
}

/// Splits `string` into tokens, longest match first; whitespace runs are
/// kept as tokens.
pub fn extract_tokens(string: String) -> (r: Vec<Token>)
    ensures
        view_tokens(r@) == lex(string@),
{
    let s = string.as_str();
    let n = s.unicode_len();
    let mut out: Vec<Token> = Vec::new();
    let mut i: usize = 0;
    while i < n
        invariant
            n == s@.len(),
            s@ == string@,
            i <= n,
            view_tokens(out@) + lex_from(s@, i as int) == lex(s@),
        decreases n - i,
    {
        proof {
            lemma_token_advances(s@, i as int);
            lemma_run_end(s@, i as int, CharClass::Digit);
            lemma_run_end(s@, i as int, CharClass::Letter);
            lemma_quote(s@, i + 1);
        }
        let c = s.get_char(i);
        let (t, j) = if char_in_class(c, CharClass::Digit) {
            let j = scan_run(s, n, i, CharClass::Digit);
            match digits_u64(s, n, i, j) {
                Some(v) => (TokenOf::Number(v), j),
                None => (TokenOf::Unknown(c), j),
            }
        } else if char_in_class(c, CharClass::Space) {
            (TokenOf::Whitespace, scan_run(s, n, i, CharClass::Space))
        } else if char_in_class(c, CharClass::Letter) {
            let j = scan_run(s, n, i, CharClass::Letter);
            let w = s.substring_char(i, j).to_owned();
            if w == "save".to_owned() {
                (TokenOf::Save, j)
            } else if w == "to".to_owned() {
                (TokenOf::To, j)
            } else {
                (TokenOf::Ident(w), j)
            }
        } else if c == '+' {
            (TokenOf::Plus, i + 1)
        } else if c == '.' {
            (TokenOf::Period, i + 1)
        } else if c == '"' {
            let j = find_quote(s, n, i + 1);
            if j < n {
                (TokenOf::Str(s.substring_char(i + 1, j).to_owned()), j + 1)
            } else {
                (TokenOf::Unknown(c), i + 1)
            }
        } else {
            (TokenOf::Unknown(c), i + 1)
        };
        assert(t@ == token_at(s@, i as int).0 && j as int == token_at(s@, i as int).1);
        let ghost before = view_tokens(out@);
        out.push(t);
        assert(view_tokens(out@) =~= before.push(t@));
        assert(view_tokens(out@) + lex_from(s@, j as int) =~= before + (seq![t@] + lex_from(s@, j as int)));
        i = j;
    }
    assert(view_tokens(out@) + Seq::empty() =~= view_tokens(out@));
    out
}

} // verus!

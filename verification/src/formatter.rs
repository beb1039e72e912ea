//! The source formatter: each line's code is re-spaced token by token, comments are
//! kept, lines are indented four spaces per open delimiter, and blank lines are kept
//! single and put between top-level items.
use vstd::prelude::*;

use crate::text::{
    chars_of, is_white, is_white_exec, join_with, lemma_join_push, push_str, string_of,
    trim_end_white, trim_start_white,
};

verus! {

// ---------------------------------------------------------------------------
// Tokens

#[derive(Debug, Clone, Copy, PartialEq, Eq, Structural)]
pub enum TokenKind {
    Word,
    String,
    Symbol,
}

/// A token of one line of code: its characters and kind.
#[derive(Debug)]
pub struct Token {
    pub text: Vec<char>,
    pub kind: TokenKind,
}

/// A token as a value.
pub struct TokenModel {
    pub text: Seq<char>,
    pub kind: TokenKind,
}

impl View for Token {
    type V = TokenModel;

    open spec fn view(&self) -> TokenModel {
        TokenModel { text: self.text@, kind: self.kind }
    }
}

pub open spec fn token_models(v: Seq<Token>) -> Seq<TokenModel> {
    Seq::new(v.len(), |i: int| v[i]@)
}

/// Whether Rust counts a character as alphanumeric (Unicode letters and numbers).
pub uninterp spec fn is_alphanumeric_char(c: char) -> bool;

/// `char::is_alphanumeric`.
#[verifier::external_body]
fn alphanumeric(c: char) -> (r: bool)
    ensures
        r == is_alphanumeric_char(c),
{
    c.is_alphanumeric()
}

pub open spec fn is_digit(c: char) -> bool {
    '0' <= c <= '9'
}

pub open spec fn is_word_char(c: char) -> bool {
    is_alphanumeric_char(c) || c == '_'
}

fn word_char(c: char) -> (r: bool)
    ensures
        r == is_word_char(c),
{
    alphanumeric(c) || c == '_'
}

/// The index just after the closing quote of a string literal whose contents start at `j`,
/// or the end of the line where it is not closed.
pub open spec fn string_end(s: Seq<char>, j: int, escaped: bool) -> int
    decreases s.len() - j,
{
    if j < 0 || j >= s.len() {
        s.len() as int
    } else if escaped {
        string_end(s, j + 1, false)
    } else if s[j] == '\\' {
        string_end(s, j + 1, true)
    } else if s[j] == '"' {
        j + 1
    } else {
        string_end(s, j + 1, false)
    }
}

/// The end of the digits (and at most one decimal point followed by no other point) from `j`.
pub open spec fn number_end(s: Seq<char>, j: int, seen_decimal: bool) -> int
    decreases s.len() - j,
{
    if j < 0 || j >= s.len() {
        j
    } else if is_digit(s[j]) {
        number_end(s, j + 1, seen_decimal)
    } else if s[j] == '.' && !seen_decimal && j + 1 < s.len() && s[j + 1] != '.' {
        number_end(s, j + 1, true)
    } else {
        j
    }
}

/// The end of the word characters from `j`.
pub open spec fn word_end(s: Seq<char>, j: int) -> int
    decreases s.len() - j,
{
    if 0 <= j < s.len() && is_word_char(s[j]) {
        word_end(s, j + 1)
    } else {
        j
    }
}

/// The two-character operators.
pub open spec fn is_pair_symbol(a: char, b: char) -> bool {
    (a == '=' && b == '=') || (a == '!' && b == '=') || (a == '>' && b == '=') || (a == '<' && b == '=')
        || (a == '-' && b == '>') || (a == '.' && b == '.')
}

/// Token texts after which a `-` followed by a digit starts a negative number.
pub open spec fn unary_before(t: Seq<char>) -> bool {
    t == seq!['('] || t == seq!['{'] || t == seq!['['] || t == seq![','] || t == seq![':'] || t == seq!['=']
        || t == seq!['=', '='] || t == seq!['!', '='] || t == seq!['>'] || t == seq!['<'] || t == seq!['>', '=']
        || t == seq!['<', '='] || t == seq!['-', '>']
}

pub open spec fn unary_position(acc: Seq<TokenModel>) -> bool {
    acc.len() == 0 || unary_before(acc.last().text)
}

/// The tokens of `s` from index `i` on, after the tokens `acc` already read.
pub open spec fn scan_tokens(s: Seq<char>, i: int, acc: Seq<TokenModel>) -> Seq<TokenModel>
    decreases s.len() - i,
{
    if i < 0 || i >= s.len() {
        acc
    } else {
        let ch = s[i];
        if is_white(ch) {
            scan_tokens(s, i + 1, acc)
        } else if ch == '"' {
            let j = string_end(s, i + 1, false);
            if j <= i || j > s.len() { acc } else {
                scan_tokens(s, j, acc.push(TokenModel { text: s.subrange(i, j), kind: TokenKind::String }))
            }
        } else if ch == '-' && i + 1 < s.len() && is_digit(s[i + 1]) && unary_position(acc) {
            let j = number_end(s, i + 2, false);
            if j <= i || j > s.len() { acc } else {
                scan_tokens(s, j, acc.push(TokenModel { text: s.subrange(i, j), kind: TokenKind::Word }))
            }
        } else if is_word_char(ch) {
            let j = word_end(s, i + 1);
            if j <= i || j > s.len() { acc } else {
                scan_tokens(s, j, acc.push(TokenModel { text: s.subrange(i, j), kind: TokenKind::Word }))
            }
        } else if i + 1 < s.len() && is_pair_symbol(ch, s[i + 1]) {
            scan_tokens(s, i + 2, acc.push(TokenModel { text: s.subrange(i, i + 2), kind: TokenKind::Symbol }))
        } else {
            scan_tokens(s, i + 1, acc.push(TokenModel { text: seq![ch], kind: TokenKind::Symbol }))
        }
    }
}

proof fn lemma_string_end(s: Seq<char>, j: int, escaped: bool)
    requires
        0 <= j,
    ensures
        j <= string_end(s, j, escaped) <= s.len() || (j > s.len() && string_end(s, j, escaped) == s.len()),
    decreases s.len() - j,
{
    if j < s.len() {
        lemma_string_end(s, j + 1, false);
        lemma_string_end(s, j + 1, true);
    }
}

proof fn lemma_number_end(s: Seq<char>, j: int, seen: bool)
    requires
        0 <= j,
    ensures
        j <= number_end(s, j, seen),
        j <= s.len() ==> number_end(s, j, seen) <= s.len(),
    decreases s.len() - j,
{
    if j < s.len() {
        lemma_number_end(s, j + 1, seen);
        lemma_number_end(s, j + 1, true);
    }
}

proof fn lemma_word_end(s: Seq<char>, j: int)
    requires
        0 <= j,
    ensures
        j <= word_end(s, j),
        j <= s.len() ==> word_end(s, j) <= s.len(),
    decreases s.len() - j,
{
    if 0 <= j < s.len() && is_word_char(s[j]) {
        lemma_word_end(s, j + 1);
    }
}

/// The two-character operators of the language.
pub open spec fn two_char_operators() -> Seq<Seq<char>> {
    seq![seq!['=', '='], seq!['!', '='], seq!['>', '='], seq!['<', '='], seq!['-', '>'], seq!['.', '.']]
}

/// A character that stands only inside a word: a word character that is neither white space,
/// a quote nor a minus sign.
pub open spec fn plain_word_char(c: char) -> bool {
    is_word_char(c) && !is_white(c) && c != '"' && c != '-'
}

proof fn lemma_operator_chars(op: Seq<char>)
    requires
        two_char_operators().contains(op),
    ensures
        op.len() == 2,
        !is_white(op[0]) && op[0] != '"' && op[0] != '_' && !is_digit(op[1]),
        is_pair_symbol(op[0], op[1]),
{
    let k = choose|k: int| 0 <= k < two_char_operators().len() && two_char_operators()[k] == op;
    assert(two_char_operators()[k] == op);
    if k == 0 {
        assert(op == seq!['=', '=']);
    } else if k == 1 {
        assert(op == seq!['!', '=']);
    } else if k == 2 {
        assert(op == seq!['>', '=']);
    } else if k == 3 {
        assert(op == seq!['<', '=']);
    } else if k == 4 {
        assert(op == seq!['-', '>']);
    } else {
        assert(op == seq!['.', '.']);
    }
}

/// Wherever the scan of a line reaches a two-character operator whose first character is not
/// a letter or a digit, the whole operator becomes one symbol token and the scan goes on after
/// it.
pub proof fn lemma_operator_is_one_token(s: Seq<char>, i: int, acc: Seq<TokenModel>)
    requires
        0 <= i,
        i + 2 <= s.len(),
        two_char_operators().contains(s.subrange(i, i + 2)),
        !is_alphanumeric_char(s[i]),
    ensures
        scan_tokens(s, i, acc) == scan_tokens(s, i + 2, acc.push(TokenModel { text: s.subrange(i, i + 2), kind: TokenKind::Symbol })),
{
    let op = s.subrange(i, i + 2);
    lemma_operator_chars(op);
    assert(op[0] == s[i] && op[1] == s[i + 1]);
}

proof fn lemma_word_end_reaches(s: Seq<char>, j: int, e: int)
    requires
        0 <= j <= e <= s.len(),
        forall|k: int| j <= k < e ==> is_word_char(#[trigger] s[k]),
        e == s.len() || !is_word_char(s[e]),
    ensures
        word_end(s, j) == e,
    decreases e - j,
{
    if j < e {
        lemma_word_end_reaches(s, j + 1, e);
    }
}

/// A two-character operator between two words is read as exactly three tokens: the first word,
/// the operator and the second word; `a>=b` gives `a`, `>=` and `b`.
pub proof fn lemma_operator_between_words(w1: Seq<char>, op: Seq<char>, w2: Seq<char>)
    requires
        w1.len() > 0,
        w2.len() > 0,
        forall|j: int| 0 <= j < w1.len() ==> plain_word_char(#[trigger] w1[j]),
        forall|j: int| 0 <= j < w2.len() ==> plain_word_char(#[trigger] w2[j]),
        two_char_operators().contains(op),
        !is_alphanumeric_char(op[0]),
    ensures
        scan_tokens(w1 + op + w2, 0, Seq::empty()) == seq![
            TokenModel { text: w1, kind: TokenKind::Word },
            TokenModel { text: op, kind: TokenKind::Symbol },
            TokenModel { text: w2, kind: TokenKind::Word },
        ],
{
    lemma_operator_chars(op);
    let s = w1 + op + w2;
    let n1 = w1.len() as int;
    let n = s.len() as int;
    assert(forall|k: int| 0 <= k < n1 ==> s[k] == w1[k]);
    assert(s[n1] == op[0] && s[n1 + 1] == op[1]);
    assert(forall|k: int| 0 <= k < w2.len() ==> s[n1 + 2 + k] == w2[k]);
    assert(s.subrange(0, n1) =~= w1);
    assert(s.subrange(n1, n1 + 2) =~= op);
    assert(s.subrange(n1 + 2, n) =~= w2);
    let t1 = TokenModel { text: w1, kind: TokenKind::Word };
    let t2 = TokenModel { text: op, kind: TokenKind::Symbol };
    let t3 = TokenModel { text: w2, kind: TokenKind::Word };
    assert(plain_word_char(w1[0]));
    assert forall|k: int| 1 <= k < n1 implies is_word_char(#[trigger] s[k]) by {
        assert(plain_word_char(w1[k]));
    }
    lemma_word_end_reaches(s, 1, n1);
    assert(scan_tokens(s, 0, Seq::empty()) == scan_tokens(s, n1, Seq::empty().push(t1)));
    lemma_operator_is_one_token(s, n1, Seq::empty().push(t1));
    assert(plain_word_char(w2[0]));
    assert(s[n1 + 2] == w2[0]);
    assert forall|k: int| n1 + 3 <= k < n implies is_word_char(#[trigger] s[k]) by {
        assert(s[k] == w2[k - n1 - 2]);
        assert(plain_word_char(w2[k - n1 - 2]));
    }
    lemma_word_end_reaches(s, n1 + 3, n);
    assert(scan_tokens(s, n1 + 2, Seq::empty().push(t1).push(t2)) == scan_tokens(s, n, Seq::empty().push(t1).push(t2).push(t3)));
    assert(Seq::empty().push(t1).push(t2).push(t3) =~= seq![t1, t2, t3]);
}

/// A minus sign directly followed by a digit where a value is expected (at the start of a line
/// or after an operator, an opening bracket, a comma or a colon) starts a negative number: the
/// sign and the digits that follow are one word token.
pub proof fn lemma_minus_before_digit_where_a_value_is_expected(s: Seq<char>, i: int, acc: Seq<TokenModel>)
    requires
        0 <= i,
        i + 1 < s.len(),
        s[i] == '-',
        is_digit(s[i + 1]),
        unary_position(acc),
    ensures
        i + 2 <= number_end(s, i + 2, false) <= s.len(),
        scan_tokens(s, i, acc) == scan_tokens(s, number_end(s, i + 2, false),
            acc.push(TokenModel { text: s.subrange(i, number_end(s, i + 2, false)), kind: TokenKind::Word })),
{
    lemma_number_end(s, i + 2, false);
}

/// After a word that ends in a letter, a digit or an underscore, a minus sign is the
/// subtraction operator: `a-1` gives `a`, `-` and `1`.
pub proof fn lemma_minus_after_a_word_is_an_operator(s: Seq<char>, i: int, acc: Seq<TokenModel>)
    requires
        0 <= i,
        i + 1 < s.len(),
        s[i] == '-',
        is_digit(s[i + 1]),
        acc.len() > 0,
        acc.last().text.len() > 0,
        ('a' <= acc.last().text.last() <= 'z') || ('A' <= acc.last().text.last() <= 'Z') || is_digit(acc.last().text.last())
            || acc.last().text.last() == '_',
        !is_alphanumeric_char('-'),
    ensures
        scan_tokens(s, i, acc) == scan_tokens(s, i + 1, acc.push(TokenModel { text: seq!['-'], kind: TokenKind::Symbol })),
{
    let t = acc.last().text;
    assert(!unary_before(t)) by {
        if t.len() == 1 {
            assert(t[0] == t.last());
        } else if t.len() == 2 {
            assert(t[1] == t.last());
        }
    }
}

fn text_is(t: &Vec<char>, lit: &str) -> (r: bool)
    ensures
        r == (t@ == lit@),
{
    let l = chars_of(lit);
    if t.len() != l.len() {
        return false;
    }
    let mut i: usize = 0;
    while i < t.len()
        invariant
            l@ == lit@,
            t.len() == l.len(),
            i <= t@.len(),
            forall|k: int| 0 <= k < i ==> t@[k] == l@[k],
        decreases t.len() - i,
    {
        if t[i] != l[i] {
            return false;
        }
        i = i + 1;
    }
    proof {
        assert(t@ =~= l@);
    }
    true
}

fn is_unary_position(previous: Option<&Token>) -> (r: bool)
    ensures
        r == match previous {
            None => true,
            Some(t) => unary_before(t.text@),
        },
{
    match previous {
        None => true,
        Some(t) => {
            let x = &t.text;
            let r = if x.len() == 1 {
                let c = x[0];
                c == '(' || c == '{' || c == '[' || c == ',' || c == ':' || c == '=' || c == '>' || c == '<'
            } else if x.len() == 2 {
                let a = x[0];
                let b = x[1];
                (a == '=' && b == '=') || (a == '!' && b == '=') || (a == '>' && b == '=') || (a == '<' && b == '=')
                    || (a == '-' && b == '>')
            } else {
                false
            };
            proof {
                if x@.len() == 1 {
                    assert(x@ =~= seq![x@[0]]);
                } else if x@.len() == 2 {
                    assert(x@ =~= seq![x@[0], x@[1]]);
                }
            }
            r
        },
    }
}

fn slice_to_vec(s: &Vec<char>, from: usize, to: usize) -> (r: Vec<char>)
    requires
        from <= to <= s@.len(),
    ensures
        r@ == s@.subrange(from as int, to as int),
{
    let mut r: Vec<char> = Vec::new();
    let mut k = from;
    while k < to
        invariant
            from <= k <= to <= s@.len(),
            r@ == s@.subrange(from as int, k as int),
        decreases to - k,
    {
        r.push(s[k]);
        k = k + 1;
    }
    r
}

fn string_end_exec(s: &Vec<char>, j: usize) -> (e: usize)
    requires
        j <= s@.len(),
    ensures
        e as int == string_end(s@, j as int, false),
{
    let mut k = j;
    let mut escaped = false;
    while k < s.len()
        invariant
            j <= k <= s@.len(),
            string_end(s@, k as int, escaped) == string_end(s@, j as int, false),
        decreases s.len() - k,
    {
        let current = s[k];
        if escaped {
            escaped = false;
        } else if current == '\\' {
            escaped = true;
        } else if current == '"' {
            return k + 1;
        }
        k = k + 1;
    }
    s.len()
}

fn number_end_exec(s: &Vec<char>, j: usize) -> (e: usize)
    requires
        j <= s@.len(),
    ensures
        e as int == number_end(s@, j as int, false),
{
    let mut k = j;
    let mut seen_decimal = false;
    while k < s.len()
        invariant
            j <= k <= s@.len(),
            number_end(s@, k as int, seen_decimal) == number_end(s@, j as int, false),
        decreases s.len() - k,
    {
        if '0' <= s[k] && s[k] <= '9' {
            k = k + 1;
        } else if s[k] == '.' && !seen_decimal && k + 1 < s.len() && s[k + 1] != '.' {
            seen_decimal = true;
            k = k + 1;
        } else {
            return k;
        }
    }
    k
}

fn word_end_exec(s: &Vec<char>, j: usize) -> (e: usize)
    requires
        j <= s@.len(),
    ensures
        e as int == word_end(s@, j as int),
{
    let mut k = j;
    while k < s.len() && word_char(s[k])
        invariant
            j <= k <= s@.len(),
            word_end(s@, k as int) == word_end(s@, j as int),
        decreases s.len() - k,
    {
        k = k + 1;
    }
    k
}

/// The tokens of one line of code: string literals, words (and negative numbers where a
/// value is expected), two-character operators and single symbols; white space separates.
pub fn tokenize(code: &str) -> (r: Vec<Token>)
    ensures
        token_models(r@) == scan_tokens(code@, 0, Seq::empty()),
{
    let chars = chars_of(code);
    let n = chars.len();
    let mut tokens: Vec<Token> = Vec::new();
    let mut i: usize = 0;
    proof {
        assert(token_models(tokens@) =~= Seq::<TokenModel>::empty());
    }
    while i < n
        invariant
            n == chars@.len(),
            chars@ == code@,
            i <= n,
            scan_tokens(chars@, i as int, token_models(tokens@)) == scan_tokens(code@, 0, Seq::empty()),
        decreases n - i,
    {
        let ghost acc = token_models(tokens@);
        let ghost old_i = i as int;
        let ch = chars[i];
        if is_white_exec(ch) {
            i = i + 1;
            continue;
        }
        if ch == '"' {
            let start = i;
            let end = string_end_exec(&chars, i + 1);
            proof {
                lemma_string_end(chars@, i + 1, false);
            }
            let text = slice_to_vec(&chars, start, end);
            tokens.push(Token { text, kind: TokenKind::String });
            proof {
                assert(token_models(tokens@) =~= acc.push(TokenModel { text: chars@.subrange(start as int, end as int), kind: TokenKind::String }));
            }
            i = end;
            continue;
        }
        let unary = if tokens.len() > 0 { is_unary_position(Some(&tokens[tokens.len() - 1])) } else { is_unary_position(None) };
        proof {
            if tokens@.len() > 0 {
                assert(acc.last() == tokens@[tokens@.len() - 1]@);
            }
        }
        if ch == '-' && i + 1 < n && '0' <= chars[i + 1] && chars[i + 1] <= '9' && unary {
            let start = i;
            let end = number_end_exec(&chars, i + 2);
            proof {
                lemma_number_end(chars@, i + 2, false);
            }
            let text = slice_to_vec(&chars, start, end);
            tokens.push(Token { text, kind: TokenKind::Word });
            proof {
                assert(token_models(tokens@) =~= acc.push(TokenModel { text: chars@.subrange(start as int, end as int), kind: TokenKind::Word }));
            }
            i = end;
            continue;
        }
        if word_char(ch) {
            let start = i;
            let end = word_end_exec(&chars, i + 1);
            proof {
                lemma_word_end(chars@, i + 1);
            }
            let text = slice_to_vec(&chars, start, end);
            tokens.push(Token { text, kind: TokenKind::Word });
            proof {
                assert(token_models(tokens@) =~= acc.push(TokenModel { text: chars@.subrange(start as int, end as int), kind: TokenKind::Word }));
            }
            i = end;
            continue;
        }
        if i + 1 < n {
            let a = chars[i];
            let b = chars[i + 1];
            if (a == '=' && b == '=') || (a == '!' && b == '=') || (a == '>' && b == '=') || (a == '<' && b == '=')
                || (a == '-' && b == '>') || (a == '.' && b == '.') {
                let text = slice_to_vec(&chars, i, i + 2);
                tokens.push(Token { text, kind: TokenKind::Symbol });
                proof {
                    assert(token_models(tokens@) =~= acc.push(TokenModel { text: chars@.subrange(i as int, i + 2), kind: TokenKind::Symbol }));
                }
                i = i + 2;
                continue;
            }
        }
        let mut text: Vec<char> = Vec::new();
        text.push(ch);
        tokens.push(Token { text, kind: TokenKind::Symbol });
        proof {
            assert(text@ =~= seq![ch]);
            assert(token_models(tokens@) =~= acc.push(TokenModel { text: seq![ch], kind: TokenKind::Symbol }));
        }
        i = i + 1;
    }
    tokens
}

// ---------------------------------------------------------------------------
// Rendering a line's tokens

/// `s` without its trailing spaces.
pub open spec fn strip_spaces(s: Seq<char>) -> Seq<char>
    decreases s.len(),
{
    if s.len() > 0 && s.last() == ' ' {
        strip_spaces(s.drop_last())
    } else {
        s
    }
}

/// `s` without its trailing spaces, then one space where anything precedes.
pub open spec fn ensure_space(s: Seq<char>) -> Seq<char> {
    let t = strip_spaces(s);
    if t.len() > 0 { t.push(' ') } else { t }
}

pub open spec fn is_text(t: Seq<char>, lit: &str) -> bool {
    t == lit@
}

/// The operators written with a space on each side.
pub open spec fn is_spaced_operator(t: Seq<char>) -> bool {
    is_text(t, "=") || is_text(t, "+") || is_text(t, "-") || is_text(t, "*") || is_text(t, "/")
        || is_text(t, "==") || is_text(t, "!=") || is_text(t, ">") || is_text(t, "<") || is_text(t, ">=")
        || is_text(t, "<=")
}

/// A `{` after this token gets a space before it.
pub open spec fn space_before_open_brace(prev: Option<TokenModel>) -> bool {
    match prev {
        Some(p) => !(is_text(p.text, "(") || is_text(p.text, "[") || is_text(p.text, "{") || is_text(p.text, "=")
            || is_text(p.text, ":") || is_text(p.text, ",") || is_text(p.text, "->")),
        None => false,
    }
}

/// A word or other token gets a space before it after `prev`.
pub open spec fn word_space(prev: Option<TokenModel>, cur: TokenModel) -> bool {
    match prev {
        None => false,
        Some(p) => {
            &&& !(is_text(p.text, "(") || is_text(p.text, "[") || is_text(p.text, "{") || is_text(p.text, ".") || is_text(p.text, "->"))
            &&& !is_text(p.text, "..")
            &&& !(is_text(cur.text, ")") || is_text(cur.text, "]") || is_text(cur.text, "}") || is_text(cur.text, ",")
                || is_text(cur.text, ":") || is_text(cur.text, ".") || is_text(cur.text, ".."))
            &&& (p.kind != TokenKind::Symbol || cur.kind != TokenKind::Symbol)
        },
    }
}

pub open spec fn closing_brace_after(toks: Seq<TokenModel>, idx: int) -> bool {
    exists|j: int| idx < j < toks.len() && is_text(#[trigger] toks[j].text, "}")
}

pub open spec fn opening_brace_before(toks: Seq<TokenModel>, idx: int) -> bool {
    exists|j: int| 0 <= j < idx && is_text(#[trigger] toks[j].text, "{")
}

/// The rendering after token `idx`, given the rendering `out` of the tokens before it.
pub open spec fn render_step(out: Seq<char>, toks: Seq<TokenModel>, idx: int) -> Seq<char> {
    let t = toks[idx];
    let text = t.text;
    let prev = if idx > 0 { Some(toks[idx - 1]) } else { None };
    if is_text(text, ",") {
        strip_spaces(out) + ", "@
    } else if is_text(text, ":") {
        strip_spaces(out) + ": "@
    } else if is_text(text, "->") {
        ensure_space(out) + "-> "@
    } else if is_text(text, "..") || is_text(text, ".") {
        strip_spaces(out) + text
    } else if is_text(text, "!") {
        strip_spaces(out) + "!"@
    } else if is_spaced_operator(text) {
        ensure_space(out) + text + " "@
    } else if is_text(text, "(") || is_text(text, "[") {
        (if is_text(text, "(") && prev is Some && is_text(prev->0.text, "on") { ensure_space(out) } else { strip_spaces(out) }) + text
    } else if is_text(text, ")") || is_text(text, "]") {
        strip_spaces(out) + text
    } else if is_text(text, "{") {
        (if space_before_open_brace(prev) { ensure_space(out) } else { strip_spaces(out) }) + "{"@
            + (if closing_brace_after(toks, idx) && idx + 1 < toks.len() && !is_text(toks[idx + 1].text, "}") { " "@ } else { Seq::empty() })
    } else if is_text(text, "}") {
        (if opening_brace_before(toks, idx) && prev is Some && !is_text(prev->0.text, "{") { ensure_space(out) } else { strip_spaces(out) }) + "}"@
    } else {
        (if word_space(prev, t) { ensure_space(out) } else { out }) + text
    }
}

/// A comparison operator is written whole, with one space before it (where anything precedes
/// it) and one after it, whatever surrounds it: `x>=1` is rendered `x >= 1`.
pub proof fn lemma_comparison_rendered_whole(out: Seq<char>, toks: Seq<TokenModel>, idx: int)
    requires
        0 <= idx < toks.len(),
        toks[idx].text == seq!['=', '='] || toks[idx].text == seq!['!', '='] || toks[idx].text == seq!['>', '=']
            || toks[idx].text == seq!['<', '='] || toks[idx].text == seq!['>'] || toks[idx].text == seq!['<'],
    ensures
        render_step(out, toks, idx) == ensure_space(out) + toks[idx].text + " "@,
{
    let t = toks[idx].text;
    reveal_strlit(",");
    reveal_strlit(":");
    reveal_strlit("->");
    reveal_strlit("..");
    reveal_strlit(".");
    reveal_strlit("!");
    reveal_strlit("=");
    reveal_strlit("+");
    reveal_strlit("-");
    reveal_strlit("*");
    reveal_strlit("/");
    reveal_strlit("==");
    reveal_strlit("!=");
    reveal_strlit(">");
    reveal_strlit("<");
    reveal_strlit(">=");
    reveal_strlit("<=");
    if t == seq!['=', '='] {
        assert(t =~= "=="@);
        assert(t[0] != "->"@[0] && t[0] != ".."@[0]);
    } else if t == seq!['!', '='] {
        assert(t =~= "!="@);
        assert(t[0] != "->"@[0] && t[0] != ".."@[0]);
    } else if t == seq!['>', '='] {
        assert(t =~= ">="@);
        assert(t[0] != "->"@[0] && t[0] != ".."@[0]);
    } else if t == seq!['<', '='] {
        assert(t =~= "<="@);
        assert(t[0] != "->"@[0] && t[0] != ".."@[0]);
    } else if t == seq!['>'] {
        assert(t =~= ">"@);
        assert(t[0] != ","@[0] && t[0] != ":"@[0] && t[0] != "."@[0] && t[0] != "!"@[0]);
    } else {
        assert(t =~= "<"@);
        assert(t[0] != ","@[0] && t[0] != ":"@[0] && t[0] != "."@[0] && t[0] != "!"@[0]);
    }
}

/// The rendering of the first `k` tokens.
pub open spec fn render_upto(toks: Seq<TokenModel>, k: int) -> Seq<char>
    decreases k,
{
    if k <= 0 {
        Seq::empty()
    } else {
        render_step(render_upto(toks, k - 1), toks, k - 1)
    }
}

/// A line's code as rendered from its tokens, without trailing white space.
pub open spec fn render_text(toks: Seq<TokenModel>) -> Seq<char> {
    trim_end_white(render_upto(toks, toks.len() as int))
}

fn trim_trailing_spaces(out: &mut Vec<char>)
    ensures
        final(out)@ == strip_spaces(old(out)@),
{
    while out.len() > 0 && out[out.len() - 1] == ' '
        invariant
            strip_spaces(out@) == strip_spaces(old(out)@),
        decreases out.len(),
    {
        proof {
            assert(out@.drop_last() == out@.subrange(0, out@.len() - 1));
        }
        out.pop();
    }
}

fn ensure_space_exec(out: &mut Vec<char>)
    ensures
        final(out)@ == ensure_space(old(out)@),
{
    trim_trailing_spaces(out);
    if out.len() > 0 {
        out.push(' ');
    }
}

fn push_chars(out: &mut Vec<char>, t: &Vec<char>)
    ensures
        final(out)@ == old(out)@ + t@,
{
    let mut i: usize = 0;
    while i < t.len()
        invariant
            i <= t@.len(),
            out@ == old(out)@ + t@.subrange(0, i as int),
        decreases t.len() - i,
    {
        out.push(t[i]);
        i = i + 1;
    }
    proof {
        assert(t@.subrange(0, t@.len() as int) =~= t@);
    }
}

fn push_lit(out: &mut Vec<char>, lit: &str)
    ensures
        final(out)@ == old(out)@ + lit@,
{
    let t = chars_of(lit);
    push_chars(out, &t);
}

fn closing_brace_after_exec(tokens: &Vec<Token>, idx: usize) -> (r: bool)
    requires
        idx < tokens@.len(),
    ensures
        r == closing_brace_after(token_models(tokens@), idx as int),
{
    let n = tokens.len();
    let mut j = idx + 1;
    while j < n
        invariant
            n == tokens@.len(),
            idx < j,
            forall|k: int| idx < k < j && k < tokens@.len() ==> !is_text(#[trigger] token_models(tokens@)[k].text, "}"),
        decreases n - j,
    {
        if text_is(&tokens[j].text, "}") {
            proof {
                assert(is_text(token_models(tokens@)[j as int].text, "}"));
            }
            return true;
        }
        j = j + 1;
    }
    false
}

fn opening_brace_before_exec(tokens: &Vec<Token>, idx: usize) -> (r: bool)
    requires
        idx <= tokens@.len(),
    ensures
        r == opening_brace_before(token_models(tokens@), idx as int),
{
    let mut j: usize = 0;
    while j < idx
        invariant
            j <= idx <= tokens@.len(),
            forall|k: int| 0 <= k < j ==> !is_text(#[trigger] token_models(tokens@)[k].text, "{"),
        decreases idx - j,
    {
        if text_is(&tokens[j].text, "{") {
            proof {
                assert(is_text(token_models(tokens@)[j as int].text, "{"));
            }
            return true;
        }
        j = j + 1;
    }
    false
}

fn is_spaced_operator_exec(t: &Vec<char>) -> (r: bool)
    ensures
        r == is_spaced_operator(t@),
{
    text_is(t, "=") || text_is(t, "+") || text_is(t, "-") || text_is(t, "*") || text_is(t, "/")
        || text_is(t, "==") || text_is(t, "!=") || text_is(t, ">") || text_is(t, "<") || text_is(t, ">=")
        || text_is(t, "<=")
}

fn space_before_open_brace_exec(prev: Option<&Token>) -> (r: bool)
    ensures
        r == space_before_open_brace(match prev { Some(p) => Some(p@), None => None }),
{
    match prev {
        Some(p) => !(text_is(&p.text, "(") || text_is(&p.text, "[") || text_is(&p.text, "{") || text_is(&p.text, "=")
            || text_is(&p.text, ":") || text_is(&p.text, ",") || text_is(&p.text, "->")),
        None => false,
    }
}

fn word_space_exec(prev: Option<&Token>, cur: &Token) -> (r: bool)
    ensures
        r == word_space(match prev { Some(p) => Some(p@), None => None }, cur@),
{
    match prev {
        None => false,
        Some(p) => {
            if text_is(&p.text, "(") || text_is(&p.text, "[") || text_is(&p.text, "{") || text_is(&p.text, ".") || text_is(&p.text, "->") {
                return false;
            }
            if text_is(&p.text, "..") {
                return false;
            }
            if text_is(&cur.text, ")") || text_is(&cur.text, "]") || text_is(&cur.text, "}") || text_is(&cur.text, ",")
                || text_is(&cur.text, ":") || text_is(&cur.text, ".") || text_is(&cur.text, "..") {
                return false;
            }
            p.kind != TokenKind::Symbol || cur.kind != TokenKind::Symbol
        },
    }
}

fn render_token(out: &mut Vec<char>, tokens: &Vec<Token>, idx: usize)
    requires
        idx < tokens@.len(),
    ensures
        final(out)@ == render_step(old(out)@, token_models(tokens@), idx as int),
{
    let ghost toks = token_models(tokens@);
    let token = &tokens[idx];
    let text = &token.text;
    let prev: Option<&Token> = if idx > 0 { Some(&tokens[idx - 1]) } else { None };
    proof {
        assert(toks[idx as int] == token@);
        if idx > 0 {
            assert(toks[idx - 1] == tokens@[idx - 1]@);
        }
    }
    if text_is(text, ",") {
        trim_trailing_spaces(out);
        push_lit(out, ", ");
    } else if text_is(text, ":") {
        trim_trailing_spaces(out);
        push_lit(out, ": ");
    } else if text_is(text, "->") {
        ensure_space_exec(out);
        push_lit(out, "-> ");
    } else if text_is(text, "..") || text_is(text, ".") {
        trim_trailing_spaces(out);
        push_chars(out, text);
    } else if text_is(text, "!") {
        trim_trailing_spaces(out);
        push_lit(out, "!");
    } else if is_spaced_operator_exec(text) {
        ensure_space_exec(out);
        push_chars(out, text);
        push_lit(out, " ");
    } else if text_is(text, "(") || text_is(text, "[") {
        let after_on = match prev {
            Some(p) => text_is(&p.text, "on"),
            None => false,
        };
        if text_is(text, "(") && after_on {
            ensure_space_exec(out);
        } else {
            trim_trailing_spaces(out);
        }
        push_chars(out, text);
    } else if text_is(text, ")") || text_is(text, "]") {
        trim_trailing_spaces(out);
        push_chars(out, text);
    } else if text_is(text, "{") {
        if space_before_open_brace_exec(prev) {
            ensure_space_exec(out);
        } else {
            trim_trailing_spaces(out);
        }
        push_lit(out, "{");
        let n = tokens.len();
        let next_not_close = if idx + 1 < n { !text_is(&tokens[idx + 1].text, "}") } else { false };
        proof {
            if idx + 1 < tokens@.len() {
                assert(toks[idx + 1] == tokens@[idx + 1]@);
            }
        }
        if closing_brace_after_exec(tokens, idx) && next_not_close {
            push_lit(out, " ");
        }
    } else if text_is(text, "}") {
        let prev_not_open = match prev {
            Some(p) => !text_is(&p.text, "{"),
            None => false,
        };
        if opening_brace_before_exec(tokens, idx) && prev_not_open {
            ensure_space_exec(out);
        } else {
            trim_trailing_spaces(out);
        }
        push_lit(out, "}");
    } else {
        if word_space_exec(prev, token) {
            ensure_space_exec(out);
        }
        push_chars(out, text);
    }
}

/// The code of one line rendered from its tokens: a space around operators and after commas
/// and colons, none inside brackets or before separators, and none at the end.
pub fn render_tokens(tokens: &Vec<Token>) -> (r: String)
    ensures
        r@ == render_text(token_models(tokens@)),
{
    let mut out: Vec<char> = Vec::new();
    let mut idx: usize = 0;
    while idx < tokens.len()
        invariant
            idx <= tokens@.len(),
            out@ == render_upto(token_models(tokens@), idx as int),
        decreases tokens.len() - idx,
    {
        render_token(&mut out, tokens, idx);
        idx = idx + 1;
    }
    let mut end = out.len();
    proof {
        assert(out@.subrange(0, out@.len() as int) =~= out@);
    }
    while end > 0 && is_white_exec(out[end - 1])
        invariant
            end <= out@.len(),
            trim_end_white(out@) == trim_end_white(out@.subrange(0, end as int)),
        decreases end,
    {
        proof {
            assert(out@.subrange(0, end as int).drop_last() =~= out@.subrange(0, end - 1));
        }
        end = end - 1;
    }
    proof {
        assert(out@.subrange(0, out@.len() as int) =~= out@);
    }
    string_of(vstd::slice::slice_subrange(out.as_slice(), 0, end))
}

// ---------------------------------------------------------------------------
// Lines

/// The index of the first `//` outside string literals, scanning from `i`.
pub open spec fn comment_at(s: Seq<char>, i: int, in_string: bool, escaped: bool) -> Option<int>
    decreases s.len() - i,
{
    if i < 0 || i >= s.len() {
        None
    } else if in_string {
        if escaped {
            comment_at(s, i + 1, true, false)
        } else if s[i] == '\\' {
            comment_at(s, i + 1, true, true)
        } else if s[i] == '"' {
            comment_at(s, i + 1, false, false)
        } else {
            comment_at(s, i + 1, true, false)
        }
    } else if s[i] == '"' {
        comment_at(s, i + 1, true, false)
    } else if s[i] == '/' && i + 1 < s.len() && s[i + 1] == '/' {
        Some(i)
    } else {
        comment_at(s, i + 1, false, false)
    }
}

/// A line cut into its code and its `//` comment, if it has one outside string literals.
pub open spec fn split_comment_spec(s: Seq<char>) -> (Seq<char>, Option<Seq<char>>) {
    match comment_at(s, 0, false, false) {
        Some(k) => (s.subrange(0, k), Some(s.subrange(k, s.len() as int))),
        None => (s, None),
    }
}

proof fn lemma_comment_at_bounds(s: Seq<char>, i: int, in_string: bool, escaped: bool)
    requires
        0 <= i,
    ensures
        match comment_at(s, i, in_string, escaped) {
            Some(k) => i <= k < s.len(),
            None => true,
        },
    decreases s.len() - i,
{
    if i < s.len() {
        lemma_comment_at_bounds(s, i + 1, true, false);
        lemma_comment_at_bounds(s, i + 1, true, true);
        lemma_comment_at_bounds(s, i + 1, false, false);
    }
}

fn split_comment(line: &Vec<char>) -> (r: (Vec<char>, Option<Vec<char>>))
    ensures
        r.0@ == split_comment_spec(line@).0,
        match r.1 {
            Some(c) => split_comment_spec(line@).1 == Some(c@),
            None => split_comment_spec(line@).1 is None,
        },
{
    let n = line.len();
    let mut in_string = false;
    let mut escaped = false;
    let mut i: usize = 0;
    proof {
        lemma_comment_at_bounds(line@, 0, false, false);
    }
    while i < n
        invariant
            n == line@.len(),
            i <= n,
            in_string || !escaped,
            comment_at(line@, i as int, in_string, escaped) == comment_at(line@, 0, false, false),
        decreases n - i,
    {
        let ch = line[i];
        if in_string {
            if escaped {
                escaped = false;
            } else if ch == '\\' {
                escaped = true;
            } else if ch == '"' {
                in_string = false;
            }
            i = i + 1;
            continue;
        }
        if ch == '"' {
            in_string = true;
            i = i + 1;
            continue;
        }
        if ch == '/' && i + 1 < n && line[i + 1] == '/' {
            let code = slice_to_vec(line, 0, i);
            let comment = slice_to_vec(line, i, n);
            return (code, Some(comment));
        }
        i = i + 1;
    }
    (slice_to_vec(line, 0, n), None)
}

/// The number of closing delimiters that start the code.
pub open spec fn leading_closers(s: Seq<char>) -> nat
    decreases s.len(),
{
    if s.len() > 0 && (s[0] == '}' || s[0] == ']' || s[0] == ')') {
        1 + leading_closers(s.drop_first())
    } else {
        0
    }
}

fn leading_closing_delimiters(code: &Vec<char>) -> (r: usize)
    ensures
        r as nat == leading_closers(code@),
{
    let mut i: usize = 0;
    proof {
        assert(code@.subrange(0, code@.len() as int) =~= code@);
    }
    while i < code.len() && (code[i] == '}' || code[i] == ']' || code[i] == ')')
        invariant
            i <= code@.len(),
            leading_closers(code@) == i + leading_closers(code@.subrange(i as int, code@.len() as int)),
        decreases code.len() - i,
    {
        proof {
            assert(code@.subrange(i as int, code@.len() as int).drop_first() =~= code@.subrange(i + 1, code@.len() as int));
        }
        i = i + 1;
    }
    i
}

/// The net number of delimiters the code leaves open, scanning from `i` at `depth`: openers
/// outside string literals add one, closers take one away down to zero.
pub open spec fn delta_from(s: Seq<char>, i: int, depth: nat, in_string: bool, escaped: bool) -> nat
    decreases s.len() - i,
{
    if i < 0 || i >= s.len() {
        depth
    } else if in_string {
        if escaped {
            delta_from(s, i + 1, depth, true, false)
        } else if s[i] == '\\' {
            delta_from(s, i + 1, depth, true, true)
        } else if s[i] == '"' {
            delta_from(s, i + 1, depth, false, false)
        } else {
            delta_from(s, i + 1, depth, true, false)
        }
    } else if s[i] == '"' {
        delta_from(s, i + 1, depth, true, false)
    } else if s[i] == '{' || s[i] == '[' || s[i] == '(' {
        delta_from(s, i + 1, depth + 1, false, false)
    } else if s[i] == '}' || s[i] == ']' || s[i] == ')' {
        delta_from(s, i + 1, if depth > 0 { (depth - 1) as nat } else { 0 }, false, false)
    } else {
        delta_from(s, i + 1, depth, false, false)
    }
}

pub open spec fn delimiter_delta_spec(s: Seq<char>) -> nat {
    delta_from(s, 0, 0, false, false)
}

proof fn lemma_delta_bound(s: Seq<char>, i: int, depth: nat, in_string: bool, escaped: bool)
    requires
        0 <= i <= s.len(),
    ensures
        delta_from(s, i, depth, in_string, escaped) <= depth + (s.len() - i),
    decreases s.len() - i,
{
    if i < s.len() {
        lemma_delta_bound(s, i + 1, depth, true, false);
        lemma_delta_bound(s, i + 1, depth, true, true);
        lemma_delta_bound(s, i + 1, depth, false, false);
        lemma_delta_bound(s, i + 1, depth + 1, false, false);
        lemma_delta_bound(s, i + 1, if depth > 0 { (depth - 1) as nat } else { 0 }, false, false);
    }
}

fn delimiter_delta(code: &Vec<char>) -> (r: usize)
    ensures
        r as nat == delimiter_delta_spec(code@),
{
    let n = code.len();
    let mut depth: usize = 0;
    let mut in_string = false;
    let mut escaped = false;
    let mut i: usize = 0;
    while i < n
        invariant
            n == code@.len(),
            i <= n,
            depth <= i,
            in_string || !escaped,
            delta_from(code@, i as int, depth as nat, in_string, escaped) == delimiter_delta_spec(code@),
        decreases n - i,
    {
        let ch = code[i];
        if in_string {
            if escaped {
                escaped = false;
            } else if ch == '\\' {
                escaped = true;
            } else if ch == '"' {
                in_string = false;
            }
        } else if ch == '"' {
            in_string = true;
        } else if ch == '{' || ch == '[' || ch == '(' {
            depth = depth + 1;
        } else if ch == '}' || ch == ']' || ch == ')' {
            depth = if depth > 0 { depth - 1 } else { 0 };
        }
        i = i + 1;
    }
    depth
}

pub open spec fn starts_with(s: Seq<char>, p: Seq<char>) -> bool {
    s.len() >= p.len() && s.subrange(0, p.len() as int) == p
}

fn starts_with_exec(s: &Vec<char>, p: &str) -> (r: bool)
    ensures
        r == starts_with(s@, p@),
{
    let pv = chars_of(p);
    if s.len() < pv.len() {
        return false;
    }
    let mut i: usize = 0;
    while i < pv.len()
        invariant
            pv@ == p@,
            s@.len() >= pv@.len(),
            i <= pv@.len(),
            forall|k: int| 0 <= k < i ==> s@[k] == pv@[k],
        decreases pv.len() - i,
    {
        if s[i] != pv[i] {
            proof {
                assert(s@.subrange(0, pv@.len() as int)[i as int] != pv@[i as int]);
            }
            return false;
        }
        i = i + 1;
    }
    proof {
        assert(s@.subrange(0, pv@.len() as int) =~= pv@);
    }
    true
}

/// Code that starts a top-level item: an import, a function, a host function, a handle,
/// a struct, an error, or documentation.
pub open spec fn starts_top_level_item_spec(code: Seq<char>) -> bool {
    starts_with(code, "import "@) || starts_with(code, "fn "@) || starts_with(code, "pure fn "@)
        || starts_with(code, "rust fn "@) || starts_with(code, "handle "@) || starts_with(code, "struct "@)
        || starts_with(code, "error "@) || starts_with(code, "///"@)
}

fn starts_top_level_item(code: &Vec<char>) -> (r: bool)
    ensures
        r == starts_top_level_item_spec(code@),
{
    starts_with_exec(code, "import ") || starts_with_exec(code, "fn ") || starts_with_exec(code, "pure fn ")
        || starts_with_exec(code, "rust fn ") || starts_with_exec(code, "handle ") || starts_with_exec(code, "struct ")
        || starts_with_exec(code, "error ") || starts_with_exec(code, "///")
}

pub open spec fn trim_white(s: Seq<char>) -> Seq<char> {
    trim_end_white(trim_start_white(s))
}

fn trim_start_vec(s: &Vec<char>) -> (r: Vec<char>)
    ensures
        r@ == trim_start_white(s@),
{
    let n = s.len();
    let mut i: usize = 0;
    proof {
        assert(s@.subrange(0, n as int) =~= s@);
    }
    while i < n && is_white_exec(s[i])
        invariant
            n == s@.len(),
            i <= n,
            trim_start_white(s@) == trim_start_white(s@.subrange(i as int, n as int)),
        decreases n - i,
    {
        proof {
            assert(s@.subrange(i as int, n as int).drop_first() =~= s@.subrange(i + 1, n as int));
        }
        i = i + 1;
    }
    slice_to_vec(s, i, n)
}

fn trim_end_vec(s: &Vec<char>) -> (r: Vec<char>)
    ensures
        r@ == trim_end_white(s@),
{
    let mut end = s.len();
    proof {
        assert(s@.subrange(0, end as int) =~= s@);
    }
    while end > 0 && is_white_exec(s[end - 1])
        invariant
            end <= s@.len(),
            trim_end_white(s@) == trim_end_white(s@.subrange(0, end as int)),
        decreases end,
    {
        proof {
            assert(s@.subrange(0, end as int).drop_last() =~= s@.subrange(0, end - 1));
        }
        end = end - 1;
    }
    slice_to_vec(s, 0, end)
}

fn trim_vec(s: &Vec<char>) -> (r: Vec<char>)
    ensures
        r@ == trim_white(s@),
{
    let a = trim_start_vec(s);
    trim_end_vec(&a)
}

/// The code and the comment of a line put back together.
pub open spec fn join_code_and_comment_spec(code: Seq<char>, comment: Option<Seq<char>>) -> Seq<char> {
    match comment {
        Some(c) => if code.len() == 0 { trim_white(c) } else { trim_end_white(code) + " "@ + trim_white(c) },
        None => code,
    }
}

fn join_code_and_comment(code: &Vec<char>, comment: &Option<Vec<char>>) -> (r: Vec<char>)
    ensures
        r@ == join_code_and_comment_spec(code@, match comment { Some(c) => Some(c@), None => None }),
{
    match comment {
        Some(c) => {
            if code.len() == 0 {
                trim_vec(c)
            } else {
                let mut out = trim_end_vec(code);
                push_lit(&mut out, " ");
                let t = trim_vec(c);
                push_chars(&mut out, &t);
                out
            }
        },
        None => slice_to_vec(code, 0, code.len()),
    }
}

/// The state of the formatter between lines.
pub struct FormatState {
    pub lines: Seq<Seq<char>>,
    pub depth: nat,
    pub pending_blank: bool,
    pub previous_item_end: bool,
    pub max_depth: nat,
}

/// The lines with one blank line added, unless they already end in one.
pub open spec fn with_blank(lines: Seq<Seq<char>>) -> Seq<Seq<char>> {
    if lines.len() > 0 && lines.last().len() > 0 { lines.push(Seq::empty()) } else { lines }
}

/// The code of a line, normalized from its tokens.
pub open spec fn normalized(code: Seq<char>) -> Seq<char> {
    render_text(scan_tokens(trim_white(code), 0, Seq::empty()))
}

/// The formatter's state after one more source line.
pub open spec fn format_line(st: FormatState, raw: Seq<char>) -> FormatState {
    let t = trim_white(raw);
    if t.len() == 0 {
        FormatState { pending_blank: true, ..st }
    } else {
        let parts = split_comment_spec(t);
        let norm = normalized(parts.0);
        let lc = leading_closers(norm);
        let line_depth: nat = if st.depth >= lc { (st.depth - lc) as nat } else { 0 };
        let comment_only = norm.len() == 0;
        let is_doc = match parts.1 {
            Some(c) => starts_with(trim_start_white(c), "///"@),
            None => false,
        };
        let top_start = line_depth == 0 && ((!comment_only && starts_top_level_item_spec(norm)) || (comment_only && is_doc));
        let lines1 = if st.lines.len() > 0 && (st.pending_blank || (st.previous_item_end && top_start)) {
            with_blank(st.lines)
        } else {
            st.lines
        };
        let new_depth = line_depth + delimiter_delta_spec(norm);
        FormatState {
            lines: lines1.push(Seq::new(line_depth * 4, |i: int| ' ') + join_code_and_comment_spec(norm, parts.1)),
            depth: new_depth,
            pending_blank: false,
            previous_item_end: !comment_only && line_depth == 0 && norm == "}"@,
            max_depth: if new_depth > st.max_depth { new_depth } else { st.max_depth },
        }
    }
}

/// The formatter's state after the lines of `s` from the piece at `start` on.
pub open spec fn format_from(s: Seq<char>, start: int, st: FormatState) -> FormatState
    decreases s.len() - start,
{
    if start < 0 || start >= s.len() {
        st
    } else {
        proof {
            crate::errors::position::lemma_piece_end_bounds(s, start, '\n');
        }
        let e = crate::errors::position::piece_end(s, start, '\n');
        format_from(s, e, format_line(st, crate::errors::position::strip_line_ending(s.subrange(start, e))))
    }
}

pub open spec fn initial_format_state() -> FormatState {
    FormatState { lines: Seq::empty(), depth: 0, pending_blank: false, previous_item_end: false, max_depth: 0 }
}

/// The lines without the blank lines at their end.
pub open spec fn drop_trailing_blank(lines: Seq<Seq<char>>) -> Seq<Seq<char>>
    decreases lines.len(),
{
    if lines.len() > 0 && lines.last().len() == 0 {
        drop_trailing_blank(lines.drop_last())
    } else {
        lines
    }
}

/// The formatted text of a source.
pub open spec fn format_text(s: Seq<char>) -> Seq<char> {
    join_with(drop_trailing_blank(format_from(s, 0, initial_format_state()).lines), "\n"@) + "\n"@
}

/// Formatting keeps every indentation within the machine's range.
pub open spec fn format_fits(s: Seq<char>) -> bool {
    format_from(s, 0, initial_format_state()).max_depth <= usize::MAX / 4
}

proof fn lemma_format_max_grows(s: Seq<char>, start: int, st: FormatState)
    ensures
        st.max_depth <= format_from(s, start, st).max_depth,
    decreases s.len() - start,
{
    if 0 <= start < s.len() {
        crate::errors::position::lemma_piece_end_bounds(s, start, '\n');
        let e = crate::errors::position::piece_end(s, start, '\n');
        lemma_format_max_grows(s, e, format_line(st, crate::errors::position::strip_line_ending(s.subrange(start, e))));
    }
}

pub open spec fn line_texts(v: Seq<String>) -> Seq<Seq<char>> {
    Seq::new(v.len(), |i: int| v[i]@)
}

pub open spec fn state_model(lines: Seq<String>, depth: usize, pending: bool, prev_end: bool, max_depth: nat) -> FormatState {
    FormatState { lines: line_texts(lines), depth: depth as nat, pending_blank: pending, previous_item_end: prev_end, max_depth }
}

fn spaces(n: usize) -> (r: Vec<char>)
    ensures
        r@ == Seq::new(n as nat, |i: int| ' '),
{
    let mut r: Vec<char> = Vec::new();
    let mut i: usize = 0;
    while i < n
        invariant
            i <= n,
            r@ == Seq::new(i as nat, |k: int| ' '),
        decreases n - i,
    {
        r.push(' ');
        i = i + 1;
        proof {
            assert(r@ =~= Seq::new(i as nat, |k: int| ' '));
        }
    }
    r
}

/// Applies one source line to the formatter's state.
fn format_one_line(
    lines: &mut Vec<String>,
    depth: usize,
    pending: bool,
    prev_end: bool,
    raw: &Vec<char>,
    max_depth: Ghost<nat>,
) -> (r: (usize, bool, bool))
    requires
        depth <= max_depth@,
        format_line(state_model(old(lines)@, depth, pending, prev_end, max_depth@), raw@).max_depth <= usize::MAX / 4,
    ensures
        ({
            let next = format_line(state_model(old(lines)@, depth, pending, prev_end, max_depth@), raw@);
            &&& line_texts(final(lines)@) == next.lines
            &&& r.0 as nat == next.depth
            &&& r.1 == next.pending_blank
            &&& r.2 == next.previous_item_end
        }),
{
    let ghost st = state_model(lines@, depth, pending, prev_end, max_depth@);
    let t = trim_vec(raw);
    if t.len() == 0 {
        return (depth, true, prev_end);
    }
    let (code, comment) = split_comment(&t);
    let code_t = trim_vec(&code);
    let code_s = string_of(code_t.as_slice());
    let tokens = tokenize(code_s.as_str());
    let norm = render_tokens(&tokens);
    let norm_v = chars_of(norm.as_str());
    let lc = leading_closing_delimiters(&norm_v);
    let line_depth = if depth >= lc { depth - lc } else { 0 };
    let comment_only = norm_v.len() == 0;
    let is_doc = match &comment {
        Some(c) => {
            let ts = trim_start_vec(c);
            starts_with_exec(&ts, "///")
        },
        None => false,
    };
    let top_start = line_depth == 0 && ((!comment_only && starts_top_level_item(&norm_v)) || (comment_only && is_doc));
    let ghost lines0 = line_texts(lines@);
    if lines.len() > 0 && (pending || (prev_end && top_start)) {
        let n = lines.len();
        if lines[n - 1].as_str().unicode_len() > 0 {
            lines.push(String::new());
            proof {
                assert(line_texts(lines@) =~= with_blank(lines0));
            }
        } else {
            proof {
                assert(line_texts(lines@) =~= with_blank(lines0));
            }
        }
    }
    let ghost lines1 = line_texts(lines@);
    let delta = delimiter_delta(&norm_v);
    proof {
        let next = format_line(st, raw@);
        assert(next.depth == line_depth + delta);
        assert(next.depth <= next.max_depth);
    }
    let new_depth = line_depth + delta;
    let mut full = spaces(line_depth * 4);
    let joined = join_code_and_comment(&norm_v, &comment);
    push_chars(&mut full, &joined);
    lines.push(string_of(full.as_slice()));
    proof {
        assert(line_texts(lines@) =~= lines1.push(full@));
    }
    let item_end = !comment_only && line_depth == 0 && text_is(&norm_v, "}");
    (new_depth, false, item_end)
}

/// Formats a source text: each non-blank line trimmed, its code re-spaced token by token
/// and its comment kept; indentation of four spaces per delimiter left open by earlier lines
/// (less the closers that start the line); runs of blank lines made single; a blank line
/// between a closing `}` at top level and the next top-level item; no blank lines at the end,
/// and a final newline.
pub fn format_lines(source: &str) -> (r: String)
    requires
        format_fits(source@),
    ensures
        r@ == format_text(source@),
{
    let s = chars_of(source);
    let n = s.len();
    let mut lines: Vec<String> = Vec::new();
    let mut depth: usize = 0;
    let mut pending = false;
    let mut prev_end = false;
    let ghost mut max_depth: nat = 0;
    let mut start: usize = 0;
    proof {
        assert(line_texts(lines@) =~= Seq::<Seq<char>>::empty());
    }
    while start < n
        invariant
            n == s@.len(),
            s@ == source@,
            start <= n,
            depth <= max_depth,
            format_from(s@, start as int, state_model(lines@, depth, pending, prev_end, max_depth))
                == format_from(s@, 0, initial_format_state()),
            format_from(s@, 0, initial_format_state()).max_depth <= usize::MAX / 4,
        decreases n - start,
    {
        let e = crate::errors::position::piece_end_chars(s.as_slice(), start, '\n');
        let mut end = e;
        if end > start && s[end - 1] == '\n' {
            end = end - 1;
            if end > start && s[end - 1] == '\r' {
                end = end - 1;
            }
        }
        let raw = slice_to_vec(&s, start, end);
        let ghost st = state_model(lines@, depth, pending, prev_end, max_depth);
        proof {
            let p = s@.subrange(start as int, e as int);
            if p.len() > 0 && p.last() == '\n' {
                let q = p.drop_last();
                assert(q =~= s@.subrange(start as int, e - 1));
                if q.len() > 0 && q.last() == '\r' {
                    assert(q.drop_last() =~= s@.subrange(start as int, e - 2));
                }
            }
            assert(raw@ =~= crate::errors::position::strip_line_ending(p));
            lemma_format_max_grows(s@, e as int, format_line(st, raw@));
        }
        let (d, p, pe) = format_one_line(&mut lines, depth, pending, prev_end, &raw, Ghost(max_depth));
        proof {
            max_depth = format_line(st, raw@).max_depth;
            assert(state_model(lines@, d, p, pe, max_depth) == format_line(st, raw@));
        }
        depth = d;
        pending = p;
        prev_end = pe;
        start = e;
    }
    let ghost final_lines = line_texts(lines@);
    while lines.len() > 0 && lines[lines.len() - 1].as_str().unicode_len() == 0
        invariant
            drop_trailing_blank(line_texts(lines@)) == drop_trailing_blank(final_lines),
        decreases lines.len(),
    {
        let ghost before = line_texts(lines@);
        lines.pop();
        proof {
            assert(line_texts(lines@) =~= before.drop_last());
        }
    }
    proof {
        assert(drop_trailing_blank(line_texts(lines@)) == line_texts(lines@));
    }
    let mut out = String::new();
    let mut i: usize = 0;
    while i < lines.len()
        invariant
            i <= lines@.len(),
            out@ == join_with(line_texts(lines@).subrange(0, i as int), "\n"@),
        decreases lines.len() - i,
    {
        proof {
            assert(line_texts(lines@).subrange(0, i + 1) =~= line_texts(lines@).subrange(0, i as int).push(lines@[i as int]@));
            lemma_join_push(line_texts(lines@).subrange(0, i as int), "\n"@, lines@[i as int]@);
            if i == 0 {
                assert(line_texts(lines@).subrange(0, 0) =~= Seq::<Seq<char>>::empty());
            }
        }
        if i > 0 {
            push_str(&mut out, "\n");
        }
        let ghost before = out@;
        push_str(&mut out, lines[i].as_str());
        proof {
            if i == 0 {
                assert(out@ =~= lines@[0]@);
            }
        }
        i = i + 1;
    }
    proof {
        assert(line_texts(lines@).subrange(0, lines@.len() as int) =~= line_texts(lines@));
    }
    push_str(&mut out, "\n");
    out
}

} // verus!

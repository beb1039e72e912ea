//! The plain-text rendering of a diagnostic.
use vstd::prelude::*;
use vstd::string::StringSliceAdditionalSpecFns;
use vstd::utf8::*;

use super::code::{code_text, phase_text};
use super::diagnostic::KiroError;
use crate::text::{chars_of, decimal, push_char, push_decimal, push_str};

verus! {

broadcast use encode_utf8_valid_utf8, encode_utf8_decode_utf8;

/// `n` copies of `c`.
pub open spec fn repeat(c: char, n: nat) -> Seq<char> {
    Seq::new(n, |i: int| c)
}

/// Appends `n` copies of `c`.
pub fn push_repeat(s: &mut String, c: char, n: usize)
    ensures
        final(s)@ == old(s)@ + repeat(c, n as nat),
{
    let mut i: usize = 0;
    while i < n
        invariant
            i <= n,
            s@ == old(s)@ + repeat(c, i as nat),
        decreases n - i,
    {
        push_char(s, c);
        i = i + 1;
        proof {
            assert(repeat(c, i as nat) =~= repeat(c, (i - 1) as nat).push(c));
        }
    }
}

/// The help text a diagnostic shows: its help line, then its suggestion.
pub open spec fn help_text_spec(err: KiroError) -> Option<Seq<char>> {
    match (err.help, err.suggestion) {
        (Some(h), Some(s)) => Some(h@ + "\ndid you mean '"@ + s@ + "'?"@),
        (Some(h), None) => Some(h@),
        (None, Some(s)) => Some("did you mean '"@ + s@ + "'?"@),
        (None, None) => None,
    }
}

/// The combined help text of a diagnostic, if it has a help line or a suggestion.
pub fn help_text(err: &KiroError) -> (r: Option<String>)
    ensures
        match r {
            Some(t) => help_text_spec(*err) == Some(t@),
            None => help_text_spec(*err) is None,
        },
{
    match (&err.help, &err.suggestion) {
        (Some(h), Some(s)) => {
            let mut t = h.clone();
            push_str(&mut t, "\ndid you mean '");
            push_str(&mut t, s.as_str());
            push_str(&mut t, "'?");
            Some(t)
        },
        (Some(h), None) => Some(h.clone()),
        (None, Some(s)) => {
            let mut t = String::from_str("did you mean '");
            push_str(&mut t, s.as_str());
            push_str(&mut t, "'?");
            Some(t)
        },
        (None, None) => None,
    }
}

/// A character that a caret underline extends over: ASCII letters and digits, `_` and `.`.
pub open spec fn is_word_char(c: char) -> bool {
    ('a' <= c <= 'z') || ('A' <= c <= 'Z') || ('0' <= c <= '9') || c == '_' || c == '.'
}

fn word_char(c: char) -> (r: bool)
    ensures
        r == is_word_char(c),
{
    ('a' <= c && c <= 'z') || ('A' <= c && c <= 'Z') || ('0' <= c && c <= '9') || c == '_' || c == '.'
}

/// The number of word characters at the start of `s`.
pub open spec fn word_prefix_len(s: Seq<char>) -> nat
    decreases s.len(),
{
    if s.len() > 0 && is_word_char(s[0]) {
        1 + word_prefix_len(s.drop_first())
    } else {
        0
    }
}

proof fn lemma_word_prefix(s: Seq<char>, i: int)
    requires
        0 <= i <= s.len(),
        forall|j: int| 0 <= j < i ==> is_word_char(#[trigger] s[j]),
        i == s.len() || !is_word_char(s[i]),
    ensures
        word_prefix_len(s) == i,
    decreases i,
{
    if i > 0 {
        let t = s.drop_first();
        assert forall|j: int| 0 <= j < i - 1 implies is_word_char(#[trigger] t[j]) by {
            assert(t[j] == s[j + 1]);
        }
        if i - 1 < t.len() {
            assert(t[i - 1] == s[i]);
        }
        lemma_word_prefix(t, i - 1);
    }
}

/// The byte index where a column's underline starts.
pub open spec fn column_start(column: usize) -> int {
    if column >= 1 { column - 1 } else { 0 }
}

/// The column of the diagnostic lies on a character boundary of `line`.
pub open spec fn column_on_boundary(column: Option<usize>, line: Seq<char>) -> bool {
    match column {
        Some(c) => is_char_boundary(encode_utf8(line), column_start(c)),
        None => true,
    }
}

/// The length of the caret underline: the word from the column on, and at least 1.
pub open spec fn caret_len_spec(column: Option<usize>, line: Seq<char>) -> nat {
    match column {
        Some(c) => {
            let b = encode_utf8(line);
            let n = word_prefix_len(decode_utf8(b.subrange(column_start(c), b.len() as int)));
            if n == 0 { 1 } else { n }
        },
        None => 1,
    }
}

/// How many carets underline the label: the identifier-like run of characters from the
/// diagnostic's column on, and at least one.
pub fn label_caret_len(err: &KiroError, source_line: &str) -> (r: usize)
    requires
        column_on_boundary(err.column, source_line@),
    ensures
        r as nat == caret_len_spec(err.column, source_line@),
{
    let column = match err.column {
        Some(c) => c,
        None => {
            return 1;
        },
    };
    let start: usize = if column >= 1 { column - 1 } else { 0 };
    let (_, tail) = source_line.split_at(start);
    let v = chars_of(tail);
    let mut i: usize = 0;
    while i < v.len() && word_char(v[i])
        invariant
            i <= v@.len(),
            forall|j: int| 0 <= j < i ==> is_word_char(#[trigger] v@[j]),
        decreases v.len() - i,
    {
        i = i + 1;
    }
    proof {
        lemma_word_prefix(v@, i as int);
        assert(tail@ == decode_utf8(tail.spec_bytes()));
    }
    if i == 0 { 1 } else { i }
}

/// Where a diagnostic shows a caret under its source line (it has a file, line, column,
/// source line and label), the column falls on a character boundary of that line.
pub open spec fn renderable(err: KiroError) -> bool {
    match (err.file, err.line, err.column, err.source_line, err.label) {
        (Some(_), Some(_), Some(c), Some(sl), Some(_)) => column_on_boundary(Some(c), sl@),
        _ => true,
    }
}

/// The location part of a plain rendering.
pub open spec fn location_text(err: KiroError) -> Seq<char> {
    match (err.file, err.line, err.column) {
        (Some(f), Some(l), Some(c)) => {
            let arrow = "\n  --> "@ + f@ + ":"@ + decimal(l as nat) + ":"@ + decimal(c as nat);
            match err.source_line {
                Some(sl) => {
                    let shown = arrow + "\n"@ + decimal(l as nat) + " | "@ + sl@;
                    match err.label {
                        Some(lb) => shown + "\n"@ + repeat(' ', decimal(l as nat).len()) + " | "@
                            + repeat(' ', column_start(c) as nat) + repeat('^', caret_len_spec(Some(c), sl@))
                            + " "@ + lb@,
                        None => shown,
                    }
                },
                None => arrow,
            }
        },
        (Some(f), Some(l), None) => " ("@ + f@ + ":"@ + decimal(l as nat) + ")"@,
        (Some(f), None, _) => " ("@ + f@ + ")"@,
        _ => " (<unknown>)"@,
    }
}

/// The plain rendering of a diagnostic.
pub open spec fn plain_error_text(err: KiroError) -> Seq<char> {
    let head = "["@ + code_text(err.code) + ":"@ + phase_text(err.phase) + "] "@ + err.message@;
    let with_loc = head + location_text(err);
    let with_help = match err.help {
        Some(h) => with_loc + "\nhelp: "@ + h@,
        None => with_loc,
    };
    match err.suggestion {
        Some(s) => with_help + "\nhelp: did you mean '"@ + s@ + "'?"@,
        None => with_help,
    }
}

/// The source excerpt under the `-->` line: the numbered source line and its underline.
pub open spec fn excerpt_text(line: usize, column: usize, source_line: Seq<char>, label: Option<String>) -> Seq<char> {
    let shown = "\n"@ + decimal(line as nat) + " | "@ + source_line;
    match label {
        Some(lb) => shown + "\n"@ + repeat(' ', decimal(line as nat).len()) + " | "@
            + repeat(' ', column_start(column) as nat) + repeat('^', caret_len_spec(Some(column), source_line))
            + " "@ + lb@,
        None => shown,
    }
}

fn push_excerpt(msg: &mut String, err: &KiroError, line: usize, column: usize, source_line: &String)
    requires
        err.column == Some(column),
        err.label is Some ==> column_on_boundary(Some(column), source_line@),
    ensures
        final(msg)@ == old(msg)@ + excerpt_text(line, column, source_line@, err.label),
{
    let mut digits = String::new();
    push_decimal(&mut digits, line as u64);
    let width = digits.as_str().unicode_len();
    push_str(msg, "\n");
    push_str(msg, digits.as_str());
    push_str(msg, " | ");
    push_str(msg, source_line.as_str());
    let ghost shown = msg@;
    if let Some(label) = &err.label {
        let caret_len = label_caret_len(err, source_line.as_str());
        push_str(msg, "\n");
        push_repeat(msg, ' ', width);
        push_str(msg, " | ");
        let spaces: usize = if column >= 1 { column - 1 } else { 0 };
        push_repeat(msg, ' ', spaces);
        push_repeat(msg, '^', caret_len);
        push_str(msg, " ");
        push_str(msg, label.as_str());
        proof {
            assert(msg@ =~= old(msg)@ + excerpt_text(line, column, source_line@, err.label));
        }
    } else {
        proof {
            assert(msg@ =~= old(msg)@ + excerpt_text(line, column, source_line@, err.label));
        }
    }
}

proof fn lemma_location_text(err: KiroError)
    ensures
        location_text(err) == match (err.file, err.line, err.column) {
            (Some(f), Some(l), Some(c)) => {
                let arrow = "\n  --> "@ + f@ + ":"@ + decimal(l as nat) + ":"@ + decimal(c as nat);
                match err.source_line {
                    Some(sl) => arrow + excerpt_text(l, c, sl@, err.label),
                    None => arrow,
                }
            },
            (Some(f), Some(l), None) => " ("@ + f@ + ":"@ + decimal(l as nat) + ")"@,
            (Some(f), None, _) => " ("@ + f@ + ")"@,
            _ => " (<unknown>)"@,
        },
{
    match (err.file, err.line, err.column) {
        (Some(f), Some(l), Some(c)) => {
            match err.source_line {
                Some(sl) => {
                    let arrow = "\n  --> "@ + f@ + ":"@ + decimal(l as nat) + ":"@ + decimal(c as nat);
                    assert(location_text(err) =~= arrow + excerpt_text(l, c, sl@, err.label));
                },
                None => {},
            }
        },
        _ => {},
    }
}

fn push_location(msg: &mut String, err: &KiroError)
    requires
        renderable(*err),
    ensures
        final(msg)@ == old(msg)@ + location_text(*err),
{
    proof {
        lemma_location_text(*err);
    }
    match (&err.file, err.line, err.column) {
        (Some(file), Some(line), Some(column)) => {
            push_str(msg, "\n  --> ");
            push_str(msg, file.as_str());
            push_str(msg, ":");
            push_decimal(msg, line as u64);
            push_str(msg, ":");
            push_decimal(msg, column as u64);
            let ghost arrow_end = msg@;
            if let Some(source_line) = &err.source_line {
                push_excerpt(msg, err, line, column, source_line);
            }
            proof {
                assert(msg@ =~= old(msg)@ + location_text(*err));
            }
        },
        (Some(file), Some(line), None) => {
            push_str(msg, " (");
            push_str(msg, file.as_str());
            push_str(msg, ":");
            push_decimal(msg, line as u64);
            push_str(msg, ")");
            proof {
                assert(msg@ =~= old(msg)@ + location_text(*err));
            }
        },
        (Some(file), None, _) => {
            push_str(msg, " (");
            push_str(msg, file.as_str());
            push_str(msg, ")");
            proof {
                assert(msg@ =~= old(msg)@ + location_text(*err));
            }
        },
        _ => {
            push_str(msg, " (<unknown>)");
        },
    }
}

/// Renders a diagnostic as plain text: `[code:phase] message`, its location with the
/// source line and a caret underline where known, then its help lines.
pub fn render_plain_error(err: &KiroError) -> (r: String)
    requires
        renderable(*err),
    ensures
        r@ == plain_error_text(*err),
{
    let mut msg = String::from_str("[");
    push_str(&mut msg, err.code.as_str());
    push_str(&mut msg, ":");
    push_str(&mut msg, err.phase.as_str());
    push_str(&mut msg, "] ");
    push_str(&mut msg, err.message.as_str());
    push_location(&mut msg, err);
    let ghost with_loc = msg@;
    if let Some(help) = &err.help {
        push_str(&mut msg, "\nhelp: ");
        push_str(&mut msg, help.as_str());
    }
    let ghost with_help = msg@;
    if let Some(suggestion) = &err.suggestion {
        push_str(&mut msg, "\nhelp: did you mean '");
        push_str(&mut msg, suggestion.as_str());
        push_str(&mut msg, "'?");
    }
    proof {
        let head = "["@ + code_text(err.code) + ":"@ + phase_text(err.phase) + "] "@ + err.message@;
        assert(with_loc =~= head + location_text(*err));
    }
    msg
}

} // verus!

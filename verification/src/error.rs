//! The failure taxonomy: every failure of the pipeline surfaces as one of
//! these typed values, never as ordinary control flow.

use vstd::prelude::*;

use crate::text::dec_digits;
use crate::text::lines_of;
use crate::text::push_spaces;
use crate::text::spaces_seq;
use crate::text::split_lines;
use crate::text::usize_to_string;

verus! {

/// One diagnostic value.  `ParseError` positions are 1-indexed; a line or
/// column of 0 means the position is unknown.
#[derive(Debug, PartialEq)]
pub enum YAMLError {
    ParseError { line: usize, col: usize, message: String },
    UnsafeTag { tag: String },
    InvalidNumber { value: String },
    FileNotFound { path: String },
    DecodingError { message: String },
}

/// The abstraction of a `YAMLError`: the same shape over `Seq<char>`.
pub enum ErrSpec {
    ParseError { line: int, col: int, message: Seq<char> },
    UnsafeTag { tag: Seq<char> },
    InvalidNumber { value: Seq<char> },
    FileNotFound { path: Seq<char> },
    DecodingError { message: Seq<char> },
}

/// The abstraction of an error value.
pub open spec fn view_err(e: YAMLError) -> ErrSpec {
    match e {
        YAMLError::ParseError { line, col, message } => ErrSpec::ParseError {
            line: line as int,
            col: col as int,
            message: message@,
        },
        YAMLError::UnsafeTag { tag } => ErrSpec::UnsafeTag { tag: tag@ },
        YAMLError::InvalidNumber { value } => ErrSpec::InvalidNumber { value: value@ },
        YAMLError::FileNotFound { path } => ErrSpec::FileNotFound { path: path@ },
        YAMLError::DecodingError { message } => ErrSpec::DecodingError { message: message@ },
    }
}

impl YAMLError {
    /// Build a parse error from a position and a message.
    pub fn parse(line: usize, col: usize, message: String) -> (r: YAMLError)
        ensures
            view_err(r) == (ErrSpec::ParseError {
                line: line as int,
                col: col as int,
                message: message@,
            }),
    {
        YAMLError::ParseError { line, col, message }
    }

    /// Build an unsafe-tag rejection naming the offending tag.
    pub fn unsafe_tag(tag: String) -> (r: YAMLError)
        ensures
            view_err(r) == (ErrSpec::UnsafeTag { tag: tag@ }),
    {
        YAMLError::UnsafeTag { tag }
    }

    /// Build an invalid-number error naming the unrepresentable literal.
    pub fn invalid_number(value: String) -> (r: YAMLError)
        ensures
            view_err(r) == (ErrSpec::InvalidNumber { value: value@ }),
    {
        YAMLError::InvalidNumber { value }
    }

    /// Build a parse error whose message carries a rendered context snippet
    /// for the error position, clipped at the document boundaries.
    pub fn parse_with_context(line: usize, col: usize, message: String, yaml_content: &str) -> (r:
        YAMLError)
        ensures
            view_err(r) == (ErrSpec::ParseError {
                line: line as int,
                col: col as int,
                message: message@ + "\n\n"@ + context_of(yaml_content@, line as nat, col as nat),
            }),
    {
        let context = extract_context(yaml_content, line, col);
        let mut msg = message;
        msg.append("\n\n");
        msg.append(context.as_str());
        YAMLError::ParseError { line, col, message: msg }
    }

    /// The human-readable message for this diagnostic.
    pub fn to_message(&self) -> (r: String)
        ensures
            r@ == message_of(view_err(*self)),
    {
        let mut s = String::new();
        match self {
            YAMLError::ParseError { line, col, message } => {
                s.append("YAML parse error at line ");
                let ln = usize_to_string(*line);
                s.append(ln.as_str());
                s.append(", column ");
                let cn = usize_to_string(*col);
                s.append(cn.as_str());
                s.append(": ");
                s.append(message.as_str());
            }
            YAMLError::UnsafeTag { tag } => {
                s.append("Unsafe YAML tag detected: ");
                s.append(tag.as_str());
                s.append("\nHint: Use unsafe_load() if you trust this file");
            }
            YAMLError::InvalidNumber { value } => {
                s.append("Invalid number format: ");
                s.append(value.as_str());
            }
            YAMLError::FileNotFound { path } => {
                s.append("File not found: ");
                s.append(path.as_str());
            }
            YAMLError::DecodingError { message } => {
                s.append("UTF-8 decoding error: ");
                s.append(message.as_str());
            }
        }
        proof {
            assert(s@ =~= message_of(view_err(*self)));
        }
        s
    }
}

/// The message rendered for each diagnostic.
pub open spec fn message_of(e: ErrSpec) -> Seq<char> {
    match e {
        ErrSpec::ParseError { line, col, message } => "YAML parse error at line "@ + dec_digits(
            line as nat,
        ) + ", column "@ + dec_digits(col as nat) + ": "@ + message,
        ErrSpec::UnsafeTag { tag } => "Unsafe YAML tag detected: "@ + tag
            + "\nHint: Use unsafe_load() if you trust this file"@,
        ErrSpec::InvalidNumber { value } => "Invalid number format: "@ + value,
        ErrSpec::FileNotFound { path } => "File not found: "@ + path,
        ErrSpec::DecodingError { message } => "UTF-8 decoding error: "@ + message,
    }
}

/// One rendered context row: the line number and the line's text.
pub open spec fn row_of(i: nat, line: Seq<char>) -> Seq<char> {
    "  "@ + dec_digits(i) + " | "@ + line + "\n"@
}

/// The caret row: blanks in place of the line number, then a caret under
/// the error column.
pub open spec fn caret_row_of(line_no: nat, col: nat) -> Seq<char> {
    "  "@ + spaces_seq(dec_digits(line_no).len()) + " | "@ + spaces_seq(
        if col >= 1 {
            (col - 1) as nat
        } else {
            0
        },
    ) + "^\n"@
}

/// The context snippet rendered for an error position: up to two preceding
/// lines, the offending line, a caret row pointing at the column, and one
/// following line; empty when the position is unknown (line 0) or out of
/// range.
pub open spec fn context_of(content: Seq<char>, el: nat, col: nat) -> Seq<char> {
    let lines = lines_of(content);
    if el == 0 || el > lines.len() {
        Seq::empty()
    } else {
        (if el >= 3 {
            row_of((el - 2) as nat, lines[el - 3])
        } else {
            Seq::empty()
        }) + (if el >= 2 {
            row_of((el - 1) as nat, lines[el - 2])
        } else {
            Seq::empty()
        }) + row_of(el, lines[el - 1]) + caret_row_of(el, col) + (if el < lines.len() {
            row_of((el + 1) as nat, lines[el as int])
        } else {
            Seq::empty()
        })
    }
}

/// Appends one context row for line number `i` with text `line`.
fn push_row(ctx: &mut String, i: usize, line: &String)
    ensures
        final(ctx)@ == old(ctx)@ + row_of(i as nat, line@),
{
    ctx.append("  ");
    let num = usize_to_string(i);
    ctx.append(num.as_str());
    ctx.append(" | ");
    ctx.append(line.as_str());
    ctx.append("\n");
    proof {
        assert(ctx@ =~= old(ctx)@ + row_of(i as nat, line@));
    }
}

/// Appends the caret row for line number `line_no` and column `col`.
fn push_caret_row(ctx: &mut String, line_no: usize, col: usize)
    ensures
        final(ctx)@ == old(ctx)@ + caret_row_of(line_no as nat, col as nat),
{
    ctx.append("  ");
    let num = usize_to_string(line_no);
    push_spaces(ctx, num.as_str().unicode_len());
    ctx.append(" | ");
    if col >= 1 {
        push_spaces(ctx, col - 1);
    } else {
        push_spaces(ctx, 0);
    }
    ctx.append("^\n");
    proof {
        assert(ctx@ =~= old(ctx)@ + caret_row_of(line_no as nat, col as nat));
    }
}

/// Renders a few lines of context around an error position; empty when the
/// position is unknown (line 0) or beyond the document.
pub fn extract_context(content: &str, error_line: usize, error_col: usize) -> (r: String)
    ensures
        r@ == context_of(content@, error_line as nat, error_col as nat),
{
    let lines = split_lines(content);
    let n = lines.len();
    if error_line == 0 || error_line > n {
        return String::new();
    }
    let mut ctx = String::new();
    if error_line >= 3 {
        push_row(&mut ctx, error_line - 2, &lines[error_line - 3]);
    }
    if error_line >= 2 {
        push_row(&mut ctx, error_line - 1, &lines[error_line - 2]);
    }
    push_row(&mut ctx, error_line, &lines[error_line - 1]);
    push_caret_row(&mut ctx, error_line, error_col);
    if error_line < n {
        push_row(&mut ctx, error_line + 1, &lines[error_line]);
    }
    proof {
        assert(ctx@ =~= context_of(content@, error_line as nat, error_col as nat));
    }
    ctx
}

} // verus!

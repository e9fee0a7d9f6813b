//! User-facing script diagnostics: a position, the offending line and a
//! message, with optional help, rendered as plain chat lines.

use vstd::prelude::*;

use crate::strutil::{chars_sub, chars_to_string, rfind_char, spec_decimal, str_to_chars, u64_to_chars};

verus! {

/// A diagnostic that can be shown in chat.
#[derive(Clone, Debug)]
pub struct SkriptError {
    /// The script file the error is about.
    pub file: String,
    /// Line number, 1-based.
    pub line: usize,
    /// Column number, 1-based, best effort.
    pub col: usize,
    /// The text of the offending line.
    pub line_text: String,
    /// What went wrong.
    pub message: String,
    /// Optional advice.
    pub help: Option<String>,
}

impl SkriptError {
    /// A diagnostic with no help text.
    pub fn new(file: &str, line: usize, col: usize, line_text: &str, message: &str) -> (r:
        SkriptError)
        ensures
            r.file@ == file@,
            r.line == line,
            r.col == col,
            r.line_text@ == line_text@,
            r.message@ == message@,
            r.help is None,
    {
        SkriptError {
            file: String::from_str(file),
            line,
            col,
            line_text: String::from_str(line_text),
            message: String::from_str(message),
            help: None,
        }
    }

    /// The same diagnostic with help text attached.
    pub fn with_help(self, help: &str) -> (r: SkriptError)
        ensures
            r.file == self.file,
            r.line == self.line,
            r.col == self.col,
            r.line_text == self.line_text,
            r.message == self.message,
            r.help matches Some(h) && h@ == help@,
    {
        let SkriptError { file, line, col, line_text, message, help: _ } = self;
        SkriptError { file, line, col, line_text, message, help: Some(String::from_str(help)) }
    }

    /// Renders the diagnostic as chat lines: a header naming the file (by
    /// its last path segment) and line, the message, the offending line
    /// indented by two spaces, a caret marker under the column, and the
    /// help text if any.
    pub fn render_lines(&self) -> (r: Vec<String>)
        ensures
            self.help is Some ==> r@.len() == 5,
            self.help is None ==> r@.len() == 4,
            r@[0]@ == "Error in "@ + spec_after_last_slash(self.file@) + " line "@
                + spec_decimal(self.line as int) + seq![':'],
            r@[1]@ == self.message@,
            r@[2]@ == "  "@ + self.line_text@,
            r@[3]@ == "  "@ + spec_spaces(spec_caret_pos(*self)) + seq!['^'],
            self.help matches Some(h) ==> r@[4]@ == "Help: "@ + h@,
    {
        let mut out: Vec<String> = Vec::new();
        let file_chars = str_to_chars(self.file.as_str());
        let fl = file_chars.len();
        let base = match rfind_char(&file_chars, '/') {
            Some(p) => {
                let b = chars_sub(&file_chars, p + 1, fl);
                proof {
                    lemma_after_slash_at(self.file@, p as int);
                    assert(b@ =~= self.file@.skip(p + 1));
                }
                b
            },
            None => {
                proof {
                    lemma_after_slash_none(self.file@);
                }
                file_chars
            },
        };
        let mut header = str_to_chars("Error in ");
        append(&mut header, &base);
        append(&mut header, &str_to_chars(" line "));
        append(&mut header, &u64_to_chars(self.line as u64));
        header.push(':');
        proof {
            assert(header@ =~= "Error in "@ + spec_after_last_slash(self.file@) + " line "@
                + spec_decimal(self.line as int) + seq![':']);
        }
        out.push(chars_to_string(&header));
        out.push(self.message.clone());
        let line_chars = str_to_chars(self.line_text.as_str());
        let mut shown = str_to_chars("  ");
        append(&mut shown, &line_chars);
        out.push(chars_to_string(&shown));
        let col = if self.col < 1 {
            1
        } else {
            self.col
        };
        let caret_pos = if col - 1 < line_chars.len() {
            col - 1
        } else {
            line_chars.len()
        };
        proof {
            assert(caret_pos == spec_caret_pos(*self));
        }
        let mut caret = str_to_chars("  ");
        let mut k: usize = 0;
        proof {
            assert(caret@ =~= "  "@ + spec_spaces(0));
        }
        while k < caret_pos
            invariant
                k <= caret_pos,
                caret@ == "  "@ + spec_spaces(k as int),
            decreases caret_pos - k,
        {
            caret.push(' ');
            k = k + 1;
            proof {
                assert(caret@ =~= "  "@ + spec_spaces(k as int));
            }
        }
        caret.push('^');
        proof {
            assert(caret@ =~= "  "@ + spec_spaces(spec_caret_pos(*self)) + seq!['^']);
        }
        out.push(chars_to_string(&caret));
        match &self.help {
            Some(h) => {
                let mut help_line = str_to_chars("Help: ");
                append(&mut help_line, &str_to_chars(h.as_str()));
                out.push(chars_to_string(&help_line));
            },
            None => {},
        }
        out
    }
}

/// The text after the last slash of a path, or the whole text when it has
/// no slash.
pub open spec fn spec_after_last_slash(s: Seq<char>) -> Seq<char>
    decreases s.len(),
{
    if s.len() == 0 {
        Seq::empty()
    } else if s.last() == '/' {
        Seq::empty()
    } else {
        spec_after_last_slash(s.drop_last()).push(s.last())
    }
}

/// A run of spaces.
pub open spec fn spec_spaces(n: int) -> Seq<char>
    decreases n,
{
    if n <= 0 {
        Seq::empty()
    } else {
        spec_spaces(n - 1).push(' ')
    }
}

/// Where the caret stands: one before the column, clamped to the line.
pub open spec fn spec_caret_pos(e: SkriptError) -> int {
    let col = if e.col < 1 {
        1int
    } else {
        e.col as int
    };
    if col - 1 < e.line_text@.len() {
        col - 1
    } else {
        e.line_text@.len() as int
    }
}

/// Without a slash, everything follows the last slash.
proof fn lemma_after_slash_none(s: Seq<char>)
    requires
        forall|x: int| 0 <= x < s.len() ==> s[x] != '/',
    ensures
        spec_after_last_slash(s) == s,
    decreases s.len(),
{
    if s.len() > 0 {
        lemma_after_slash_none(s.drop_last());
        assert(s.drop_last().push(s.last()) =~= s);
    }
}

/// With the last slash at `p`, what follows `p` follows the last slash.
proof fn lemma_after_slash_at(s: Seq<char>, p: int)
    requires
        0 <= p < s.len(),
        s[p] == '/',
        forall|x: int| p < x < s.len() ==> s[x] != '/',
    ensures
        spec_after_last_slash(s) == s.skip(p + 1),
    decreases s.len(),
{
    if p == s.len() - 1 {
        assert(s.last() == '/');
        assert(s.skip(p + 1) =~= Seq::<char>::empty());
    } else {
        assert(s.last() != '/');
        lemma_after_slash_at(s.drop_last(), p);
        assert(s.drop_last().skip(p + 1).push(s.last()) =~= s.skip(p + 1));
    }
}

/// Appends the characters of `src` onto `dst`.
fn append(dst: &mut Vec<char>, src: &Vec<char>)
    ensures
        final(dst)@ == old(dst)@ + src@,
{
    let mut k: usize = 0;
    while k < src.len()
        invariant
            k <= src@.len(),
            dst@ == old(dst)@ + src@.take(k as int),
        decreases src@.len() - k,
    {
        dst.push(src[k]);
        k = k + 1;
        proof {
            assert(dst@ =~= old(dst)@ + src@.take(k as int));
        }
    }
    proof {
        assert(src@.take(src@.len() as int) =~= src@);
    }
}

} // verus!

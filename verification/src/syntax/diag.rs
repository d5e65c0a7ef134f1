//! Diagnostics: a stable code, a message and a source span, collected in a
//! buffer that renders as `file:line:col: error[CODE]: message` lines.
use vstd::prelude::*;
use vstd::string::StringSliceAdditionalSpecFns;

use crate::syntax::ast::Span;
use crate::syntax::lexer::{line_col, line_col_spec};
use crate::text::{decimal_digits, push_char, push_decimal, push_text};

verus! {

/// One error diagnostic.
#[derive(Debug, Clone, PartialEq, Eq)]
pub struct Diagnostic {
    /// Stable code, e.g. `ADGL0100`.
    pub code: &'static str,
    /// Human-readable message.
    pub message: String,
    /// The offending source range.
    pub span: Span,
}

impl Diagnostic {
    /// An error diagnostic.
    pub fn error(code: &'static str, message: String, span: Span) -> (d: Diagnostic)
        ensures
            d.code == code && d.message@ == message@ && d.span == span,
    {
        Diagnostic { code, message, span }
    }
}

/// Diagnostics in the order they were recorded.
#[derive(Debug, Clone, PartialEq, Eq)]
pub struct DiagBuffer {
    diags: Vec<Diagnostic>,
}

impl View for DiagBuffer {
    type V = Seq<Diagnostic>;

    closed spec fn view(&self) -> Seq<Diagnostic> {
        self.diags@
    }
}

/// The rendered line of one diagnostic:
/// `file:line:col: error[CODE]: message` and a line feed.
pub open spec fn render_line(d: Diagnostic, src: Seq<u8>, file: Seq<char>) -> Seq<char> {
    let off = if d.span.start < src.len() {
        d.span.start as int
    } else {
        src.len() as int
    };
    let lc = line_col_spec(src, off);
    file + seq![':'] + decimal_digits(lc.0 as nat) + seq![':'] + decimal_digits(lc.1 as nat) + ": error["@
        + d.code@ + "]: "@ + d.message@ + seq!['\n']
}

/// The rendered lines of `ds`, in order.
pub open spec fn render_spec(ds: Seq<Diagnostic>, src: Seq<u8>, file: Seq<char>) -> Seq<char>
    decreases ds.len(),
{
    if ds.len() == 0 {
        Seq::empty()
    } else {
        render_spec(ds.drop_last(), src, file) + render_line(ds.last(), src, file)
    }
}

impl DiagBuffer {
    /// An empty buffer.
    pub fn new() -> (b: DiagBuffer)
        ensures
            b@ == Seq::<Diagnostic>::empty(),
    {
        DiagBuffer { diags: Vec::new() }
    }

    /// Records one diagnostic.
    pub fn push(&mut self, d: Diagnostic)
        ensures
            final(self)@ == old(self)@.push(d),
    {
        self.diags.push(d);
    }

    /// Number of diagnostics.
    pub fn len(&self) -> (n: usize)
        ensures
            n == self@.len(),
    {
        self.diags.len()
    }

    /// Whether no diagnostic was recorded.
    pub fn is_empty(&self) -> (b: bool)
        ensures
            b == (self@.len() == 0),
    {
        self.diags.len() == 0
    }

    /// The diagnostics, in order.
    pub fn diagnostics(&self) -> (d: &[Diagnostic])
        ensures
            d@ == self@,
    {
        self.diags.as_slice()
    }

    /// Renders every diagnostic as `file:line:col: error[CODE]: message`,
    /// one per line, positions 1-based.
    pub fn render(&self, src: &str, file: &str) -> (r: String)
        requires
            src.spec_bytes().len() < usize::MAX,
        ensures
            r@ == render_spec(self@, src.spec_bytes(), file@),
    {
        let mut out = String::new();
        let mut i: usize = 0;
        while i < self.diags.len()
            invariant
                0 <= i <= self.diags@.len(),
                src.spec_bytes().len() < usize::MAX,
                out@ == render_spec(self.diags@.take(i as int), src.spec_bytes(), file@),
            decreases self.diags@.len() - i,
        {
            let d = &self.diags[i];
            let ghost before = out@;
            let (line, col) = line_col(src, d.span.start);
            push_text(&mut out, file);
            push_char(&mut out, ':');
            push_decimal(&mut out, line as u64);
            push_char(&mut out, ':');
            push_decimal(&mut out, col as u64);
            push_text(&mut out, ": error[");
            push_text(&mut out, d.code);
            push_text(&mut out, "]: ");
            push_text(&mut out, d.message.as_str());
            push_char(&mut out, '\n');
            proof {
                let t = self.diags@.take(i + 1);
                assert(t.drop_last() =~= self.diags@.take(i as int));
                assert(t.last() == self.diags@[i as int]);
                assert(out@ =~= before + render_line(self.diags@[i as int], src.spec_bytes(), file@));
            }
            i = i + 1;
        }
        proof {
            assert(self.diags@.take(self.diags@.len() as int) =~= self.diags@);
        }
        out
    }
}

} // verus!

//! Errors of the evaluation core. Compilation errors carry the provenance of
//! the code they point at, which is what decides whether they are shown to
//! the user, fed to a fixup, or suppressed as follow-on noise.

use vstd::prelude::*;

use crate::code_block::CodeKind;
use crate::code_block::CommandCall;
use crate::code_block::Segment;
use crate::text::seq_starts_with;
use crate::text::str_eq;

verus! {

/// A position range in the synthesized source, in 1-based lines and columns
/// counted in Unicode scalar values.
#[derive(Clone, Copy, PartialEq, Eq, Structural, Debug)]
pub struct Span {
    pub start_line: usize,
    pub start_column: usize,
    pub end_line: usize,
    pub end_column: usize,
}

impl Span {
    /// A span covering the given columns of a command's line.
    pub fn from_command(command: &CommandCall, start_column: usize, end_column: usize) -> (r: Span)
        ensures
            r.start_line == command.line_number,
            r.end_line == command.line_number,
            r.start_column == start_column,
            r.end_column == end_column,
    {
        Span {
            start_line: command.line_number,
            start_column,
            end_line: command.line_number,
            end_column,
        }
    }
}

/// A message the compiler attached to a span, translated back into the
/// user's own coordinates.
#[derive(Debug)]
pub struct SpannedMessage {
    pub span: Option<Span>,
    pub label: String,
    pub is_primary: bool,
    /// The user's own source lines the span covers, filled in for display.
    pub lines: Vec<String>,
}

impl SpannedMessage {
    /// A message spanning part of a single segment, carrying that segment's
    /// text, final newline stripped, as the line to display under the span.
    pub fn from_segment_span(segment: &Segment, span: Span, label: String) -> (r: SpannedMessage)
        requires
            segment.code@.len() > 0,
        ensures
            r.span == Some(span),
            r.label@ == label@,
            r.is_primary,
            r.lines@.len() == 1,
            r.lines@[0]@ == segment.code@.drop_last(),
    {
        let len = segment.code.as_str().unicode_len();
        let line = segment.code.as_str().substring_char(0, len - 1).to_owned();
        proof {
            assert(line@ =~= segment.code@.drop_last());
        }
        let mut lines: Vec<String> = Vec::new();
        lines.push(line);
        SpannedMessage { span: Some(span), label, is_primary: true, lines }
    }
}

/// The provenance of one span of a diagnostic: the kind of the segment the
/// span falls in, and that segment's index in the compiled block when known.
#[derive(Debug)]
pub struct CodeOrigin {
    pub kind: CodeKind,
    pub segment_index: Option<usize>,
}

/// One diagnostic from the external compiler, reduced to plain values and
/// correlated with the provenance of the code it points at.
#[derive(Debug)]
pub struct CompilationError {
    pub message: String,
    /// The compiler's short diagnostic-kind identifier, when present.
    pub code: Option<String>,
    /// The compiler's long explanation of that identifier, when present.
    pub explanation: Option<String>,
    pub level: String,
    /// Provenance of the segments the diagnostic's spans fall in.
    pub code_origins: Vec<CodeOrigin>,
    pub spanned_messages: Vec<SpannedMessage>,
    pub spanned_helps: Vec<SpannedMessage>,
    /// The compiler's own rendering of the whole diagnostic, when present.
    pub rendered: Option<String>,
}

impl CompilationError {
    /// Does any of the error's origins lie in user-supplied code?
    pub open spec fn spec_is_from_user_code(&self) -> bool {
        exists|i: int|
            0 <= i < self.code_origins@.len()
                && (#[trigger] self.code_origins@[i]).kind.spec_is_user_supplied()
    }

    /// Whether this error originated in code supplied by the user.
    pub fn is_from_user_code(&self) -> (r: bool)
        ensures
            r == self.spec_is_from_user_code(),
    {
        let n = self.code_origins.len();
        let mut i: usize = 0;
        while i < n
            invariant
                n == self.code_origins@.len(),
                i <= n,
                forall|j: int|
                    0 <= j < i ==> !(#[trigger] self.code_origins@[j]).kind.spec_is_user_supplied(),
            decreases n - i,
        {
            if self.code_origins[i].kind.is_user_supplied() {
                return true;
            }
            i += 1;
        }
        false
    }

    /// Whether this error originated in code the synthesizer generated and
    /// expected no errors from.
    pub fn is_from_generated_code(&self) -> (r: bool)
        ensures
            r == exists|i: int|
                0 <= i < self.code_origins@.len() && (#[trigger] self.code_origins@[i]).kind
                    is OtherGeneratedCode,
    {
        let n = self.code_origins.len();
        let mut i: usize = 0;
        while i < n
            invariant
                n == self.code_origins@.len(),
                i <= n,
                forall|j: int| 0 <= j < i ==> !((#[trigger] self.code_origins@[j]).kind
                    is OtherGeneratedCode),
            decreases n - i,
        {
            if matches!(self.code_origins[i].kind, CodeKind::OtherGeneratedCode) {
                return true;
            }
            i += 1;
        }
        false
    }

    /// A synthesized error covering part of one segment.
    pub fn from_segment_span(segment: &Segment, spanned: SpannedMessage, message: String) -> (r:
        CompilationError)
        ensures
            r.message@ == message@,
            r.code is None,
            r.level@ == "error"@,
            r.code_origins@.len() == 1,
            r.code_origins@[0].kind.spec_is_user_supplied()
                == segment.kind.spec_is_user_supplied(),
            r.code_origins@[0].segment_index is None,
            r.spanned_messages@.len() == 1,
            r.spanned_messages@[0] == spanned,
            r.spanned_helps@.len() == 0,
    {
        let kind_copy = copy_kind_shallow(&segment.kind);
        let mut origins: Vec<CodeOrigin> = Vec::new();
        origins.push(CodeOrigin { kind: kind_copy, segment_index: None });
        let mut spans: Vec<SpannedMessage> = Vec::new();
        spans.push(spanned);
        CompilationError {
            message,
            code: None,
            explanation: None,
            level: string_from("error"),
            code_origins: origins,
            spanned_messages: spans,
            spanned_helps: Vec::new(),
            rendered: None,
        }
    }

    /// The first primary spanned message; when none is primary, perhaps
    /// because the primary span fell in generated code and was filtered
    /// out, the first spanned message of any kind.
    pub fn primary_spanned_message(&self) -> (r: Option<&SpannedMessage>)
        ensures
            (r is None) <==> self.spanned_messages@.len() == 0,
            match r {
                Some(m) => if exists|i: int|
                    0 <= i < self.spanned_messages@.len() && (
                    #[trigger] self.spanned_messages@[i]).is_primary {
                    exists|i: int|
                        {
                            &&& 0 <= i < self.spanned_messages@.len()
                            &&& (#[trigger] self.spanned_messages@[i]).is_primary
                            &&& *m == self.spanned_messages@[i]
                            &&& forall|j: int|
                                0 <= j < i ==> !(#[trigger] self.spanned_messages@[j]).is_primary
                        }
                } else {
                    *m == self.spanned_messages@[0]
                },
                None => true,
            },
    {
        let n = self.spanned_messages.len();
        let mut i: usize = 0;
        while i < n
            invariant
                n == self.spanned_messages@.len(),
                i <= n,
                forall|j: int| 0 <= j < i ==> !(#[trigger] self.spanned_messages@[j]).is_primary,
            decreases n - i,
        {
            if self.spanned_messages[i].is_primary {
                return Some(&self.spanned_messages[i]);
            }
            i += 1;
        }
        if self.spanned_messages.len() > 0 {
            Some(&self.spanned_messages[0])
        } else {
            None
        }
    }

    /// Attach the user's own source lines to every spanned message whose
    /// span lies within them, for display. Everything else about the error
    /// is untouched.
    pub fn fill_lines(&mut self, original_lines: &Vec<String>)
        ensures
            final(self).message == old(self).message,
            final(self).code == old(self).code,
            final(self).explanation == old(self).explanation,
            final(self).level == old(self).level,
            final(self).code_origins == old(self).code_origins,
            final(self).spanned_helps == old(self).spanned_helps,
            final(self).rendered == old(self).rendered,
            final(self).spanned_messages@.len() == old(self).spanned_messages@.len(),
            forall|i: int|
                0 <= i < old(self).spanned_messages@.len() ==> {
                    let pre = old(self).spanned_messages@[i];
                    let post = #[trigger] final(self).spanned_messages@[i];
                    &&& post.span == pre.span
                    &&& post.label == pre.label
                    &&& post.is_primary == pre.is_primary
                    &&& match pre.span {
                        Some(sp) => {
                            if 1 <= sp.start_line && sp.start_line <= sp.end_line && sp.end_line
                                <= original_lines@.len() {
                                post.lines@.len() == pre.lines@.len() + (sp.end_line
                                    - sp.start_line + 1) && (forall|k: int|
                                    0 <= k < sp.end_line - sp.start_line + 1
                                        ==> (#[trigger] post.lines@[pre.lines@.len() + k])@
                                        == original_lines@[sp.start_line - 1 + k]@)
                            } else {
                                post.lines == pre.lines
                            }
                        },
                        None => post.lines == pre.lines,
                    }
                },
    {
        let ghost orig = self.spanned_messages@;
        let n = self.spanned_messages.len();
        let mut rest = Vec::new();
        core::mem::swap(&mut self.spanned_messages, &mut rest);
        let mut done: Vec<SpannedMessage> = Vec::new();
        let mut i: usize = 0;
        while i < n
            invariant
                n == orig.len(),
                i <= n,
                rest@ =~= orig.skip(i as int),
                done@.len() == i,
                forall|a: int|
                    0 <= a < i ==> {
                        let pre = orig[a];
                        let post = #[trigger] done@[a];
                        &&& post.span == pre.span
                        &&& post.label == pre.label
                        &&& post.is_primary == pre.is_primary
                        &&& match pre.span {
                            Some(sp) => {
                                if 1 <= sp.start_line && sp.start_line <= sp.end_line
                                    && sp.end_line <= original_lines@.len() {
                                    post.lines@.len() == pre.lines@.len() + (sp.end_line
                                        - sp.start_line + 1) && (forall|k: int|
                                        0 <= k < sp.end_line - sp.start_line + 1
                                            ==> (#[trigger] post.lines@[pre.lines@.len() + k])@
                                            == original_lines@[sp.start_line - 1 + k]@)
                                } else {
                                    post.lines == pre.lines
                                }
                            },
                            None => post.lines == pre.lines,
                        }
                    },
            decreases n - i,
        {
            let mut sm = rest.remove(0);
            proof {
                assert(sm == orig[i as int]);
                assert(rest@ =~= orig.skip(i + 1));
            }
            match sm.span {
                Some(sp) => {
                    if 1 <= sp.start_line && sp.start_line <= sp.end_line && sp.end_line
                        <= original_lines.len() {
                        let ghost pre_lines = sm.lines@;
                        let count = sp.end_line - sp.start_line + 1;
                        let mut k: usize = 0;
                        while k < count
                            invariant
                                count == sp.end_line - sp.start_line + 1,
                                1 <= sp.start_line,
                                sp.end_line <= original_lines@.len(),
                                k <= count,
                                0 <= i < orig.len(),
                                sm.span == orig[i as int].span,
                                sm.label == orig[i as int].label,
                                sm.is_primary == orig[i as int].is_primary,
                                orig[i as int].span == Some(sp),
                                pre_lines == orig[i as int].lines@,
                                sm.lines@.len() == pre_lines.len() + k,
                                forall|a: int|
                                    0 <= a < pre_lines.len() ==> #[trigger] sm.lines@[a]
                                        == pre_lines[a],
                                forall|a: int|
                                    0 <= a < k ==> (#[trigger] sm.lines@[pre_lines.len() + a])@
                                        == original_lines@[sp.start_line - 1 + a]@,
                            decreases count - k,
                        {
                            sm.lines.push(original_lines[sp.start_line - 1 + k].clone());
                            k += 1;
                        }
                    }
                },
                None => {},
            }
            done.push(sm);
            i += 1;
        }
        self.spanned_messages = done;
    }

    /// An extra hint of this system's own for diagnostics whose stock wording
    /// misleads inside an evaluator session: values holding non-static
    /// references cannot be persisted.
    pub fn extra_hint(&self) -> (r: Option<&str>)
        ensures
            match self.code {
                Some(c) => (r is Some) == (c@ == "E0597"@),
                None => r is None,
            },
    {
        match &self.code {
            Some(c) => {
                if str_eq(c.as_str(), "E0597") {
                    Some(
                        "Values assigned to variables in an evaluator session cannot contain references (unless they're static)",
                    )
                } else {
                    None
                }
            },
            None => None,
        }
    }

    /// A note for diagnostics about assigning to immutable variables, which
    /// in a session are better fixed by rebinding.
    pub fn mutability_note(&self) -> (r: Option<&str>)
        ensures
            match self.code {
                Some(c) => (r is Some) == (c@ == "E0384"@ || c@ == "E0596"@),
                None => r is None,
            },
    {
        match &self.code {
            Some(c) => {
                if str_eq(c.as_str(), "E0384") || str_eq(c.as_str(), "E0596") {
                    Some("You can change an existing variable to mutable like: `let mut x = x;`")
                } else {
                    None
                }
            },
            None => None,
        }
    }
}

/// A shallow copy of a code kind for storing among an error's origins. The
/// fallback payload, never needed for attribution once an error is recorded,
/// is not carried along.
pub fn copy_kind_shallow(kind: &CodeKind) -> (r: CodeKind)
    ensures
        r is OriginalUserCode <==> kind is OriginalUserCode,
        r is OtherUserCode <==> kind is OtherUserCode,
        r is PackVariable <==> kind is PackVariable,
        r is WithFallback <==> kind is WithFallback,
        r is OtherGeneratedCode <==> kind is OtherGeneratedCode,
        r is Command <==> kind is Command,
        r is Unknown <==> kind is Unknown,
        kind matches CodeKind::OriginalUserCode(m) ==> r == CodeKind::OriginalUserCode(*m),
        kind matches CodeKind::PackVariable { variable_name } ==> r matches CodeKind::PackVariable {
            variable_name: v,
        } && v@ == variable_name@,
        r.spec_is_user_supplied() == kind.spec_is_user_supplied(),
{
    match kind {
        CodeKind::OriginalUserCode(m) => CodeKind::OriginalUserCode(*m),
        CodeKind::OtherUserCode => CodeKind::OtherUserCode,
        CodeKind::PackVariable { variable_name } => CodeKind::PackVariable {
            variable_name: variable_name.clone(),
        },
        CodeKind::WithFallback(_) => CodeKind::WithFallback(crate::code_block::CodeBlock::new()),
        CodeKind::OtherGeneratedCode => CodeKind::OtherGeneratedCode,
        CodeKind::Command(c) => CodeKind::Command(
            CommandCall {
                command: c.command.clone(),
                args: match &c.args {
                    Some(a) => Some(a.clone()),
                    None => None,
                },
                start_offset: c.start_offset,
                line_number: c.line_number,
            },
        ),
        CodeKind::Unknown => CodeKind::Unknown,
    }
}

/// An owned `String` with the characters of `s`.
pub fn string_from(s: &str) -> (r: String)
    ensures
        r@ == s@,
{
    s.to_owned()
}

/// Everything an evaluation can fail with. Compilation errors are
/// recoverable at the submission level; lost variables are retried after
/// dropping them; a terminated worker is fatal for the submission and
/// empties the variable store; a plain message is fatal for the submission.
#[derive(Debug)]
pub enum Error {
    CompilationErrors(Vec<CompilationError>),
    TypeRedefinedVariablesLost(Vec<String>),
    SubprocessTerminated(String),
    Message(String),
}

/// `s` with every occurrence of `pat` replaced by `to`, scanning left to
/// right without re-examining replaced text.
pub open spec fn spec_replace(s: Seq<char>, pat: Seq<char>, to: Seq<char>) -> Seq<char>
    decreases s.len(),
{
    if s.len() == 0 || pat.len() == 0 {
        s
    } else if seq_starts_with(s, pat) {
        to + spec_replace(s.skip(pat.len() as int), pat, to)
    } else {
        seq![s[0]] + spec_replace(s.skip(1), pat, to)
    }
}

/// Replace every occurrence of `pat` in `s` with `to`.
pub fn str_replace(s: &str, pat: &str, to: &str) -> (r: String)
    ensures
        r@ == spec_replace(s@, pat@, to@),
{
    let len = s.unicode_len();
    let pat_len = pat.unicode_len();
    let mut out = String::new();
    if pat_len == 0 {
        out.append(s);
        return out;
    }
    let mut i: usize = 0;
    proof {
        assert(s@.skip(0) =~= s@);
        assert(out@ + spec_replace(s@, pat@, to@) =~= spec_replace(s@, pat@, to@));
    }
    while i < len
        invariant
            len == s@.len(),
            pat_len == pat@.len(),
            pat_len > 0,
            i <= len,
            out@ + spec_replace(s@.skip(i as int), pat@, to@) == spec_replace(s@, pat@, to@),
        decreases len - i,
    {
        let matched = if len - i >= pat_len {
            str_starts_at(s, i, pat)
        } else {
            false
        };
        let ghost rest = s@.skip(i as int);
        let ghost pre = out@;
        if matched {
            proof {
                assert(rest.take(pat@.len() as int) =~= s@.subrange(i as int, i + pat@.len()));
                assert(seq_starts_with(rest, pat@));
                assert(rest.skip(pat@.len() as int) =~= s@.skip(i + pat@.len()));
                assert(spec_replace(rest, pat@, to@) == to@ + spec_replace(
                    s@.skip(i + pat@.len()),
                    pat@,
                    to@,
                ));
                assert((pre + to@) + spec_replace(s@.skip(i + pat@.len()), pat@, to@) =~= pre + (
                to@ + spec_replace(s@.skip(i + pat@.len()), pat@, to@)));
            }
            out.append(to);
            i = i + pat_len;
        } else {
            proof {
                if rest.len() >= pat@.len() {
                    assert(rest.take(pat@.len() as int) =~= s@.subrange(i as int, i + pat@.len()));
                }
                assert(!seq_starts_with(rest, pat@));
                assert(seq![rest[0]] =~= s@.subrange(i as int, i + 1));
                assert(rest.skip(1) =~= s@.skip(i + 1));
                assert(spec_replace(rest, pat@, to@) == seq![rest[0]] + spec_replace(
                    s@.skip(i + 1),
                    pat@,
                    to@,
                ));
                assert((pre + s@.subrange(i as int, i + 1)) + spec_replace(s@.skip(i + 1), pat@, to@)
                    =~= pre + (seq![rest[0]] + spec_replace(s@.skip(i + 1), pat@, to@)));
            }
            let piece = s.substring_char(i, i + 1);
            out.append(piece);
            i = i + 1;
        }
    }
    proof {
        assert(s@.skip(len as int) =~= Seq::<char>::empty());
    }
    out
}

/// Does `pat` occur in `s` starting exactly at `at`?
fn str_starts_at(s: &str, at: usize, pat: &str) -> (r: bool)
    requires
        at + pat@.len() <= s@.len(),
        s@.len() <= usize::MAX,
    ensures
        r == (s@.subrange(at as int, at + pat@.len()) == pat@),
{
    let pat_len = pat.unicode_len();
    let mut j: usize = 0;
    while j < pat_len
        invariant
            pat_len == pat@.len(),
            at + pat_len <= s@.len(),
            s@.len() <= usize::MAX,
            j <= pat_len,
            forall|k: int| 0 <= k < j ==> s@[at + k] == pat@[k],
        decreases pat_len - j,
    {
        if s.get_char(at + j) != pat.get_char(j) {
            assert(s@.subrange(at as int, at + pat@.len())[j as int] != pat@[j as int]);
            return false;
        }
        j += 1;
    }
    proof {
        assert(s@.subrange(at as int, at + pat@.len()) =~= pat@);
    }
    true
}

/// Scrub references to the variable store from a compiler message: they
/// point past the end of what the user typed, most often after a missing
/// semicolon.
pub fn sanitize_message(message: &str) -> (r: String)
    ensures
        r@ == spec_replace(message@, "`evcxr_variable_store`"@, "<end of input>"@),
{
    str_replace(message, "`evcxr_variable_store`", "<end of input>")
}

/// What an error report keeps: when any error is attributed to user code,
/// the errors not so attributed are presumed to be follow-on noise and are
/// dropped; with no user-attributed error everything is kept.
pub open spec fn spec_retained(errors: Seq<CompilationError>) -> Seq<CompilationError> {
    if exists|i: int| 0 <= i < errors.len() && (#[trigger] errors[i]).spec_is_from_user_code() {
        errors.filter(|e: CompilationError| e.spec_is_from_user_code())
    } else {
        errors
    }
}

/// Reduce an error list to what is reported, per `spec_retained`.
pub fn retain_user_errors(errors: Vec<CompilationError>) -> (r: Vec<CompilationError>)
    ensures
        r@ == spec_retained(errors@),
{
    let ghost orig = errors@;
    let mut any_user = false;
    let n = errors.len();
    let mut i: usize = 0;
    while i < n
        invariant
            n == errors@.len(),
            orig == errors@,
            i <= n,
            any_user == exists|j: int|
                0 <= j < i && (#[trigger] errors@[j]).spec_is_from_user_code(),
        decreases n - i,
    {
        if errors[i].is_from_user_code() {
            any_user = true;
        }
        i += 1;
    }
    if !any_user {
        return errors;
    }
    let mut remaining = errors;
    let mut out: Vec<CompilationError> = Vec::new();
    let mut k: usize = 0;
    while k < n
        invariant
            n == orig.len(),
            k <= n,
            remaining@ =~= orig.skip(k as int),
            out@ =~= orig.take(k as int).filter(|e: CompilationError| e.spec_is_from_user_code()),
        decreases n - k,
    {
        let e = remaining.remove(0);
        proof {
            assert(e == orig[k as int]);
            assert(remaining@ =~= orig.skip(k + 1));
            assert(orig.take(k + 1).drop_last() =~= orig.take(k as int));
            assert(orig.take(k + 1).last() == orig[k as int]);
            reveal(Seq::filter);
        }
        if e.is_from_user_code() {
            out.push(e);
        }
        k += 1;
    }
    proof {
        assert(orig.take(n as int) =~= orig);
    }
    out
}

} // verus!

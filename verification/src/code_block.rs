//! The code model: program text as an ordered list of provenance-tagged
//! segments. A submission is split into command, comment and code segments;
//! the synthesizer appends generated segments around them; compiler
//! diagnostics are mapped back to a segment by line number. Offsets and
//! columns throughout count Unicode scalar values, not bytes, matching how
//! the external compiler counts columns in its diagnostics.

use vstd::prelude::*;

use crate::text::count_char;

verus! {

/// A command line of the form `:name args`, found ahead of the first
/// substantive code line of a submission.
#[derive(Debug)]
pub struct CommandCall {
    /// The command, colon included.
    pub command: String,
    /// Everything after the first run of spaces that follows the command.
    pub args: Option<String>,
    /// Character offset of the command's line in the original input.
    pub start_offset: usize,
    /// 1-based line number of the command in the original input.
    pub line_number: usize,
}

/// Position of a piece of user code within the submission it came from, in
/// characters and 1-based lines.
#[derive(Clone, Copy, PartialEq, Eq, Structural, Debug)]
pub struct UserCodeMetadata {
    /// Character offset at which this code starts in the input.
    pub start_offset: usize,
    /// 1-based line on which this code starts in the input.
    pub start_line: usize,
    /// Characters on `start_line` that precede this code.
    pub column_offset: usize,
}

/// Where a segment's text came from. Errors are attributed to their segment's
/// kind, which decides whether they are shown to the user or fed to a fixup.
#[derive(Debug)]
pub enum CodeKind {
    /// Fresh user code for which offsets are tracked for error reporting.
    OriginalUserCode(UserCodeMetadata),
    /// User code from an earlier, already committed submission.
    OtherUserCode,
    /// Generated code that packs one variable into the variable store.
    PackVariable { variable_name: String },
    /// Generated code with a replacement to try if this text fails to
    /// compile.
    WithFallback(CodeBlock),
    /// Generated code from which no errors are expected.
    OtherGeneratedCode,
    /// A command consumed before compilation.
    Command(CommandCall),
    /// Provenance could not be determined.
    Unknown,
}

impl CodeKind {
    /// Whether an error in a segment of this kind is the user's to see.
    pub open spec fn spec_is_user_supplied(&self) -> bool {
        self is OriginalUserCode || self is OtherUserCode || self is Command
    }

    pub fn is_user_supplied(&self) -> (r: bool)
        ensures
            r == self.spec_is_user_supplied(),
    {
        matches!(
            self,
            CodeKind::OriginalUserCode(_) | CodeKind::OtherUserCode | CodeKind::Command(_)
        )
    }
}

/// A contiguous chunk of source text with provenance. Its text always ends
/// with a newline, and `num_lines` counts those newlines.
#[derive(Debug)]
pub struct Segment {
    pub kind: CodeKind,
    pub code: String,
    pub num_lines: usize,
    /// Present only on original user code: orders the user's segments and
    /// gives them identity across transformations.
    pub sequence: Option<usize>,
}

/// The invariant every segment keeps: non-empty text ending in a newline,
/// with a consistent precomputed line count.
pub open spec fn seg_wf(s: Segment) -> bool {
    &&& s.code@.len() > 0
    &&& s.code@.last() == '\n'
    &&& s.num_lines == count_char(s.code@, '\n')
}

/// `code` with a newline appended unless it already ends with one.
pub open spec fn terminated(code: Seq<char>) -> Seq<char> {
    if code.len() > 0 && code.last() == '\n' {
        code
    } else {
        code.push('\n')
    }
}

/// Count the newlines in `s`.
pub fn count_newlines(s: &str) -> (n: usize)
    ensures
        n == count_char(s@, '\n'),
{
    let len = s.unicode_len();
    let mut n: usize = 0;
    let mut i: usize = 0;
    while i < len
        invariant
            len == s@.len(),
            i <= len,
            n == count_char(s@.take(i as int), '\n'),
            n <= i,
        decreases len - i,
    {
        proof {
            assert(s@.take(i + 1).drop_last() =~= s@.take(i as int));
            assert(s@.take(i + 1).last() == s@[i as int]);
        }
        if s.get_char(i) == '\n' {
            n += 1;
        }
        i += 1;
    }
    proof {
        assert(s@.take(len as int) =~= s@);
    }
    n
}

/// Number of characters on each line; used for column arithmetic, which
/// counts Unicode scalar values as the external compiler does.
pub fn count_columns(code: &str) -> (n: usize)
    ensures
        n == code@.len(),
{
    code.unicode_len()
}

/// First index at or after `i` holding a character other than a space.
pub open spec fn spec_skip_spaces(l: Seq<char>, i: int) -> int
    decreases l.len() - i,
{
    if 0 <= i < l.len() && l[i] == ' ' {
        spec_skip_spaces(l, i + 1)
    } else {
        i
    }
}

/// First index at or after `i` holding a space, or the length of `l`.
pub open spec fn spec_token_end(l: Seq<char>, i: int) -> int
    decreases l.len() - i,
{
    if 0 <= i < l.len() && l[i] != ' ' {
        spec_token_end(l, i + 1)
    } else {
        i
    }
}

/// How a line parses as a command: `spaces ':' token [spaces args]`. The
/// command keeps its colon; the arguments, when present, are everything after
/// the first run of spaces that follows the command, and may be empty.
pub open spec fn spec_parse_command(l: Seq<char>) -> Option<(Seq<char>, Option<Seq<char>>)> {
    let sp = spec_skip_spaces(l, 0);
    if sp < l.len() && l[sp] == ':' {
        let ce = spec_token_end(l, sp);
        let cmd = l.subrange(sp, ce);
        if ce == l.len() {
            Some((cmd, None))
        } else {
            Some((cmd, Some(l.subrange(spec_skip_spaces(l, ce), l.len() as int))))
        }
    } else {
        None
    }
}

/// A line with no substance: nothing but blanks, or a `//` line comment.
pub open spec fn spec_blank_or_comment(l: Seq<char>) -> bool {
    ||| forall|i: int| 0 <= i < l.len() ==> l[i] == ' ' || l[i] == '\t' || l[i] == '\r'
    ||| (l.len() >= 2 && l[0] == '/' && l[1] == '/')
}

/// Does `r` agree with what `spec_parse_command` says of `l`?
pub open spec fn parse_command_matches(l: Seq<char>, r: Option<(String, Option<String>)>) -> bool {
    match r {
        Some(p) => spec_parse_command(l) == Some(
            (p.0@, match p.1 {
                Some(a) => Some(a@),
                None => None,
            }),
        ),
        None => spec_parse_command(l) is None,
    }
}

fn skip_spaces_from(s: &str, from: usize) -> (r: usize)
    requires
        from <= s@.len(),
    ensures
        r == spec_skip_spaces(s@, from as int),
        from <= r <= s@.len(),
    {
    let len = s.unicode_len();
    let mut i: usize = from;
    while i < len && s.get_char(i) == ' '
        invariant
            from <= i <= len,
            len == s@.len(),
            spec_skip_spaces(s@, from as int) == spec_skip_spaces(s@, i as int),
        decreases len - i,
    {
        i += 1;
    }
    i
}

fn token_end_from(s: &str, from: usize) -> (r: usize)
    requires
        from <= s@.len(),
    ensures
        r == spec_token_end(s@, from as int),
        from <= r <= s@.len(),
    {
    let len = s.unicode_len();
    let mut i: usize = from;
    while i < len && s.get_char(i) != ' '
        invariant
            from <= i <= len,
            len == s@.len(),
            spec_token_end(s@, from as int) == spec_token_end(s@, i as int),
        decreases len - i,
    {
        i += 1;
    }
    i
}

/// Parse a single line as a command invocation, if it is one.
pub fn parse_command(line: &str) -> (r: Option<(String, Option<String>)>)
    ensures
        parse_command_matches(line@, r),
{
    let len = line.unicode_len();
    let sp = skip_spaces_from(line, 0);
    if sp >= len || line.get_char(sp) != ':' {
        return None;
    }
    let ce = token_end_from(line, sp);
    let cmd = line.substring_char(sp, ce).to_owned();
    if ce == len {
        Some((cmd, None))
    } else {
        let astart = skip_spaces_from(line, ce);
        let args = line.substring_char(astart, len).to_owned();
        Some((cmd, Some(args)))
    }
}

/// Decide whether a line is blank or a `//` comment.
pub fn is_blank_or_comment(line: &str) -> (r: bool)
    ensures
        r == spec_blank_or_comment(line@),
{
    let len = line.unicode_len();
    if len >= 2 && line.get_char(0) == '/' && line.get_char(1) == '/' {
        return true;
    }
    let mut i: usize = 0;
    while i < len
        invariant
            len == line@.len(),
            i <= len,
            !(line@.len() >= 2 && line@[0] == '/' && line@[1] == '/'),
            forall|j: int| 0 <= j < i ==> line@[j] == ' ' || line@[j] == '\t' || line@[j] == '\r',
        decreases len - i,
    {
        let c = line.get_char(i);
        if c != ' ' && c != '\t' && c != '\r' {
            assert(!(line@[i as int] == ' ' || line@[i as int] == '\t' || line@[i as int] == '\r'));
            return false;
        }
        i += 1;
    }
    true
}

impl Segment {
    /// Wrap `code` as a segment of the given provenance, terminating it with
    /// a newline if it lacks one.
    pub fn new(kind: CodeKind, code: String) -> (r: Segment)
        ensures
            r.kind == kind,
            r.code@ == terminated(code@),
            r.sequence is None,
            seg_wf(r),
    {
        let mut code = code;
        let len = code.as_str().unicode_len();
        if len == 0 || code.as_str().get_char(len - 1) != '\n' {
            code.append("\n");
            proof {
                reveal_strlit("\n");
                assert(code@.last() == '\n');
            }
        }
        let num_lines = count_newlines(code.as_str());
        Segment { kind, code, num_lines, sequence: None }
    }
}

/// Concatenation of the text of a sequence of segments.
pub open spec fn concat_code(segs: Seq<Segment>) -> Seq<char>
    decreases segs.len(),
{
    if segs.len() == 0 {
        Seq::empty()
    } else {
        concat_code(segs.drop_last()) + segs.last().code@
    }
}

pub proof fn lemma_concat_code_push(segs: Seq<Segment>, s: Segment)
    ensures
        concat_code(segs.push(s)) == concat_code(segs) + s.code@,
{
    assert(segs.push(s).drop_last() =~= segs);
    assert(segs.push(s).last() == s);
}

/// Sum of the line counts of the first `i` segments: the number of output
/// lines that precede segment `i`.
pub open spec fn lines_before(segs: Seq<Segment>, i: int) -> int
    decreases i,
{
    if i <= 0 {
        0
    } else {
        lines_before(segs, i - 1) + segs[i - 1].num_lines
    }
}

/// Sum of the character counts of the first `i` segments: the output offset
/// at which segment `i` starts.
pub open spec fn chars_before(segs: Seq<Segment>, i: int) -> int
    decreases i,
{
    if i <= 0 {
        0
    } else {
        chars_before(segs, i - 1) + segs[i - 1].code@.len()
    }
}

pub proof fn lemma_chars_before_push(segs: Seq<Segment>, e: Segment, i: int)
    requires
        0 <= i <= segs.len(),
    ensures
        chars_before(segs.push(e), i) == chars_before(segs, i),
        lines_before(segs.push(e), i) == lines_before(segs, i),
    decreases i,
{
    if i > 0 {
        lemma_chars_before_push(segs, e, i - 1);
        assert(segs.push(e)[i - 1] == segs[i - 1]);
    }
}

pub proof fn lemma_count_char_zero(l: Seq<char>, c: char)
    requires
        forall|i: int| 0 <= i < l.len() ==> l[i] != c,
    ensures
        count_char(l, c) == 0,
    decreases l.len(),
{
    if l.len() > 0 {
        assert(forall|i: int| 0 <= i < l.len() - 1 ==> l.drop_last()[i] != c);
        lemma_count_char_zero(l.drop_last(), c);
    }
}

pub proof fn lemma_count_char_push(l: Seq<char>, c0: char, c: char)
    ensures
        count_char(l.push(c0), c) == count_char(l, c) + if c0 == c {
            1int
        } else {
            0int
        },
{
    assert(l.push(c0).drop_last() =~= l);
    assert(l.push(c0).last() == c0);
}

/// `Some(x@)` for `Some(x)`.
pub open spec fn opt_str_view(o: Option<String>) -> Option<Seq<char>> {
    match o {
        Some(x) => Some(x@),
        None => None,
    }
}

/// One unit of code: the ordered segments whose concatenated text is the
/// body handed to the compiler.
#[derive(Debug)]
pub struct CodeBlock {
    pub segments: Vec<Segment>,
}

/// Every segment of the block keeps the segment invariant.
pub open spec fn block_wf(b: CodeBlock) -> bool {
    forall|i: int| 0 <= i < b.segments@.len() ==> seg_wf(#[trigger] b.segments@[i])
}

impl CodeBlock {
    pub fn new() -> (r: CodeBlock)
        ensures
            r.segments@.len() == 0,
            block_wf(r),
    {
        CodeBlock { segments: Vec::new() }
    }

    pub fn is_empty(&self) -> (r: bool)
        ensures
            r == (self.segments@.len() == 0),
    {
        self.segments.len() == 0
    }

    /// Append an already built segment.
    pub fn with_segment(self, segment: Segment) -> (r: CodeBlock)
        ensures
            r.segments@ == self.segments@.push(segment),
    {
        let mut this = self;
        this.segments.push(segment);
        this
    }

    /// Append `code` under the given provenance.
    pub fn with(self, origin: CodeKind, code: String) -> (r: CodeBlock)
        ensures
            r.segments@.len() == self.segments@.len() + 1,
            r.segments@.last().kind == origin,
            r.segments@.last().code@ == terminated(code@),
            r.segments@.last().sequence is None,
            seg_wf(r.segments@.last()),
            forall|i: int|
                0 <= i < self.segments@.len() ==> #[trigger] r.segments@[i] == self.segments@[i],
            concat_code(r.segments@) == concat_code(self.segments@) + terminated(code@),
    {
        let seg = Segment::new(origin, code);
        let ghost pre = self.segments@;
        let r = self.with_segment(seg);
        proof {
            lemma_concat_code_push(pre, seg);
        }
        r
    }

    /// Append generated code with a fallback to substitute if it fails to
    /// compile.
    pub fn code_with_fallback(self, code: String, fallback: CodeBlock) -> (r: CodeBlock)
        ensures
            r.segments@.len() == self.segments@.len() + 1,
            r.segments@.last().kind is WithFallback,
            r.segments@.last().code@ == terminated(code@),
            seg_wf(r.segments@.last()),
            forall|i: int|
                0 <= i < self.segments@.len() ==> #[trigger] r.segments@[i] == self.segments@[i],
    {
        self.with(CodeKind::WithFallback(fallback), code)
    }

    /// Append generated code from which no errors are expected.
    pub fn generated(self, code: String) -> (r: CodeBlock)
        ensures
            r.segments@.len() == self.segments@.len() + 1,
            r.segments@.last().kind is OtherGeneratedCode,
            r.segments@.last().code@ == terminated(code@),
            seg_wf(r.segments@.last()),
            forall|i: int|
                0 <= i < self.segments@.len() ==> #[trigger] r.segments@[i] == self.segments@[i],
    {
        self.with(CodeKind::OtherGeneratedCode, code)
    }

    /// Append user code from an earlier, committed submission.
    pub fn other_user_code(self, user_code: String) -> (r: CodeBlock)
        ensures
            r.segments@.len() == self.segments@.len() + 1,
            r.segments@.last().kind is OtherUserCode,
            r.segments@.last().code@ == terminated(user_code@),
            seg_wf(r.segments@.last()),
            forall|i: int|
                0 <= i < self.segments@.len() ==> #[trigger] r.segments@[i] == self.segments@[i],
    {
        self.with(CodeKind::OtherUserCode, user_code)
    }

    /// Demote all original user code to other user code, once a unit has
    /// executed and per-character error tracking for it is no longer needed.
    pub fn commit_old_user_code(&mut self)
        ensures
            final(self).segments@.len() == old(self).segments@.len(),
            forall|i: int|
                0 <= i < old(self).segments@.len() ==> {
                    let pre = old(self).segments@[i];
                    let post = #[trigger] final(self).segments@[i];
                    &&& post.code@ == pre.code@
                    &&& post.num_lines == pre.num_lines
                    &&& post.sequence == pre.sequence
                    &&& post.kind == if pre.kind is OriginalUserCode {
                        CodeKind::OtherUserCode
                    } else {
                        pre.kind
                    }
                },
            block_wf(*old(self)) ==> block_wf(*final(self)),
    {
        let ghost s = old(self).segments@;
        let n = self.segments.len();
        let mut out: Vec<Segment> = Vec::new();
        let mut i: usize = 0;
        while i < n
            invariant
                n == s.len(),
                self.segments@ =~= s.skip(i as int),
                i <= n,
                out@.len() == i,
                forall|a: int|
                    0 <= a < i ==> {
                        let pre = s[a];
                        let post = #[trigger] out@[a];
                        &&& post.code@ == pre.code@
                        &&& post.num_lines == pre.num_lines
                        &&& post.sequence == pre.sequence
                        &&& post.kind == if pre.kind is OriginalUserCode {
                            CodeKind::OtherUserCode
                        } else {
                            pre.kind
                        }
                    },
            decreases n - i,
        {
            let seg = self.segments.remove(0);
            proof {
                assert(seg == s[i as int]);
                assert(self.segments@ =~= s.skip(i + 1));
            }
            let kind = if matches!(seg.kind, CodeKind::OriginalUserCode(_)) {
                CodeKind::OtherUserCode
            } else {
                seg.kind
            };
            out.push(
                Segment { kind, code: seg.code, num_lines: seg.num_lines, sequence: seg.sequence },
            );
            i += 1;
        }
        self.segments = out;
    }

    /// The segment of original user code carrying the given sequence number.
    pub fn segment_with_index(&self, index: usize) -> (r: Option<&Segment>)
        ensures
            match r {
                Some(seg) => exists|i: int|
                    0 <= i < self.segments@.len() && *seg == #[trigger] self.segments@[i]
                        && seg.sequence == Some(index),
                None => forall|i: int|
                    0 <= i < self.segments@.len() ==> (#[trigger] self.segments@[i]).sequence
                        != Some(index),
            },
    {
        let n = self.segments.len();
        let mut i: usize = 0;
        while i < n
            invariant
                n == self.segments@.len(),
                i <= n,
                forall|j: int|
                    0 <= j < i ==> (#[trigger] self.segments@[j]).sequence != Some(index),
            decreases n - i,
        {
            let found = match self.segments[i].sequence {
                Some(s) => s == index,
                None => false,
            };
            if found {
                return Some(&self.segments[i]);
            }
            i += 1;
        }
        None
    }
}

/// The segment intervals of the output text are disjoint: one output offset
/// lies within at most one segment. With this, translating a user offset
/// into the output and back returns the offset it started from: the two
/// translation functions are mutually inverse wherever they are defined.
pub proof fn lemma_offset_translation_unique(segs: Seq<Segment>, i: int, j: int, off: int)
    requires
        0 <= i < segs.len(),
        0 <= j < segs.len(),
        chars_before(segs, i) <= off < chars_before(segs, i + 1),
        chars_before(segs, j) <= off < chars_before(segs, j + 1),
    ensures
        i == j,
{
    if i < j {
        lemma_lines_before_mono(segs, i + 1, j);
        assert(off < chars_before(segs, i + 1) <= chars_before(segs, j) <= off);
    } else if j < i {
        lemma_lines_before_mono(segs, j + 1, i);
        assert(off < chars_before(segs, j + 1) <= chars_before(segs, i) <= off);
    }
}

impl CodeBlock {
    /// Separate the command segments of a fresh submission from the code
    /// that is to be compiled, each side keeping its order.
    pub fn separate_commands(self) -> (r: (Vec<Segment>, CodeBlock))
        ensures
            r.0@ == self.segments@.filter(|s: Segment| s.kind is Command),
            r.1.segments@ == self.segments@.filter(|s: Segment| !(s.kind is Command)),
    {
        let ghost orig = self.segments@;
        let n = self.segments.len();
        let mut vec = self.segments;
        let mut commands: Vec<Segment> = Vec::new();
        let mut code: Vec<Segment> = Vec::new();
        let mut i: usize = 0;
        proof {
            reveal(Seq::filter);
        }
        while i < n
            invariant
                n == orig.len(),
                i <= n,
                vec@ =~= orig.skip(i as int),
                commands@ =~= orig.take(i as int).filter(|s: Segment| s.kind is Command),
                code@ =~= orig.take(i as int).filter(|s: Segment| !(s.kind is Command)),
            decreases n - i,
        {
            let seg = vec.remove(0);
            proof {
                assert(seg == orig[i as int]);
                assert(vec@ =~= orig.skip(i + 1));
                assert(orig.take(i + 1).drop_last() =~= orig.take(i as int));
                assert(orig.take(i + 1).last() == orig[i as int]);
                reveal(Seq::filter);
            }
            if matches!(seg.kind, CodeKind::Command(_)) {
                commands.push(seg);
            } else {
                code.push(seg);
            }
            i += 1;
        }
        proof {
            assert(orig.take(n as int) =~= orig);
        }
        (commands, CodeBlock { segments: code })
    }
}

/// Index of the first newline at or after `from`, or the length of `s`.
fn find_newline(s: &str, from: usize) -> (r: usize)
    requires
        from <= s@.len(),
    ensures
        from <= r <= s@.len(),
        forall|j: int| from <= j < r ==> s@[j] != '\n',
        r < s@.len() ==> s@[r as int] == '\n',
{
    let len = s.unicode_len();
    let mut i: usize = from;
    while i < len && s.get_char(i) != '\n'
        invariant
            from <= i <= len,
            len == s@.len(),
            forall|j: int| from <= j < i ==> s@[j] != '\n',
        decreases len - i,
    {
        i += 1;
    }
    i
}

/// What splitting an input into a code block guarantees: the segment texts
/// concatenate back to the input (with a final newline supplied if the input
/// lacked one), command lines ahead of the first substantive code line are
/// command segments whose parse and position are recorded exactly, blank and
/// comment lines among them are kept as inert user-code segments, and
/// everything from the first substantive line on is a single segment of
/// original user code whose position is recorded exactly.
pub open spec fn split_shape(input: Seq<char>, b: CodeBlock) -> bool {
    let segs = b.segments@;
    &&& block_wf(b)
    &&& (input.len() == 0 ==> segs.len() == 0)
    &&& (input.len() > 0 ==> concat_code(segs) == terminated(input))
    &&& (forall|i: int|
        0 <= i < segs.len() ==> ((#[trigger] segs[i].kind) is Command || segs[i].kind
            is OtherUserCode || segs[i].kind is OriginalUserCode))
    &&& (forall|i: int|
        0 <= i < segs.len() - 1 ==> !((#[trigger] segs[i].kind) is OriginalUserCode))
    &&& (forall|i: int|
        0 <= i < segs.len() ==> match (#[trigger] segs[i].kind) {
            CodeKind::Command(c) => {
                &&& spec_parse_command(segs[i].code@.drop_last()) == Some(
                    (c.command@, opt_str_view(c.args)),
                )
                &&& c.start_offset == chars_before(segs, i)
                &&& c.line_number == lines_before(segs, i) + 1
            },
            CodeKind::OtherUserCode => spec_blank_or_comment(segs[i].code@.drop_last()),
            CodeKind::OriginalUserCode(m) => {
                &&& i == segs.len() - 1
                &&& m.start_offset == chars_before(segs, i)
                &&& m.start_line == lines_before(segs, i) + 1
                &&& m.column_offset == 0
                &&& segs[i].sequence == Some(0usize)
                &&& segs[i].code@ == terminated(input.skip(m.start_offset as int))
            },
            _ => false,
        })
}

/// Split raw user input into a code block: command lines (`:name args`) are
/// accepted up to the first substantive code line, blank lines and `//`
/// comment lines do not end that scan, and everything from the first
/// substantive line on is one segment of original user code. No text is lost
/// or reordered; the segment texts concatenate back to the input.
pub fn from_original_user_code(user_code: &str) -> (r: CodeBlock)
    requires
        user_code@.len() < usize::MAX,
    ensures
        split_shape(user_code@, r),
{
    let ghost s = user_code@;
    let len = user_code.unicode_len();
    let mut block = CodeBlock::new();
    let mut pos: usize = 0;
    let mut line_number: usize = 1;
    let mut found = false;
    while pos < len && !found
        invariant
            len == s.len(),
            s == user_code@,
            len < usize::MAX,
            pos <= len,
            1 <= line_number,
            line_number <= pos + 1,
            block_wf(block),
            len == 0 ==> block.segments@.len() == 0,
            forall|i: int|
                0 <= i < block.segments@.len() ==> ((#[trigger] block.segments@[i].kind)
                    is Command || block.segments@[i].kind is OtherUserCode),
            forall|i: int|
                0 <= i < block.segments@.len() ==> match (#[trigger] block.segments@[i].kind) {
                    CodeKind::Command(c) => {
                        &&& spec_parse_command(block.segments@[i].code@.drop_last()) == Some(
                            (c.command@, opt_str_view(c.args)),
                        )
                        &&& c.start_offset == chars_before(block.segments@, i)
                        &&& c.line_number == lines_before(block.segments@, i) + 1
                    },
                    CodeKind::OtherUserCode => spec_blank_or_comment(
                        block.segments@[i].code@.drop_last(),
                    ),
                    _ => true,
                },
            pos < len ==> {
                &&& concat_code(block.segments@) == s.take(pos as int)
                &&& (pos == 0 || s[pos as int - 1] == '\n')
                &&& chars_before(block.segments@, block.segments@.len() as int) == pos
                &&& lines_before(block.segments@, block.segments@.len() as int) == line_number - 1
            },
            pos == len && len > 0 ==> concat_code(block.segments@) == terminated(s),
            found ==> pos < len,
        decreases len - pos + if found {
            0int
        } else {
            1int
        },
    {
        let line_end = find_newline(user_code, pos);
        let line = user_code.substring_char(pos, line_end);
        proof {
            assert(line@ == s.subrange(pos as int, line_end as int));
        }
        let parsed = parse_command(line);
        let is_cmd = parsed.is_some();
        let blank = if is_cmd {
            false
        } else {
            is_blank_or_comment(line)
        };
        if !is_cmd && !blank {
            found = true;
        } else {
            // Consume this line, newline included when present, as one
            // single-line segment.
            let seg_text = if line_end < len {
                user_code.substring_char(pos, line_end + 1)
            } else {
                line
            };
            let ghost pre = block.segments@;
            let ghost seg_view = seg_text@;
            proof {
                if line_end < len {
                    assert(seg_view == s.subrange(pos as int, line_end + 1));
                    assert(seg_view =~= line@.push('\n'));
                    assert(seg_view.last() == '\n');
                    assert(terminated(seg_view) == seg_view);
                }
                assert(terminated(seg_view) =~= line@.push('\n'));
                lemma_count_char_zero(line@, '\n');
                lemma_count_char_push(line@, '\n', '\n');
                assert(count_char(terminated(seg_view), '\n') == 1);
            }
            let kind = match parsed {
                Some(cp) => {
                    let (cmd, args) = cp;
                    CodeKind::Command(
                        CommandCall { command: cmd, args, start_offset: pos, line_number },
                    )
                },
                None => CodeKind::OtherUserCode,
            };
            block = block.with(kind, seg_text.to_owned());
            proof {
                let n = pre.len() as int;
                assert(block.segments@.drop_last() =~= pre);
                assert forall|i: int| 0 <= i <= n implies chars_before(block.segments@, i)
                    == chars_before(pre, i) && lines_before(block.segments@, i) == lines_before(
                    pre,
                    i,
                ) by {
                    lemma_chars_before_push(pre, block.segments@.last(), i);
                    assert(block.segments@ =~= pre.push(block.segments@.last()));
                }
                assert(block.segments@.last().code@ == terminated(seg_view));
                assert(block.segments@.last().code@.drop_last() =~= line@);
                assert(chars_before(block.segments@, n + 1) == pos + terminated(seg_view).len());
                assert(lines_before(block.segments@, n + 1) == line_number - 1 + 1);
                if line_end < len {
                    assert(s.take(pos as int) + seg_view =~= s.take(line_end + 1));
                } else {
                    assert(s.take(pos as int) + line@ =~= s);
                    assert(s.take(pos as int) + terminated(seg_view) =~= terminated(s));
                }
            }
            pos = if line_end < len {
                line_end + 1
            } else {
                len
            };
            line_number += 1;
        }
    }
    if found {
        let rest = user_code.substring_char(pos, len);
        let meta = UserCodeMetadata { start_offset: pos, start_line: line_number, column_offset: 0 };
        let mut seg = Segment::new(CodeKind::OriginalUserCode(meta), rest.to_owned());
        seg.sequence = Some(0);
        let ghost pre = block.segments@;
        block = block.with_segment(seg);
        proof {
            lemma_concat_code_push(pre, seg);
            let n = pre.len() as int;
            assert forall|i: int| 0 <= i <= n implies chars_before(block.segments@, i)
                == chars_before(pre, i) && lines_before(block.segments@, i) == lines_before(
                pre,
                i,
            ) by {
                lemma_chars_before_push(pre, seg, i);
                assert(block.segments@ =~= pre.push(seg));
            }
            assert(rest@ == s.skip(pos as int));
            if s.last() == '\n' {
                assert(rest@.last() == '\n');
                assert(terminated(rest@) == rest@);
                assert(s.take(pos as int) + rest@ =~= s);
                assert(terminated(s) == s);
            } else {
                assert(rest@.last() != '\n');
                assert(terminated(rest@) == rest@.push('\n'));
                assert(s.take(pos as int) + rest@.push('\n') =~= s.push('\n'));
                assert(terminated(s) == s.push('\n'));
            }
            assert(concat_code(block.segments@) == terminated(s));
        }
    }
    block
}


pub proof fn lemma_lines_before_mono(segs: Seq<Segment>, i: int, j: int)
    requires
        0 <= i <= j <= segs.len(),
    ensures
        lines_before(segs, i) <= lines_before(segs, j),
        chars_before(segs, i) <= chars_before(segs, j),
    decreases j - i,
{
    if i < j {
        lemma_lines_before_mono(segs, i, j - 1);
    }
}

impl CodeBlock {
    /// The segment holding the 1-based line `line` of the block's output
    /// text, together with the 1-based line offset within that segment.
    pub fn origin_for_line(&self, line: usize) -> (r: Option<(usize, usize)>)
        requires
            lines_before(self.segments@, self.segments@.len() as int) <= usize::MAX,
        ensures
            match r {
                Some(p) => {
                    &&& (p.0 as int) < self.segments@.len()
                    &&& lines_before(self.segments@, p.0 as int) < line
                    &&& line <= lines_before(self.segments@, p.0 as int + 1)
                    &&& p.1 == line - lines_before(self.segments@, p.0 as int)
                },
                None => line == 0 || line > lines_before(
                    self.segments@,
                    self.segments@.len() as int,
                ),
            },
    {
        if line == 0 {
            return None;
        }
        let n = self.segments.len();
        let mut acc: usize = 0;
        let mut i: usize = 0;
        while i < n
            invariant
                n == self.segments@.len(),
                i <= n,
                acc == lines_before(self.segments@, i as int),
                lines_before(self.segments@, n as int) <= usize::MAX,
                line > acc,
            decreases n - i,
        {
            proof {
                lemma_lines_before_mono(self.segments@, i as int + 1, n as int);
            }
            let nl = self.segments[i].num_lines;
            if line <= acc + nl {
                return Some((i, line - acc));
            }
            acc = acc + nl;
            i += 1;
        }
        None
    }

    /// The block's full text: its segments' code, concatenated in order.
    pub fn code_string(&self) -> (r: String)
        ensures
            r@ == concat_code(self.segments@),
    {
        let n = self.segments.len();
        let mut out = String::new();
        let mut i: usize = 0;
        while i < n
            invariant
                n == self.segments@.len(),
                i <= n,
                out@ == concat_code(self.segments@.take(i as int)),
            decreases n - i,
        {
            proof {
                assert(self.segments@.take(i + 1).drop_last() =~= self.segments@.take(i as int));
                assert(self.segments@.take(i + 1).last() == self.segments@[i as int]);
            }
            out.append(self.segments[i].code.as_str());
            i += 1;
        }
        proof {
            assert(self.segments@.take(n as int) =~= self.segments@);
        }
        out
    }

    /// Does segment `i` of the block carry original user code covering
    /// character `user_offset` of the submission? The segment's final
    /// newline, which the splitter may have supplied, is excluded.
    pub open spec fn original_covers(&self, i: int, user_offset: int) -> bool {
        &&& 0 <= i < self.segments@.len()
        &&& match self.segments@[i].kind {
            CodeKind::OriginalUserCode(m) => m.start_offset <= user_offset
                < m.start_offset + self.segments@[i].code@.len(),
            _ => false,
        }
    }

    /// Translate a character offset in the user's submission to the
    /// corresponding offset in the block's output text.
    pub fn user_offset_to_output_offset(&self, user_offset: usize) -> (r: Option<usize>)
        requires
            chars_before(self.segments@, self.segments@.len() as int) <= usize::MAX,
        ensures
            match r {
                Some(out) => exists|i: int|
                    self.original_covers(i, user_offset as int) && out == chars_before(
                        self.segments@,
                        i,
                    ) + user_offset - (#[trigger] self.segments@[i].kind)->OriginalUserCode_0.start_offset,
                None => forall|i: int| !self.original_covers(i, user_offset as int),
            },
    {
        let n = self.segments.len();
        let mut acc: usize = 0;
        let mut i: usize = 0;
        while i < n
            invariant
                n == self.segments@.len(),
                i <= n,
                acc == chars_before(self.segments@, i as int),
                chars_before(self.segments@, n as int) <= usize::MAX,
                forall|j: int| 0 <= j < i ==> !self.original_covers(j, user_offset as int),
            decreases n - i,
        {
            proof {
                lemma_lines_before_mono(self.segments@, i as int + 1, n as int);
            }
            let seg_len = count_columns(self.segments[i].code.as_str());
            match &self.segments[i].kind {
                CodeKind::OriginalUserCode(m) => {
                    if m.start_offset <= user_offset && user_offset - m.start_offset < seg_len {
                        return Some(acc + (user_offset - m.start_offset));
                    }
                },
                _ => {},
            }
            acc = acc + seg_len;
            i += 1;
        }
        None
    }

    /// Translate a character offset in the block's output text back to the
    /// offset in the user's submission it came from.
    pub fn output_offset_to_user_offset(&self, output_offset: usize) -> (r: Option<usize>)
        requires
            chars_before(self.segments@, self.segments@.len() as int) <= usize::MAX,
            forall|i: int|
                0 <= i < self.segments@.len() ==> (#[trigger] self.segments@[i].kind)
                    is OriginalUserCode ==> self.segments@[i].kind->OriginalUserCode_0.start_offset
                    + self.segments@[i].code@.len() <= usize::MAX,
        ensures
            match r {
                Some(u) => exists|i: int|
                    {
                        &&& 0 <= i < self.segments@.len()
                        &&& (#[trigger] self.segments@[i].kind) is OriginalUserCode
                        &&& chars_before(self.segments@, i) <= output_offset < chars_before(
                            self.segments@,
                            i + 1,
                        )
                        &&& u == self.segments@[i].kind->OriginalUserCode_0.start_offset
                            + output_offset - chars_before(self.segments@, i)
                    },
                None => forall|i: int|
                    0 <= i < self.segments@.len() ==> !((#[trigger] self.segments@[i].kind)
                        is OriginalUserCode && chars_before(self.segments@, i) <= output_offset
                        < chars_before(self.segments@, i + 1)),
            },
    {
        let n = self.segments.len();
        let mut acc: usize = 0;
        let mut i: usize = 0;
        while i < n
            invariant
                n == self.segments@.len(),
                i <= n,
                acc == chars_before(self.segments@, i as int),
                chars_before(self.segments@, n as int) <= usize::MAX,
                forall|j: int|
                    0 <= j < self.segments@.len() ==> (#[trigger] self.segments@[j].kind)
                        is OriginalUserCode ==> self.segments@[j].kind->OriginalUserCode_0.start_offset
                        + self.segments@[j].code@.len() <= usize::MAX,
                forall|j: int|
                    0 <= j < i ==> !((#[trigger] self.segments@[j].kind) is OriginalUserCode
                        && chars_before(self.segments@, j) <= output_offset < chars_before(
                        self.segments@,
                        j + 1,
                    )),
            decreases n - i,
        {
            proof {
                lemma_lines_before_mono(self.segments@, i as int + 1, n as int);
            }
            let seg_len = count_columns(self.segments[i].code.as_str());
            let in_seg = acc <= output_offset && output_offset - acc < seg_len;
            match &self.segments[i].kind {
                CodeKind::OriginalUserCode(m) => {
                    if in_seg {
                        return Some(m.start_offset + (output_offset - acc));
                    }
                },
                _ => {},
            }
            acc = acc + seg_len;
            i += 1;
        }
        None
    }

    /// Replace the failing segment at `index` with its fallback's segments.
    pub fn apply_fallback(&mut self, index: usize)
        requires
            (index as int) < old(self).segments@.len(),
            old(self).segments@[index as int].kind is WithFallback,
        ensures
            final(self).segments@ == old(self).segments@.take(index as int) + old(
                self,
            ).segments@[index as int].kind->WithFallback_0.segments@ + old(self).segments@.skip(
                index as int + 1,
            ),
    {
        let ghost orig = self.segments@;
        let ghost fbseq = orig[index as int].kind->WithFallback_0.segments@;
        let n = self.segments.len();
        let mut out: Vec<Segment> = Vec::new();
        let mut j: usize = 0;
        while j < index
            invariant
                j <= index,
                (index as int) < orig.len(),
                self.segments@ =~= orig.skip(j as int),
                out@ =~= orig.take(j as int),
            decreases index - j,
        {
            let seg = self.segments.remove(0);
            proof {
                assert(seg == orig[j as int]);
                assert(self.segments@ =~= orig.skip(j + 1));
                assert(out@.push(seg) =~= orig.take(j + 1));
            }
            out.push(seg);
            j += 1;
        }
        let seg = self.segments.remove(0);
        proof {
            assert(seg == orig[index as int]);
            assert(self.segments@ =~= orig.skip(index as int + 1));
        }
        match seg.kind {
            CodeKind::WithFallback(fb) => {
                let mut fb_vec = fb.segments;
                proof {
                    assert(fb_vec@ == fbseq);
                }
                let mut k: usize = 0;
                let fblen = fb_vec.len();
                while k < fblen
                    invariant
                        k <= fblen,
                        fblen == fbseq.len(),
                        fb_vec@ =~= fbseq.skip(k as int),
                        out@ =~= orig.take(index as int) + fbseq.take(k as int),
                    decreases fblen - k,
                {
                    let fseg = fb_vec.remove(0);
                    proof {
                        assert(fseg == fbseq[k as int]);
                        assert(fb_vec@ =~= fbseq.skip(k + 1));
                        assert(out@.push(fseg) =~= orig.take(index as int) + fbseq.take(k + 1));
                    }
                    out.push(fseg);
                    k += 1;
                }
                proof {
                    assert(fbseq.take(fblen as int) =~= fbseq);
                }
            },
            _ => {
                proof {
                    assert(false);
                }
            },
        }
        let rest = self.segments.len();
        let mut k: usize = 0;
        while k < rest
            invariant
                k <= rest,
                (index as int) < orig.len(),
                rest == orig.len() - index - 1,
                self.segments@ =~= orig.skip(index as int + 1).skip(k as int),
                out@ =~= orig.take(index as int) + fbseq + orig.skip(index as int + 1).take(
                    k as int,
                ),
            decreases rest - k,
        {
            let seg = self.segments.remove(0);
            proof {
                assert(seg == orig.skip(index as int + 1)[k as int]);
                assert(self.segments@ =~= orig.skip(index as int + 1).skip(k + 1));
                assert(out@.push(seg) =~= orig.take(index as int) + fbseq + orig.skip(
                    index as int + 1,
                ).take(k + 1));
            }
            out.push(seg);
            k += 1;
        }
        proof {
            assert(orig.skip(index as int + 1).take(rest as int) =~= orig.skip(index as int + 1));
        }
        self.segments = out;
    }
}

} // verus!

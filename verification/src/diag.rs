//! Parsing the external compiler's diagnostics. The compiler emits one JSON
//! object per line; the `json` crate decodes them, behind trusted wrappers,
//! and the verified logic here walks the decoded value, correlates its spans
//! with segment provenance by line number, applies the parent-or-child
//! precedence rule, and reduces everything to a plain `CompilationError`.

use vstd::prelude::*;

use json::JsonValue;

use crate::code_block::CodeBlock;
use crate::code_block::CodeKind;
use crate::code_block::lines_before;
use crate::errors::CodeOrigin;
use crate::errors::CompilationError;
use crate::errors::Span;
use crate::errors::SpannedMessage;
use crate::errors::copy_kind_shallow;
use crate::errors::sanitize_message;
use crate::errors::spec_replace;
use crate::text::str_ends_with;
use crate::text::str_starts_with;

verus! {

#[verifier::external_type_specification]
#[verifier::external_body]
pub struct ExJsonValue(JsonValue);

/// Whether a piece of text decodes as one JSON document. Decoding is a
/// function of the text alone.
pub uninterp spec fn spec_json_ok(s: Seq<char>) -> bool;

/// The document a piece of text decodes to, when it decodes.
pub uninterp spec fn spec_json_doc(s: Seq<char>) -> JsonValue;

/// The member a decoded value holds under a key: the named member of an
/// object, the null value for anything else.
pub uninterp spec fn spec_json_field(v: JsonValue, key: Seq<char>) -> JsonValue;

/// The member a decoded value holds at a position: the array member there,
/// the null value when out of range or not an array.
pub uninterp spec fn spec_json_member(v: JsonValue, i: int) -> JsonValue;

/// The number of members of an array or object, zero for anything else.
pub uninterp spec fn spec_json_len(v: JsonValue) -> int;

/// Whether a decoded value is an object.
pub uninterp spec fn spec_json_is_object(v: JsonValue) -> bool;

/// Whether a decoded value is an array.
pub uninterp spec fn spec_json_is_array(v: JsonValue) -> bool;

/// The characters of a decoded string value, nothing for other values.
pub uninterp spec fn spec_json_text(v: JsonValue) -> Option<Seq<char>>;

/// The value of a decoded number that fits the machine's indexes, nothing
/// otherwise.
pub uninterp spec fn spec_json_number(v: JsonValue) -> Option<usize>;

/// The value of a decoded boolean, nothing for other values.
pub uninterp spec fn spec_json_flag(v: JsonValue) -> Option<bool>;

/// Relies on json::parse: decodes one JSON document from text, or fails;
/// the outcome and the document depend on the text alone.
#[verifier::external_body]
fn json_parse(s: &str) -> (r: Option<JsonValue>)
    ensures
        (r is Some) == spec_json_ok(s@),
        r matches Some(v) ==> v == spec_json_doc(s@),
{
    json::parse(s).ok()
}

/// Relies on JsonValue's indexing by key: the named member of an object, or
/// the null value for anything else; a function of the value and the key.
#[verifier::external_body]
fn json_field<'a>(v: &'a JsonValue, key: &str) -> (r: &'a JsonValue)
    ensures
        *r == spec_json_field(*v, key@),
{
    &v[key]
}

/// Relies on JsonValue's indexing by position: the array member at `i`, or
/// the null value when out of range or not an array; a function of the
/// value and the position.
#[verifier::external_body]
fn json_at<'a>(v: &'a JsonValue, i: usize) -> (r: &'a JsonValue)
    ensures
        *r == spec_json_member(*v, i as int),
{
    &v[i]
}

/// Relies on JsonValue::len: the number of members of an array or object,
/// zero for anything else; a function of the value alone.
#[verifier::external_body]
fn json_len(v: &JsonValue) -> (r: usize)
    ensures
        r as int == spec_json_len(*v),
{
    v.len()
}

/// Relies on JsonValue::is_object; a function of the value alone.
#[verifier::external_body]
fn json_is_object(v: &JsonValue) -> (r: bool)
    ensures
        r == spec_json_is_object(*v),
{
    v.is_object()
}

/// Relies on JsonValue::is_array; a function of the value alone.
#[verifier::external_body]
fn json_is_array(v: &JsonValue) -> (r: bool)
    ensures
        r == spec_json_is_array(*v),
{
    v.is_array()
}

/// Relies on JsonValue::as_str: the characters of a string value, owned; a
/// function of the value alone.
#[verifier::external_body]
fn json_as_str(v: &JsonValue) -> (r: Option<String>)
    ensures
        match r {
            Some(t) => spec_json_text(*v) == Some(t@),
            None => spec_json_text(*v) is None,
        },
{
    v.as_str().map(|s| s.to_owned())
}

/// Relies on JsonValue::as_usize: the value of a number that fits; a
/// function of the value alone.
#[verifier::external_body]
fn json_as_usize(v: &JsonValue) -> (r: Option<usize>)
    ensures
        r == spec_json_number(*v),
{
    v.as_usize()
}

/// Relies on JsonValue::as_bool; a function of the value alone.
#[verifier::external_body]
fn json_as_bool(v: &JsonValue) -> (r: Option<bool>)
    ensures
        r == spec_json_flag(*v),
{
    v.as_bool()
}

/// How many expansion levels a span is followed through when the compiler
/// reports it inside a macro or attribute expansion.
pub const EXPANSION_DEPTH_LIMIT: u64 = 16;

/// Follow a diagnostic span's expansion chain until it lands in the
/// synthesized source file itself, whose name ends in `lib.rs`.
fn span_in_local_source<'a>(span: &'a JsonValue) -> (r: Option<&'a JsonValue>)
{
    let mut cur = span;
    let mut depth: u64 = 0;
    while depth < EXPANSION_DEPTH_LIMIT
        invariant
            depth <= EXPANSION_DEPTH_LIMIT,
        decreases EXPANSION_DEPTH_LIMIT - depth,
    {
        match json_as_str(json_field(cur, "file_name")) {
            Some(name) => {
                if str_ends_with(name.as_str(), "lib.rs") {
                    return Some(cur);
                }
            },
            None => {},
        }
        let expansion = json_field(cur, "expansion");
        if json_is_object(expansion) {
            cur = json_field(expansion, "span");
        } else {
            return None;
        }
        depth += 1;
    }
    None
}

/// The parent diagnostic wins unless it has no user-code origin and some
/// child has one; then that child's message replaces it. This preserves the
/// existing precedence without generalizing it.
pub fn prefer_child(parent_has_user: bool, child_has_user: bool) -> (r: bool)
    ensures
        r == (!parent_has_user && child_has_user),
{
    !parent_has_user && child_has_user
}

/// Does any origin of the list lie in user-supplied code?
pub fn origins_any_user(origins: &Vec<CodeOrigin>) -> (r: bool)
    ensures
        r == exists|i: int|
            0 <= i < origins@.len() && (#[trigger] origins@[i]).kind.spec_is_user_supplied(),
{
    let n = origins.len();
    let mut i: usize = 0;
    while i < n
        invariant
            n == origins@.len(),
            i <= n,
            forall|j: int| 0 <= j < i ==> !(#[trigger] origins@[j]).kind.spec_is_user_supplied(),
        decreases n - i,
    {
        if origins[i].kind.is_user_supplied() {
            return true;
        }
        i += 1;
    }
    false
}

/// The provenance of one line of the compiled block: the kind of the
/// segment the line falls in and that segment's index, or unknown
/// provenance for a line outside the block.
pub fn origin_of_output_line(block: &CodeBlock, line: usize) -> (r: CodeOrigin)
    requires
        lines_before(block.segments@, block.segments@.len() as int) <= usize::MAX,
    ensures
        match r.segment_index {
            Some(i) => (i as int) < block.segments@.len() && lines_before(block.segments@, i as int)
                < line && line <= lines_before(block.segments@, i as int + 1),
            None => r.kind is Unknown && (line == 0 || line > lines_before(
                block.segments@,
                block.segments@.len() as int,
            )),
        },
{
    match block.origin_for_line(line) {
        Some(p) => {
            let (i, _off) = p;
            CodeOrigin { kind: copy_kind_shallow(&block.segments[i].kind), segment_index: Some(i) }
        },
        None => CodeOrigin { kind: CodeKind::Unknown, segment_index: None },
    }
}

/// Every origin of the list that names a segment names one of the block's.
pub open spec fn origins_in_range(origins: Seq<CodeOrigin>, block: CodeBlock) -> bool {
    forall|i: int|
        0 <= i < origins.len() ==> match (#[trigger] origins[i]).segment_index {
            Some(si) => (si as int) < block.segments@.len(),
            None => true,
        }
}

/// The origins of every line a diagnostic's spans cover in the compiled
/// block, walking expansion chains back into the synthesized source first.
fn origins_of_spans(diag: &JsonValue, block: &CodeBlock) -> (r: Vec<CodeOrigin>)
    requires
        lines_before(block.segments@, block.segments@.len() as int) <= usize::MAX,
    ensures
        origins_in_range(r@, *block),
{
    let mut out: Vec<CodeOrigin> = Vec::new();
    let spans = json_field(diag, "spans");
    if !json_is_array(spans) {
        return out;
    }
    let n = json_len(spans);
    let mut i: usize = 0;
    while i < n
        invariant
            lines_before(block.segments@, block.segments@.len() as int) <= usize::MAX,
            origins_in_range(out@, *block),
        decreases n - i,
    {
        let span = json_at(spans, i);
        match span_in_local_source(span) {
            Some(local) => {
                let start = json_as_usize(json_field(local, "line_start"));
                let end = json_as_usize(json_field(local, "line_end"));
                match (start, end) {
                    (Some(line_start), Some(line_end)) => {
                        if line_start <= line_end {
                            let mut line = line_start;
                            while line < line_end
                                invariant
                                    lines_before(block.segments@, block.segments@.len() as int)
                                        <= usize::MAX,
                                    line <= line_end,
                                    origins_in_range(out@, *block),
                                decreases line_end - line,
                            {
                                out.push(origin_of_output_line(block, line));
                                line += 1;
                            }
                            out.push(origin_of_output_line(block, line_end));
                        }
                    },
                    _ => {},
                }
            },
            None => {},
        }
        i += 1;
    }
    out
}

/// The spanned messages of one diagnostic node: one for each of its spans
/// that lands in the synthesized source.
fn spanned_messages_of(diag: &JsonValue) -> (r: Vec<SpannedMessage>)
{
    let mut out: Vec<SpannedMessage> = Vec::new();
    let spans = json_field(diag, "spans");
    if !json_is_array(spans) {
        return out;
    }
    let n = json_len(spans);
    let mut i: usize = 0;
    while i < n
        decreases n - i,
    {
        let span = json_at(spans, i);
        match span_in_local_source(span) {
            Some(local) => {
                let ls = json_as_usize(json_field(local, "line_start"));
                let le = json_as_usize(json_field(local, "line_end"));
                let cs = json_as_usize(json_field(local, "column_start"));
                let ce = json_as_usize(json_field(local, "column_end"));
                match (ls, le, cs, ce) {
                    (Some(start_line), Some(end_line), Some(start_column), Some(end_column)) => {
                        let label = match json_as_str(json_field(span, "label")) {
                            Some(l) => l,
                            None => String::new(),
                        };
                        let is_primary = match json_as_bool(json_field(span, "is_primary")) {
                            Some(b) => b,
                            None => false,
                        };
                        out.push(
                            SpannedMessage {
                                span: Some(
                                    Span { start_line, start_column, end_line, end_column },
                                ),
                                label,
                                is_primary,
                                lines: Vec::new(),
                            },
                        );
                    },
                    _ => {},
                }
            },
            None => {},
        }
        i += 1;
    }
    out
}

/// A message that only summarizes other errors and carries no content of
/// its own.
pub open spec fn spec_is_summary(m: Seq<char>) -> bool {
    ||| crate::text::seq_starts_with(m, "aborting due to"@)
    ||| crate::text::seq_starts_with(m, "For more information about"@)
    ||| crate::text::seq_starts_with(m, "Some errors occurred"@)
}

/// The compiler's own diagnostic object; the build tool may wrap it one
/// level deeper, under a `message` member.
pub open spec fn spec_unwrap_envelope(doc: JsonValue) -> JsonValue {
    if spec_json_is_object(spec_json_field(doc, "message"@)) {
        spec_json_field(doc, "message"@)
    } else {
        doc
    }
}

/// Whether a decoded diagnostic carries a reportable message: one is
/// present and does not merely summarize other errors.
pub open spec fn spec_reportable(node: JsonValue) -> bool {
    match spec_json_text(spec_json_field(node, "message"@)) {
        Some(m) => !spec_is_summary(m),
        None => false,
    }
}

/// The error's message, code and level are those of the diagnostic node
/// `n`: the message scrubbed of variable-store references, the code's
/// short identifier when present, the level defaulting to empty.
pub open spec fn node_report_matches(e: CompilationError, n: JsonValue) -> bool {
    &&& (match spec_json_text(spec_json_field(n, "message"@)) {
        Some(m) => e.message@ == spec_replace(m, "`evcxr_variable_store`"@, "<end of input>"@),
        None => false,
    })
    &&& (match spec_json_text(spec_json_field(spec_json_field(n, "code"@), "code"@)) {
        Some(c) => (e.code matches Some(ec) && ec@ == c),
        None => e.code is None,
    })
    &&& e.level@ == (match spec_json_text(spec_json_field(n, "level"@)) {
        Some(l) => l,
        None => Seq::<char>::empty(),
    })
}

/// Messages that only summarize other errors are dropped from the report.
pub fn is_summary_message(message: &str) -> (r: bool)
    ensures
        r == spec_is_summary(message@),
{
    str_starts_with(message, "aborting due to") || str_starts_with(
        message,
        "For more information about",
    ) || str_starts_with(message, "Some errors occurred")
}

/// Decode one line of the compiler's JSON diagnostics into a compilation
/// error attributed to the compiled block's segments. The decision is the
/// diagnostic's own: a line that decodes to an object carrying a
/// non-summary message yields an error, and nothing else does. The build
/// tool's envelope around the compiler's object is unwrapped; when the
/// diagnostic itself has no user-code origin but a child has one, the
/// child's message, code and level replace the parent's.
pub fn parse_compiler_message(line: &str, block: &CodeBlock) -> (r: Option<CompilationError>)
    requires
        lines_before(block.segments@, block.segments@.len() as int) <= usize::MAX,
    ensures
        r matches Some(e) ==> origins_in_range(e.code_origins@, *block),
        !spec_json_ok(line@) ==> r is None,
        spec_json_ok(line@) ==> ((r is Some) <==> spec_reportable(
            spec_unwrap_envelope(spec_json_doc(line@)),
        )),
        r matches Some(e) ==> (node_report_matches(e, spec_unwrap_envelope(spec_json_doc(line@)))
            || exists|i: int|
            node_report_matches(
                e,
                spec_json_member(
                    spec_json_field(spec_unwrap_envelope(spec_json_doc(line@)), "children"@),
                    i,
                ),
            )),
{
    let parsed = json_parse(line);
    let doc = match parsed {
        Some(d) => d,
        None => {
            return None;
        },
    };
    // The build tool wraps the compiler's object one level deeper; unwrap.
    let diag = if json_is_object(json_field(&doc, "message")) {
        json_field(&doc, "message")
    } else {
        &doc
    };
    proof {
        assert(*diag == spec_unwrap_envelope(spec_json_doc(line@)));
    }
    // The parent's message decides whether anything is reported at all.
    let parent_message = match json_as_str(json_field(diag, "message")) {
        Some(m) => m,
        None => {
            return None;
        },
    };
    if is_summary_message(parent_message.as_str()) {
        return None;
    }
    let mut origins = origins_of_spans(diag, block);
    let mut chosen_child: Option<usize> = None;
    let children = json_field(diag, "children");
    if json_is_array(children) {
        let n = json_len(children);
        let mut i: usize = 0;
        while i < n
            invariant
                lines_before(block.segments@, block.segments@.len() as int) <= usize::MAX,
                origins_in_range(origins@, *block),
            decreases n - i,
        {
            let child = json_at(children, i);
            let mut child_origins = origins_of_spans(child, block);
            if prefer_child(origins_any_user(&origins), origins_any_user(&child_origins)) {
                origins = child_origins;
                chosen_child = Some(i);
                i = n;
            } else {
                origins.append(&mut child_origins);
                i += 1;
            }
        }
    }
    let node = match chosen_child {
        Some(i) => json_at(children, i),
        None => diag,
    };
    // The report's fields come from the chosen node; when a chosen child
    // carries no message of its own, the parent's fields stand.
    let field_node = match json_as_str(json_field(node, "message")) {
        Some(_) => node,
        None => diag,
    };
    let raw_message = match json_as_str(json_field(field_node, "message")) {
        Some(m) => m,
        None => parent_message,
    };
    let message = sanitize_message(raw_message.as_str());
    let code = match json_as_str(json_field(json_field(field_node, "code"), "code")) {
        Some(c) => Some(c),
        None => None,
    };
    let explanation = json_as_str(json_field(json_field(field_node, "code"), "explanation"));
    let rendered = json_as_str(json_field(diag, "rendered"));
    let level = match json_as_str(json_field(field_node, "level")) {
        Some(l) => l,
        None => String::new(),
    };
    let spanned_messages = spanned_messages_of(node);
    let mut spanned_helps: Vec<SpannedMessage> = Vec::new();
    if json_is_array(children) {
        let n = json_len(children);
        let mut i: usize = 0;
        while i < n
            decreases n - i,
        {
            let mut child_spans = spanned_messages_of(json_at(children, i));
            spanned_helps.append(&mut child_spans);
            i += 1;
        }
    }
    Some(
        CompilationError {
            message,
            code,
            explanation,
            level,
            code_origins: origins,
            spanned_messages,
            spanned_helps,
            rendered,
        },
    )
}

} // verus!

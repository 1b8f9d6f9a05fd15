//! The worker subprocess's line protocol. The core sends one instruction to
//! load and run a compiled library; the worker sends back plain output
//! lines, sentinel markers, rich-content blocks and input requests. Each
//! received line is classified here, and a tracker folds the stream into the
//! outcome of one execution.

use vstd::prelude::*;

use crate::outputs::EvalOutputs;
use crate::text::seq_starts_with;
use crate::text::spec_decimal;
use crate::text::str_eq;
use crate::text::str_starts_with;
use crate::text::u64_to_string;

verus! {

/// One line received from the worker, classified.
#[derive(Debug)]
pub enum WorkerLine {
    /// The entry function returned; the execution is over.
    ExecutionComplete,
    /// The entry function panicked.
    PanicNotification,
    /// A `?` operator in user code took an early return.
    ErrorOccurred,
    /// A persisted variable's stored type no longer matches; its name
    /// follows the marker.
    VariableChangedType(String),
    /// Start of a rich-content block with this MIME type.
    BeginContent(String),
    /// End of a rich-content block.
    EndContent,
    /// The running code asks for a line of input.
    InputRequest { prompt: String, is_password: bool },
    /// Anything else: plain captured output, passed through verbatim.
    Plain,
}

/// The classification of `l`, as a predicate over the result. Sentinels are
/// matched whole; the variable, content and input markers by prefix, in
/// that order of priority.
pub open spec fn line_class_ok(l: Seq<char>, r: WorkerLine) -> bool {
    if l == "EVCXR_EXECUTION_COMPLETE"@ {
        r is ExecutionComplete
    } else if l == "EVCXR_PANIC_NOTIFICATION"@ {
        r is PanicNotification
    } else if l == "EVCXR_ERROR_OCCURRED"@ {
        r is ErrorOccurred
    } else if seq_starts_with(l, "EVCXR_VARIABLE_CHANGED_TYPE:"@) {
        r matches WorkerLine::VariableChangedType(name) && name@ == l.skip(
            "EVCXR_VARIABLE_CHANGED_TYPE:"@.len() as int,
        )
    } else if seq_starts_with(l, "EVCXR_BEGIN_CONTENT "@) {
        r matches WorkerLine::BeginContent(mime) && mime@ == mime_of(l)
    } else if l == "EVCXR_END_CONTENT"@ {
        r is EndContent
    } else if seq_starts_with(l, "EVCXR_REQUEST_INPUT"@) {
        r matches WorkerLine::InputRequest { prompt, is_password } && prompt@ == prompt_of(l)
            && is_password == seq_starts_with(l, "EVCXR_REQUEST_INPUT_PASSWORD"@)
    } else {
        r is Plain
    }
}

/// The MIME type of a begin-content marker: the characters after the space,
/// up to the next space or the end of the line.
pub open spec fn mime_of(l: Seq<char>) -> Seq<char> {
    let start = "EVCXR_BEGIN_CONTENT "@.len() as int;
    l.subrange(start, token_end_from(l, start))
}

/// First index at or after `i` holding a space, or the length of `l`.
pub open spec fn token_end_from(l: Seq<char>, i: int) -> int
    decreases l.len() - i,
{
    if 0 <= i < l.len() && l[i] != ' ' {
        token_end_from(l, i + 1)
    } else {
        i
    }
}

/// The prompt of an input-request line: the characters between the first
/// colon and the next colon or the end of the line.
pub open spec fn prompt_of(l: Seq<char>) -> Seq<char> {
    let start = colon_end_from(l, 0);
    if start >= l.len() {
        Seq::empty()
    } else {
        l.subrange(start + 1, colon_end_from(l, start + 1))
    }
}

/// First index at or after `i` holding a colon, or the length of `l`.
pub open spec fn colon_end_from(l: Seq<char>, i: int) -> int
    decreases l.len() - i,
{
    if 0 <= i < l.len() && l[i] != ':' {
        colon_end_from(l, i + 1)
    } else {
        i
    }
}

/// First index at or after `from` holding `c`, or the length of `s`.
fn find_char_from(s: &str, from: usize, c: char) -> (r: usize)
    requires
        from <= s@.len(),
    ensures
        from <= r <= s@.len(),
        forall|j: int| from <= j < r ==> s@[j] != c,
        r < s@.len() ==> s@[r as int] == c,
{
    let len = s.unicode_len();
    let mut i: usize = from;
    while i < len && s.get_char(i) != c
        invariant
            from <= i <= len,
            len == s@.len(),
            forall|j: int| from <= j < i ==> s@[j] != c,
        decreases len - i,
    {
        i += 1;
    }
    i
}

proof fn lemma_token_end_agrees(l: Seq<char>, from: int, r: int)
    requires
        0 <= from <= r <= l.len(),
        forall|j: int| from <= j < r ==> l[j] != ' ',
        r < l.len() ==> l[r] == ' ',
    ensures
        token_end_from(l, from) == r,
    decreases r - from,
{
    if from < r {
        lemma_token_end_agrees(l, from + 1, r);
    }
}

proof fn lemma_colon_end_agrees(l: Seq<char>, from: int, r: int)
    requires
        0 <= from <= r <= l.len(),
        forall|j: int| from <= j < r ==> l[j] != ':',
        r < l.len() ==> l[r] == ':',
    ensures
        colon_end_from(l, from) == r,
    decreases r - from,
{
    if from < r {
        lemma_colon_end_agrees(l, from + 1, r);
    }
}

/// Classify one line received from the worker.
pub fn classify_worker_line(line: &str) -> (r: WorkerLine)
    ensures
        line_class_ok(line@, r),
{
    if str_eq(line, "EVCXR_EXECUTION_COMPLETE") {
        return WorkerLine::ExecutionComplete;
    }
    if str_eq(line, "EVCXR_PANIC_NOTIFICATION") {
        return WorkerLine::PanicNotification;
    }
    if str_eq(line, "EVCXR_ERROR_OCCURRED") {
        return WorkerLine::ErrorOccurred;
    }
    let len = line.unicode_len();
    if str_starts_with(line, "EVCXR_VARIABLE_CHANGED_TYPE:") {
        let plen = count_chars("EVCXR_VARIABLE_CHANGED_TYPE:");
        let name = line.substring_char(plen, len).to_owned();
        proof {
            assert(name@ =~= line@.skip("EVCXR_VARIABLE_CHANGED_TYPE:"@.len() as int));
        }
        return WorkerLine::VariableChangedType(name);
    }
    if str_starts_with(line, "EVCXR_BEGIN_CONTENT ") {
        let start = count_chars("EVCXR_BEGIN_CONTENT ");
        let stop = find_char_from(line, start, ' ');
        proof {
            lemma_token_end_agrees(line@, start as int, stop as int);
        }
        let mime = line.substring_char(start, stop).to_owned();
        return WorkerLine::BeginContent(mime);
    }
    if str_eq(line, "EVCXR_END_CONTENT") {
        return WorkerLine::EndContent;
    }
    if str_starts_with(line, "EVCXR_REQUEST_INPUT") {
        let is_password = str_starts_with(line, "EVCXR_REQUEST_INPUT_PASSWORD");
        let colon = find_char_from(line, 0, ':');
        proof {
            lemma_colon_end_agrees(line@, 0, colon as int);
        }
        let prompt = if colon >= len {
            String::new()
        } else {
            let stop = find_char_from(line, colon + 1, ':');
            proof {
                lemma_colon_end_agrees(line@, colon as int + 1, stop as int);
            }
            line.substring_char(colon + 1, stop).to_owned()
        };
        return WorkerLine::InputRequest { prompt, is_password };
    }
    WorkerLine::Plain
}

/// The number of characters of `s`.
fn count_chars(s: &str) -> (n: usize)
    ensures
        n == s@.len(),
{
    s.unicode_len()
}

/// A line the protocol gives meaning to: one of the sentinels or marker
/// prefixes. Anything else passes through as plain output.
pub open spec fn spec_is_marker(l: Seq<char>) -> bool {
    ||| l == "EVCXR_EXECUTION_COMPLETE"@
    ||| l == "EVCXR_PANIC_NOTIFICATION"@
    ||| l == "EVCXR_ERROR_OCCURRED"@
    ||| seq_starts_with(l, "EVCXR_VARIABLE_CHANGED_TYPE:"@)
    ||| seq_starts_with(l, "EVCXR_BEGIN_CONTENT "@)
    ||| l == "EVCXR_END_CONTENT"@
    ||| seq_starts_with(l, "EVCXR_REQUEST_INPUT"@)
}

/// A line that ends a rich-content block: its end marker, a panic aborting
/// it early, or the completion of the whole execution.
pub open spec fn spec_ends_block(l: Seq<char>) -> bool {
    ||| l == "EVCXR_EXECUTION_COMPLETE"@
    ||| l == "EVCXR_END_CONTENT"@
    ||| l == "EVCXR_PANIC_NOTIFICATION"@
}

/// The instruction that tells the worker to load a library and invoke an
/// entry symbol in it.
pub fn load_and_run_command(so_path: &str, fn_name: &str) -> (r: String)
    ensures
        r@ == "LOAD_AND_RUN "@ + so_path@ + " "@ + fn_name@,
{
    let mut out = String::new();
    out.append("LOAD_AND_RUN ");
    out.append(so_path);
    out.append(" ");
    out.append(fn_name);
    proof {
        assert(Seq::<char>::empty() + "LOAD_AND_RUN "@ + so_path@ + " "@ + fn_name@ =~= "LOAD_AND_RUN "@ + so_path@ + " "@ + fn_name@);
    }
    out
}

/// The entry symbol of build number `n`.
pub fn user_fn_name(build_num: u64) -> (r: String)
    ensures
        r@ == "run_user_code_"@ + spec_decimal(build_num as int),
{
    let mut out = String::new();
    out.append("run_user_code_");
    let digits = u64_to_string(build_num);
    out.append(digits.as_str());
    proof {
        assert(Seq::<char>::empty() + "run_user_code_"@ + spec_decimal(build_num as int) =~= "run_user_code_"@ + spec_decimal(build_num as int));
    }
    out
}

/// What the caller's receive loop must do after handing the tracker a line.
#[derive(Debug)]
pub enum LineAction {
    /// Keep receiving.
    Continue,
    /// The execution is over; stop receiving.
    Done,
    /// Forward this plain output line to the caller's output stream, then
    /// keep receiving.
    Forward,
    /// Obtain a line of input (hiding the echo when `is_password`), send it
    /// to the worker, then keep receiving.
    NeedInput { prompt: String, is_password: bool },
}

/// Folds the worker's line stream into the outcome of one execution: the
/// captured rich content, whether a panic or early error return occurred,
/// and which persisted variables the worker reported lost. Lines are
/// processed strictly in the order received; a rich-content block is atomic
/// except that a panic may abort it early.
#[derive(Debug)]
pub struct ExecutionTracker {
    pub outputs: EvalOutputs,
    pub got_panic: bool,
    pub error_occurred: bool,
    pub lost_variables: Vec<String>,
    /// Inside a rich-content block, collecting its lines.
    pub in_content: bool,
    /// The MIME type of the block being collected.
    pub current_mime: String,
    /// The lines collected so far, joined with newlines.
    pub current_content: String,
}

impl ExecutionTracker {
    pub open spec fn wf(&self) -> bool {
        self.outputs.wf()
    }

    pub fn new() -> (r: ExecutionTracker)
        ensures
            r.wf(),
            !r.got_panic,
            !r.error_occurred,
            r.lost_variables@.len() == 0,
            !r.in_content,
            r.outputs.content_by_mime_type@ == Map::<Seq<char>, Seq<char>>::empty(),
    {
        ExecutionTracker {
            outputs: EvalOutputs::new(),
            got_panic: false,
            error_occurred: false,
            lost_variables: Vec::new(),
            in_content: false,
            current_mime: String::new(),
            current_content: String::new(),
        }
    }

    /// Feed one received line through the tracker and learn what to do
    /// next. Sentinels update the outcome; between markers, unrecognized
    /// lines are forwarded verbatim; inside a content block they are
    /// collected, joined with newlines.
    pub fn process_line(&mut self, line: &str) -> (action: LineAction)
        requires
            old(self).wf(),
        ensures
            final(self).wf(),
            old(self).got_panic ==> final(self).got_panic,
            old(self).error_occurred ==> final(self).error_occurred,
            final(self).lost_variables@.len() >= old(self).lost_variables@.len(),
            (action is Done) <==> (line@ == "EVCXR_EXECUTION_COMPLETE"@),
            line@ == "EVCXR_EXECUTION_COMPLETE"@ ==> final(self).outputs
                == old(self).outputs && final(self).got_panic == old(self).got_panic,
            line@ == "EVCXR_PANIC_NOTIFICATION"@ ==> final(self).got_panic && !final(self).in_content,
            (!old(self).in_content && line@ == "EVCXR_ERROR_OCCURRED"@) ==> final(self).error_occurred,
            (!old(self).in_content && seq_starts_with(line@, "EVCXR_VARIABLE_CHANGED_TYPE:"@))
                ==> final(self).lost_variables@.len() == old(self).lost_variables@.len() + 1
                && final(self).lost_variables@.last()@ == line@.skip(
                "EVCXR_VARIABLE_CHANGED_TYPE:"@.len() as int,
            ),
            (!old(self).in_content && seq_starts_with(line@, "EVCXR_BEGIN_CONTENT "@)) ==> final(self).in_content && final(self).current_mime@ == mime_of(line@) && final(self).current_content@.len() == 0 && final(self).outputs == old(self).outputs,
            (!old(self).in_content && seq_starts_with(line@, "EVCXR_REQUEST_INPUT"@)) ==> *final(self) == *old(self) && (action matches LineAction::NeedInput { prompt, is_password }
                && prompt@ == prompt_of(line@) && is_password == seq_starts_with(
                line@,
                "EVCXR_REQUEST_INPUT_PASSWORD"@,
            )),
            (!old(self).in_content && !spec_is_marker(line@)) ==> *final(self) == *old(self)
                && action is Forward,
            (old(self).in_content && line@ == "EVCXR_END_CONTENT"@) ==> !final(self).in_content
                && final(self).outputs.content_by_mime_type@ == old(self).outputs.content_by_mime_type@.insert(
                old(self).current_mime@,
                old(self).current_content@,
            ),
            (old(self).in_content && line@ == "EVCXR_PANIC_NOTIFICATION"@) ==> !final(self).in_content && final(self).got_panic && final(self).outputs.content_by_mime_type@
                == old(self).outputs.content_by_mime_type@.insert(
                old(self).current_mime@,
                old(self).current_content@,
            ),
            (old(self).in_content && !spec_ends_block(line@)) ==> final(self).in_content && final(self).current_mime == old(self).current_mime && final(self).outputs == old(self).outputs
                && final(self).current_content@ == (if old(self).current_content@.len() == 0 {
                line@
            } else {
                old(self).current_content@ + seq!['\n'] + line@
            }),
    {
        proof {
            reveal_strlit("EVCXR_EXECUTION_COMPLETE");
            reveal_strlit("EVCXR_PANIC_NOTIFICATION");
            reveal_strlit("EVCXR_ERROR_OCCURRED");
            reveal_strlit("EVCXR_VARIABLE_CHANGED_TYPE:");
            reveal_strlit("EVCXR_BEGIN_CONTENT ");
            reveal_strlit("EVCXR_END_CONTENT");
            assert("EVCXR_EXECUTION_COMPLETE"@.len() == 24);
            assert("EVCXR_PANIC_NOTIFICATION"@.len() == 24);
            assert("EVCXR_ERROR_OCCURRED"@.len() == 20);
            assert("EVCXR_END_CONTENT"@.len() == 17);
            assert("EVCXR_VARIABLE_CHANGED_TYPE:"@.len() == 28);
            reveal_strlit("EVCXR_REQUEST_INPUT");
            reveal_strlit("EVCXR_REQUEST_INPUT_PASSWORD");
            assert("EVCXR_BEGIN_CONTENT "@.len() == 20);
            assert("EVCXR_REQUEST_INPUT"@.len() == 19);
            assert("EVCXR_REQUEST_INPUT_PASSWORD"@.len() == 28);
            assert("EVCXR_EXECUTION_COMPLETE"@[6] == 'E');
            assert("EVCXR_PANIC_NOTIFICATION"@[6] == 'P');
            assert("EVCXR_ERROR_OCCURRED"@[6] == 'E');
            assert("EVCXR_END_CONTENT"@[6] == 'E');
            assert("EVCXR_VARIABLE_CHANGED_TYPE:"@[6] == 'V');
            assert("EVCXR_BEGIN_CONTENT "@[6] == 'B');
            assert("EVCXR_REQUEST_INPUT"@[6] == 'R');
            assert("EVCXR_EXECUTION_COMPLETE"@ != "EVCXR_PANIC_NOTIFICATION"@);
            reveal_strlit("\n");
            assert("\n"@ =~= seq!['\n']);
        }
        let classified = classify_worker_line(line);
        if !self.in_content {
            match classified {
                WorkerLine::ExecutionComplete => LineAction::Done,
                WorkerLine::PanicNotification => {
                    self.got_panic = true;
                    LineAction::Continue
                },
                WorkerLine::ErrorOccurred => {
                    self.error_occurred = true;
                    LineAction::Continue
                },
                WorkerLine::VariableChangedType(name) => {
                    self.lost_variables.push(name);
                    LineAction::Continue
                },
                WorkerLine::BeginContent(mime) => {
                    self.in_content = true;
                    self.current_mime = mime;
                    self.current_content = String::new();
                    LineAction::Continue
                },
                WorkerLine::EndContent => LineAction::Continue,
                WorkerLine::InputRequest { prompt, is_password } => LineAction::NeedInput {
                    prompt,
                    is_password,
                },
                WorkerLine::Plain => LineAction::Forward,
            }
        } else {
            match classified {
                WorkerLine::ExecutionComplete => LineAction::Done,
                WorkerLine::EndContent => {
                    self.outputs.content_by_mime_type.insert(
                        self.current_mime.clone(),
                        self.current_content.clone(),
                    );
                    self.in_content = false;
                    LineAction::Continue
                },
                WorkerLine::PanicNotification => {
                    // A panic aborts the block early; what was collected is
                    // kept.
                    self.outputs.content_by_mime_type.insert(
                        self.current_mime.clone(),
                        self.current_content.clone(),
                    );
                    self.in_content = false;
                    self.got_panic = true;
                    LineAction::Continue
                },
                _ => {
                    if self.current_content.as_str().unicode_len() > 0 {
                        self.current_content.append("\n");
                    }
                    self.current_content.append(line);
                    LineAction::Continue
                },
            }
        }
    }
}

} // verus!

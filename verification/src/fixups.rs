//! The retry controller's decision table: which bounded state mutation, if
//! any, a compilation error allows. Decisions go by the diagnostic's short
//! code identifier and the provenance of the code it points at, never by its
//! free-text message — with one sanctioned exception for the experimental
//! `let` hint, where the code alone is too broad. Applying the table is a
//! function of the errors alone: hard failures are found first, before
//! anything is touched, so a failing submission mutates nothing; otherwise
//! the dropped variables, the flag flips and the fallback swaps follow
//! exactly from which pairings occur among the errors.

use vstd::prelude::*;

use crate::code_block::CodeBlock;
use crate::code_block::CodeKind;
use crate::code_block::Segment;
use crate::errors::CodeOrigin;
use crate::errors::CompilationError;
use crate::errors::Error;
use crate::errors::string_from;
use crate::state::ContextState;
use crate::text::spec_contains_sub;
use crate::text::str_contains;
use crate::text::str_eq;

verus! {

/// What the retry controller does about one diagnostic origin.
#[derive(Debug)]
pub enum FixupAction {
    /// Drop this variable from the working state and retry: its value was
    /// moved, or it is no longer in scope.
    DropVariable(String),
    /// Replace the generated segment at this compiled-block index with its
    /// fallback and retry.
    UseFallback(usize),
    /// Flip the session into async mode, registering the async runtime
    /// dependency if absent, and retry.
    EnableAsyncMode,
    /// Allow the broader `?`-handling wrapper and retry.
    AllowQuestionMark,
    /// Not retryable: the suggested type of this variable is private; the
    /// user must give an explicit type.
    FailPrivateType(String),
    /// Not retryable: this variable's type cannot be persisted; suggest
    /// boxing.
    FailNonPersistable(String),
    /// Not retryable: a `let` in an illegal position, most likely a missing
    /// semicolon; the intent is too ambiguous to fix automatically.
    FailMissingSemicolon,
    /// Nothing this controller can do for this origin.
    NoFix,
}

/// Does the error carry this diagnostic code?
pub open spec fn code_is(code: Option<String>, lit: Seq<char>) -> bool {
    match code {
        Some(c) => c@ == lit,
        None => false,
    }
}

/// The hint text that marks the experimental-`let` diagnostic.
pub open spec fn let_position_hint() -> Seq<char> {
    "`let` expressions in this position are experimental"@
}

/// The decision table. Moved or out-of-scope pack variables are dropped;
/// private or non-nameable types are hard failures; a fallback origin swaps
/// in its fallback; in user code, awaiting outside async flips async mode
/// once, an unsatisfied `?` conversion flips the permissive flag once, and
/// an experimental-`let` diagnostic becomes a missing-semicolon hint.
pub open spec fn spec_classify(
    origin: CodeOrigin,
    err: CompilationError,
    async_mode: bool,
    allow_question_mark: bool,
) -> FixupAction {
    match origin.kind {
        CodeKind::PackVariable { variable_name } => {
            if code_is(err.code, "E0382"@) || code_is(err.code, "E0425"@) {
                FixupAction::DropVariable(variable_name)
            } else if code_is(err.code, "E0603"@) {
                FixupAction::FailPrivateType(variable_name)
            } else if code_is(err.code, "E0562"@) || (err.code is None && err.code_origins@.len()
                == 1) {
                FixupAction::FailNonPersistable(variable_name)
            } else {
                FixupAction::NoFix
            }
        },
        CodeKind::WithFallback(_) => match origin.segment_index {
            Some(i) => FixupAction::UseFallback(i),
            None => FixupAction::NoFix,
        },
        CodeKind::OriginalUserCode(_) => spec_classify_user(err, async_mode, allow_question_mark),
        CodeKind::OtherUserCode => spec_classify_user(err, async_mode, allow_question_mark),
        _ => FixupAction::NoFix,
    }
}

/// The user-code rows of the decision table.
pub open spec fn spec_classify_user(
    err: CompilationError,
    async_mode: bool,
    allow_question_mark: bool,
) -> FixupAction {
    if code_is(err.code, "E0728"@) && !async_mode {
        FixupAction::EnableAsyncMode
    } else if code_is(err.code, "E0277"@) && !allow_question_mark {
        FixupAction::AllowQuestionMark
    } else if code_is(err.code, "E0658"@) && spec_contains_sub(err.message@, let_position_hint()) {
        FixupAction::FailMissingSemicolon
    } else {
        FixupAction::NoFix
    }
}

/// Does the error carry this diagnostic code?
fn code_matches(code: &Option<String>, lit: &str) -> (r: bool)
    ensures
        r == code_is(*code, lit@),
{
    match code {
        Some(c) => str_eq(c.as_str(), lit),
        None => false,
    }
}

/// Classify one origin of one error against the decision table.
pub fn classify_origin(
    origin: &CodeOrigin,
    err: &CompilationError,
    async_mode: bool,
    allow_question_mark: bool,
) -> (r: FixupAction)
    ensures
        r == spec_classify(*origin, *err, async_mode, allow_question_mark),
{
    match &origin.kind {
        CodeKind::PackVariable { variable_name } => {
            if code_matches(&err.code, "E0382") || code_matches(&err.code, "E0425") {
                FixupAction::DropVariable(variable_name.clone())
            } else if code_matches(&err.code, "E0603") {
                FixupAction::FailPrivateType(variable_name.clone())
            } else if code_matches(&err.code, "E0562") || (err.code.is_none()
                && err.code_origins.len() == 1) {
                FixupAction::FailNonPersistable(variable_name.clone())
            } else {
                FixupAction::NoFix
            }
        },
        CodeKind::WithFallback(_) => match origin.segment_index {
            Some(i) => FixupAction::UseFallback(i),
            None => FixupAction::NoFix,
        },
        CodeKind::OriginalUserCode(_) | CodeKind::OtherUserCode => {
            if code_matches(&err.code, "E0728") && !async_mode {
                FixupAction::EnableAsyncMode
            } else if code_matches(&err.code, "E0277") && !allow_question_mark {
                FixupAction::AllowQuestionMark
            } else if code_matches(&err.code, "E0658") && str_contains(
                err.message.as_str(),
                "`let` expressions in this position are experimental",
            ) {
                FixupAction::FailMissingSemicolon
            } else {
                FixupAction::NoFix
            }
        },
        _ => FixupAction::NoFix,
    }
}

/// Is the pair of this error and this origin one the table answers with a
/// hard failure? None of the hard rows reads the session flags, so this is
/// a fact about the error alone.
pub open spec fn spec_hard_failure(origin: CodeOrigin, err: CompilationError) -> bool {
    match spec_classify(origin, err, true, true) {
        FixupAction::FailPrivateType(_) => true,
        FixupAction::FailNonPersistable(_) => true,
        FixupAction::FailMissingSemicolon => true,
        _ => false,
    }
}

/// Does any pair among the errors yield a hard failure?
pub open spec fn has_hard_failure(errors: Seq<CompilationError>) -> bool {
    exists|i: int, j: int|
        0 <= i < errors.len() && 0 <= j < errors[i].code_origins@.len() && spec_hard_failure(
            #[trigger] errors[i].code_origins@[j],
            errors[i],
        )
}

/// The message a hard failure is reported with.
pub open spec fn spec_hard_message(action: FixupAction) -> Seq<char> {
    match action {
        FixupAction::FailPrivateType(name) => "Failed to determine type of variable `"@ + name@
            + "`. The type the compiler suggested is private. Sometimes adding an extern crate will help the compiler suggest the correct public type name, or you can give an explicit type."@,
        FixupAction::FailNonPersistable(name) => "The variable `"@ + name@
            + "` has a type that cannot be persisted. You might be able to fix this by creating a `Box<dyn YourType>`, or you can prevent persistence by wrapping your code in braces."@,
        _ => "Looks like you're missing a semicolon"@,
    }
}

/// Does the table drop a variable for this pair?
pub open spec fn is_drop_pair(origin: CodeOrigin, err: CompilationError) -> bool {
    origin.kind is PackVariable && (code_is(err.code, "E0382"@) || code_is(err.code, "E0425"@))
}

/// Does this pair drop the variable named `n`?
pub open spec fn drops_name(origin: CodeOrigin, err: CompilationError, n: Seq<char>) -> bool {
    &&& is_drop_pair(origin, err)
    &&& match origin.kind {
        CodeKind::PackVariable { variable_name } => variable_name@ == n,
        _ => false,
    }
}

/// Does this pair ask for the fallback of user-code segment `k`, with
/// `prelude_len` generated segments standing ahead of the user code in the
/// compiled block?
pub open spec fn asks_fallback_at(origin: CodeOrigin, prelude_len: int, k: int) -> bool {
    &&& origin.kind is WithFallback
    &&& match origin.segment_index {
        Some(si) => si as int - prelude_len == k,
        None => false,
    }
}

/// The names of every variable some pair drops.
pub open spec fn spec_dropped(errors: Seq<CompilationError>) -> Set<Seq<char>> {
    Set::new(
        |n: Seq<char>|
            exists|i: int, j: int|
                0 <= i < errors.len() && 0 <= j < errors[i].code_origins@.len() && drops_name(
                    #[trigger] errors[i].code_origins@[j],
                    errors[i],
                    n,
                ),
    )
}

/// Does any pair drop a variable?
pub open spec fn has_drop_pair(errors: Seq<CompilationError>) -> bool {
    exists|i: int, j: int|
        0 <= i < errors.len() && 0 <= j < errors[i].code_origins@.len() && is_drop_pair(
            #[trigger] errors[i].code_origins@[j],
            errors[i],
        )
}

/// An await outside an async function, in user code.
pub open spec fn is_async_pair(origin: CodeOrigin, err: CompilationError) -> bool {
    (origin.kind is OriginalUserCode || origin.kind is OtherUserCode) && code_is(
        err.code,
        "E0728"@,
    )
}

pub open spec fn wants_async(errors: Seq<CompilationError>) -> bool {
    exists|i: int, j: int|
        0 <= i < errors.len() && 0 <= j < errors[i].code_origins@.len() && is_async_pair(
            #[trigger] errors[i].code_origins@[j],
            errors[i],
        )
}

/// An unsatisfied `?` conversion, in user code.
pub open spec fn is_question_mark_pair(origin: CodeOrigin, err: CompilationError) -> bool {
    (origin.kind is OriginalUserCode || origin.kind is OtherUserCode) && code_is(
        err.code,
        "E0277"@,
    )
}

pub open spec fn wants_question_mark(errors: Seq<CompilationError>) -> bool {
    exists|i: int, j: int|
        0 <= i < errors.len() && 0 <= j < errors[i].code_origins@.len() && is_question_mark_pair(
            #[trigger] errors[i].code_origins@[j],
            errors[i],
        )
}

/// The user-code segment indexes whose fallback some pair asks to swap in.
/// The origin records the compiled-block index; `prelude_len` segments stood
/// ahead of the user's code there.
pub open spec fn fallback_indexes(errors: Seq<CompilationError>, prelude_len: int) -> Set<int> {
    Set::new(
        |k: int|
            exists|i: int, j: int|
                0 <= i < errors.len() && 0 <= j < errors[i].code_origins@.len()
                    && asks_fallback_at(#[trigger] errors[i].code_origins@[j], prelude_len, k),
    )
}

/// The segments with every asked-for fallback swapped in: a segment at a
/// listed index whose kind carries a fallback is replaced by the fallback's
/// segments; everything else stays.
pub open spec fn spec_apply_fallbacks(segs: Seq<Segment>, idx: Set<int>) -> Seq<Segment>
    decreases segs.len(),
{
    if segs.len() == 0 {
        segs
    } else {
        let front = spec_apply_fallbacks(segs.drop_last(), idx);
        match segs.last().kind {
            CodeKind::WithFallback(fb) => if idx.contains(segs.len() - 1) {
                front + fb.segments@
            } else {
                front.push(segs.last())
            },
            _ => front.push(segs.last()),
        }
    }
}

/// Does any listed index hit a segment that actually carries a fallback?
pub open spec fn any_applicable_fallback(segs: Seq<Segment>, idx: Set<int>) -> bool {
    exists|k: int| 0 <= k < segs.len() && idx.contains(k) && (#[trigger] segs[k].kind) is WithFallback
}

/// Whether applying the table changes anything: some pair drops a variable,
/// flips a flag that was off, or swaps in a fallback that is there to swap.
pub open spec fn spec_fixed(
    errors: Seq<CompilationError>,
    segs: Seq<Segment>,
    prelude_len: int,
    async_mode: bool,
    allow_question_mark: bool,
) -> bool {
    ||| has_drop_pair(errors)
    ||| (wants_async(errors) && !async_mode)
    ||| (wants_question_mark(errors) && !allow_question_mark)
    ||| any_applicable_fallback(segs, fallback_indexes(errors, prelude_len))
}

/// The dependency map after the async fixup: the async runtime is
/// registered when async mode was just enabled and it was absent.
pub open spec fn spec_deps_after(
    deps: Map<Seq<char>, Seq<char>>,
    async_before: bool,
    errors: Seq<CompilationError>,
) -> Map<Seq<char>, Seq<char>> {
    if !async_before && wants_async(errors) && !deps.contains_key("tokio"@) {
        deps.insert("tokio"@, "\"1\""@)
    } else {
        deps
    }
}

/// Find the first pair, in error order and origin order within an error,
/// that the table answers with a hard failure.
fn find_hard_failure(errors: &Vec<CompilationError>) -> (r: Option<(usize, usize)>)
    ensures
        (r is Some) <==> has_hard_failure(errors@),
        r matches Some(p) ==> {
            &&& (p.0 as int) < errors@.len()
            &&& (p.1 as int) < errors@[p.0 as int].code_origins@.len()
            &&& spec_hard_failure(errors@[p.0 as int].code_origins@[p.1 as int], errors@[p.0 as int])
            &&& forall|a: int, b: int|
                0 <= a < errors@.len() && 0 <= b < errors@[a].code_origins@.len() && (a < p.0 as int
                    || (a == p.0 as int && b < p.1 as int)) ==> !spec_hard_failure(
                    #[trigger] errors@[a].code_origins@[b],
                    errors@[a],
                )
        },
{
    let n = errors.len();
    let mut i: usize = 0;
    while i < n
        invariant
            n == errors@.len(),
            i <= n,
            forall|a: int, b: int|
                0 <= a < i && 0 <= b < errors@[a].code_origins@.len() ==> !spec_hard_failure(
                    #[trigger] errors@[a].code_origins@[b],
                    errors@[a],
                ),
        decreases n - i,
    {
        let err = &errors[i];
        let m = err.code_origins.len();
        let mut j: usize = 0;
        while j < m
            invariant
                n == errors@.len(),
                i < n,
                err == &errors@[i as int],
                m == err.code_origins@.len(),
                j <= m,
                forall|a: int, b: int|
                    0 <= a < i && 0 <= b < errors@[a].code_origins@.len() ==> !spec_hard_failure(
                        #[trigger] errors@[a].code_origins@[b],
                        errors@[a],
                    ),
                forall|b: int|
                    0 <= b < j ==> !spec_hard_failure(
                        #[trigger] errors@[i as int].code_origins@[b],
                        errors@[i as int],
                    ),
            decreases m - j,
        {
            let action = classify_origin(&err.code_origins[j], err, true, true);
            let hard = matches!(
                action,
                FixupAction::FailPrivateType(_) | FixupAction::FailNonPersistable(_)
                    | FixupAction::FailMissingSemicolon
            );
            if hard {
                return Some((i, j));
            }
            j += 1;
        }
        i += 1;
    }
    None
}

/// Build the error a hard failure is reported with.
fn hard_failure_error(action: FixupAction) -> (r: Error)
    requires
        action is FailPrivateType || action is FailNonPersistable || action
            is FailMissingSemicolon,
    ensures
        r matches Error::Message(m) && m@ == spec_hard_message(action),
{
    match action {
        FixupAction::FailPrivateType(name) => {
            let mut msg = string_from("Failed to determine type of variable `");
            msg.append(name.as_str());
            msg.append(
                "`. The type the compiler suggested is private. Sometimes adding an extern crate will help the compiler suggest the correct public type name, or you can give an explicit type.",
            );
            proof {
                assert(msg@ =~= spec_hard_message(FixupAction::FailPrivateType(name)));
            }
            Error::Message(msg)
        },
        FixupAction::FailNonPersistable(name) => {
            let mut msg = string_from("The variable `");
            msg.append(name.as_str());
            msg.append(
                "` has a type that cannot be persisted. You might be able to fix this by creating a `Box<dyn YourType>`, or you can prevent persistence by wrapping your code in braces.",
            );
            proof {
                assert(msg@ =~= spec_hard_message(FixupAction::FailNonPersistable(name)));
            }
            Error::Message(msg)
        },
        _ => Error::Message(string_from("Looks like you're missing a semicolon")),
    }
}

/// Is any pair among the errors a drop pair?
fn any_drop_pair(errors: &Vec<CompilationError>) -> (r: bool)
    ensures
        r == has_drop_pair(errors@),
{
    let n = errors.len();
    let mut i: usize = 0;
    while i < n
        invariant
            n == errors@.len(),
            i <= n,
            forall|a: int, b: int|
                0 <= a < i && 0 <= b < errors@[a].code_origins@.len() ==> !is_drop_pair(
                    #[trigger] errors@[a].code_origins@[b],
                    errors@[a],
                ),
        decreases n - i,
    {
        let err = &errors[i];
        let m = err.code_origins.len();
        let mut j: usize = 0;
        while j < m
            invariant
                n == errors@.len(),
                i < n,
                err == &errors@[i as int],
                m == err.code_origins@.len(),
                j <= m,
                forall|a: int, b: int|
                    0 <= a < i && 0 <= b < errors@[a].code_origins@.len() ==> !is_drop_pair(
                        #[trigger] errors@[a].code_origins@[b],
                        errors@[a],
                    ),
                forall|b: int|
                    0 <= b < j ==> !is_drop_pair(
                        #[trigger] errors@[i as int].code_origins@[b],
                        errors@[i as int],
                    ),
            decreases m - j,
        {
            let is_pack = matches!(err.code_origins[j].kind, CodeKind::PackVariable { .. });
            if is_pack && (code_matches(&err.code, "E0382") || code_matches(&err.code, "E0425")) {
                return true;
            }
            j += 1;
        }
        i += 1;
    }
    false
}

/// Is any pair among the errors an async pair (or a question-mark pair,
/// when `question_mark` is set)?
fn any_user_code_pair(errors: &Vec<CompilationError>, question_mark: bool) -> (r: bool)
    ensures
        !question_mark ==> r == wants_async(errors@),
        question_mark ==> r == wants_question_mark(errors@),
{
    let n = errors.len();
    let mut i: usize = 0;
    while i < n
        invariant
            n == errors@.len(),
            i <= n,
            !question_mark ==> forall|a: int, b: int|
                0 <= a < i && 0 <= b < errors@[a].code_origins@.len() ==> !is_async_pair(
                    #[trigger] errors@[a].code_origins@[b],
                    errors@[a],
                ),
            question_mark ==> forall|a: int, b: int|
                0 <= a < i && 0 <= b < errors@[a].code_origins@.len() ==> !is_question_mark_pair(
                    #[trigger] errors@[a].code_origins@[b],
                    errors@[a],
                ),
        decreases n - i,
    {
        let err = &errors[i];
        let m = err.code_origins.len();
        let mut j: usize = 0;
        while j < m
            invariant
                n == errors@.len(),
                i < n,
                err == &errors@[i as int],
                m == err.code_origins@.len(),
                j <= m,
                !question_mark ==> forall|a: int, b: int|
                    0 <= a < i && 0 <= b < errors@[a].code_origins@.len() ==> !is_async_pair(
                        #[trigger] errors@[a].code_origins@[b],
                        errors@[a],
                    ),
                question_mark ==> forall|a: int, b: int|
                    0 <= a < i && 0 <= b < errors@[a].code_origins@.len()
                        ==> !is_question_mark_pair(
                        #[trigger] errors@[a].code_origins@[b],
                        errors@[a],
                    ),
                !question_mark ==> forall|b: int|
                    0 <= b < j ==> !is_async_pair(
                        #[trigger] errors@[i as int].code_origins@[b],
                        errors@[i as int],
                    ),
                question_mark ==> forall|b: int|
                    0 <= b < j ==> !is_question_mark_pair(
                        #[trigger] errors@[i as int].code_origins@[b],
                        errors@[i as int],
                    ),
            decreases m - j,
        {
            let is_user = matches!(
                err.code_origins[j].kind,
                CodeKind::OriginalUserCode(_) | CodeKind::OtherUserCode
            );
            let code_hit = if question_mark {
                code_matches(&err.code, "E0277")
            } else {
                code_matches(&err.code, "E0728")
            };
            if is_user && code_hit {
                return true;
            }
            j += 1;
        }
        i += 1;
    }
    false
}

/// Is `k` the user-code index of some asked-for fallback?
fn is_fallback_index(errors: &Vec<CompilationError>, prelude_len: usize, k: usize) -> (r: bool)
    ensures
        r == fallback_indexes(errors@, prelude_len as int).contains(k as int),
{
    let n = errors.len();
    let mut i: usize = 0;
    while i < n
        invariant
            n == errors@.len(),
            i <= n,
            forall|a: int, b: int|
                0 <= a < i && 0 <= b < errors@[a].code_origins@.len() ==> !asks_fallback_at(
                    #[trigger] errors@[a].code_origins@[b],
                    prelude_len as int,
                    k as int,
                ),
        decreases n - i,
    {
        let err = &errors[i];
        let m = err.code_origins.len();
        let mut j: usize = 0;
        while j < m
            invariant
                n == errors@.len(),
                i < n,
                err == &errors@[i as int],
                m == err.code_origins@.len(),
                j <= m,
                forall|a: int, b: int|
                    0 <= a < i && 0 <= b < errors@[a].code_origins@.len() ==> !asks_fallback_at(
                        #[trigger] errors@[a].code_origins@[b],
                        prelude_len as int,
                        k as int,
                    ),
                forall|b: int|
                    0 <= b < j ==> !asks_fallback_at(
                        #[trigger] errors@[i as int].code_origins@[b],
                        prelude_len as int,
                        k as int,
                    ),
            decreases m - j,
        {
            let origin = &err.code_origins[j];
            let is_fb = matches!(origin.kind, CodeKind::WithFallback(_));
            if is_fb {
                match origin.segment_index {
                    Some(si) => {
                        if si >= prelude_len && si - prelude_len == k {
                            return true;
                        }
                        proof {
                            if si < prelude_len {
                                assert(si as int - prelude_len < 0 && k as int >= 0);
                            }
                        }
                    },
                    None => {},
                }
            }
            j += 1;
        }
        i += 1;
    }
    false
}

/// With no asked-for fallback there to swap, the swap changes nothing.
proof fn lemma_apply_fallbacks_identity(segs: Seq<Segment>, idx: Set<int>)
    requires
        !any_applicable_fallback(segs, idx),
    ensures
        spec_apply_fallbacks(segs, idx) == segs,
    decreases segs.len(),
{
    if segs.len() > 0 {
        assert(forall|k: int|
            0 <= k < segs.len() - 1 ==> segs.drop_last()[k] == segs[k]);
        lemma_apply_fallbacks_identity(segs.drop_last(), idx);
        if idx.contains(segs.len() - 1) && segs.last().kind is WithFallback {
            assert(any_applicable_fallback(segs, idx));
        }
        assert(spec_apply_fallbacks(segs, idx) =~= segs);
    }
}

/// Run the decision table over every origin of every error and apply what
/// it allows, in one of two phases: a hard failure anywhere is returned
/// first, with nothing touched; otherwise the moved or lost variables are
/// dropped, the async and question-mark flags are flipped where asked (the
/// async runtime registered on the first flip), and the asked-for fallbacks
/// are swapped into the user code. Returns whether anything was changed.
pub fn attempt_to_fix_errors(
    errors: &Vec<CompilationError>,
    user_code: &mut CodeBlock,
    prelude_len: usize,
    state: &mut ContextState,
) -> (r: Result<bool, Error>)
    requires
        old(state).wf(),
    ensures
        final(state).wf(),
        final(state).stored_variable_states == old(state).stored_variable_states,
        final(state).items_by_name == old(state).items_by_name,
        final(state).unnamed_items == old(state).unnamed_items,
        final(state).extern_crate_stmts == old(state).extern_crate_stmts,
        final(state).config == old(state).config,
        (r is Err) <==> has_hard_failure(errors@),
        r matches Err(e) ==> *final(state) == *old(state) && *final(user_code) == *old(user_code)
            && exists|i: int, j: int|
            {
                &&& 0 <= i < errors@.len()
                &&& 0 <= j < errors@[i].code_origins@.len()
                &&& spec_hard_failure(#[trigger] errors@[i].code_origins@[j], errors@[i])
                &&& (forall|a: int, b: int|
                    0 <= a < errors@.len() && 0 <= b < errors@[a].code_origins@.len() && (a < i || (
                    a == i && b < j)) ==> !spec_hard_failure(
                        #[trigger] errors@[a].code_origins@[b],
                        errors@[a],
                    ))
                &&& (e matches Error::Message(m) && m@ == spec_hard_message(
                    spec_classify(errors@[i].code_origins@[j], errors@[i], true, true),
                ))
            },
        !has_hard_failure(errors@) ==> {
            &&& final(state).variable_states@ == old(state).variable_states@.remove_keys(
                spec_dropped(errors@),
            )
            &&& final(state).async_mode == (old(state).async_mode || wants_async(errors@))
            &&& final(state).allow_question_mark == (old(state).allow_question_mark
                || wants_question_mark(errors@))
            &&& final(state).external_deps@ == spec_deps_after(
                old(state).external_deps@,
                old(state).async_mode,
                errors@,
            )
            &&& final(user_code).segments@ == spec_apply_fallbacks(
                old(user_code).segments@,
                fallback_indexes(errors@, prelude_len as int),
            )
            &&& r == Result::<bool, Error>::Ok(
                spec_fixed(
                    errors@,
                    old(user_code).segments@,
                    prelude_len as int,
                    old(state).async_mode,
                    old(state).allow_question_mark,
                ),
            )
        },
        r == Result::<bool, Error>::Ok(false) ==> *final(state) == *old(state) && *final(user_code)
            == *old(user_code),
{
    // Phase one: a hard failure anywhere ends the attempt before anything
    // is touched.
    match find_hard_failure(errors) {
        Some(p) => {
            let (i, j) = p;
            let action = classify_origin(
                &errors[i].code_origins[j],
                &errors[i],
                true,
                true,
            );
            return Err(hard_failure_error(action));
        },
        None => {},
    }
    let mut fixed = false;
    // Drop every variable a moved-value or out-of-scope diagnostic names.
    if any_drop_pair(errors) {
        drop_variables(errors, state);
        fixed = true;
    }
    // Flip the flags that some user-code diagnostic asks for.
    if any_user_code_pair(errors, false) {
        if !state.async_mode {
            state.async_mode = true;
            if !state.external_deps.contains("tokio") {
                state.add_dep("tokio", "\"1\"");
            }
            fixed = true;
        }
    }
    if any_user_code_pair(errors, true) {
        if !state.allow_question_mark {
            state.allow_question_mark = true;
            fixed = true;
        }
    }
    // Swap in the asked-for fallbacks.
    if any_applicable_fallback_exec(errors, prelude_len, user_code) {
        apply_fallbacks(errors, prelude_len, user_code);
        fixed = true;
    } else {
        proof {
            lemma_apply_fallbacks_identity(
                user_code.segments@,
                fallback_indexes(errors@, prelude_len as int),
            );
        }
    }
    Ok(fixed)
}

/// Remove every variable a drop pair names from the working variable
/// states.
fn drop_variables(errors: &Vec<CompilationError>, state: &mut ContextState)
    requires
        old(state).wf(),
    ensures
        final(state).wf(),
        final(state).variable_states@ == old(state).variable_states@.remove_keys(
            spec_dropped(errors@),
        ),
        final(state).stored_variable_states == old(state).stored_variable_states,
        final(state).items_by_name == old(state).items_by_name,
        final(state).unnamed_items == old(state).unnamed_items,
        final(state).external_deps == old(state).external_deps,
        final(state).extern_crate_stmts == old(state).extern_crate_stmts,
        final(state).async_mode == old(state).async_mode,
        final(state).allow_question_mark == old(state).allow_question_mark,
        final(state).build_num == old(state).build_num,
        final(state).config == old(state).config,
{
    let n = errors.len();
    let mut i: usize = 0;
    while i < n
        invariant
            n == errors@.len(),
            i <= n,
            state.wf(),
            state.variable_states@ == old(state).variable_states@.remove_keys(
                dropped_before(errors@, i as int, 0),
            ),
            state.stored_variable_states == old(state).stored_variable_states,
            state.items_by_name == old(state).items_by_name,
            state.unnamed_items == old(state).unnamed_items,
            state.external_deps == old(state).external_deps,
            state.extern_crate_stmts == old(state).extern_crate_stmts,
            state.async_mode == old(state).async_mode,
            state.allow_question_mark == old(state).allow_question_mark,
            state.build_num == old(state).build_num,
            state.config == old(state).config,
        decreases n - i,
    {
        let err = &errors[i];
        let m = err.code_origins.len();
        let mut j: usize = 0;
        while j < m
            invariant
                n == errors@.len(),
                i < n,
                err == &errors@[i as int],
                m == err.code_origins@.len(),
                j <= m,
                state.wf(),
                state.variable_states@ == old(state).variable_states@.remove_keys(
                    dropped_before(errors@, i as int, j as int),
                ),
                state.stored_variable_states == old(state).stored_variable_states,
                state.items_by_name == old(state).items_by_name,
                state.unnamed_items == old(state).unnamed_items,
                state.external_deps == old(state).external_deps,
                state.extern_crate_stmts == old(state).extern_crate_stmts,
                state.async_mode == old(state).async_mode,
                state.allow_question_mark == old(state).allow_question_mark,
                state.build_num == old(state).build_num,
                state.config == old(state).config,
            decreases m - j,
        {
            let origin = &err.code_origins[j];
            let is_drop = matches!(origin.kind, CodeKind::PackVariable { .. }) && (code_matches(
                &err.code,
                "E0382",
            ) || code_matches(&err.code, "E0425"));
            if is_drop {
                match &origin.kind {
                    CodeKind::PackVariable { variable_name } => {
                        state.variable_states.remove(variable_name.as_str());
                        proof {
                            lemma_dropped_step(errors@, i as int, j as int);
                            assert(state.variable_states@ =~= old(
                                state,
                            ).variable_states@.remove_keys(
                                dropped_before(errors@, i as int, j + 1),
                            ));
                        }
                    },
                    _ => {},
                }
            } else {
                proof {
                    lemma_dropped_step(errors@, i as int, j as int);
                    assert(dropped_before(errors@, i as int, j + 1) =~= dropped_before(
                        errors@,
                        i as int,
                        j as int,
                    ));
                }
            }
            j += 1;
        }
        proof {
            assert(dropped_before(errors@, i + 1, 0) =~= dropped_before(errors@, i as int, m as int));
        }
        i += 1;
    }
    proof {
        assert(dropped_before(errors@, n as int, 0) =~= spec_dropped(errors@));
    }
}

/// The names dropped by pairs strictly before position (i, j) in scan
/// order.
pub open spec fn dropped_before(errors: Seq<CompilationError>, i: int, j: int) -> Set<Seq<char>> {
    Set::new(
        |n: Seq<char>|
            exists|a: int, b: int|
                0 <= a < errors.len() && 0 <= b < errors[a].code_origins@.len() && (a < i || (a == i
                    && b < j)) && drops_name(#[trigger] errors[a].code_origins@[b], errors[a], n),
    )
}

/// One scan step extends the dropped-so-far set by the pair's own name, if
/// the pair drops one.
proof fn lemma_dropped_step(errors: Seq<CompilationError>, i: int, j: int)
    requires
        0 <= i < errors.len(),
        0 <= j < errors[i].code_origins@.len(),
    ensures
        is_drop_pair(errors[i].code_origins@[j], errors[i]) ==> (
        errors[i].code_origins@[j].kind matches CodeKind::PackVariable { variable_name }
            && dropped_before(errors, i, j + 1) == dropped_before(errors, i, j).insert(
            variable_name@,
        )
        ),
        !is_drop_pair(errors[i].code_origins@[j], errors[i]) ==> dropped_before(errors, i, j + 1)
            == dropped_before(errors, i, j),
{
    if is_drop_pair(errors[i].code_origins@[j], errors[i]) {
        match errors[i].code_origins@[j].kind {
            CodeKind::PackVariable { variable_name } => {
                assert forall|n: Seq<char>|
                    dropped_before(errors, i, j + 1).contains(n) implies dropped_before(
                    errors,
                    i,
                    j,
                ).insert(variable_name@).contains(n) by {
                    let (a, b) = choose|a: int, b: int|
                        0 <= a < errors.len() && 0 <= b < errors[a].code_origins@.len() && (a < i
                            || (a == i && b < j + 1)) && drops_name(
                            #[trigger] errors[a].code_origins@[b],
                            errors[a],
                            n,
                        );
                    if a == i && b == j {
                    } else {
                        assert(dropped_before(errors, i, j).contains(n));
                    }
                }
                assert(dropped_before(errors, i, j + 1) =~= dropped_before(errors, i, j).insert(
                    variable_name@,
                ));
            },
            _ => {},
        }
    } else {
        assert forall|n: Seq<char>| dropped_before(errors, i, j + 1).contains(n) implies
            dropped_before(errors, i, j).contains(n) by {
            let (a, b) = choose|a: int, b: int|
                0 <= a < errors.len() && 0 <= b < errors[a].code_origins@.len() && (a < i || (a == i
                    && b < j + 1)) && drops_name(#[trigger] errors[a].code_origins@[b], errors[a], n);
            assert(!(a == i && b == j));
        }
        assert(dropped_before(errors, i, j + 1) =~= dropped_before(errors, i, j));
    }
}

/// Does any asked-for fallback hit a segment that carries one?
fn any_applicable_fallback_exec(
    errors: &Vec<CompilationError>,
    prelude_len: usize,
    user_code: &CodeBlock,
) -> (r: bool)
    ensures
        r == any_applicable_fallback(
            user_code.segments@,
            fallback_indexes(errors@, prelude_len as int),
        ),
{
    let n = user_code.segments.len();
    let mut k: usize = 0;
    while k < n
        invariant
            n == user_code.segments@.len(),
            k <= n,
            forall|a: int|
                0 <= a < k ==> !(fallback_indexes(errors@, prelude_len as int).contains(a) && (
                #[trigger] user_code.segments@[a].kind) is WithFallback),
        decreases n - k,
    {
        let is_fb = matches!(user_code.segments[k].kind, CodeKind::WithFallback(_));
        if is_fb && is_fallback_index(errors, prelude_len, k) {
            return true;
        }
        k += 1;
    }
    false
}

/// Swap every asked-for fallback into the user code.
fn apply_fallbacks(errors: &Vec<CompilationError>, prelude_len: usize, user_code: &mut CodeBlock)
    ensures
        final(user_code).segments@ == spec_apply_fallbacks(
            old(user_code).segments@,
            fallback_indexes(errors@, prelude_len as int),
        ),
{
    let ghost orig = user_code.segments@;
    let ghost idx = fallback_indexes(errors@, prelude_len as int);
    let n = user_code.segments.len();
    let mut vec = Vec::new();
    core::mem::swap(&mut user_code.segments, &mut vec);
    let mut out: Vec<Segment> = Vec::new();
    let mut k: usize = 0;
    while k < n
        invariant
            n == orig.len(),
            k <= n,
            vec@ =~= orig.skip(k as int),
            out@ =~= spec_apply_fallbacks(orig.take(k as int), idx),
            idx == fallback_indexes(errors@, prelude_len as int),
        decreases n - k,
    {
        let seg = vec.remove(0);
        proof {
            assert(seg == orig[k as int]);
            assert(vec@ =~= orig.skip(k + 1));
            assert(orig.take(k + 1).drop_last() =~= orig.take(k as int));
            assert(orig.take(k + 1).last() == orig[k as int]);
        }
        let is_fb = matches!(seg.kind, CodeKind::WithFallback(_));
        if is_fb && is_fallback_index(errors, prelude_len, k) {
            match seg.kind {
                CodeKind::WithFallback(fb) => {
                    let ghost fbseq = fb.segments@;
                    let ghost pre = out@;
                    let mut fb_vec = fb.segments;
                    let fblen = fb_vec.len();
                    let mut t: usize = 0;
                    while t < fblen
                        invariant
                            fblen == fbseq.len(),
                            t <= fblen,
                            fb_vec@ =~= fbseq.skip(t as int),
                            out@ =~= pre + fbseq.take(t as int),
                        decreases fblen - t,
                    {
                        let fseg = fb_vec.remove(0);
                        proof {
                            assert(fseg == fbseq[t as int]);
                            assert(fb_vec@ =~= fbseq.skip(t + 1));
                            assert(out@.push(fseg) =~= pre + fbseq.take(t + 1));
                        }
                        out.push(fseg);
                        t += 1;
                    }
                    proof {
                        assert(fbseq.take(fblen as int) =~= fbseq);
                        assert(out@ =~= spec_apply_fallbacks(orig.take(k + 1), idx));
                    }
                },
                _ => {
                    proof {
                        assert(false);
                    }
                },
            }
        } else {
            proof {
                assert(out@.push(seg) =~= spec_apply_fallbacks(orig.take(k + 1), idx));
            }
            out.push(seg);
        }
        k += 1;
    }
    proof {
        assert(orig.take(n as int) =~= orig);
    }
    user_code.segments = out;
}

} // verus!

//! One evaluation session, and the bounded retry loop of one submission.
//! The session owns the committed state; each submission drives a working
//! copy through compile and run attempts, and only a successful execution
//! commits it. The caller performs the outside work — invoking the compiler,
//! feeding the worker — and hands the results back to these decision
//! functions.

use vstd::prelude::*;

use crate::code_block::CodeBlock;
use crate::errors::CompilationError;
use crate::errors::Error;
use crate::errors::retain_user_errors;
use crate::errors::spec_retained;
use crate::fixups::attempt_to_fix_errors;
use crate::fixups::fallback_indexes;
use crate::fixups::has_hard_failure;
use crate::fixups::spec_apply_fallbacks;
use crate::fixups::spec_classify;
use crate::fixups::spec_deps_after;
use crate::fixups::spec_dropped;
use crate::fixups::spec_fixed;
use crate::fixups::spec_hard_failure;
use crate::fixups::spec_hard_message;
use crate::fixups::wants_async;
use crate::fixups::wants_question_mark;
use crate::outputs::EvalOutputs;
use crate::protocol::ExecutionTracker;
use crate::state::Config;
use crate::state::ContextState;
use crate::synth::SynthesizedUnit;
use crate::synth::recover_user_code;
use crate::synth::unit_user_segments;
use crate::variables::VarView;
use crate::variables::avail_only;
use crate::variables::committed_map;

verus! {

/// The fixed number of retries a submission may consume before the
/// controller gives up, preventing fix-and-unfix loops.
pub const RETRY_LIMIT: u64 = 5;

/// The bounded retry budget of one submission.
#[derive(Debug)]
pub struct RetryBudget {
    pub remaining: u64,
}

impl RetryBudget {
    pub fn new() -> (r: RetryBudget)
        ensures
            r.remaining == RETRY_LIMIT,
    {
        RetryBudget { remaining: RETRY_LIMIT }
    }

    /// Consume one retry if any is left.
    pub fn try_consume(&mut self) -> (r: bool)
        ensures
            r ==> old(self).remaining > 0 && final(self).remaining == old(self).remaining - 1,
            !r ==> old(self).remaining == 0 && final(self).remaining == 0,
    {
        if self.remaining > 0 {
            self.remaining = self.remaining - 1;
            true
        } else {
            false
        }
    }
}

/// What the caller is to do after a failed compile.
#[derive(Debug)]
pub enum RetryDecision {
    /// Something was fixed: synthesize and compile again with this code and
    /// the mutated state.
    Retry { user_code: CodeBlock },
    /// Nothing left to fix and user code is present: recompile once without
    /// the panic-catching wrapper purely for a cleaner diagnostic, discard
    /// that recompile's outcome, and report these errors.
    CleanRecompileThenReport { user_code: CodeBlock, errors: Vec<CompilationError> },
    /// Nothing left to fix and no user code: report these errors.
    Report { errors: Vec<CompilationError> },
    /// A fixup found a condition the user must resolve.
    Fail { error: Error },
}

/// Decide what to do about a failed compile: while the budget lasts, apply
/// every fixup the diagnostics allow and retry; otherwise fall through to
/// the clean recompile and report the original errors, never the cleaner
/// recompile's.
pub fn on_compile_failure(
    unit: SynthesizedUnit,
    errors: Vec<CompilationError>,
    state: &mut ContextState,
    budget: &mut RetryBudget,
) -> (r: RetryDecision)
    requires
        old(state).wf(),
        unit.prelude_len + unit.user_len <= unit.code.segments@.len(),
    ensures
        final(state).wf(),
        old(state).async_mode ==> final(state).async_mode,
        old(state).allow_question_mark ==> final(state).allow_question_mark,
        final(state).stored_variable_states == old(state).stored_variable_states,
        final(state).items_by_name == old(state).items_by_name,
        final(state).config == old(state).config,
        final(budget).remaining <= old(budget).remaining,
        r is Retry ==> old(budget).remaining > 0 && final(budget).remaining == old(
            budget,
        ).remaining - 1,
{
    let prelude_len = unit.prelude_len;
    let mut user_code = recover_user_code(unit);
    let user_empty = user_code.is_empty();
    if budget.remaining > 0 {
        match attempt_to_fix_errors(&errors, &mut user_code, prelude_len, state) {
            Ok(true) => {
                budget.try_consume();
                return RetryDecision::Retry { user_code };
            },
            Ok(false) => {},
            Err(e) => {
                return RetryDecision::Fail { error: e };
            },
        }
    }
    // Once any error is attributed to user code, errors not so attributed
    // are follow-on noise and are dropped from the report.
    let errors = retain_user_errors(errors);
    if !user_empty {
        RetryDecision::CleanRecompileThenReport { user_code, errors }
    } else {
        RetryDecision::Report { errors }
    }
}

/// The names of a list, as character sequences.
pub open spec fn names_set(s: Seq<String>) -> Set<Seq<char>> {
    Set::new(|k: Seq<char>| exists|i: int| 0 <= i < s.len() && (#[trigger] s[i])@ == k)
}

/// Decide what to do when the worker reported variables lost to a type
/// redefinition: every listed name is dropped from the working and the
/// committed states, transient and stored alike, and the attempt is retried
/// while the budget lasts.
pub fn on_variables_lost(
    names: &Vec<String>,
    state: &mut ContextState,
    committed: &mut ContextState,
    budget: &mut RetryBudget,
) -> (retry: bool)
    requires
        old(state).wf(),
        old(committed).wf(),
    ensures
        final(state).wf(),
        final(committed).wf(),
        final(state).variable_states@ == old(state).variable_states@.remove_keys(
            names_set(names@),
        ),
        final(state).stored_variable_states@ == old(state).stored_variable_states@.remove_keys(
            names_set(names@),
        ),
        final(committed).variable_states@ == old(committed).variable_states@.remove_keys(
            names_set(names@),
        ),
        final(committed).stored_variable_states@ == old(
            committed,
        ).stored_variable_states@.remove_keys(names_set(names@)),
        retry <==> old(budget).remaining > 0,
        retry ==> final(budget).remaining == old(budget).remaining - 1,
        !retry ==> old(budget).remaining == 0,
        final(state).items_by_name == old(state).items_by_name,
        final(state).external_deps == old(state).external_deps,
        final(state).async_mode == old(state).async_mode,
        final(state).allow_question_mark == old(state).allow_question_mark,
        final(state).config == old(state).config,
        final(committed).items_by_name == old(committed).items_by_name,
        final(committed).config == old(committed).config,
{
    let n = names.len();
    let mut i: usize = 0;
    while i < n
        invariant
            n == names@.len(),
            i <= n,
            state.wf(),
            committed.wf(),
            state.variable_states@ == old(state).variable_states@.remove_keys(
                names_set(names@.take(i as int)),
            ),
            state.stored_variable_states@ == old(state).stored_variable_states@.remove_keys(
                names_set(names@.take(i as int)),
            ),
            committed.variable_states@ == old(committed).variable_states@.remove_keys(
                names_set(names@.take(i as int)),
            ),
            committed.stored_variable_states@ == old(
                committed,
            ).stored_variable_states@.remove_keys(names_set(names@.take(i as int))),
            state.items_by_name == old(state).items_by_name,
            state.external_deps == old(state).external_deps,
            state.async_mode == old(state).async_mode,
            state.allow_question_mark == old(state).allow_question_mark,
            state.config == old(state).config,
            committed.items_by_name == old(committed).items_by_name,
            committed.config == old(committed).config,
        decreases n - i,
    {
        state.remove_variable(names[i].as_str());
        committed.remove_variable(names[i].as_str());
        proof {
            lemma_names_set_step(names@, i as int);
        }
        i += 1;
    }
    proof {
        assert(names@.take(n as int) =~= names@);
    }
    budget.try_consume()
}

/// Taking one more name extends the name set by exactly that name.
proof fn lemma_names_set_step(s: Seq<String>, i: int)
    requires
        0 <= i < s.len(),
    ensures
        names_set(s.take(i + 1)) == names_set(s.take(i)).insert(s[i]@),
{
    assert forall|k: Seq<char>| names_set(s.take(i + 1)).contains(k) implies names_set(
        s.take(i),
    ).insert(s[i]@).contains(k) by {
        let w = choose|w: int| 0 <= w < s.take(i + 1).len() && (#[trigger] s.take(i + 1)[w])@ == k;
        if w < i {
            assert(s.take(i as int)[w]@ == k);
        }
    }
    assert forall|k: Seq<char>| names_set(s.take(i)).insert(s[i]@).contains(k) implies names_set(
        s.take(i + 1),
    ).contains(k) by {
        if k == s[i]@ {
            assert(s.take(i + 1)[i]@ == k);
        } else {
            let w = choose|w: int| 0 <= w < s.take(i as int).len() && (#[trigger] s.take(i as int)[w])@ == k;
            assert(s.take(i + 1)[w]@ == k);
        }
    }
    assert(names_set(s.take(i + 1)) =~= names_set(s.take(i)).insert(s[i]@));
}

/// Fold a finished execution into the working state. On a panic the new
/// variables were never fully constructed and are dropped; the available
/// ones are kept only under the preserve-on-panic policy — with it off,
/// nothing was stored ahead of the panic, so every variable is gone. An
/// early error return likewise drops only the new variables. Variables the
/// worker reported lost turn into a retryable error; otherwise the captured
/// outputs are handed back.
pub fn finish_execution(tracker: ExecutionTracker, state: &mut ContextState) -> (r: Result<
    EvalOutputs,
    Error,
>)
    requires
        old(state).wf(),
        tracker.wf(),
    ensures
        final(state).wf(),
        final(state).stored_variable_states == old(state).stored_variable_states,
        final(state).items_by_name == old(state).items_by_name,
        final(state).config == old(state).config,
        (tracker.got_panic && old(state).config@.preserve_vars_on_panic) ==> final(state).variable_states@ == avail_only(old(state).variable_states@),
        (tracker.got_panic && !old(state).config@.preserve_vars_on_panic) ==> final(state).variable_states@ == Map::<Seq<char>, VarView>::empty(),
        (!tracker.got_panic && tracker.error_occurred) ==> final(state).variable_states@
            == avail_only(old(state).variable_states@),
        (!tracker.got_panic && !tracker.error_occurred) ==> final(state).variable_states == old(state).variable_states,
        (!tracker.got_panic && tracker.lost_variables@.len() > 0) <==> (r matches
            Err(Error::TypeRedefinedVariablesLost(_))),
        r matches Err(e) ==> e is TypeRedefinedVariablesLost,
        r matches Ok(o) ==> o.wf() && o == tracker.outputs,
{
    if tracker.got_panic {
        if state.config.preserve_vars_on_panic {
            state.drop_new_variables();
        } else {
            state.variable_states.clear();
        }
        return Ok(tracker.outputs);
    }
    if tracker.error_occurred {
        state.drop_new_variables();
    }
    if tracker.lost_variables.len() > 0 {
        return Err(Error::TypeRedefinedVariablesLost(tracker.lost_variables));
    }
    Ok(tracker.outputs)
}

/// One evaluation session: the committed state, replaced only when a
/// submission fully succeeds.
#[derive(Debug)]
pub struct Session {
    pub committed: ContextState,
}

impl Session {
    pub fn new(config: Config) -> (r: Session)
        ensures
            r.committed.wf(),
            r.committed.variable_states@ == Map::<Seq<char>, VarView>::empty(),
            r.committed.stored_variable_states@ == Map::<Seq<char>, VarView>::empty(),
            r.committed.items_by_name@ == Map::<Seq<char>, Seq<char>>::empty(),
            r.committed.config@ == config@,
    {
        Session { committed: ContextState::new(config) }
    }

    /// The working copy a new submission starts from.
    pub fn working_copy(&self) -> (r: ContextState)
        requires
            self.committed.wf(),
        ensures
            r.wf(),
            r.variable_states@ == self.committed.variable_states@,
            r.variable_states.seq().len() == self.committed.variable_states.seq().len(),
            forall|i: int|
                0 <= i < self.committed.variable_states.seq().len() ==> (
                #[trigger] r.variable_states.seq()[i]).name@
                    == self.committed.variable_states.seq()[i].name@
                    && r.variable_states.seq()[i].state@
                    == self.committed.variable_states.seq()[i].state@,
            r.stored_variable_states@ == self.committed.stored_variable_states@,
            r.items_by_name@ == self.committed.items_by_name@,
            r.items_by_name.seq().len() == self.committed.items_by_name.seq().len(),
            forall|i: int|
                0 <= i < self.committed.items_by_name.seq().len() ==> (
                #[trigger] r.items_by_name.seq()[i]).name@
                    == self.committed.items_by_name.seq()[i].name@
                    && r.items_by_name.seq()[i].value@
                    == self.committed.items_by_name.seq()[i].value@,
            r.external_deps@ == self.committed.external_deps@,
            r.async_mode == self.committed.async_mode,
            r.allow_question_mark == self.committed.allow_question_mark,
            r.build_num == self.committed.build_num,
            r.config@ == self.committed.config@,
    {
        self.committed.duplicate()
    }

    /// Commit a successful submission: the working state, its variables
    /// confirmed and snapshotted, replaces the committed state. A failed
    /// submission never reaches this point, so nothing persists of it.
    pub fn commit(&mut self, working: ContextState)
        requires
            working.wf(),
        ensures
            final(self).committed.wf(),
            final(self).committed.variable_states@ == committed_map(working.variable_states@),
            final(self).committed.stored_variable_states@ == committed_map(
                working.variable_states@,
            ),
            final(self).committed.variable_states.seq().len()
                == working.variable_states.seq().len(),
            final(self).committed.stored_variable_states.seq().len()
                == working.variable_states.seq().len(),
            forall|i: int|
                0 <= i < working.variable_states.seq().len() ==> {
                    let pre = working.variable_states.seq()[i];
                    &&& (#[trigger] final(self).committed.variable_states.seq()[i]).name@
                        == pre.name@
                    &&& final(self).committed.variable_states.seq()[i].state@
                        == crate::variables::committed_var(pre.state@)
                    &&& final(self).committed.stored_variable_states.seq()[i].name@ == pre.name@
                    &&& final(self).committed.stored_variable_states.seq()[i].state@
                        == crate::variables::committed_var(pre.state@)
                },
            final(self).committed.items_by_name == working.items_by_name,
            final(self).committed.external_deps == working.external_deps,
            final(self).committed.async_mode == working.async_mode,
            final(self).committed.allow_question_mark == working.allow_question_mark,
            final(self).committed.config == working.config,
    {
        let mut working = working;
        working.commit_variables();
        self.committed = working;
    }

    /// The session's share of a worker crash: restart leaves an empty
    /// variable store, so the committed state forgets every variable; a
    /// later, unrelated submission starts from that consistent point.
    pub fn on_worker_crash(&mut self)
        requires
            old(self).committed.wf(),
        ensures
            final(self).committed.wf(),
            final(self).committed.variable_states@ == Map::<Seq<char>, VarView>::empty(),
            final(self).committed.stored_variable_states@ == Map::<Seq<char>, VarView>::empty(),
            final(self).committed.items_by_name == old(self).committed.items_by_name,
            final(self).committed.config == old(self).committed.config,
    {
        self.committed.on_worker_terminated();
    }

    /// Forget everything but configuration, as `:clear` does.
    pub fn clear(&mut self)
        requires
            old(self).committed.wf(),
        ensures
            final(self).committed.wf(),
            final(self).committed.variable_states@ == Map::<Seq<char>, VarView>::empty(),
            final(self).committed.stored_variable_states@ == Map::<Seq<char>, VarView>::empty(),
            final(self).committed.items_by_name@ == Map::<Seq<char>, Seq<char>>::empty(),
            final(self).committed.external_deps@ == Map::<Seq<char>, Seq<char>>::empty(),
            final(self).committed.config@ == old(self).committed.config@,
    {
        self.committed = self.committed.cleared();
    }
}

} // verus!

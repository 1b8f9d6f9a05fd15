//! The unit synthesizer: combines the accumulated state with a submission's
//! code into one self-consistent compilation unit. Known items are
//! re-emitted ahead of the new code, available variables are unpacked from
//! the variable store at the start, and every variable is packed back at the
//! end; the user's segments pass through untouched, at a known offset, so
//! that diagnostics and fixups can find their way back.

use vstd::prelude::*;

use crate::code_block::CodeBlock;
use crate::code_block::CodeKind;
use crate::code_block::Segment;
use crate::code_block::block_wf;
use crate::code_block::seg_wf;
use crate::code_block::terminated;
use crate::protocol::user_fn_name;
use crate::state::ContextState;
use crate::state::error_format_str;
use crate::state::spec_error_format;
use crate::text::spec_decimal;
use crate::variables::VariableMoveState;

verus! {

/// How a unit is to be compiled and used.
#[derive(Clone, Copy, PartialEq, Eq, Structural, Debug)]
pub enum CompilationMode {
    /// User code runs inside a panic-catching boundary.
    RunAndCatchPanics,
    /// User code runs without the boundary.
    NoCatch,
    /// Recompiled without the boundary purely for a cleaner diagnostic; if
    /// compilation unexpectedly succeeds, nothing is run and the caller
    /// returns the original errors.
    NoCatchExpectError,
}

/// The text of the line that takes one variable out of the store.
pub open spec fn spec_unpack_line(name: Seq<char>, ty: Seq<char>, is_mut: bool) -> Seq<char> {
    (if is_mut {
        "let mut "@
    } else {
        "let "@
    }) + name + ": "@ + ty + " = evcxr_variable_store.take_variable(\""@ + name + "\");"@
}

/// The text of the line that puts one variable back into the store.
pub open spec fn spec_pack_line(name: Seq<char>) -> Seq<char> {
    "evcxr_variable_store.put_variable(\""@ + name + "\", "@ + name + ");"@
}

/// The text that opens the unit's entry function. With `catch`, user code
/// runs inside the runtime's panic-catching boundary; in async mode it runs
/// under the async runtime; with the permissive question-mark flag it runs
/// inside the runtime's broader `?`-handling boundary, which formats an
/// early-returned error with the session's error format and reports it
/// through the error sentinel.
pub open spec fn spec_wrapper_open(
    entry: Seq<char>,
    catch: bool,
    async_mode: bool,
    allow_question_mark: bool,
    err_fmt: Seq<char>,
) -> Seq<char> {
    "#[no_mangle]\npub fn "@ + entry
        + "(mut evcxr_variable_store: evcxr_internal_runtime::VariableStore) -> evcxr_internal_runtime::VariableStore {\n"@
        + (if async_mode {
        "evcxr_internal_runtime::block_on_async(async {\n"@
    } else {
        Seq::<char>::empty()
    }) + (if catch {
        "evcxr_internal_runtime::catch_panics(|| {\n"@
    } else {
        Seq::<char>::empty()
    }) + (if allow_question_mark {
        "evcxr_internal_runtime::handle_question_mark(\""@ + err_fmt + "\", || {\n"@
    } else {
        Seq::<char>::empty()
    })
}

/// The text that closes the unit's entry function, mirroring the open.
pub open spec fn spec_wrapper_close(catch: bool, async_mode: bool, allow_question_mark: bool) -> Seq<
    char,
> {
    (if allow_question_mark {
        "});\n"@
    } else {
        Seq::<char>::empty()
    }) + (if catch {
        "});\n"@
    } else {
        Seq::<char>::empty()
    }) + (if async_mode {
        "});\n"@
    } else {
        Seq::<char>::empty()
    }) + "evcxr_variable_store\n}\n"@
}

/// Build the unpack line for one variable.
fn unpack_line(name: &str, ty: &str, is_mut: bool) -> (r: String)
    ensures
        r@ == spec_unpack_line(name@, ty@, is_mut),
{
    let mut out = String::new();
    if is_mut {
        out.append("let mut ");
    } else {
        out.append("let ");
    }
    out.append(name);
    out.append(": ");
    out.append(ty);
    out.append(" = evcxr_variable_store.take_variable(\"");
    out.append(name);
    out.append("\");");
    proof {
        assert(out@ =~= spec_unpack_line(name@, ty@, is_mut));
    }
    out
}

/// Build the pack line for one variable.
fn pack_line(name: &str) -> (r: String)
    ensures
        r@ == spec_pack_line(name@),
{
    let mut out = String::new();
    out.append("evcxr_variable_store.put_variable(\"");
    out.append(name);
    out.append("\", ");
    out.append(name);
    out.append(");");
    proof {
        assert(out@ =~= spec_pack_line(name@));
    }
    out
}

fn wrapper_open(
    entry: &str,
    catch: bool,
    async_mode: bool,
    allow_question_mark: bool,
    err_fmt: &str,
) -> (r: String)
    ensures
        r@ == spec_wrapper_open(entry@, catch, async_mode, allow_question_mark, err_fmt@),
{
    let mut out = String::new();
    out.append("#[no_mangle]\npub fn ");
    out.append(entry);
    out.append(
        "(mut evcxr_variable_store: evcxr_internal_runtime::VariableStore) -> evcxr_internal_runtime::VariableStore {\n",
    );
    if async_mode {
        out.append("evcxr_internal_runtime::block_on_async(async {\n");
    }
    if catch {
        out.append("evcxr_internal_runtime::catch_panics(|| {\n");
    }
    if allow_question_mark {
        out.append("evcxr_internal_runtime::handle_question_mark(\"");
        out.append(err_fmt);
        out.append("\", || {\n");
    }
    proof {
        assert(out@ =~= spec_wrapper_open(entry@, catch, async_mode, allow_question_mark, err_fmt@));
    }
    out
}

fn wrapper_close(catch: bool, async_mode: bool, allow_question_mark: bool) -> (r: String)
    ensures
        r@ == spec_wrapper_close(catch, async_mode, allow_question_mark),
{
    let mut out = String::new();
    if allow_question_mark {
        out.append("});\n");
    }
    if catch {
        out.append("});\n");
    }
    if async_mode {
        out.append("});\n");
    }
    out.append("evcxr_variable_store\n}\n");
    proof {
        assert(out@ =~= spec_wrapper_close(catch, async_mode, allow_question_mark));
    }
    out
}

/// A compilation unit assembled from state and new code: the block to
/// compile, and where within it the caller's own segments sit.
#[derive(Debug)]
pub struct SynthesizedUnit {
    pub code: CodeBlock,
    /// Number of segments placed ahead of the caller's code.
    pub prelude_len: usize,
    /// Number of the caller's segments, unchanged, starting at
    /// `prelude_len`.
    pub user_len: usize,
}

/// The structural guarantees of synthesis: the caller's segments appear
/// verbatim and contiguously at `prelude_len`. Ahead of them stand the
/// re-emitted items, then one generated segment opening the entry function,
/// then only unpack segments; behind them, one pack segment per session
/// variable, in the session's order, and a single closing segment. Nothing
/// around the caller's code is ever fresh user code.
pub open spec fn synthesis_shape(state: ContextState, user: Seq<Segment>, r: SynthesizedUnit) -> bool {
    let segs = r.code.segments@;
    let nvars = state.variable_states.seq().len();
    let named = state.items_by_name.seq().len() as int;
    let items = state.items_by_name.seq().len() + state.unnamed_items@.len();
    &&& r.user_len == user.len()
    &&& segs.len() == r.prelude_len + user.len() + nvars + 1
    &&& items < r.prelude_len
    &&& (forall|i: int| 0 <= i < user.len() ==> segs[r.prelude_len + i] == user[i])
    &&& (forall|i: int|
        0 <= i < r.prelude_len ==> !((#[trigger] segs[i].kind) is OriginalUserCode))
    &&& (forall|i: int|
        0 <= i < named ==> (#[trigger] segs[i]).code@ == terminated(
            state.items_by_name.seq()[i].value@,
        ))
    &&& (forall|i: int|
        named <= i < items ==> (#[trigger] segs[i]).code@ == terminated(
            state.unnamed_items@[i - named]@,
        ))
    &&& (forall|i: int|
        0 <= i < items ==> (#[trigger] segs[i].kind) is OtherUserCode)
    &&& segs[items as int].kind is OtherGeneratedCode
    &&& (forall|i: int|
        items < i < r.prelude_len ==> (#[trigger] segs[i].kind) is PackVariable)
    &&& (forall|i: int|
        items < i < r.prelude_len ==> exists|v: int|
            0 <= v < nvars && state.variable_states.seq()[v].state@.move_state
                == VariableMoveState::Available && (#[trigger] segs[i]).code@ == terminated(
                spec_unpack_line(
                    state.variable_states.seq()[v].name@,
                    state.variable_states.seq()[v].state@.var_type,
                    state.variable_states.seq()[v].state@.is_mut,
                ),
            ))
    &&& (forall|j: int|
        0 <= j < nvars ==> ((#[trigger] segs[r.prelude_len + user.len() + j].kind) matches
            CodeKind::PackVariable { variable_name } && variable_name@
            == state.variable_states.seq()[j].name@ && segs[r.prelude_len + user.len() + j].code@
            == terminated(spec_pack_line(state.variable_states.seq()[j].name@))))
    &&& segs.last().kind is OtherGeneratedCode
}

impl ContextState {
    /// Assemble the unit around the caller's code: re-emitted items, the
    /// entry function opened under `entry`, unpack lines for the available
    /// variables, the caller's segments untouched, pack lines for every
    /// variable, and the closing text.
    fn assemble(&self, user_code: CodeBlock, entry: &str, catch: bool) -> (r: SynthesizedUnit)
        requires
            self.wf(),
        ensures
            synthesis_shape(*self, user_code.segments@, r),
            block_wf(user_code) ==> block_wf(r.code),
            r.code.segments@[(self.items_by_name.seq().len()
                + self.unnamed_items@.len()) as int].code@ == terminated(
                spec_wrapper_open(
                    entry@,
                    catch,
                    self.async_mode,
                    self.allow_question_mark,
                    spec_error_format(self.config@.error_fmt_index as int),
                ),
            ),
            r.code.segments@.last().code@ == terminated(
                spec_wrapper_close(catch, self.async_mode, self.allow_question_mark),
            ),
    {
        let ghost user = user_code.segments@;
        let mut block = CodeBlock::new();
        // Re-emit the items accumulated across submissions ahead of the new
        // code, so name resolution sees the full program.
        let n_items = self.items_by_name.len();
        let mut i: usize = 0;
        while i < n_items
            invariant
                n_items == self.items_by_name.seq().len(),
                i <= n_items,
                block.segments@.len() == i,
                block_wf(block),
                forall|k: int|
                    0 <= k < block.segments@.len() ==> (#[trigger] block.segments@[k].kind)
                        is OtherUserCode,
                forall|k: int|
                    0 <= k < i ==> (#[trigger] block.segments@[k]).code@ == terminated(
                        self.items_by_name.seq()[k].value@,
                    ),
            decreases n_items - i,
        {
            let ghost pre = block.segments@;
            let e = self.items_by_name.entry_at(i);
            block = block.other_user_code(e.value.clone());
            proof {
                assert(forall|k: int| 0 <= k < pre.len() ==> #[trigger] block.segments@[k] == pre[k]);
            }
            i += 1;
        }
        let n_unnamed = self.unnamed_items.len();
        let mut u: usize = 0;
        while u < n_unnamed
            invariant
                n_unnamed == self.unnamed_items@.len(),
                n_items == self.items_by_name.seq().len(),
                u <= n_unnamed,
                block.segments@.len() == n_items + u,
                block_wf(block),
                forall|k: int|
                    0 <= k < block.segments@.len() ==> (#[trigger] block.segments@[k].kind)
                        is OtherUserCode,
                forall|k: int|
                    0 <= k < n_items ==> (#[trigger] block.segments@[k]).code@ == terminated(
                        self.items_by_name.seq()[k].value@,
                    ),
                forall|k: int|
                    n_items <= k < n_items + u ==> (#[trigger] block.segments@[k]).code@
                        == terminated(self.unnamed_items@[k - n_items]@),
            decreases n_unnamed - u,
        {
            let ghost pre = block.segments@;
            block = block.other_user_code(self.unnamed_items[u].clone());
            proof {
                assert(forall|k: int| 0 <= k < pre.len() ==> #[trigger] block.segments@[k] == pre[k]);
            }
            u += 1;
        }
        let ghost items_total = block.segments@.len() as int;
        // The entry function.
        block = block.generated(
            wrapper_open(
                entry,
                catch,
                self.async_mode,
                self.allow_question_mark,
                error_format_str(self.config.error_fmt_index),
            ),
        );
        // Unpack what the store already holds.
        let n_vars = self.variable_states.len();
        let mut v: usize = 0;
        while v < n_vars
            invariant
                n_vars == self.variable_states.seq().len(),
                self.variable_states.wf(),
                v <= n_vars,
                block_wf(block),
                items_total + 1 <= block.segments@.len(),
                items_total == self.items_by_name.seq().len() + self.unnamed_items@.len(),
                n_items == self.items_by_name.seq().len(),
                forall|k: int|
                    0 <= k < items_total ==> (#[trigger] block.segments@[k].kind) is OtherUserCode,
                forall|k: int|
                    0 <= k < n_items ==> (#[trigger] block.segments@[k]).code@ == terminated(
                        self.items_by_name.seq()[k].value@,
                    ),
                forall|k: int|
                    n_items <= k < items_total ==> (#[trigger] block.segments@[k]).code@
                        == terminated(self.unnamed_items@[k - n_items]@),
                block.segments@[items_total].kind is OtherGeneratedCode,
                block.segments@[items_total].code@ == terminated(
                    spec_wrapper_open(
                        entry@,
                        catch,
                        self.async_mode,
                        self.allow_question_mark,
                        spec_error_format(self.config@.error_fmt_index as int),
                    ),
                ),
                forall|k: int|
                    items_total < k < block.segments@.len() ==> (#[trigger] block.segments@[k].kind)
                        is PackVariable,
                forall|k: int|
                    items_total < k < block.segments@.len() ==> exists|w: int|
                        0 <= w < n_vars && self.variable_states.seq()[w].state@.move_state
                            == VariableMoveState::Available && (#[trigger] block.segments@[k]).code@
                            == terminated(
                            spec_unpack_line(
                                self.variable_states.seq()[w].name@,
                                self.variable_states.seq()[w].state@.var_type,
                                self.variable_states.seq()[w].state@.is_mut,
                            ),
                        ),
            decreases n_vars - v,
        {
            let ghost pre = block.segments@;
            let e = self.variable_states.entry_at(v);
            if matches!(e.state.move_state, VariableMoveState::Available) {
                let line = unpack_line(
                    e.name.as_str(),
                    e.state.var_type.as_str(),
                    e.state.is_mut,
                );
                block = block.with(
                    CodeKind::PackVariable { variable_name: e.name.clone() },
                    line,
                );
                proof {
                    assert(forall|k: int|
                        0 <= k < pre.len() ==> #[trigger] block.segments@[k] == pre[k]);
                    let last = block.segments@.len() - 1;
                    assert(self.variable_states.seq()[v as int].state@.move_state
                        == VariableMoveState::Available && block.segments@[last].code@
                        == terminated(
                        spec_unpack_line(
                            self.variable_states.seq()[v as int].name@,
                            self.variable_states.seq()[v as int].state@.var_type,
                            self.variable_states.seq()[v as int].state@.is_mut,
                        ),
                    ));
                }
            }
            v += 1;
        }
        let prelude_len = block.segments.len();
        // The caller's code, untouched.
        let ghost pre_user = block.segments@;
        let mut user_vec = user_code.segments;
        let user_len = user_vec.len();
        let mut w: usize = 0;
        while w < user_len
            invariant
                user_len == user.len(),
                w <= user_len,
                user_vec@ =~= user.skip(w as int),
                block.segments@ =~= pre_user + user.take(w as int),
            decreases user_len - w,
        {
            let seg = user_vec.remove(0);
            proof {
                assert(seg == user[w as int]);
                assert(user_vec@ =~= user.skip(w + 1));
                assert(block.segments@.push(seg) =~= pre_user + user.take(w + 1));
            }
            block = block.with_segment(seg);
            w += 1;
        }
        proof {
            assert(user.take(user_len as int) =~= user);
        }
        // Pack every variable back into the store.
        let ghost pre_pack = block.segments@;
        let mut p: usize = 0;
        while p < n_vars
            invariant
                n_vars == self.variable_states.seq().len(),
                self.variable_states.wf(),
                p <= n_vars,
                block.segments@.len() == pre_pack.len() + p,
                forall|k: int| 0 <= k < pre_pack.len() ==> #[trigger] block.segments@[k]
                    == pre_pack[k],
                forall|j: int|
                    0 <= j < p ==> ((#[trigger] block.segments@[pre_pack.len() + j].kind) matches
                        CodeKind::PackVariable { variable_name } && variable_name@
                        == self.variable_states.seq()[j].name@ && block.segments@[pre_pack.len()
                        + j].code@ == terminated(
                        spec_pack_line(self.variable_states.seq()[j].name@),
                    )),
                forall|j: int|
                    0 <= j < p ==> seg_wf(#[trigger] block.segments@[pre_pack.len() + j]),
            decreases n_vars - p,
        {
            let e = self.variable_states.entry_at(p);
            let line = pack_line(e.name.as_str());
            block = block.with(CodeKind::PackVariable { variable_name: e.name.clone() }, line);
            p += 1;
        }
        // Close the entry function.
        let ghost pre_close = block.segments@;
        block = block.generated(wrapper_close(catch, self.async_mode, self.allow_question_mark));
        proof {
            if block_wf(user_code) {
                let lp = pre_user.len() as int;
                let lu = user.len() as int;
                assert forall|i: int|
                    0 <= i < block.segments@.len() implies seg_wf(#[trigger] block.segments@[i]) by {
                    if i < lp {
                        assert(block.segments@[i] == pre_pack[i]);
                        assert(pre_pack[i] == pre_user[i]);
                    } else if i < lp + lu {
                        assert(block.segments@[i] == pre_pack[i]);
                        assert(pre_pack[i] == user[i - lp]);
                        assert(seg_wf(user_code.segments@[i - lp]));
                    } else if i < block.segments@.len() - 1 {
                        assert(block.segments@[i] == pre_close[i]);
                        assert(seg_wf(pre_close[pre_pack.len() + (i - lp - lu)]));
                    }
                }
            }
        }
        SynthesizedUnit { code: block, prelude_len, user_len }
    }

    /// The unit to hand to the external compiler for a run. The entry symbol
    /// carries the build number; in the panic-catching mode the user code
    /// runs inside the runtime's boundary.
    pub fn code_to_compile(&self, user_code: CodeBlock, mode: CompilationMode) -> (r:
        SynthesizedUnit)
        requires
            self.wf(),
        ensures
            synthesis_shape(*self, user_code.segments@, r),
            block_wf(user_code) ==> block_wf(r.code),
            r.code.segments@[(self.items_by_name.seq().len()
                + self.unnamed_items@.len()) as int].code@ == terminated(
                spec_wrapper_open(
                    "run_user_code_"@ + spec_decimal(self.build_num as int),
                    mode is RunAndCatchPanics,
                    self.async_mode,
                    self.allow_question_mark,
                    spec_error_format(self.config@.error_fmt_index as int),
                ),
            ),
            r.code.segments@.last().code@ == terminated(
                spec_wrapper_close(
                    mode is RunAndCatchPanics,
                    self.async_mode,
                    self.allow_question_mark,
                ),
            ),
    {
        let entry = user_fn_name(self.build_num);
        let catch = matches!(mode, CompilationMode::RunAndCatchPanics);
        self.assemble(user_code, entry.as_str(), catch)
    }

    /// The unit handed to analysis passes: the same assembly under a fixed
    /// wrapper name, without the panic-catching boundary, so that offsets
    /// stay put.
    pub fn analysis_code(&self, user_code: CodeBlock) -> (r: SynthesizedUnit)
        requires
            self.wf(),
        ensures
            synthesis_shape(*self, user_code.segments@, r),
            block_wf(user_code) ==> block_wf(r.code),
            r.code.segments@[(self.items_by_name.seq().len()
                + self.unnamed_items@.len()) as int].code@ == terminated(
                spec_wrapper_open(
                    "evcxr_analysis_wrapper"@,
                    false,
                    self.async_mode,
                    self.allow_question_mark,
                    spec_error_format(self.config@.error_fmt_index as int),
                ),
            ),
            r.code.segments@.last().code@ == terminated(
                spec_wrapper_close(false, self.async_mode, self.allow_question_mark),
            ),
    {
        self.assemble(user_code, "evcxr_analysis_wrapper", false)
    }
}

/// The generated statement that captures and displays a trailing bare
/// expression, formatted with the session's output format.
pub open spec fn spec_display_stmt(fmt: Seq<char>, expr: Seq<char>) -> Seq<char> {
    "evcxr_internal_runtime::send_text_plain(&format!(\""@ + fmt + "\", &("@ + expr + ")));"@
}

/// Build the display statement for a trailing bare expression.
pub fn display_stmt(fmt: &str, expr: &str) -> (r: String)
    ensures
        r@ == spec_display_stmt(fmt@, expr@),
{
    let mut out = String::new();
    out.append("evcxr_internal_runtime::send_text_plain(&format!(\"");
    out.append(fmt);
    out.append("\", &(");
    out.append(expr);
    out.append(")));");
    proof {
        assert(out@ =~= spec_display_stmt(fmt@, expr@));
    }
    out
}

impl ContextState {
    /// When the caller's code ends in a bare expression and displaying it is
    /// enabled, append the generated statement that captures and displays
    /// it; analysis passes leave the code untouched so offsets stay put.
    pub fn append_final_expression_display(&self, user_code: CodeBlock, final_expr: &str) -> (r:
        CodeBlock)
        ensures
            self.config@.display_final_expression ==> r.segments@.len()
                == user_code.segments@.len() + 1 && (forall|i: int|
                0 <= i < user_code.segments@.len() ==> #[trigger] r.segments@[i]
                    == user_code.segments@[i]) && r.segments@.last().kind is OtherGeneratedCode
                && r.segments@.last().code@ == terminated(
                spec_display_stmt(self.config@.output_format, final_expr@),
            ),
            !self.config@.display_final_expression ==> r == user_code,
    {
        if self.config.display_final_expression {
            let text = display_stmt(self.config.output_format.as_str(), final_expr);
            user_code.generated(text)
        } else {
            user_code
        }
    }
}

/// What the analysis front end reports about one statement of the new
/// code. Parsing itself is an external collaborator; only its plain results
/// enter here.
#[derive(Debug)]
pub enum StatementInfo {
    /// An item declaration with a usable name.
    NamedItem { name: String, text: String },
    /// An item declaration without one.
    UnnamedItem { text: String },
    /// A `use` declaration binding a name.
    ImportNamed { name: String, code: String },
    /// A `use` declaration binding no name.
    ImportUnnamed { code: String },
    /// An ordinary statement.
    Statement,
    /// A trailing bare expression.
    TailExpression { text: String },
}

/// The accumulated items map after recording each statement in turn: named
/// items and named imports land under their name, a later definition
/// replacing an earlier one.
pub open spec fn fold_items(
    m: Map<Seq<char>, Seq<char>>,
    infos: Seq<StatementInfo>,
) -> Map<Seq<char>, Seq<char>>
    decreases infos.len(),
{
    if infos.len() == 0 {
        m
    } else {
        let rest = fold_items(m, infos.drop_last());
        match infos.last() {
            StatementInfo::NamedItem { name, text } => rest.insert(name@, text@),
            StatementInfo::ImportNamed { name, code } => rest.insert(name@, code@),
            _ => rest,
        }
    }
}

/// The texts of the unnamed items among the statements, in order.
pub open spec fn fold_unnamed(infos: Seq<StatementInfo>) -> Seq<Seq<char>>
    decreases infos.len(),
{
    if infos.len() == 0 {
        Seq::empty()
    } else {
        let front = fold_unnamed(infos.drop_last());
        match infos.last() {
            StatementInfo::UnnamedItem { text } => front.push(text@),
            StatementInfo::ImportUnnamed { code } => front.push(code@),
            _ => front,
        }
    }
}

/// Does the new code end in a bare expression?
pub open spec fn has_tail_expression(infos: Seq<StatementInfo>) -> bool {
    infos.len() > 0 && infos.last() is TailExpression
}

impl ContextState {
    /// Fold what the analysis front end learned about the new code into the
    /// working state — declared items and imports accumulate under their
    /// names — and, when the code ends in a bare expression and displaying
    /// is enabled, append the generated statement that displays it.
    pub fn apply(&mut self, user_code: CodeBlock, infos: &Vec<StatementInfo>) -> (r: CodeBlock)
        requires
            old(self).wf(),
        ensures
            final(self).wf(),
            final(self).items_by_name@ == fold_items(old(self).items_by_name@, infos@),
            final(self).unnamed_items@.len() == old(self).unnamed_items@.len() + fold_unnamed(
                infos@,
            ).len(),
            forall|i: int|
                0 <= i < old(self).unnamed_items@.len() ==> #[trigger] final(self).unnamed_items@[i] == old(self).unnamed_items@[i],
            forall|k: int|
                0 <= k < fold_unnamed(infos@).len() ==> (#[trigger] final(self).unnamed_items@[old(self).unnamed_items@.len() + k])@ == fold_unnamed(infos@)[k],
            final(self).variable_states == old(self).variable_states,
            final(self).stored_variable_states == old(self).stored_variable_states,
            final(self).external_deps == old(self).external_deps,
            final(self).extern_crate_stmts == old(self).extern_crate_stmts,
            final(self).config == old(self).config,
            match infos@.last() {
                StatementInfo::TailExpression { text } => if infos@.len() > 0 && final(self).config@.display_final_expression {
                    &&& r.segments@.len() == user_code.segments@.len() + 1
                    &&& (forall|i: int|
                        0 <= i < user_code.segments@.len() ==> #[trigger] r.segments@[i]
                            == user_code.segments@[i])
                    &&& r.segments@.last().kind is OtherGeneratedCode
                    &&& r.segments@.last().code@ == terminated(
                        spec_display_stmt(final(self).config@.output_format, text@),
                    )
                } else {
                    r == user_code
                },
                _ => r == user_code,
            },
    {
        let ghost all = infos@;
        let n = infos.len();
        let mut i: usize = 0;
        while i < n
            invariant
                n == all.len(),
                all == infos@,
                self.wf(),
                self.items_by_name@ == fold_items(old(self).items_by_name@, all.take(i as int)),
                self.unnamed_items@.len() == old(self).unnamed_items@.len() + fold_unnamed(
                    all.take(i as int),
                ).len(),
                forall|a: int|
                    0 <= a < old(self).unnamed_items@.len() ==> #[trigger] self.unnamed_items@[a]
                        == old(self).unnamed_items@[a],
                forall|k: int|
                    0 <= k < fold_unnamed(all.take(i as int)).len() ==> (
                    #[trigger] self.unnamed_items@[old(self).unnamed_items@.len() + k])@
                        == fold_unnamed(all.take(i as int))[k],
                self.variable_states == old(self).variable_states,
                self.stored_variable_states == old(self).stored_variable_states,
                self.external_deps == old(self).external_deps,
                self.extern_crate_stmts == old(self).extern_crate_stmts,
                self.config == old(self).config,
                i <= n,
            decreases n - i,
        {
            proof {
                assert(all.take(i + 1).drop_last() =~= all.take(i as int));
                assert(all.take(i + 1).last() == all[i as int]);
            }
            match &infos[i] {
                StatementInfo::NamedItem { name, text } => {
                    self.record_item(name.as_str(), text.as_str());
                },
                StatementInfo::UnnamedItem { text } => {
                    self.record_unnamed_item(text.as_str());
                },
                StatementInfo::ImportNamed { name, code } => {
                    self.record_item(name.as_str(), code.as_str());
                },
                StatementInfo::ImportUnnamed { code } => {
                    self.record_unnamed_item(code.as_str());
                },
                StatementInfo::Statement => {},
                StatementInfo::TailExpression { text: _ } => {},
            }
            i += 1;
        }
        proof {
            assert(all.take(n as int) =~= all);
        }
        if n > 0 {
            let is_tail = matches!(infos[n - 1], StatementInfo::TailExpression { .. });
            if is_tail {
                match &infos[n - 1] {
                    StatementInfo::TailExpression { text } => {
                        return self.append_final_expression_display(user_code, text.as_str());
                    },
                    _ => {},
                }
            }
        }
        user_code
    }
}

/// The caller's own segments within a synthesized unit.
pub open spec fn unit_user_segments(unit: SynthesizedUnit) -> Seq<Segment> {
    unit.code.segments@.subrange(unit.prelude_len as int, unit.prelude_len + unit.user_len)
}

/// Take the caller's own segments back out of a synthesized unit, exactly as
/// they went in.
pub fn recover_user_code(unit: SynthesizedUnit) -> (r: CodeBlock)
    requires
        unit.prelude_len + unit.user_len <= unit.code.segments@.len(),
    ensures
        r.segments@ == unit.code.segments@.subrange(
            unit.prelude_len as int,
            unit.prelude_len + unit.user_len,
        ),
{
    let ghost all = unit.code.segments@;
    let mut vec = unit.code.segments;
    let mut out: Vec<Segment> = Vec::new();
    let mut skipped: usize = 0;
    while skipped < unit.prelude_len
        invariant
            unit.prelude_len + unit.user_len <= all.len(),
            skipped <= unit.prelude_len,
            vec@ =~= all.skip(skipped as int),
        decreases unit.prelude_len - skipped,
    {
        vec.remove(0);
        proof {
            assert(vec@ =~= all.skip(skipped + 1));
        }
        skipped += 1;
    }
    let mut taken: usize = 0;
    while taken < unit.user_len
        invariant
            unit.prelude_len + unit.user_len <= all.len(),
            taken <= unit.user_len,
            vec@ =~= all.skip(unit.prelude_len + taken as int),
            out@ =~= all.subrange(
                unit.prelude_len as int,
                unit.prelude_len + taken,
            ),
        decreases unit.user_len - taken,
    {
        let seg = vec.remove(0);
        proof {
            assert(seg == all[unit.prelude_len + taken]);
            assert(vec@ =~= all.skip(unit.prelude_len + taken + 1));
            assert(out@.push(seg) =~= all.subrange(
                unit.prelude_len as int,
                unit.prelude_len + taken + 1,
            ));
        }
        out.push(seg);
        taken += 1;
    }
    CodeBlock { segments: out }
}

} // verus!

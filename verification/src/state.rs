//! The state snapshot: every persistent fact learned from prior successful
//! runs of a session. A submission works on a copy; only a successful
//! execution commits the copy, so a failed submission never leaves a partial
//! change behind.

use vstd::prelude::*;

use crate::errors::Error;
use crate::errors::string_from;
use crate::strmap::StrMap;
use crate::strmap::insert_order_ok;
use crate::text::str_eq;
use crate::variables::VarMap;
use crate::variables::VarView;
use crate::variables::VariableMoveState;
use crate::variables::VariableState;
use crate::variables::avail_only;
use crate::variables::committed_map;
use crate::variables::committed_var;
use crate::variables::var_insert_order_ok;

verus! {

/// Compile-time configuration of a session. Preserved by `:clear`.
#[derive(Debug)]
pub struct Config {
    pub debug_mode: bool,
    /// Whether variables are to be kept when a run panics.
    pub preserve_vars_on_panic: bool,
    /// Format string used to display the final expression.
    pub output_format: String,
    pub display_types: bool,
    /// Whether a trailing bare expression is captured and displayed. Turned
    /// off during analysis passes, since wrapping would shift offsets.
    pub display_final_expression: bool,
    /// Whether `use` statements are expanded and deduplicated.
    pub expand_use_statements: bool,
    pub opt_level: String,
    /// Index into the error-format table.
    pub error_fmt_index: usize,
    pub time_passes: bool,
    pub linker: String,
    pub sccache: Option<String>,
    pub offline_mode: bool,
    pub toolchain: String,
}

/// Mathematical value of a `Config`.
#[verifier::ext_equal]
pub struct ConfigV {
    pub debug_mode: bool,
    pub preserve_vars_on_panic: bool,
    pub output_format: Seq<char>,
    pub display_types: bool,
    pub display_final_expression: bool,
    pub expand_use_statements: bool,
    pub opt_level: Seq<char>,
    pub error_fmt_index: usize,
    pub time_passes: bool,
    pub linker: Seq<char>,
    pub sccache: Option<Seq<char>>,
    pub offline_mode: bool,
    pub toolchain: Seq<char>,
}

impl View for Config {
    type V = ConfigV;

    open spec fn view(&self) -> ConfigV {
        ConfigV {
            debug_mode: self.debug_mode,
            preserve_vars_on_panic: self.preserve_vars_on_panic,
            output_format: self.output_format@,
            display_types: self.display_types,
            display_final_expression: self.display_final_expression,
            expand_use_statements: self.expand_use_statements,
            opt_level: self.opt_level@,
            error_fmt_index: self.error_fmt_index,
            time_passes: self.time_passes,
            linker: self.linker@,
            sccache: match self.sccache {
                Some(ref p) => Some(p@),
                None => None,
            },
            offline_mode: self.offline_mode,
            toolchain: self.toolchain@,
        }
    }
}

impl Clone for Config {
    fn clone(&self) -> (r: Self)
        ensures
            r@ == self@,
    {
        Config {
            debug_mode: self.debug_mode,
            preserve_vars_on_panic: self.preserve_vars_on_panic,
            output_format: self.output_format.clone(),
            display_types: self.display_types,
            display_final_expression: self.display_final_expression,
            expand_use_statements: self.expand_use_statements,
            opt_level: self.opt_level.clone(),
            error_fmt_index: self.error_fmt_index,
            time_passes: self.time_passes,
            linker: self.linker.clone(),
            sccache: match &self.sccache {
                Some(p) => Some(p.clone()),
                None => None,
            },
            offline_mode: self.offline_mode,
            toolchain: self.toolchain.clone(),
        }
    }
}

/// The error-format table: how a displayed error is formatted and which
/// trait that formatting goes through.
pub open spec fn spec_error_format(i: int) -> Seq<char> {
    if i == 1 {
        "{:?}"@
    } else if i == 2 {
        "{:#?}"@
    } else {
        "{}"@
    }
}

pub open spec fn spec_error_format_trait(i: int) -> Seq<char> {
    if i == 1 || i == 2 {
        "std::fmt::Debug"@
    } else {
        "std::fmt::Display"@
    }
}

/// The format string of error-format entry `i`.
pub fn error_format_str(i: usize) -> (r: &'static str)
    ensures
        r@ == spec_error_format(i as int),
{
    if i == 1 {
        "{:?}"
    } else if i == 2 {
        "{:#?}"
    } else {
        "{}"
    }
}

/// The trait error-format entry `i` formats through.
pub fn error_format_trait_str(i: usize) -> (r: &'static str)
    ensures
        r@ == spec_error_format_trait(i as int),
{
    if i == 1 || i == 2 {
        "std::fmt::Debug"
    } else {
        "std::fmt::Display"
    }
}

impl Config {
    /// The defaults a fresh session starts from.
    pub fn new() -> (r: Config)
        ensures
            !r@.debug_mode,
            r@.preserve_vars_on_panic,
            r@.output_format == "{:?}"@,
            !r@.display_types,
            r@.display_final_expression,
            r@.expand_use_statements,
            r@.opt_level == "2"@,
            r@.error_fmt_index == 0,
            !r@.time_passes,
            r@.linker == "system"@,
            r@.sccache is None,
            !r@.offline_mode,
            r@.toolchain == ""@,
    {
        Config {
            debug_mode: false,
            preserve_vars_on_panic: true,
            output_format: string_from("{:?}"),
            display_types: false,
            display_final_expression: true,
            expand_use_statements: true,
            opt_level: string_from("2"),
            error_fmt_index: 0,
            time_passes: false,
            linker: string_from("system"),
            sccache: None,
            offline_mode: false,
            toolchain: string_from(""),
        }
    }

    /// Select the error format by its format string. Only the three entries
    /// of the table are accepted.
    pub fn set_error_format(&mut self, format_str: &str) -> (r: Result<(), Error>)
        ensures
            (r is Ok) <==> (format_str@ == "{}"@ || format_str@ == "{:?}"@ || format_str@
                == "{:#?}"@),
            format_str@ == "{}"@ ==> final(self)@ == (ConfigV {
                error_fmt_index: 0,
                ..old(self)@
            }),
            format_str@ == "{:?}"@ ==> final(self)@ == (ConfigV {
                error_fmt_index: 1,
                ..old(self)@
            }),
            format_str@ == "{:#?}"@ ==> final(self)@ == (ConfigV {
                error_fmt_index: 2,
                ..old(self)@
            }),
            (r is Err) ==> final(self)@ == old(self)@,
    {
        proof {
            reveal_strlit("{}");
            reveal_strlit("{:?}");
            reveal_strlit("{:#?}");
            assert("{}"@.len() == 2);
            assert("{:?}"@.len() == 4);
            assert("{:#?}"@.len() == 5);
        }
        if str_eq(format_str, "{}") {
            self.error_fmt_index = 0;
            proof {
                assert(final(self)@ =~= ConfigV { error_fmt_index: 0, ..old(self)@ });
            }
            Ok(())
        } else if str_eq(format_str, "{:?}") {
            self.error_fmt_index = 1;
            proof {
                assert(final(self)@ =~= ConfigV { error_fmt_index: 1, ..old(self)@ });
            }
            Ok(())
        } else if str_eq(format_str, "{:#?}") {
            self.error_fmt_index = 2;
            proof {
                assert(final(self)@ =~= ConfigV { error_fmt_index: 2, ..old(self)@ });
            }
            Ok(())
        } else {
            Err(
                Error::Message(
                    string_from(
                        "Unsupported error format string. Available options: {}, {:?}, {:#?}",
                    ),
                ),
            )
        }
    }

    /// Set the optimization level; it must not be empty.
    pub fn set_opt_level(&mut self, level: &str) -> (r: Result<(), Error>)
        ensures
            (r is Ok) <==> level@.len() > 0,
            (r is Ok) ==> final(self)@ == (ConfigV { opt_level: level@, ..old(self)@ }),
            (r is Err) ==> final(self)@ == old(self)@,
    {
        if level.unicode_len() == 0 {
            return Err(Error::Message(string_from("Optimization level cannot be an empty string")));
        }
        self.opt_level = level.to_owned();
        proof {
            assert(final(self)@ =~= ConfigV { opt_level: level@, ..old(self)@ });
        }
        Ok(())
    }
}

/// The type the analyzer inferred for a variable about to be persisted.
#[derive(Debug)]
pub enum TypeName {
    /// A nameable type, usable in generated code.
    Named(String),
    /// A closure; closures cannot be persisted.
    Closure,
    /// No type could be determined.
    Unknown,
}

/// Accumulated persistent facts of one session, as of its last committed
/// point, plus the transient facts of the submission being attempted.
#[derive(Debug)]
pub struct ContextState {
    /// Declared items (functions, structs, impls) by name, re-emitted ahead
    /// of new code so name resolution sees the accumulated program.
    pub items_by_name: StrMap,
    /// Declared items without a usable name.
    pub unnamed_items: Vec<String>,
    /// Registered external dependencies: crate name to dependency
    /// configuration.
    pub external_deps: StrMap,
    /// `extern crate` statements by crate name.
    pub extern_crate_stmts: StrMap,
    /// States of variables, including ones just defined by code about to be
    /// executed.
    pub variable_states: VarMap,
    /// States of variables as of the last commit; never holds transient
    /// mid-attempt entries.
    pub stored_variable_states: VarMap,
    pub async_mode: bool,
    pub allow_question_mark: bool,
    pub build_num: u64,
    pub config: Config,
}

impl ContextState {
    pub open spec fn wf(&self) -> bool {
        &&& self.items_by_name.wf()
        &&& self.external_deps.wf()
        &&& self.extern_crate_stmts.wf()
        &&& self.variable_states.wf()
        &&& self.stored_variable_states.wf()
    }

    /// A fresh state carrying only configuration.
    pub fn new(config: Config) -> (r: ContextState)
        ensures
            r.wf(),
            r.items_by_name@ == Map::<Seq<char>, Seq<char>>::empty(),
            r.unnamed_items@.len() == 0,
            r.external_deps@ == Map::<Seq<char>, Seq<char>>::empty(),
            r.extern_crate_stmts@ == Map::<Seq<char>, Seq<char>>::empty(),
            r.variable_states@ == Map::<Seq<char>, VarView>::empty(),
            r.stored_variable_states@ == Map::<Seq<char>, VarView>::empty(),
            !r.async_mode,
            !r.allow_question_mark,
            r.build_num == 0,
            r.config@ == config@,
    {
        ContextState {
            items_by_name: StrMap::new(),
            unnamed_items: Vec::new(),
            external_deps: StrMap::new(),
            extern_crate_stmts: StrMap::new(),
            variable_states: VarMap::new(),
            stored_variable_states: VarMap::new(),
            async_mode: false,
            allow_question_mark: false,
            build_num: 0,
            config,
        }
    }

    /// The state that results from `:clear`: everything forgotten but the
    /// configuration.
    pub fn cleared(&self) -> (r: ContextState)
        ensures
            r.wf(),
            r.items_by_name@ == Map::<Seq<char>, Seq<char>>::empty(),
            r.unnamed_items@.len() == 0,
            r.external_deps@ == Map::<Seq<char>, Seq<char>>::empty(),
            r.extern_crate_stmts@ == Map::<Seq<char>, Seq<char>>::empty(),
            r.variable_states@ == Map::<Seq<char>, VarView>::empty(),
            r.stored_variable_states@ == Map::<Seq<char>, VarView>::empty(),
            !r.async_mode,
            !r.allow_question_mark,
            r.build_num == 0,
            r.config@ == self.config@,
    {
        ContextState::new(self.config.clone())
    }

    /// Commit after a successful execution: every variable is confirmed
    /// available, one-time definition spans are discarded, and the stored
    /// variable states become a snapshot of the variable states.
    pub fn commit_variables(&mut self)
        requires
            old(self).wf(),
        ensures
            final(self).wf(),
            final(self).variable_states@ == committed_map(old(self).variable_states@),
            final(self).stored_variable_states@ == committed_map(old(self).variable_states@),
            final(self).variable_states.seq().len() == old(self).variable_states.seq().len(),
            final(self).stored_variable_states.seq().len() == old(
                self,
            ).variable_states.seq().len(),
            forall|i: int|
                0 <= i < old(self).variable_states.seq().len() ==> {
                    let pre = old(self).variable_states.seq()[i];
                    &&& (#[trigger] final(self).variable_states.seq()[i]).name@ == pre.name@
                    &&& final(self).variable_states.seq()[i].state@ == committed_var(pre.state@)
                    &&& final(self).stored_variable_states.seq()[i].name@ == pre.name@
                    &&& final(self).stored_variable_states.seq()[i].state@ == committed_var(
                        pre.state@,
                    )
                },
            final(self).items_by_name == old(self).items_by_name,
            final(self).unnamed_items == old(self).unnamed_items,
            final(self).external_deps == old(self).external_deps,
            final(self).extern_crate_stmts == old(self).extern_crate_stmts,
            final(self).async_mode == old(self).async_mode,
            final(self).allow_question_mark == old(self).allow_question_mark,
            final(self).build_num == old(self).build_num,
            final(self).config == old(self).config,
    {
        self.variable_states.commit_all();
        self.stored_variable_states = self.variable_states.duplicate();
    }

    /// The state's share of handling a panic or an early error return during
    /// execution: variables still `New` were never fully constructed and are
    /// dropped; variables already `Available` are kept, with their types and
    /// mutability untouched. The stored states are not affected.
    pub fn drop_new_variables(&mut self)
        requires
            old(self).wf(),
        ensures
            final(self).wf(),
            final(self).variable_states@ == avail_only(old(self).variable_states@),
            final(self).stored_variable_states == old(self).stored_variable_states,
            final(self).items_by_name == old(self).items_by_name,
            final(self).unnamed_items == old(self).unnamed_items,
            final(self).external_deps == old(self).external_deps,
            final(self).extern_crate_stmts == old(self).extern_crate_stmts,
            final(self).async_mode == old(self).async_mode,
            final(self).allow_question_mark == old(self).allow_question_mark,
            final(self).build_num == old(self).build_num,
            final(self).config == old(self).config,
    {
        self.variable_states.drop_new();
    }

    /// The state's share of a worker crash: the worker's memory is gone, so
    /// no variable survives, neither transient nor stored.
    pub fn on_worker_terminated(&mut self)
        requires
            old(self).wf(),
        ensures
            final(self).wf(),
            final(self).variable_states@ == Map::<Seq<char>, VarView>::empty(),
            final(self).stored_variable_states@ == Map::<Seq<char>, VarView>::empty(),
            final(self).items_by_name == old(self).items_by_name,
            final(self).unnamed_items == old(self).unnamed_items,
            final(self).external_deps == old(self).external_deps,
            final(self).extern_crate_stmts == old(self).extern_crate_stmts,
            final(self).async_mode == old(self).async_mode,
            final(self).allow_question_mark == old(self).allow_question_mark,
            final(self).build_num == old(self).build_num,
            final(self).config == old(self).config,
    {
        self.variable_states.clear();
        self.stored_variable_states.clear();
    }

    /// Drop one variable from both the transient and the stored states, as
    /// the fixups do when a variable has been moved or lost.
    pub fn remove_variable(&mut self, name: &str)
        requires
            old(self).wf(),
        ensures
            final(self).wf(),
            final(self).variable_states@ == old(self).variable_states@.remove(name@),
            final(self).stored_variable_states@ == old(self).stored_variable_states@.remove(name@),
            final(self).items_by_name == old(self).items_by_name,
            final(self).external_deps == old(self).external_deps,
            final(self).async_mode == old(self).async_mode,
            final(self).allow_question_mark == old(self).allow_question_mark,
            final(self).config == old(self).config,
    {
        self.variable_states.remove(name);
        self.stored_variable_states.remove(name);
    }

    /// Record what the analyzer inferred about a variable the new code
    /// defines. A variable with no nameable type cannot be persisted: that is
    /// a hard error naming the variable, never a silent drop. A variable
    /// already known keeps its state and mutability; only its type is
    /// refreshed.
    pub fn record_variable(&mut self, name: &str, ty: TypeName, is_mut: bool) -> (r: Result<
        (),
        Error,
    >)
        requires
            old(self).wf(),
        ensures
            final(self).wf(),
            final(self).stored_variable_states == old(self).stored_variable_states,
            final(self).config == old(self).config,
            match ty {
                TypeName::Named(t) => r is Ok && var_insert_order_ok(
                    old(self).variable_states.seq(),
                    final(self).variable_states.seq(),
                    name@,
                    final(self).variable_states@[name@],
                ) && final(self).variable_states@ == if old(
                    self,
                ).variable_states@.contains_key(name@) {
                    old(self).variable_states@.insert(
                        name@,
                        VarView {
                            var_type: t@,
                            ..old(self).variable_states@[name@]
                        },
                    )
                } else {
                    old(self).variable_states@.insert(
                        name@,
                        VarView {
                            var_type: t@,
                            is_mut: is_mut,
                            move_state: VariableMoveState::New,
                            definition_span: None,
                        },
                    )
                },
                TypeName::Closure => r is Err && final(self).variable_states
                    == old(self).variable_states,
                TypeName::Unknown => r is Err && final(self).variable_states
                    == old(self).variable_states,
            },
    {
        match ty {
            TypeName::Named(t) => {
                let new_state = match self.variable_states.get(name) {
                    Some(existing) => VariableState {
                        var_type: t,
                        is_mut: existing.is_mut,
                        move_state: existing.move_state,
                        definition_span: existing.definition_span,
                    },
                    None => VariableState {
                        var_type: t,
                        is_mut,
                        move_state: VariableMoveState::New,
                        definition_span: None,
                    },
                };
                proof {
                    if old(self).variable_states@.contains_key(name@) {
                        assert(new_state@ =~= VarView {
                            var_type: new_state.var_type@,
                            ..old(self).variable_states@[name@]
                        });
                    }
                }
                self.variable_states.insert(name.to_owned(), new_state);
                Ok(())
            },
            TypeName::Closure => Err(
                Error::Message(
                    string_from(
                        "The variable is a closure, which cannot be persisted. You can persist closures if you box them, or prevent persistence by wrapping your code in braces.",
                    ),
                ),
            ),
            TypeName::Unknown => Err(
                Error::Message(
                    string_from(
                        "Couldn't automatically determine the type of the variable. Please give it an explicit type.",
                    ),
                ),
            ),
        }
    }

    /// The names and types of the session's variables, in insertion order.
    pub fn variables_and_types(&self) -> (r: Vec<(String, String)>)
        ensures
            r@.len() == self.variable_states.seq().len(),
            forall|i: int|
                0 <= i < r@.len() ==> (#[trigger] r@[i]).0@ == self.variable_states.seq()[i].name@
                    && r@[i].1@ == self.variable_states.seq()[i].state@.var_type,
    {
        let n = self.variable_states.len();
        let mut out: Vec<(String, String)> = Vec::new();
        let mut i: usize = 0;
        while i < n
            invariant
                n == self.variable_states.seq().len(),
                i <= n,
                out@.len() == i,
                forall|j: int|
                    0 <= j < i ==> (#[trigger] out@[j]).0@ == self.variable_states.seq()[j].name@
                        && out@[j].1@ == self.variable_states.seq()[j].state@.var_type,
            decreases n - i,
        {
            let e = self.variable_states.entry_at(i);
            out.push((e.name.clone(), e.state.var_type.clone()));
            i += 1;
        }
        out
    }

    /// The names of the declared items, in insertion order.
    pub fn defined_item_names(&self) -> (r: Vec<String>)
        ensures
            r@.len() == self.items_by_name.seq().len(),
            forall|i: int|
                0 <= i < r@.len() ==> (#[trigger] r@[i])@ == self.items_by_name.seq()[i].name@,
    {
        let n = self.items_by_name.len();
        let mut out: Vec<String> = Vec::new();
        let mut i: usize = 0;
        while i < n
            invariant
                n == self.items_by_name.seq().len(),
                i <= n,
                out@.len() == i,
                forall|j: int|
                    0 <= j < i ==> (#[trigger] out@[j])@ == self.items_by_name.seq()[j].name@,
            decreases n - i,
        {
            let e = self.items_by_name.entry_at(i);
            out.push(e.name.clone());
            i += 1;
        }
        out
    }

    /// Register a dependency under its crate name, replacing any earlier
    /// configuration for the same crate.
    pub fn add_dep(&mut self, name: &str, dep_config: &str)
        requires
            old(self).wf(),
        ensures
            final(self).wf(),
            final(self).external_deps@ == old(self).external_deps@.insert(name@, dep_config@),
            insert_order_ok(
                old(self).external_deps.seq(),
                final(self).external_deps.seq(),
                name@,
                dep_config@,
            ),
            final(self).variable_states == old(self).variable_states,
            final(self).stored_variable_states == old(self).stored_variable_states,
            final(self).items_by_name == old(self).items_by_name,
            final(self).unnamed_items == old(self).unnamed_items,
            final(self).extern_crate_stmts == old(self).extern_crate_stmts,
            final(self).async_mode == old(self).async_mode,
            final(self).allow_question_mark == old(self).allow_question_mark,
            final(self).build_num == old(self).build_num,
            final(self).config == old(self).config,
    {
        self.external_deps.insert(name.to_owned(), dep_config.to_owned());
    }

    /// Record a declared item under its name; a redefinition replaces the
    /// earlier one.
    pub fn record_item(&mut self, name: &str, code: &str)
        requires
            old(self).wf(),
        ensures
            final(self).wf(),
            final(self).items_by_name@ == old(self).items_by_name@.insert(name@, code@),
            insert_order_ok(
                old(self).items_by_name.seq(),
                final(self).items_by_name.seq(),
                name@,
                code@,
            ),
            final(self).variable_states == old(self).variable_states,
            final(self).stored_variable_states == old(self).stored_variable_states,
            final(self).external_deps == old(self).external_deps,
            final(self).extern_crate_stmts == old(self).extern_crate_stmts,
            final(self).unnamed_items == old(self).unnamed_items,
            final(self).config == old(self).config,
    {
        self.items_by_name.insert(name.to_owned(), code.to_owned());
    }

    /// Record a declared item that has no usable name.
    pub fn record_unnamed_item(&mut self, code: &str)
        ensures
            final(self).unnamed_items@.len() == old(self).unnamed_items@.len() + 1,
            final(self).unnamed_items@.last()@ == code@,
            forall|i: int|
                0 <= i < old(self).unnamed_items@.len() ==> final(self).unnamed_items@[i] == old(
                    self,
                ).unnamed_items@[i],
            final(self).variable_states == old(self).variable_states,
            final(self).stored_variable_states == old(self).stored_variable_states,
            final(self).items_by_name == old(self).items_by_name,
            final(self).external_deps == old(self).external_deps,
            final(self).extern_crate_stmts == old(self).extern_crate_stmts,
            final(self).config == old(self).config,
    {
        self.unnamed_items.push(code.to_owned());
    }

    /// An independent working copy, field for field. Every submission works
    /// on such a copy; only a successful execution commits it, so a failed
    /// submission never leaves a partial change behind.
    pub fn duplicate(&self) -> (r: ContextState)
        requires
            self.wf(),
        ensures
            r.wf(),
            r.items_by_name@ == self.items_by_name@,
            r.items_by_name.seq().len() == self.items_by_name.seq().len(),
            forall|i: int|
                0 <= i < self.items_by_name.seq().len() ==> (
                #[trigger] r.items_by_name.seq()[i]).name@ == self.items_by_name.seq()[i].name@
                    && r.items_by_name.seq()[i].value@ == self.items_by_name.seq()[i].value@,
            r.unnamed_items@.len() == self.unnamed_items@.len(),
            forall|i: int|
                0 <= i < self.unnamed_items@.len() ==> (#[trigger] r.unnamed_items@[i])@
                    == self.unnamed_items@[i]@,
            r.external_deps@ == self.external_deps@,
            r.external_deps.seq().len() == self.external_deps.seq().len(),
            forall|i: int|
                0 <= i < self.external_deps.seq().len() ==> (
                #[trigger] r.external_deps.seq()[i]).name@ == self.external_deps.seq()[i].name@
                    && r.external_deps.seq()[i].value@ == self.external_deps.seq()[i].value@,
            r.extern_crate_stmts@ == self.extern_crate_stmts@,
            r.variable_states@ == self.variable_states@,
            r.variable_states.seq().len() == self.variable_states.seq().len(),
            forall|i: int|
                0 <= i < self.variable_states.seq().len() ==> (
                #[trigger] r.variable_states.seq()[i]).name@
                    == self.variable_states.seq()[i].name@ && r.variable_states.seq()[i].state@
                    == self.variable_states.seq()[i].state@,
            r.stored_variable_states@ == self.stored_variable_states@,
            r.async_mode == self.async_mode,
            r.allow_question_mark == self.allow_question_mark,
            r.build_num == self.build_num,
            r.config@ == self.config@,
    {
        let n = self.unnamed_items.len();
        let mut unnamed: Vec<String> = Vec::new();
        let mut i: usize = 0;
        while i < n
            invariant
                n == self.unnamed_items@.len(),
                i <= n,
                unnamed@.len() == i,
                forall|j: int|
                    0 <= j < i ==> (#[trigger] unnamed@[j])@ == self.unnamed_items@[j]@,
            decreases n - i,
        {
            unnamed.push(self.unnamed_items[i].clone());
            i += 1;
        }
        ContextState {
            items_by_name: self.items_by_name.duplicate(),
            unnamed_items: unnamed,
            external_deps: self.external_deps.duplicate(),
            extern_crate_stmts: self.extern_crate_stmts.duplicate(),
            variable_states: self.variable_states.duplicate(),
            stored_variable_states: self.stored_variable_states.duplicate(),
            async_mode: self.async_mode,
            allow_question_mark: self.allow_question_mark,
            build_num: self.build_num,
            config: self.config.clone(),
        }
    }

    /// Note that a unit is about to be run: build numbers, and with them the
    /// entry symbols, never repeat within a session.
    pub fn bump_build_num(&mut self)
        requires
            old(self).build_num < u64::MAX,
        ensures
            final(self).build_num == old(self).build_num + 1,
            final(self).variable_states == old(self).variable_states,
            final(self).stored_variable_states == old(self).stored_variable_states,
            final(self).items_by_name == old(self).items_by_name,
            final(self).external_deps == old(self).external_deps,
            final(self).config == old(self).config,
            final(self).async_mode == old(self).async_mode,
            final(self).allow_question_mark == old(self).allow_question_mark,
    {
        self.build_num = self.build_num + 1;
    }

    /// Would evaluating with `new` instead of `self` have to recompile in a
    /// way that can fail? True when the dependencies or the build-affecting
    /// configuration changed.
    pub fn state_change_can_fail_compilation(&self, new: &ContextState) -> (r: bool)
        ensures
            r == !({
                &&& self.external_deps.seq().len() == new.external_deps.seq().len()
                &&& (forall|i: int|
                    0 <= i < self.external_deps.seq().len() ==> (
                    #[trigger] self.external_deps.seq()[i]).name@ == new.external_deps.seq()[i].name@
                        && self.external_deps.seq()[i].value@ == new.external_deps.seq()[i].value@)
                &&& self.config@.toolchain == new.config@.toolchain
                &&& self.config@.opt_level == new.config@.opt_level
                &&& self.config@.linker == new.config@.linker
            }),
    {
        let deps_same = self.external_deps.same_entries(&new.external_deps);
        let toolchain_same = str_eq(self.config.toolchain.as_str(), new.config.toolchain.as_str());
        let opt_same = str_eq(self.config.opt_level.as_str(), new.config.opt_level.as_str());
        let linker_same = str_eq(self.config.linker.as_str(), new.config.linker.as_str());
        !(deps_same && toolchain_same && opt_same && linker_same)
    }
}

/// A variable persisted by one submission and left untouched by the next
/// keeps its name, its type and its mutability: committing marks it
/// available and clears its one-time definition span, but changes nothing
/// else, and committing again changes nothing at all.
pub proof fn lemma_variable_persists(m: Map<Seq<char>, VarView>, name: Seq<char>)
    requires
        m.contains_key(name),
    ensures
        committed_map(m).contains_key(name),
        committed_map(m)[name].var_type == m[name].var_type,
        committed_map(m)[name].is_mut == m[name].is_mut,
        committed_map(m)[name].move_state == VariableMoveState::Available,
        committed_map(committed_map(m))[name] == committed_map(m)[name],
{
    lemma_commit_idempotent(m);
}

/// Committing is idempotent on the variable map: committing what is already
/// committed changes nothing. With `commit_variables` snapshotting that map
/// into the stored states, the stored variable states after a second commit
/// with no intervening submission equal those after the first.
pub proof fn lemma_commit_idempotent(m: Map<Seq<char>, VarView>)
    ensures
        committed_map(committed_map(m)) == committed_map(m),
{
    assert(committed_map(committed_map(m)) =~= committed_map(m));
}

/// Committing twice in a row, stated over the states themselves: if `s2`
/// records a commit of `s1` and `s3` a commit of `s2` with nothing in
/// between, then `s3` holds the same variables, stored and transient, as
/// `s2`.
pub proof fn lemma_commit_twice(s1: ContextState, s2: ContextState, s3: ContextState)
    requires
        s2.variable_states@ == committed_map(s1.variable_states@),
        s2.stored_variable_states@ == committed_map(s1.variable_states@),
        s3.variable_states@ == committed_map(s2.variable_states@),
        s3.stored_variable_states@ == committed_map(s2.variable_states@),
    ensures
        s3.stored_variable_states@ == s2.stored_variable_states@,
        s3.variable_states@ == s2.variable_states@,
{
    lemma_commit_idempotent(s1.variable_states@);
}

} // verus!

//! The colon-prefixed command surface: a fixed table of named handlers,
//! looked up by exact name, each mutating the working state or producing
//! output. The table is an explicitly constructed read-only value.

use vstd::prelude::*;

use crate::code_block::CommandCall;
use crate::code_block::Segment;
use crate::code_block::count_columns;
use crate::code_block::spec_skip_spaces;
use crate::code_block::spec_token_end;
use crate::errors::CompilationError;
use crate::errors::Error;
use crate::errors::Span;
use crate::errors::SpannedMessage;
use crate::errors::string_from;
use crate::outputs::EvalOutputs;
use crate::state::ContextState;
use crate::text::str_eq;
use crate::variables::VarEntry;

verus! {

/// One entry of the command table.
#[derive(Debug)]
pub struct CommandDef {
    pub name: &'static str,
    pub help: &'static str,
}

/// The table of commands the session accepts, in display order.
pub fn available_commands() -> (r: Vec<CommandDef>)
    ensures
        r@.len() == 13,
        r@[0].name@ == ":clear"@,
        r@[1].name@ == ":dep"@,
        r@[2].name@ == ":opt"@,
        r@[3].name@ == ":fmt"@,
        r@[4].name@ == ":efmt"@,
        r@[5].name@ == ":preserve_vars_on_panic"@,
        r@[6].name@ == ":internal_debug"@,
        r@[7].name@ == ":time_passes"@,
        r@[8].name@ == ":offline"@,
        r@[9].name@ == ":toolchain"@,
        r@[10].name@ == ":linker"@,
        r@[11].name@ == ":vars"@,
        r@[12].name@ == ":help"@,
{
    let mut t: Vec<CommandDef> = Vec::new();
    t.push(CommandDef { name: ":clear", help: "Clear all state, keeping compilation cache" });
    t.push(CommandDef { name: ":dep", help: "Add an external dependency" });
    t.push(CommandDef { name: ":opt", help: "Set optimization level" });
    t.push(CommandDef { name: ":fmt", help: "Set the formatter for the final expression" });
    t.push(CommandDef { name: ":efmt", help: "Set the formatter for errors returned by `?`" });
    t.push(
        CommandDef { name: ":preserve_vars_on_panic", help: "Try to keep vars on panic (0/1)" },
    );
    t.push(CommandDef { name: ":internal_debug", help: "Toggle internal debugging code" });
    t.push(CommandDef { name: ":time_passes", help: "Report compiler phase times (0/1)" });
    t.push(CommandDef { name: ":offline", help: "Set offline mode (0/1)" });
    t.push(CommandDef { name: ":toolchain", help: "Set which toolchain to use" });
    t.push(CommandDef { name: ":linker", help: "Set the linker to use" });
    t.push(CommandDef { name: ":vars", help: "List bound variables and their types" });
    t.push(CommandDef { name: ":help", help: "List the available commands" });
    t
}

/// What running one command asks of the session.
#[derive(Debug)]
pub enum CommandEffect {
    /// Show this to the caller.
    Output(EvalOutputs),
    /// Reset the session's state, preserving configuration, and restart the
    /// worker.
    Clear,
}

/// One line per variable: `name: type`.
pub open spec fn vars_text(s: Seq<VarEntry>) -> Seq<char>
    decreases s.len(),
{
    if s.len() == 0 {
        Seq::empty()
    } else {
        vars_text(s.drop_last()) + s.last().name@ + ": "@ + s.last().state@.var_type + "\n"@
    }
}

/// The `:vars` listing of the session's variables.
pub fn render_vars(state: &ContextState) -> (r: String)
    ensures
        r@ == vars_text(state.variable_states.seq()),
{
    let ghost s = state.variable_states.seq();
    let n = state.variable_states.len();
    let mut out = String::new();
    let mut i: usize = 0;
    while i < n
        invariant
            n == s.len(),
            s == state.variable_states.seq(),
            i <= n,
            out@ == vars_text(s.take(i as int)),
        decreases n - i,
    {
        let e = state.variable_states.entry_at(i);
        out.append(e.name.as_str());
        out.append(": ");
        out.append(e.state.var_type.as_str());
        out.append("\n");
        proof {
            assert(s.take(i + 1).drop_last() =~= s.take(i as int));
            assert(s.take(i + 1).last() == s[i as int]);
            assert(out@ =~= vars_text(s.take(i + 1)));
        }
        i += 1;
    }
    proof {
        assert(s.take(n as int) =~= s);
    }
    out
}

/// End of a dependency name: the first index at or after `i` holding a
/// space or an equals sign, or the length of `l`.
pub open spec fn spec_dep_name_end(l: Seq<char>, i: int) -> int
    decreases l.len() - i,
{
    if 0 <= i < l.len() && l[i] != ' ' && l[i] != '=' {
        spec_dep_name_end(l, i + 1)
    } else {
        i
    }
}

/// The first equals sign at or after `i`, or the length of `l`.
pub open spec fn spec_eq_pos(l: Seq<char>, i: int) -> int
    decreases l.len() - i,
{
    if 0 <= i < l.len() && l[i] != '=' {
        spec_eq_pos(l, i + 1)
    } else {
        i
    }
}

proof fn lemma_dep_scan_bounds(l: Seq<char>, i: int)
    requires
        0 <= i <= l.len(),
    ensures
        i <= spec_dep_name_end(l, i) <= l.len(),
        i <= spec_eq_pos(l, i) <= l.len(),
        i <= spec_skip_spaces(l, i) <= l.len(),
    decreases l.len() - i,
{
    if i < l.len() {
        lemma_dep_scan_bounds(l, i + 1);
    }
}

/// The rows of the HTML variable listing.
pub open spec fn vars_html_rows(s: Seq<VarEntry>) -> Seq<char>
    decreases s.len(),
{
    if s.len() == 0 {
        Seq::empty()
    } else {
        vars_html_rows(s.drop_last()) + "<tr><td>"@ + s.last().name@ + "</td><td>"@
            + s.last().state@.var_type + "</td></tr>"@
    }
}

/// The `:vars` listing as an HTML table.
pub open spec fn vars_html(s: Seq<VarEntry>) -> Seq<char> {
    "<table><tr><th>Variable</th><th>Type</th></tr>"@ + vars_html_rows(s) + "</table>"@
}

/// Render the `:vars` listing as an HTML table.
pub fn render_vars_html(state: &ContextState) -> (r: String)
    ensures
        r@ == vars_html(state.variable_states.seq()),
{
    let ghost s = state.variable_states.seq();
    let n = state.variable_states.len();
    let mut out = String::new();
    out.append("<table><tr><th>Variable</th><th>Type</th></tr>");
    proof {
        assert(out@ =~= "<table><tr><th>Variable</th><th>Type</th></tr>"@ + vars_html_rows(
            s.take(0),
        ));
    }
    let mut i: usize = 0;
    while i < n
        invariant
            n == s.len(),
            s == state.variable_states.seq(),
            i <= n,
            out@ == "<table><tr><th>Variable</th><th>Type</th></tr>"@ + vars_html_rows(
                s.take(i as int),
            ),
        decreases n - i,
    {
        let e = state.variable_states.entry_at(i);
        out.append("<tr><td>");
        out.append(e.name.as_str());
        out.append("</td><td>");
        out.append(e.state.var_type.as_str());
        out.append("</td></tr>");
        proof {
            assert(s.take(i + 1).drop_last() =~= s.take(i as int));
            assert(s.take(i + 1).last() == s[i as int]);
            assert(out@ =~= "<table><tr><th>Variable</th><th>Type</th></tr>"@ + vars_html_rows(
                s.take(i + 1),
            ));
        }
        i += 1;
    }
    out.append("</table>");
    proof {
        assert(s.take(n as int) =~= s);
        assert(out@ =~= vars_html(s));
    }
    out
}

/// Split a `:dep` argument into the crate name and its configuration: the
/// name runs to the first space or `=`; the configuration is everything
/// after the `=` and the spaces that follow it, or a wildcard version when
/// only a name was given.
pub fn parse_dep_args(args: &str) -> (r: Option<(String, String)>)
    ensures
        (r is None) <==> args@.len() == 0,
        r matches Some(p) ==> {
            let ne = spec_dep_name_end(args@, 0);
            let eq = spec_eq_pos(args@, ne);
            &&& p.0@ == args@.subrange(0, ne)
            &&& (eq < args@.len() ==> p.1@ == args@.subrange(
                spec_skip_spaces(args@, eq + 1),
                args@.len() as int,
            ))
            &&& (eq == args@.len() ==> p.1@ == "\"*\""@)
        },
{
    let len = args.unicode_len();
    if len == 0 {
        return None;
    }
    let mut name_end: usize = 0;
    while name_end < len && args.get_char(name_end) != ' ' && args.get_char(name_end) != '='
        invariant
            len == args@.len(),
            name_end <= len,
            spec_dep_name_end(args@, 0) == spec_dep_name_end(args@, name_end as int),
        decreases len - name_end,
    {
        name_end += 1;
    }
    let name = args.substring_char(0, name_end).to_owned();
    let mut eq: usize = name_end;
    while eq < len && args.get_char(eq) != '='
        invariant
            name_end <= eq <= len,
            len == args@.len(),
            spec_eq_pos(args@, name_end as int) == spec_eq_pos(args@, eq as int),
        decreases len - eq,
    {
        eq += 1;
    }
    if eq < len {
        let vstart = skip_spaces(args, eq + 1);
        Some((name, args.substring_char(vstart, len).to_owned()))
    } else {
        Some((name, string_from("\"*\"")))
    }
}

/// Look a command up by exact name and run it against the working state.
/// Unknown names fail with a message naming the command; argument problems
/// fail with the handler's own message. State-changing commands say exactly
/// what they change.
pub fn run_command(state: &mut ContextState, name: &str, args: &Option<String>) -> (r: Result<
    CommandEffect,
    Error,
>)
    requires
        old(state).wf(),
    ensures
        final(state).wf(),
        final(state).variable_states == old(state).variable_states,
        final(state).stored_variable_states == old(state).stored_variable_states,
        name@ == ":clear"@ ==> (r matches Ok(e) && e is Clear) && *final(state) == *old(state),
        name@ == ":vars"@ ==> (r matches Ok(e) && e matches CommandEffect::Output(o)
            && o.content_by_mime_type@ == Map::<Seq<char>, Seq<char>>::empty().insert(
            "text/plain"@,
            vars_text(old(state).variable_states.seq()),
        ).insert("text/html"@, vars_html(old(state).variable_states.seq()))) && *final(state)
            == *old(state),
        name@ == ":help"@ ==> (r matches Ok(e) && e matches CommandEffect::Output(o)
            && o.content_by_mime_type@.contains_key("text/plain"@)) && *final(state) == *old(state),
        name@ == ":time_passes"@ ==> (r matches Ok(_)) && final(state).config@.time_passes == (
        args matches Some(a) && a@ == "1"@),
        name@ == ":internal_debug"@ ==> (r matches Ok(_)) && final(state).config@.debug_mode
            == !old(state).config@.debug_mode,
        name@ == ":preserve_vars_on_panic"@ ==> (r matches Ok(_)) && final(state).config@.preserve_vars_on_panic == (args matches Some(a) && a@ == "1"@),
        name@ == ":offline"@ ==> (r matches Ok(_)) && final(state).config@.offline_mode == (
        args matches Some(a) && a@ == "1"@),
        name@ == ":opt"@ ==> (match args {
            Some(a) => if a@.len() > 0 {
                (r is Ok) && final(state).config@.opt_level == a@
            } else {
                r is Err
            },
            None => r is Err,
        }),
        name@ == ":toolchain"@ ==> (match args {
            Some(a) => (r is Ok) && final(state).config@.toolchain == a@,
            None => r is Err,
        }),
        name@ == ":linker"@ ==> (match args {
            Some(a) => (r is Ok) && final(state).config@.linker == a@,
            None => r is Err,
        }),
        name@ == ":fmt"@ ==> (match args {
            Some(a) => (r is Ok) && final(state).config@.output_format == a@,
            None => r is Err,
        }),
        (name@ != ":clear"@ && name@ != ":dep"@ && name@ != ":opt"@ && name@ != ":fmt"@ && name@
            != ":efmt"@ && name@ != ":preserve_vars_on_panic"@ && name@ != ":internal_debug"@
            && name@ != ":time_passes"@ && name@ != ":offline"@ && name@ != ":toolchain"@ && name@
            != ":linker"@ && name@ != ":vars"@ && name@ != ":help"@) ==> (r is Err) && *final(state) == *old(state),
        name@ == ":dep"@ ==> (match args {
            Some(a) => if a@.len() > 0 {
                let ne = spec_dep_name_end(a@, 0);
                let eq = spec_eq_pos(a@, ne);
                (r is Ok) && final(state).external_deps@ == old(state).external_deps@.insert(
                    a@.subrange(0, ne),
                    if eq < a@.len() {
                        a@.subrange(spec_skip_spaces(a@, eq + 1), a@.len() as int)
                    } else {
                        "\"*\""@
                    },
                )
            } else {
                r is Err
            },
            None => r is Err,
        }),
{
    proof {
        reveal_strlit(":clear");
        reveal_strlit(":dep");
        reveal_strlit(":opt");
        reveal_strlit(":fmt");
        reveal_strlit(":efmt");
        reveal_strlit(":preserve_vars_on_panic");
        reveal_strlit(":internal_debug");
        reveal_strlit(":time_passes");
        reveal_strlit(":offline");
        reveal_strlit(":toolchain");
        reveal_strlit(":linker");
        reveal_strlit(":vars");
        reveal_strlit(":help");
        reveal_strlit("1");
        assert(":clear"@.len() == 6);
        assert(":dep"@.len() == 4);
        assert(":opt"@.len() == 4);
        assert(":fmt"@.len() == 4);
        assert(":efmt"@.len() == 5);
        assert(":preserve_vars_on_panic"@.len() == 23);
        assert(":internal_debug"@.len() == 15);
        assert(":time_passes"@.len() == 12);
        assert(":offline"@.len() == 8);
        assert(":toolchain"@.len() == 10);
        assert(":linker"@.len() == 7);
        assert(":vars"@.len() == 5);
        assert(":help"@.len() == 5);
        assert(":vars"@[1] == 'v');
        assert(":help"@[1] == 'h');
        assert(":dep"@[1] == 'd');
        assert(":opt"@[1] == 'o');
        assert(":fmt"@[1] == 'f');
        assert(":efmt"@[1] == 'e');
    }
    if str_eq(name, ":clear") {
        return Ok(CommandEffect::Clear);
    }
    if str_eq(name, ":vars") {
        let text = render_vars(state);
        let html = render_vars_html(state);
        let outputs = EvalOutputs::text_html(text.as_str(), html.as_str());
        return Ok(CommandEffect::Output(outputs));
    }
    if str_eq(name, ":help") {
        let table = available_commands();
        let mut text = String::new();
        let n = table.len();
        let mut i: usize = 0;
        while i < n
            invariant
                n == table@.len(),
                i <= n,
            decreases n - i,
        {
            text.append(table[i].name);
            text.append("  ");
            text.append(table[i].help);
            text.append("\n");
            i += 1;
        }
        let mut outputs = EvalOutputs::new();
        outputs.content_by_mime_type.insert(string_from("text/plain"), text);
        return Ok(CommandEffect::Output(outputs));
    }
    if str_eq(name, ":internal_debug") {
        let new_mode = !state.config.debug_mode;
        state.config.debug_mode = new_mode;
        return Ok(CommandEffect::Output(EvalOutputs::new()));
    }
    if str_eq(name, ":time_passes") {
        let on = match args {
            Some(a) => str_eq(a.as_str(), "1"),
            None => false,
        };
        state.config.time_passes = on;
        return Ok(CommandEffect::Output(EvalOutputs::new()));
    }
    if str_eq(name, ":preserve_vars_on_panic") {
        let on = match args {
            Some(a) => str_eq(a.as_str(), "1"),
            None => false,
        };
        state.config.preserve_vars_on_panic = on;
        return Ok(CommandEffect::Output(EvalOutputs::new()));
    }
    if str_eq(name, ":offline") {
        let on = match args {
            Some(a) => str_eq(a.as_str(), "1"),
            None => false,
        };
        state.config.offline_mode = on;
        return Ok(CommandEffect::Output(EvalOutputs::new()));
    }
    if str_eq(name, ":opt") {
        let r = match args {
            Some(a) => state.config.set_opt_level(a.as_str()),
            None => Err(Error::Message(string_from("Optimization level cannot be empty"))),
        };
        return match r {
            Ok(_) => Ok(CommandEffect::Output(EvalOutputs::new())),
            Err(e) => Err(e),
        };
    }
    if str_eq(name, ":fmt") {
        match args {
            Some(a) => {
                state.config.output_format = a.clone();
                return Ok(CommandEffect::Output(EvalOutputs::new()));
            },
            None => {
                return Err(Error::Message(string_from("Output format cannot be empty")));
            },
        }
    }
    if str_eq(name, ":efmt") {
        let r = match args {
            Some(a) => state.config.set_error_format(a.as_str()),
            None => Err(Error::Message(string_from("Error format cannot be empty"))),
        };
        return match r {
            Ok(_) => Ok(CommandEffect::Output(EvalOutputs::new())),
            Err(e) => Err(e),
        };
    }
    if str_eq(name, ":toolchain") {
        match args {
            Some(a) => {
                state.config.toolchain = a.clone();
                return Ok(CommandEffect::Output(EvalOutputs::new()));
            },
            None => {
                return Err(Error::Message(string_from("A toolchain name is required")));
            },
        }
    }
    if str_eq(name, ":linker") {
        match args {
            Some(a) => {
                state.config.linker = a.clone();
                return Ok(CommandEffect::Output(EvalOutputs::new()));
            },
            None => {
                return Err(Error::Message(string_from("A linker name is required")));
            },
        }
    }
    if str_eq(name, ":dep") {
        match args {
            Some(a) => {
                match parse_dep_args(a.as_str()) {
                    Some(nc) => {
                        let (dep_name, dep_config) = nc;
                        proof {
                            lemma_dep_scan_bounds(a@, 0);
                            let ne = spec_dep_name_end(a@, 0);
                            lemma_dep_scan_bounds(a@, ne);
                            let eq = spec_eq_pos(a@, ne);
                            if eq < a@.len() {
                                lemma_dep_scan_bounds(a@, eq + 1);
                            }
                        }
                        state.add_dep(dep_name.as_str(), dep_config.as_str());
                        return Ok(CommandEffect::Output(EvalOutputs::new()));
                    },
                    None => {
                        return Err(Error::Message(string_from(":dep requires a crate name")));
                    },
                }
            },
            None => {
                return Err(Error::Message(string_from(":dep requires a crate name")));
            },
        }
    }
    let mut msg = string_from("Unrecognised command ");
    msg.append(name);
    Err(Error::Message(msg))
}

/// The error reported for a command whose handler failed: it spans the
/// command's arguments, or the command itself when no arguments follow, so
/// the caller can point at the right characters of the input line.
pub fn command_error(segment: &Segment, call: &CommandCall, message: String) -> (r:
    CompilationError)
    requires
        segment.code@.len() > 0,
    ensures
        r.code_origins@.len() == 1,
        r.code_origins@[0].kind.spec_is_user_supplied() == segment.kind.spec_is_user_supplied(),
        r.spanned_messages@.len() == 1,
        r.message@ == message@,
        r.spanned_messages@[0].span matches Some(sp) && {
            let l = segment.code@;
            let fs = spec_token_end(l, 0);
            let astart = if fs < l.len() && spec_skip_spaces(l, fs) < l.len() {
                spec_skip_spaces(l, fs)
            } else {
                0
            };
            &&& sp.start_line == call.line_number
            &&& sp.end_line == call.line_number
            &&& sp.start_column == astart + 1
            &&& sp.end_column == l.len()
        },
{
    let code = segment.code.as_str();
    let len = count_columns(code);
    // The span starts at the first non-space character after the first
    // space, when there is one.
    let first_space = token_end(code);
    let arg_start = if first_space < len {
        let s = skip_spaces(code, first_space);
        if s < len {
            s
        } else {
            0
        }
    } else {
        0
    };
    let span = Span {
        start_line: call.line_number,
        start_column: arg_start + 1,
        end_line: call.line_number,
        end_column: len,
    };
    let spanned = SpannedMessage::from_segment_span(segment, span, message.clone());
    CompilationError::from_segment_span(segment, spanned, message)
}

/// First index holding a space, or the length of `s`.
fn token_end(s: &str) -> (r: usize)
    ensures
        r == spec_token_end(s@, 0),
        r <= s@.len(),
{
    let len = s.unicode_len();
    let mut i: usize = 0;
    while i < len && s.get_char(i) != ' '
        invariant
            i <= len,
            len == s@.len(),
            spec_token_end(s@, 0) == spec_token_end(s@, i as int),
        decreases len - i,
    {
        i += 1;
    }
    i
}

/// First index at or after `from` holding a character other than a space.
fn skip_spaces(s: &str, from: usize) -> (r: usize)
    requires
        from <= s@.len(),
    ensures
        r == spec_skip_spaces(s@, from as int),
        from <= r <= s@.len(),
{
    let len = s.unicode_len();
    let mut i: usize = from;
    while i < len && s.get_char(i) == ' '
        invariant
            from <= i <= len,
            len == s@.len(),
            spec_skip_spaces(s@, from as int) == spec_skip_spaces(s@, i as int),
        decreases len - i,
    {
        i += 1;
    }
    i
}

} // verus!

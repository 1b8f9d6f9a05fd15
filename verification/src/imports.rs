//! `use` statements, expanded and deduplicated against the imports already
//! registered in earlier submissions. An import binding a name is an item
//! under that name, so a later import of the same name replaces it; wildcard
//! and underscore imports carry no name and accumulate.

use vstd::prelude::*;

use crate::state::ContextState;
use crate::text::str_eq;

verus! {

/// One import extracted from a `use` tree by the analysis front end.
#[derive(Debug)]
pub enum Import {
    /// `use x as _;` or `use x::*;` — binds no name.
    Unnamed(String),
    /// `use x::y;` or `use x::y as z;` — binds `name`.
    Named { name: String, code: String },
}

/// The `use` statement for a path whose last segment is `last`, bound as
/// `name`: plain when the name is the path's own last segment, renaming
/// otherwise.
pub open spec fn spec_import_code(name: Seq<char>, path: Seq<char>, last: Seq<char>) -> Seq<char> {
    if last == name {
        "use "@ + path + ";"@
    } else {
        "use "@ + path + " as "@ + name + ";"@
    }
}

/// Build the import for a joined path whose last segment is `last`, bound
/// as `name`. Names `_` and `*` bind nothing.
pub fn format_import(name: &str, joined_path: &str, last: &str) -> (r: Import)
    ensures
        (name@ == "_"@ || name@ == "*"@) ==> (r matches Import::Unnamed(code) && code@
            == spec_import_code(name@, joined_path@, last@)),
        (name@ != "_"@ && name@ != "*"@) ==> (r matches Import::Named { name: n, code } && n@
            == name@ && code@ == spec_import_code(name@, joined_path@, last@)),
{
    let mut code = String::new();
    code.append("use ");
    code.append(joined_path);
    if str_eq(last, name) {
        code.append(";");
    } else {
        code.append(" as ");
        code.append(name);
        code.append(";");
    }
    proof {
        assert(code@ =~= spec_import_code(name@, joined_path@, last@));
    }
    if str_eq(name, "_") || str_eq(name, "*") {
        Import::Unnamed(code)
    } else {
        Import::Named { name: name.to_owned(), code }
    }
}

/// Register one import in the working state: a named import is an item
/// under its bound name, deduplicated against earlier imports of that name;
/// an unnamed one accumulates.
pub fn register_import(state: &mut ContextState, import: Import)
    requires
        old(state).wf(),
    ensures
        final(state).wf(),
        final(state).variable_states == old(state).variable_states,
        final(state).stored_variable_states == old(state).stored_variable_states,
        final(state).external_deps == old(state).external_deps,
        final(state).config == old(state).config,
        import matches Import::Named { name, code } ==> final(state).items_by_name@ == old(
            state,
        ).items_by_name@.insert(name@, code@),
        import matches Import::Unnamed(code) ==> final(state).items_by_name == old(
            state,
        ).items_by_name && final(state).unnamed_items@.len() == old(state).unnamed_items@.len() + 1
            && final(state).unnamed_items@.last()@ == code@,
{
    match import {
        Import::Named { name, code } => {
            state.record_item(name.as_str(), code.as_str());
        },
        Import::Unnamed(code) => {
            state.record_unnamed_item(code.as_str());
        },
    }
}

} // verus!

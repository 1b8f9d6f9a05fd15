//! The build driver's decisions: the manifest text for the session's build
//! tree and the shape of the external compiler invocation. Writing the
//! files and spawning the build tool are the caller's outside work.

use vstd::prelude::*;

use crate::state::ContextState;
use crate::strmap::StrEntry;

verus! {

/// The fixed opening of the session's manifest, up to the dependency table.
pub open spec fn manifest_header() -> Seq<char> {
    "[package]\nname = \"evaluation_unit\"\nversion = \"0.0.0\"\nedition = \"2021\"\n\n[lib]\ncrate-type = [\"cdylib\"]\npath = \"lib.rs\"\n\n[dependencies]\n"@
}

/// One `name = config` line per registered dependency, in registration
/// order.
pub open spec fn deps_text(s: Seq<StrEntry>) -> Seq<char>
    decreases s.len(),
{
    if s.len() == 0 {
        Seq::empty()
    } else {
        deps_text(s.drop_last()) + s.last().name@ + " = "@ + s.last().value@ + "\n"@
    }
}

/// The manifest of the session's build tree: the fixed header followed by
/// one line per registered dependency.
pub fn cargo_manifest(state: &ContextState) -> (r: String)
    ensures
        r@ == manifest_header() + deps_text(state.external_deps.seq()),
{
    let ghost s = state.external_deps.seq();
    let mut out = String::new();
    out.append(
        "[package]\nname = \"evaluation_unit\"\nversion = \"0.0.0\"\nedition = \"2021\"\n\n[lib]\ncrate-type = [\"cdylib\"]\npath = \"lib.rs\"\n\n[dependencies]\n",
    );
    proof {
        assert(out@ =~= manifest_header() + deps_text(s.take(0)));
    }
    let n = state.external_deps.len();
    let mut i: usize = 0;
    while i < n
        invariant
            n == s.len(),
            s == state.external_deps.seq(),
            i <= n,
            out@ == manifest_header() + deps_text(s.take(i as int)),
        decreases n - i,
    {
        let e = state.external_deps.entry_at(i);
        out.append(e.name.as_str());
        out.append(" = ");
        out.append(e.value.as_str());
        out.append("\n");
        proof {
            assert(s.take(i + 1).drop_last() =~= s.take(i as int));
            assert(s.take(i + 1).last() == s[i as int]);
            assert(out@ =~= manifest_header() + deps_text(s.take(i + 1)));
        }
        i += 1;
    }
    proof {
        assert(s.take(n as int) =~= s);
    }
    out
}

/// Everything that decides how the external compiler is invoked for one
/// attempt. The caller assembles the actual command line from these plain
/// values and runs it.
#[derive(Debug)]
pub struct BuildInvocation {
    /// True for a diagnostics-only check; false to build the loadable
    /// library.
    pub check_only: bool,
    /// The toolchain to select, when not empty.
    pub toolchain: String,
    /// Whether to forbid network access.
    pub offline: bool,
    /// The linker the build is configured with.
    pub linker: String,
    /// The optimization level written into the build configuration.
    pub opt_level: String,
}

/// Decide the invocation for one attempt from the session's configuration.
pub fn build_invocation(state: &ContextState, check_only: bool) -> (r: BuildInvocation)
    ensures
        r.check_only == check_only,
        r.toolchain@ == state.config@.toolchain,
        r.offline == state.config@.offline_mode,
        r.linker@ == state.config@.linker,
        r.opt_level@ == state.config@.opt_level,
{
    BuildInvocation {
        check_only,
        toolchain: state.config.toolchain.clone(),
        offline: state.config.offline_mode,
        linker: state.config.linker.clone(),
        opt_level: state.config.opt_level.clone(),
    }
}

} // verus!

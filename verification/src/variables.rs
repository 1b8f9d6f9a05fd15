//! Persistent variable bookkeeping: the name, type and mutability of every
//! variable that survives from one submission to the next, together with its
//! move state. A variable is `New` while the code that defines it has not yet
//! run to completion, and `Available` once a run has confirmed that it exists
//! in the worker's memory.

use vstd::prelude::*;

use crate::text::str_eq;

verus! {

/// Whether a variable has been confirmed to exist in the variable store.
#[derive(Clone, Copy, PartialEq, Eq, Structural, Debug)]
pub enum VariableMoveState {
    /// Defined by code about to run; not yet confirmed to exist after
    /// execution.
    New,
    /// Confirmed present after a completed run.
    Available,
}

/// Portion of a user-code segment in which a variable was defined, as
/// character offsets within that segment.
#[derive(Clone, Copy, PartialEq, Eq, Structural, Debug)]
pub struct UserCodeSpan {
    pub segment_index: usize,
    pub start: usize,
    pub end: usize,
}

/// Everything the session knows about one persistent variable.
#[derive(Debug)]
pub struct VariableState {
    pub var_type: String,
    pub is_mut: bool,
    pub move_state: VariableMoveState,
    /// Only meaningful while the variable is first defined.
    pub definition_span: Option<UserCodeSpan>,
}

/// Mathematical value of a `VariableState`.
#[verifier::ext_equal]
pub struct VarView {
    pub var_type: Seq<char>,
    pub is_mut: bool,
    pub move_state: VariableMoveState,
    pub definition_span: Option<UserCodeSpan>,
}

impl View for VariableState {
    type V = VarView;

    open spec fn view(&self) -> VarView {
        VarView {
            var_type: self.var_type@,
            is_mut: self.is_mut,
            move_state: self.move_state,
            definition_span: self.definition_span,
        }
    }
}

impl Clone for VariableState {
    fn clone(&self) -> (r: Self)
        ensures
            r@ == self@,
    {
        VariableState {
            var_type: self.var_type.clone(),
            is_mut: self.is_mut,
            move_state: self.move_state,
            definition_span: self.definition_span,
        }
    }
}

/// One name-to-state binding held by a `VarMap`.
#[derive(Debug)]
pub struct VarEntry {
    pub name: String,
    pub state: VariableState,
}

impl Clone for VarEntry {
    fn clone(&self) -> (r: Self)
        ensures
            r.name@ == self.name@,
            r.state@ == self.state@,
    {
        VarEntry { name: self.name.clone(), state: self.state.clone() }
    }
}

/// No two entries bind the same name.
pub open spec fn entries_dup_free(s: Seq<VarEntry>) -> bool {
    forall|i: int, j: int| 0 <= i < j < s.len() ==> s[i].name@ != s[j].name@
}

/// The map described by a sequence of bindings; later entries win.
pub open spec fn entries_view(s: Seq<VarEntry>) -> Map<Seq<char>, VarView>
    decreases s.len(),
{
    if s.len() == 0 {
        Map::empty()
    } else {
        entries_view(s.drop_last()).insert(s.last().name@, s.last().state@)
    }
}

pub proof fn lemma_entries_view_push(s: Seq<VarEntry>, e: VarEntry)
    ensures
        entries_view(s.push(e)) == entries_view(s).insert(e.name@, e.state@),
{
    assert(s.push(e).drop_last() =~= s);
    assert(s.push(e).last() == e);
}

pub proof fn lemma_entries_view_contains(s: Seq<VarEntry>, k: Seq<char>)
    ensures
        entries_view(s).contains_key(k) <==> exists|i: int| 0 <= i < s.len() && s[i].name@ == k,
    decreases s.len(),
{
    if s.len() > 0 {
        lemma_entries_view_contains(s.drop_last(), k);
        if s.last().name@ == k {
            assert(s[s.len() - 1].name@ == k);
        } else if entries_view(s).contains_key(k) {
            let i = choose|i: int| 0 <= i < s.drop_last().len() && s.drop_last()[i].name@ == k;
            assert(s[i].name@ == k);
        } else {
            assert(forall|i: int|
                0 <= i < s.len() - 1 ==> s.drop_last()[i] == s[i]);
        }
    }
}

pub proof fn lemma_entries_view_get(s: Seq<VarEntry>, i: int)
    requires
        entries_dup_free(s),
        0 <= i < s.len(),
    ensures
        entries_view(s).contains_key(s[i].name@),
        entries_view(s)[s[i].name@] == s[i].state@,
    decreases s.len(),
{
    if i == s.len() - 1 {
        lemma_entries_view_contains(s, s[i].name@);
    } else {
        assert(s.drop_last()[i] == s[i]);
        lemma_entries_view_get(s.drop_last(), i);
        assert(s.last().name@ != s[i].name@);
    }
}

pub proof fn lemma_entries_view_remove(s: Seq<VarEntry>, i: int)
    requires
        entries_dup_free(s),
        0 <= i < s.len(),
    ensures
        entries_view(s.remove(i)) == entries_view(s).remove(s[i].name@),
    decreases s.len(),
{
    let k = s[i].name@;
    if i == s.len() - 1 {
        assert(s.remove(i) =~= s.drop_last());
        lemma_entries_view_contains(s.drop_last(), k);
        assert(forall|j: int| 0 <= j < s.len() - 1 ==> s.drop_last()[j] == s[j]);
        assert(!entries_view(s.drop_last()).contains_key(k));
        assert(entries_view(s).remove(k) =~= entries_view(s.drop_last()));
    } else {
        assert(s.remove(i).drop_last() =~= s.drop_last().remove(i));
        assert(s.remove(i).last() == s.last());
        lemma_entries_view_remove(s.drop_last(), i);
        assert(s.last().name@ != k);
        assert(entries_view(s.remove(i)) =~= entries_view(s).remove(k));
    }
}

/// How inserting under `name` changes the binding order: a fresh name's
/// binding goes to the end; an existing name's binding moves to the end,
/// carrying the new state, while every other binding keeps its place.
pub open spec fn var_insert_order_ok(
    pre: Seq<VarEntry>,
    post: Seq<VarEntry>,
    name: Seq<char>,
    state: VarView,
) -> bool {
    &&& post.len() >= 1
    &&& post.last().name@ == name
    &&& post.last().state@ == state
    &&& if !entries_view(pre).contains_key(name) {
        post.len() == pre.len() + 1 && (forall|i: int| 0 <= i < pre.len() ==> post[i] == pre[i])
    } else {
        exists|j: int|
            0 <= j < pre.len() && (#[trigger] pre[j]).name@ == name && post == pre.remove(j).push(
                post.last(),
            )
    }
}

/// Map from variable names to their states, with unique names.
#[derive(Debug)]
pub struct VarMap {
    entries: Vec<VarEntry>,
}

impl View for VarMap {
    type V = Map<Seq<char>, VarView>;

    closed spec fn view(&self) -> Map<Seq<char>, VarView> {
        entries_view(self.entries@)
    }
}

impl VarMap {
    /// The bindings in insertion order; the abstraction the iteration
    /// functions are specified against.
    pub closed spec fn seq(&self) -> Seq<VarEntry> {
        self.entries@
    }

    pub closed spec fn wf(&self) -> bool {
        entries_dup_free(self.entries@)
    }

    /// The map view is exactly the map the binding sequence describes.
    pub proof fn lemma_view_is_entries(&self)
        ensures
            self@ == entries_view(self.seq()),
    {
    }

    /// A well-formed map binds each name once.
    pub proof fn lemma_wf_dup_free(&self)
        requires
            self.wf(),
        ensures
            entries_dup_free(self.seq()),
    {
    }

    /// Each binding of the sequence is in the map, with its state; each name
    /// of the map has a binding.
    pub proof fn lemma_seq_view(&self)
        requires
            self.wf(),
        ensures
            forall|i: int|
                0 <= i < self.seq().len() ==> self@.contains_key(#[trigger] self.seq()[i].name@)
                    && self@[self.seq()[i].name@] == self.seq()[i].state@,
            forall|k: Seq<char>|
                self@.contains_key(k) ==> exists|i: int|
                    0 <= i < self.seq().len() && #[trigger] self.seq()[i].name@ == k,
    {
        assert forall|i: int| 0 <= i < self.seq().len() implies self@.contains_key(
            #[trigger] self.seq()[i].name@,
        ) && self@[self.seq()[i].name@] == self.seq()[i].state@ by {
            lemma_entries_view_get(self.entries@, i);
        }
        assert forall|k: Seq<char>| self@.contains_key(k) implies exists|i: int|
            0 <= i < self.seq().len() && #[trigger] self.seq()[i].name@ == k by {
            lemma_entries_view_contains(self.entries@, k);
            let i = choose|i: int| 0 <= i < self.entries@.len() && self.entries@[i].name@ == k;
            assert(self.seq()[i].name@ == k);
        }
    }

    pub fn new() -> (r: VarMap)
        ensures
            r@ == Map::<Seq<char>, VarView>::empty(),
            r.wf(),
            r.seq().len() == 0,
    {
        VarMap { entries: Vec::new() }
    }

    pub fn len(&self) -> (n: usize)
        ensures
            n == self.seq().len(),
    {
        self.entries.len()
    }

    pub fn entry_at(&self, i: usize) -> (r: &VarEntry)
        requires
            i < self.seq().len(),
        ensures
            *r == self.seq()[i as int],
    {
        &self.entries[i]
    }

    /// Index of the binding for `name`, if any.
    fn find(&self, name: &str) -> (r: Option<usize>)
        ensures
            match r {
                Some(i) => i < self.seq().len() && self.seq()[i as int].name@ == name@,
                None => forall|i: int| 0 <= i < self.seq().len() ==> self.seq()[i].name@ != name@,
            },
    {
        let n = self.entries.len();
        let mut i: usize = 0;
        while i < n
            invariant
                n == self.entries@.len(),
                i <= n,
                forall|j: int| 0 <= j < i ==> self.entries@[j].name@ != name@,
            decreases n - i,
        {
            if str_eq(self.entries[i].name.as_str(), name) {
                return Some(i);
            }
            i += 1;
        }
        None
    }

    pub fn contains(&self, name: &str) -> (r: bool)
        requires
            self.wf(),
        ensures
            r == self@.contains_key(name@),
    {
        proof {
            lemma_entries_view_contains(self.entries@, name@);
        }
        self.find(name).is_some()
    }

    pub fn get(&self, name: &str) -> (r: Option<&VariableState>)
        requires
            self.wf(),
        ensures
            match r {
                Some(v) => self@.contains_key(name@) && v@ == self@[name@],
                None => !self@.contains_key(name@),
            },
    {
        proof {
            lemma_entries_view_contains(self.entries@, name@);
        }
        match self.find(name) {
            Some(i) => {
                proof {
                    lemma_entries_view_get(self.entries@, i as int);
                }
                Some(&self.entries[i].state)
            },
            None => None,
        }
    }

    pub fn insert(&mut self, name: String, state: VariableState)
        requires
            old(self).wf(),
        ensures
            final(self)@ == old(self)@.insert(name@, state@),
            final(self).wf(),
            var_insert_order_ok(old(self).seq(), final(self).seq(), name@, state@),
    {
        self.remove(name.as_str());
        proof {
            lemma_entries_view_contains(self.entries@, name@);
        }
        let ghost pre = self.entries@;
        let ghost e = VarEntry { name: name, state: state };
        self.entries.push(VarEntry { name, state });
        proof {
            assert(self.entries@ =~= pre.push(self.entries@.last()));
            lemma_entries_view_push(pre, self.entries@.last());
            assert(old(self)@.remove(e.name@).insert(e.name@, e.state@) =~= old(self)@.insert(
                e.name@,
                e.state@,
            ));
            assert forall|i: int, j: int|
                0 <= i < j < self.entries@.len() implies self.entries@[i].name@
                != self.entries@[j].name@ by {
                if j == self.entries@.len() - 1 {
                    lemma_entries_view_get(pre, i);
                }
            }
        }
    }

    pub fn remove(&mut self, name: &str)
        requires
            old(self).wf(),
        ensures
            final(self)@ == old(self)@.remove(name@),
            final(self).wf(),
            final(self).seq().len() <= old(self).seq().len(),
            !old(self)@.contains_key(name@) ==> final(self).seq() == old(self).seq(),
            old(self)@.contains_key(name@) ==> exists|j: int|
                0 <= j < old(self).seq().len() && (#[trigger] old(self).seq()[j]).name@ == name@
                    && final(self).seq() == old(self).seq().remove(j),
    {
        proof {
            lemma_entries_view_contains(self.entries@, name@);
        }
        match self.find(name) {
            Some(i) => {
                proof {
                    lemma_entries_view_remove(self.entries@, i as int);
                }
                self.entries.remove(i);
                proof {
                    assert(entries_dup_free(self.entries@));
                }
            },
            None => {
                proof {
                    assert(old(self)@.remove(name@) =~= old(self)@);
                }
            },
        }
    }

    pub fn clear(&mut self)
        ensures
            final(self)@ == Map::<Seq<char>, VarView>::empty(),
            final(self).wf(),
            final(self).seq().len() == 0,
    {
        self.entries = Vec::new();
    }
}

/// The state a variable settles into once a run has completed: confirmed
/// available, its one-time definition span discarded.
pub open spec fn committed_var(v: VarView) -> VarView {
    VarView { move_state: VariableMoveState::Available, definition_span: None, ..v }
}

/// `m` with every variable committed.
pub open spec fn committed_map(m: Map<Seq<char>, VarView>) -> Map<Seq<char>, VarView> {
    Map::new(|k: Seq<char>| m.contains_key(k), |k: Seq<char>| committed_var(m[k]))
}

/// `m` restricted to the variables already confirmed available.
pub open spec fn avail_only(m: Map<Seq<char>, VarView>) -> Map<Seq<char>, VarView> {
    Map::new(
        |k: Seq<char>| m.contains_key(k) && m[k].move_state == VariableMoveState::Available,
        |k: Seq<char>| m[k],
    )
}

impl VarMap {
    /// An independent map with the same bindings.
    pub fn duplicate(&self) -> (r: VarMap)
        requires
            self.wf(),
        ensures
            r@ == self@,
            r.wf(),
            r.seq().len() == self.seq().len(),
            forall|i: int|
                0 <= i < self.seq().len() ==> (#[trigger] r.seq()[i]).name@ == self.seq()[i].name@
                    && r.seq()[i].state@ == self.seq()[i].state@,
    {
        let ghost s = self.entries@;
        let n = self.entries.len();
        let mut out: Vec<VarEntry> = Vec::new();
        let mut i: usize = 0;
        while i < n
            invariant
                n == s.len(),
                s == self.entries@,
                entries_dup_free(s),
                i <= n,
                out@.len() == i,
                forall|a: int|
                    0 <= a < i ==> (#[trigger] out@[a]).name@ == s[a].name@ && out@[a].state@
                        == s[a].state@,
                entries_view(out@) == entries_view(s.take(i as int)),
            decreases n - i,
        {
            let ghost pre = out@;
            out.push(self.entries[i].clone());
            proof {
                assert(out@ == pre.push(out@.last()));
                assert(forall|a: int| 0 <= a < pre.len() ==> out@[a] == pre[a]);
                assert(out@[i as int].name@ == s[i as int].name@ && out@[i as int].state@
                    == s[i as int].state@);
                lemma_entries_view_push(pre, out@.last());
                assert(s.take(i + 1).drop_last() =~= s.take(i as int));
                assert(entries_view(out@) =~= entries_view(s.take(i + 1)));
            }
            i += 1;
        }
        proof {
            assert(s.take(n as int) =~= s);
        }
        VarMap { entries: out }
    }

    /// Commit every variable: confirmed available, definition span cleared,
    /// type and mutability untouched.
    pub fn commit_all(&mut self)
        requires
            old(self).wf(),
        ensures
            final(self)@ == committed_map(old(self)@),
            final(self).wf(),
            final(self).seq().len() == old(self).seq().len(),
            forall|i: int|
                0 <= i < old(self).seq().len() ==> (#[trigger] final(self).seq()[i]).name@ == old(
                    self,
                ).seq()[i].name@ && final(self).seq()[i].state@ == committed_var(
                    old(self).seq()[i].state@,
                ),
    {
        let ghost s = self.entries@;
        let n = self.entries.len();
        let mut out: Vec<VarEntry> = Vec::new();
        let mut i: usize = 0;
        while i < n
            invariant
                n == s.len(),
                s == self.entries@,
                entries_dup_free(s),
                i <= n,
                out@.len() == i,
                forall|a: int|
                    0 <= a < i ==> (#[trigger] out@[a]).name@ == s[a].name@ && out@[a].state@
                        == committed_var(s[a].state@),
                entries_view(out@) == committed_map(entries_view(s.take(i as int))),
            decreases n - i,
        {
            let ghost pre = out@;
            let e = &self.entries[i];
            out.push(
                VarEntry {
                    name: e.name.clone(),
                    state: VariableState {
                        var_type: e.state.var_type.clone(),
                        is_mut: e.state.is_mut,
                        move_state: VariableMoveState::Available,
                        definition_span: None,
                    },
                },
            );
            proof {
                lemma_entries_view_push(pre, out@.last());
                assert(s.take(i + 1).drop_last() =~= s.take(i as int));
                assert(entries_view(out@) =~= committed_map(entries_view(s.take(i + 1))));
            }
            i += 1;
        }
        proof {
            assert(s.take(n as int) =~= s);
        }
        self.entries = out;
    }

    /// Drop every variable still marked `New`; keep the available ones
    /// untouched. This is the state's share of handling a panic: a panicking
    /// run never finished constructing its new variables.
    pub fn drop_new(&mut self)
        requires
            old(self).wf(),
        ensures
            final(self)@ == avail_only(old(self)@),
            final(self).wf(),
    {
        let ghost s = self.entries@;
        let n = self.entries.len();
        let mut out: Vec<VarEntry> = Vec::new();
        let mut i: usize = 0;
        while i < n
            invariant
                n == s.len(),
                s == self.entries@,
                entries_dup_free(s),
                i <= n,
                entries_dup_free(out@),
                forall|a: int|
                    0 <= a < out@.len() ==> exists|b: int|
                        0 <= b < i && #[trigger] out@[a].name@ == s[b].name@,
                entries_view(out@) == avail_only(entries_view(s.take(i as int))),
            decreases n - i,
        {
            let ghost pre = out@;
            let ghost prev_map = entries_view(s.take(i as int));
            proof {
                lemma_entries_view_contains(s.take(i as int), s[i as int].name@);
                assert(forall|b: int| 0 <= b < i ==> s.take(i as int)[b] == s[b]);
                assert(!prev_map.contains_key(s[i as int].name@));
                assert(s.take(i + 1).drop_last() =~= s.take(i as int));
            }
            let e = &self.entries[i];
            if matches!(e.state.move_state, VariableMoveState::Available) {
                out.push(e.clone());
                proof {
                    lemma_entries_view_push(pre, out@.last());
                    assert forall|a: int, b: int|
                        0 <= a < b < out@.len() implies out@[a].name@ != out@[b].name@ by {
                        if b == out@.len() - 1 {
                            let w = choose|w: int| 0 <= w < i && out@[a].name@ == s[w].name@;
                            lemma_entries_view_contains(pre, out@[a].name@);
                        }
                    }
                    assert(entries_view(out@) =~= avail_only(entries_view(s.take(i + 1))));
                }
            } else {
                proof {
                    assert(entries_view(out@) =~= avail_only(entries_view(s.take(i + 1))));
                }
            }
            i += 1;
        }
        proof {
            assert(s.take(n as int) =~= s);
        }
        self.entries = out;
    }
}

} // verus!

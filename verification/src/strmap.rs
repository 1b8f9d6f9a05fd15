//! A name-to-text map with insertion order, used for the accumulated facts a
//! session keeps by name: declared items, registered dependencies and extern
//! crate statements.

use vstd::prelude::*;

use crate::text::str_eq;

verus! {

/// One binding of a name to a piece of text.
#[derive(Debug)]
pub struct StrEntry {
    pub name: String,
    pub value: String,
}

impl Clone for StrEntry {
    fn clone(&self) -> (r: Self)
        ensures
            r.name@ == self.name@,
            r.value@ == self.value@,
    {
        StrEntry { name: self.name.clone(), value: self.value.clone() }
    }
}

/// No two entries bind the same name.
pub open spec fn str_entries_dup_free(s: Seq<StrEntry>) -> bool {
    forall|i: int, j: int| 0 <= i < j < s.len() ==> s[i].name@ != s[j].name@
}

/// The map described by a sequence of bindings; later entries win.
pub open spec fn str_entries_view(s: Seq<StrEntry>) -> Map<Seq<char>, Seq<char>>
    decreases s.len(),
{
    if s.len() == 0 {
        Map::empty()
    } else {
        str_entries_view(s.drop_last()).insert(s.last().name@, s.last().value@)
    }
}

pub proof fn lemma_str_entries_view_push(s: Seq<StrEntry>, e: StrEntry)
    ensures
        str_entries_view(s.push(e)) == str_entries_view(s).insert(e.name@, e.value@),
{
    assert(s.push(e).drop_last() =~= s);
    assert(s.push(e).last() == e);
}

pub proof fn lemma_str_entries_view_contains(s: Seq<StrEntry>, k: Seq<char>)
    ensures
        str_entries_view(s).contains_key(k) <==> exists|i: int|
            0 <= i < s.len() && s[i].name@ == k,
    decreases s.len(),
{
    if s.len() > 0 {
        lemma_str_entries_view_contains(s.drop_last(), k);
        if s.last().name@ == k {
            assert(s[s.len() - 1].name@ == k);
        } else if str_entries_view(s).contains_key(k) {
            let i = choose|i: int| 0 <= i < s.drop_last().len() && s.drop_last()[i].name@ == k;
            assert(s[i].name@ == k);
        } else {
            assert(forall|i: int| 0 <= i < s.len() - 1 ==> s.drop_last()[i] == s[i]);
        }
    }
}

pub proof fn lemma_str_entries_view_get(s: Seq<StrEntry>, i: int)
    requires
        str_entries_dup_free(s),
        0 <= i < s.len(),
    ensures
        str_entries_view(s).contains_key(s[i].name@),
        str_entries_view(s)[s[i].name@] == s[i].value@,
    decreases s.len(),
{
    if i == s.len() - 1 {
        lemma_str_entries_view_contains(s, s[i].name@);
    } else {
        assert(s.drop_last()[i] == s[i]);
        lemma_str_entries_view_get(s.drop_last(), i);
        assert(s.last().name@ != s[i].name@);
    }
}

pub proof fn lemma_str_entries_view_remove(s: Seq<StrEntry>, i: int)
    requires
        str_entries_dup_free(s),
        0 <= i < s.len(),
    ensures
        str_entries_view(s.remove(i)) == str_entries_view(s).remove(s[i].name@),
    decreases s.len(),
{
    let k = s[i].name@;
    if i == s.len() - 1 {
        assert(s.remove(i) =~= s.drop_last());
        lemma_str_entries_view_contains(s.drop_last(), k);
        assert(forall|j: int| 0 <= j < s.len() - 1 ==> s.drop_last()[j] == s[j]);
        assert(!str_entries_view(s.drop_last()).contains_key(k));
        assert(str_entries_view(s).remove(k) =~= str_entries_view(s.drop_last()));
    } else {
        assert(s.remove(i).drop_last() =~= s.drop_last().remove(i));
        assert(s.remove(i).last() == s.last());
        lemma_str_entries_view_remove(s.drop_last(), i);
        assert(s.last().name@ != k);
        assert(str_entries_view(s.remove(i)) =~= str_entries_view(s).remove(k));
    }
}

/// How inserting under `name` changes the entry order: a fresh name's
/// binding goes to the end; an existing name's binding moves to the end,
/// carrying the new text, while every other binding keeps its place.
pub open spec fn insert_order_ok(
    pre: Seq<StrEntry>,
    post: Seq<StrEntry>,
    name: Seq<char>,
    value: Seq<char>,
) -> bool {
    &&& post.len() >= 1
    &&& post.last().name@ == name
    &&& post.last().value@ == value
    &&& if !str_entries_view(pre).contains_key(name) {
        post.len() == pre.len() + 1 && (forall|i: int| 0 <= i < pre.len() ==> post[i] == pre[i])
    } else {
        exists|j: int|
            0 <= j < pre.len() && (#[trigger] pre[j]).name@ == name && post == pre.remove(j).push(
                post.last(),
            )
    }
}

/// Ordered map from names to text, with unique names.
#[derive(Debug)]
pub struct StrMap {
    entries: Vec<StrEntry>,
}

impl View for StrMap {
    type V = Map<Seq<char>, Seq<char>>;

    closed spec fn view(&self) -> Map<Seq<char>, Seq<char>> {
        str_entries_view(self.entries@)
    }
}

impl StrMap {
    /// The bindings in insertion order.
    pub closed spec fn seq(&self) -> Seq<StrEntry> {
        self.entries@
    }

    pub closed spec fn wf(&self) -> bool {
        str_entries_dup_free(self.entries@)
    }

    /// The map view is exactly the map the entry sequence describes.
    pub proof fn lemma_view_is_entries(&self)
        ensures
            self@ == str_entries_view(self.seq()),
    {
    }

    /// A well-formed map binds each name once.
    pub proof fn lemma_wf_dup_free(&self)
        requires
            self.wf(),
        ensures
            str_entries_dup_free(self.seq()),
    {
    }

    pub proof fn lemma_seq_view(&self)
        requires
            self.wf(),
        ensures
            forall|i: int|
                0 <= i < self.seq().len() ==> self@.contains_key(#[trigger] self.seq()[i].name@)
                    && self@[self.seq()[i].name@] == self.seq()[i].value@,
            forall|k: Seq<char>|
                self@.contains_key(k) ==> exists|i: int|
                    0 <= i < self.seq().len() && #[trigger] self.seq()[i].name@ == k,
    {
        assert forall|i: int| 0 <= i < self.seq().len() implies self@.contains_key(
            #[trigger] self.seq()[i].name@,
        ) && self@[self.seq()[i].name@] == self.seq()[i].value@ by {
            lemma_str_entries_view_get(self.entries@, i);
        }
        assert forall|k: Seq<char>| self@.contains_key(k) implies exists|i: int|
            0 <= i < self.seq().len() && #[trigger] self.seq()[i].name@ == k by {
            lemma_str_entries_view_contains(self.entries@, k);
            let i = choose|i: int| 0 <= i < self.entries@.len() && self.entries@[i].name@ == k;
            assert(self.seq()[i].name@ == k);
        }
    }

    pub fn new() -> (r: StrMap)
        ensures
            r@ == Map::<Seq<char>, Seq<char>>::empty(),
            r.wf(),
            r.seq().len() == 0,
    {
        StrMap { entries: Vec::new() }
    }

    pub fn len(&self) -> (n: usize)
        ensures
            n == self.seq().len(),
    {
        self.entries.len()
    }

    pub fn entry_at(&self, i: usize) -> (r: &StrEntry)
        requires
            i < self.seq().len(),
        ensures
            *r == self.seq()[i as int],
    {
        &self.entries[i]
    }

    fn find(&self, name: &str) -> (r: Option<usize>)
        ensures
            match r {
                Some(i) => i < self.seq().len() && self.seq()[i as int].name@ == name@,
                None => forall|i: int| 0 <= i < self.seq().len() ==> self.seq()[i].name@ != name@,
            },
    {
        let n = self.entries.len();
        let mut i: usize = 0;
        while i < n
            invariant
                n == self.entries@.len(),
                i <= n,
                forall|j: int| 0 <= j < i ==> self.entries@[j].name@ != name@,
            decreases n - i,
        {
            if str_eq(self.entries[i].name.as_str(), name) {
                return Some(i);
            }
            i += 1;
        }
        None
    }

    pub fn contains(&self, name: &str) -> (r: bool)
        requires
            self.wf(),
        ensures
            r == self@.contains_key(name@),
    {
        match self.find(name) {
            Some(i) => {
                proof {
                    lemma_str_entries_view_get(self.entries@, i as int);
                }
                true
            },
            None => {
                proof {
                    if self@.contains_key(name@) {
                        lemma_str_entries_view_contains(self.entries@, name@);
                        let i = choose|i: int|
                            0 <= i < self.entries@.len() && self.entries@[i].name@ == name@;
                        assert(self.seq()[i].name@ != name@);
                    }
                }
                false
            },
        }
    }

    pub fn get(&self, name: &str) -> (r: Option<&String>)
        requires
            self.wf(),
        ensures
            match r {
                Some(v) => self@.contains_key(name@) && v@ == self@[name@],
                None => !self@.contains_key(name@),
            },
    {
        match self.find(name) {
            Some(i) => {
                proof {
                    lemma_str_entries_view_get(self.entries@, i as int);
                }
                Some(&self.entries[i].value)
            },
            None => {
                proof {
                    if self@.contains_key(name@) {
                        lemma_str_entries_view_contains(self.entries@, name@);
                        let i = choose|i: int|
                            0 <= i < self.entries@.len() && self.entries@[i].name@ == name@;
                        assert(self.seq()[i].name@ != name@);
                    }
                }
                None
            },
        }
    }

    pub fn insert(&mut self, name: String, value: String)
        requires
            old(self).wf(),
        ensures
            final(self)@ == old(self)@.insert(name@, value@),
            final(self).wf(),
            insert_order_ok(old(self).seq(), final(self).seq(), name@, value@),
    {
        self.remove(name.as_str());
        proof {
            lemma_str_entries_view_contains(self.entries@, name@);
        }
        let ghost pre = self.entries@;
        let ghost e = StrEntry { name: name, value: value };
        self.entries.push(StrEntry { name, value });
        proof {
            assert(self.entries@ =~= pre.push(self.entries@.last()));
            lemma_str_entries_view_push(pre, self.entries@.last());
            assert(old(self)@.remove(e.name@).insert(e.name@, e.value@) =~= old(self)@.insert(
                e.name@,
                e.value@,
            ));
            assert forall|i: int, j: int|
                0 <= i < j < self.entries@.len() implies self.entries@[i].name@
                != self.entries@[j].name@ by {
                if j == self.entries@.len() - 1 {
                    lemma_str_entries_view_get(pre, i);
                }
            }
        }
    }

    pub fn remove(&mut self, name: &str)
        requires
            old(self).wf(),
        ensures
            final(self)@ == old(self)@.remove(name@),
            final(self).wf(),
            final(self).seq().len() <= old(self).seq().len(),
            !old(self)@.contains_key(name@) ==> final(self).seq() == old(self).seq(),
            old(self)@.contains_key(name@) ==> exists|j: int|
                0 <= j < old(self).seq().len() && (#[trigger] old(self).seq()[j]).name@ == name@
                    && final(self).seq() == old(self).seq().remove(j),
    {
        proof {
            lemma_str_entries_view_contains(self.entries@, name@);
        }
        match self.find(name) {
            Some(i) => {
                proof {
                    lemma_str_entries_view_remove(self.entries@, i as int);
                }
                self.entries.remove(i);
                proof {
                    assert(str_entries_dup_free(self.entries@));
                }
            },
            None => {
                proof {
                    assert(old(self)@.remove(name@) =~= old(self)@);
                }
            },
        }
    }

    pub fn clear(&mut self)
        ensures
            final(self)@ == Map::<Seq<char>, Seq<char>>::empty(),
            final(self).wf(),
            final(self).seq().len() == 0,
    {
        self.entries = Vec::new();
    }

    /// An independent map with the same bindings, in the same order.
    pub fn duplicate(&self) -> (r: StrMap)
        requires
            self.wf(),
        ensures
            r@ == self@,
            r.wf(),
            r.seq().len() == self.seq().len(),
            forall|i: int|
                0 <= i < self.seq().len() ==> (#[trigger] r.seq()[i]).name@ == self.seq()[i].name@
                    && r.seq()[i].value@ == self.seq()[i].value@,
    {
        let ghost s = self.entries@;
        let n = self.entries.len();
        let mut out: Vec<StrEntry> = Vec::new();
        let mut i: usize = 0;
        while i < n
            invariant
                n == s.len(),
                s == self.entries@,
                str_entries_dup_free(s),
                i <= n,
                out@.len() == i,
                forall|a: int|
                    0 <= a < i ==> (#[trigger] out@[a]).name@ == s[a].name@ && out@[a].value@
                        == s[a].value@,
                str_entries_view(out@) == str_entries_view(s.take(i as int)),
            decreases n - i,
        {
            let ghost pre = out@;
            out.push(self.entries[i].clone());
            proof {
                assert(out@ == pre.push(out@.last()));
                assert(forall|a: int| 0 <= a < pre.len() ==> out@[a] == pre[a]);
                lemma_str_entries_view_push(pre, out@.last());
                assert(s.take(i + 1).drop_last() =~= s.take(i as int));
                assert(str_entries_view(out@) =~= str_entries_view(s.take(i + 1)));
            }
            i += 1;
        }
        proof {
            assert(s.take(n as int) =~= s);
        }
        StrMap { entries: out }
    }

    /// Do two maps hold the same bindings in the same order?
    pub fn same_entries(&self, other: &StrMap) -> (r: bool)
        ensures
            r == (self.seq().len() == other.seq().len() && forall|i: int|
                0 <= i < self.seq().len() ==> (#[trigger] self.seq()[i]).name@
                    == other.seq()[i].name@ && self.seq()[i].value@ == other.seq()[i].value@),
    {
        let n = self.entries.len();
        if n != other.entries.len() {
            return false;
        }
        let mut i: usize = 0;
        while i < n
            invariant
                n == self.entries@.len(),
                n == other.entries@.len(),
                i <= n,
                forall|j: int|
                    0 <= j < i ==> (#[trigger] self.entries@[j]).name@ == other.entries@[j].name@
                        && self.entries@[j].value@ == other.entries@[j].value@,
            decreases n - i,
        {
            let a = &self.entries[i];
            let b = &other.entries[i];
            if !str_eq(a.name.as_str(), b.name.as_str()) || !str_eq(
                a.value.as_str(),
                b.value.as_str(),
            ) {
                return false;
            }
            i += 1;
        }
        true
    }
}

} // verus!

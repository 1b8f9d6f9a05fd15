//! What an evaluation hands back to the caller: content keyed by MIME type,
//! as captured from the worker's rich-output blocks, plus optional timing.

use vstd::prelude::*;

use crate::strmap::StrMap;

verus! {

/// Two content maps merged: content present under the same MIME type in
/// both is concatenated, first map's part first.
pub open spec fn merge_content(a: Map<Seq<char>, Seq<char>>, b: Map<Seq<char>, Seq<char>>) -> Map<
    Seq<char>,
    Seq<char>,
> {
    Map::new(
        |k: Seq<char>| a.contains_key(k) || b.contains_key(k),
        |k: Seq<char>|
            if a.contains_key(k) && b.contains_key(k) {
                a[k] + b[k]
            } else if b.contains_key(k) {
                b[k]
            } else {
                a[k]
            },
    )
}

/// Results of one evaluation that are handed back to the caller.
#[derive(Debug)]
pub struct EvalOutputs {
    /// Captured rich output, keyed by MIME type.
    pub content_by_mime_type: StrMap,
    /// Wall-clock time of the evaluation, when the caller asked for timing.
    pub timing_millis: Option<u64>,
}

impl EvalOutputs {
    pub open spec fn wf(&self) -> bool {
        self.content_by_mime_type.wf()
    }

    pub fn new() -> (r: EvalOutputs)
        ensures
            r.wf(),
            r.content_by_mime_type@ == Map::<Seq<char>, Seq<char>>::empty(),
            r.timing_millis is None,
    {
        EvalOutputs { content_by_mime_type: StrMap::new(), timing_millis: None }
    }

    /// Plain-text content under both text keys, as the display paths
    /// produce it.
    pub fn text_html(text: &str, html: &str) -> (r: EvalOutputs)
        ensures
            r.wf(),
            r.content_by_mime_type@ == Map::<Seq<char>, Seq<char>>::empty().insert(
                "text/plain"@,
                text@,
            ).insert("text/html"@, html@),
            r.timing_millis is None,
    {
        let mut out = EvalOutputs::new();
        out.content_by_mime_type.insert(string_owned("text/plain"), text.to_owned());
        out.content_by_mime_type.insert(string_owned("text/html"), html.to_owned());
        out
    }

    pub fn is_empty(&self) -> (r: bool)
        ensures
            r == (self.content_by_mime_type.seq().len() == 0),
    {
        self.content_by_mime_type.len() == 0
    }

    /// The content stored under a MIME type.
    pub fn get(&self, mime_type: &str) -> (r: Option<&String>)
        requires
            self.wf(),
        ensures
            match r {
                Some(v) => self.content_by_mime_type@.contains_key(mime_type@) && v@
                    == self.content_by_mime_type@[mime_type@],
                None => !self.content_by_mime_type@.contains_key(mime_type@),
            },
    {
        self.content_by_mime_type.get(mime_type)
    }

    /// Fold another evaluation's outputs into this one: content under the
    /// same MIME type is concatenated, and timings add.
    pub fn merge(&mut self, other: &EvalOutputs)
        requires
            old(self).wf(),
            other.wf(),
            match (old(self).timing_millis, other.timing_millis) {
                (Some(t1), Some(t2)) => t1 + t2 <= u64::MAX,
                _ => true,
            },
        ensures
            final(self).wf(),
            final(self).content_by_mime_type@ == merge_content(
                old(self).content_by_mime_type@,
                other.content_by_mime_type@,
            ),
            final(self).timing_millis == match (old(self).timing_millis, other.timing_millis) {
                (Some(t1), Some(t2)) => Some((t1 + t2) as u64),
                (Some(t1), None) => Some(t1),
                (None, Some(t2)) => Some(t2),
                (None, None) => None::<u64>,
            },
    {
        let ghost a = self.content_by_mime_type@;
        let ghost b_seq = other.content_by_mime_type.seq();
        let n = other.content_by_mime_type.len();
        let mut i: usize = 0;
        proof {
            other.content_by_mime_type.lemma_seq_view();
            other.content_by_mime_type.lemma_wf_dup_free();
            other.content_by_mime_type.lemma_view_is_entries();
            assert(self.content_by_mime_type@ =~= merge_content(
                a,
                crate::strmap::str_entries_view(b_seq.take(0)),
            ));
        }
        while i < n
            invariant
                n == b_seq.len(),
                b_seq == other.content_by_mime_type.seq(),
                other.wf(),
                crate::strmap::str_entries_dup_free(b_seq),
                other.content_by_mime_type@ == crate::strmap::str_entries_view(b_seq),
                self.content_by_mime_type.wf(),
                i <= n,
                self.timing_millis == old(self).timing_millis,
                self.content_by_mime_type@ == merge_content(
                    a,
                    crate::strmap::str_entries_view(b_seq.take(i as int)),
                ),
            decreases n - i,
        {
            let e = other.content_by_mime_type.entry_at(i);
            let ghost pre = self.content_by_mime_type@;
            let ghost xi = crate::strmap::str_entries_view(b_seq.take(i as int));
            proof {
                crate::strmap::lemma_str_entries_view_contains(b_seq.take(i as int), e.name@);
                assert(forall|j: int| 0 <= j < i ==> b_seq.take(i as int)[j] == b_seq[j]);
                assert(!xi.contains_key(e.name@));
                assert(b_seq.take(i + 1).drop_last() =~= b_seq.take(i as int));
                crate::strmap::lemma_str_entries_view_push(b_seq.take(i as int), b_seq[i as int]);
                assert(b_seq.take(i + 1) =~= b_seq.take(i as int).push(b_seq[i as int]));
            }
            let merged = match self.content_by_mime_type.get(e.name.as_str()) {
                Some(existing) => {
                    let mut m = existing.clone();
                    m.append(e.value.as_str());
                    m
                },
                None => e.value.clone(),
            };
            self.content_by_mime_type.insert(e.name.clone(), merged);
            proof {
                assert(self.content_by_mime_type@ =~= merge_content(
                    a,
                    crate::strmap::str_entries_view(b_seq.take(i + 1)),
                ));
            }
            i += 1;
        }
        proof {
            assert(b_seq.take(n as int) =~= b_seq);
        }
        self.timing_millis = match (self.timing_millis, other.timing_millis) {
            (Some(t1), Some(t2)) => Some(t1 + t2),
            (Some(t1), None) => Some(t1),
            (None, Some(t2)) => Some(t2),
            (None, None) => None,
        };
    }
}

/// An owned `String` with the characters of `s`.
fn string_owned(s: &str) -> (r: String)
    ensures
        r@ == s@,
{
    s.to_owned()
}

} // verus!

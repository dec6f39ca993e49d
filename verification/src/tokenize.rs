//! The field tokenizer: one sentence body is split on commas into positional
//! fields, empty fields preserved. A position past the last field reads as an
//! empty field, so a truncated sentence behaves exactly like one whose
//! trailing fields are present but empty.

use vstd::prelude::*;
use crate::scan::{find_char, lemma_find_char_is, lemma_find_char_props, find_from};

verus! {

/// The fields of a sentence: the maximal comma-free pieces, in order,
/// empty pieces included. There is always at least one field.
pub open spec fn spec_fields(s: Seq<char>) -> Seq<Seq<char>>
    decreases s.len(),
{
    let c = find_char(s, ',') as int;
    if c >= s.len() {
        seq![s]
    } else {
        seq![s.subrange(0, c)] + spec_fields(s.subrange(c + 1, s.len() as int))
    }
}

/// The field at position `i`, an absent position reading as empty.
pub open spec fn fld(s: Seq<char>, i: int) -> Seq<char> {
    let fs = spec_fields(s);
    if 0 <= i < fs.len() {
        fs[i]
    } else {
        Seq::empty()
    }
}

/// The field at position `i` of an already-split sentence; an absent
/// position reads as empty, as in `fld`.
pub open spec fn field_view(fs: Seq<String>, i: int) -> Seq<char> {
    if 0 <= i < fs.len() {
        fs[i]@
    } else {
        Seq::empty()
    }
}

/// Splitting at a first comma: the head field and the split of the rest.
pub proof fn lemma_fields_split(s: Seq<char>, c: int)
    requires
        0 <= c < s.len(),
        s[c] == ',',
        forall|j: int| 0 <= j < c ==> s[j] != ',',
    ensures
        spec_fields(s) == seq![s.subrange(0, c)] + spec_fields(s.subrange(c + 1, s.len() as int)),
{
    lemma_find_char_is(s, ',', c);
}

/// A sentence without commas is one single field.
pub proof fn lemma_fields_whole(s: Seq<char>)
    requires
        forall|j: int| 0 <= j < s.len() ==> s[j] != ',',
    ensures
        spec_fields(s) == seq![s],
{
    lemma_find_char_is(s, ',', s.len() as int);
}

/// Appending a comma appends one empty field.
pub proof fn lemma_fields_push_comma(s: Seq<char>)
    ensures
        spec_fields(s.push(',')) == spec_fields(s).push(Seq::<char>::empty()),
    decreases s.len(),
{
    let t = s.push(',');
    lemma_find_char_props(s, ',');
    let c = find_char(s, ',') as int;
    if c >= s.len() {
        // `s` holds no comma: the pushed one is the first.
        assert(forall|j: int| 0 <= j < s.len() ==> t[j] == s[j]);
        lemma_find_char_is(t, ',', s.len() as int);
        assert(t.subrange(0, s.len() as int) =~= s);
        let rest = t.subrange(s.len() as int + 1, t.len() as int);
        assert(rest =~= Seq::<char>::empty());
        lemma_fields_whole(rest);
        assert(spec_fields(t) =~= spec_fields(s).push(Seq::<char>::empty()));
    } else {
        assert(forall|j: int| 0 <= j < c ==> t[j] == s[j]);
        assert(t[c] == s[c]);
        lemma_find_char_is(t, ',', c);
        let s_rest = s.subrange(c + 1, s.len() as int);
        let t_rest = t.subrange(c + 1, t.len() as int);
        assert(t_rest =~= s_rest.push(','));
        lemma_fields_push_comma(s_rest);
        assert(t.subrange(0, c) =~= s.subrange(0, c));
        assert(spec_fields(t) =~= spec_fields(s).push(Seq::<char>::empty()));
    }
}

/// Past the sentence's last field every position reads as empty, so a
/// sentence truncated before some field decodes exactly like the same
/// sentence with that field present and empty: appending a comma (one more
/// empty field) changes no field that any position reads.
pub proof fn lemma_truncated_reads_like_empty(s: Seq<char>, i: int)
    ensures
        fld(s.push(','), i) == fld(s, i),
{
    lemma_fields_push_comma(s);
}

/// Split one sentence into its comma-separated fields, empty fields kept.
pub fn split_fields(s: &str) -> (r: Vec<String>)
    ensures
        r@.len() == spec_fields(s@).len(),
        forall|i: int| 0 <= i < r@.len() ==> (#[trigger] r@[i])@ == spec_fields(s@)[i],
{
    let n = s.unicode_len();
    let mut r: Vec<String> = Vec::new();
    let mut start: usize = 0;
    proof {
        assert(s@.subrange(0, n as int) =~= s@);
        assert(r@.map_values(|f: String| f@) + spec_fields(s@) =~= spec_fields(s@));
    }
    loop
        invariant
            start <= n,
            n == s@.len(),
            spec_fields(s@) == r@.map_values(|f: String| f@) + spec_fields(
                s@.subrange(start as int, n as int),
            ),
        decreases n - start,
    {
        let comma = find_from(s, start, ',');
        let piece = s.substring_char(start, comma).to_owned();
        proof {
            let t = s@.subrange(start as int, n as int);
            assert(forall|j: int| 0 <= j < t.len() ==> t[j] == s@[j + start]);
            if comma < n {
                lemma_fields_split(t, comma as int - start as int);
                assert(t.subrange(0, comma as int - start as int) =~= s@.subrange(
                    start as int,
                    comma as int,
                ));
                assert(t.subrange(comma as int - start as int + 1, t.len() as int) =~= s@.subrange(
                    comma as int + 1,
                    n as int,
                ));
            } else {
                lemma_fields_whole(t);
            }
            assert((r@.push(piece)).map_values(|f: String| f@) =~= r@.map_values(|f: String| f@)
                + seq![piece@]);
            if comma < n {
                assert(r@.map_values(|f: String| f@) + (seq![piece@] + spec_fields(
                    s@.subrange(comma as int + 1, n as int),
                )) =~= (r@.map_values(|f: String| f@) + seq![piece@]) + spec_fields(
                    s@.subrange(comma as int + 1, n as int),
                ));
            }
        }
        r.push(piece);
        if comma < n {
            start = comma + 1;
        } else {
            proof {
                assert(spec_fields(s@) =~= r@.map_values(|f: String| f@));
                assert forall|i: int| 0 <= i < r@.len() implies (#[trigger] r@[i])@ == spec_fields(
                    s@,
                )[i] by {
                    assert(r@.map_values(|f: String| f@)[i] == r@[i]@);
                }
            }
            return r;
        }
    }
}

} // verus!

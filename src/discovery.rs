//! Which entries of a listed directory the lint reads: its files whose names
//! select a dialect, in listing order. Nested directories are not entered.
use vstd::prelude::*;
use crate::dialect::{dialect_of, is_html_file};

verus! {

/// One entry of a directory listing: its path, and whether it is a file.
#[derive(Clone, Debug)]
pub struct ListedEntry {
    pub path: String,
    pub is_file: bool,
}

/// Whether the lint reads a listed entry: a file whose name selects a dialect.
pub open spec fn is_candidate(e: ListedEntry) -> bool {
    e.is_file && dialect_of(e.path@) is Some
}

/// The paths of the entries that the lint reads, in listing order.
pub open spec fn candidates_of(es: Seq<ListedEntry>) -> Seq<Seq<char>>
    decreases es.len(),
{
    if es.len() == 0 {
        seq![]
    } else if is_candidate(es.last()) {
        candidates_of(es.drop_last()).push(es.last().path@)
    } else {
        candidates_of(es.drop_last())
    }
}

/// The paths of a directory's entries that the lint reads, in listing order.
pub fn directory_candidates(entries: &Vec<ListedEntry>) -> (r: Vec<String>)
    ensures
        r@.map_values(|s: String| s@) == candidates_of(entries@),
{
    let mut r: Vec<String> = Vec::new();
    let mut i: usize = 0;
    while i < entries.len()
        invariant
            i <= entries@.len(),
            r@.map_values(|s: String| s@) == candidates_of(entries@.subrange(0, i as int)),
        decreases entries@.len() - i,
    {
        let e = &entries[i];
        proof {
            assert(entries@.subrange(0, i + 1).drop_last() =~= entries@.subrange(0, i as int));
            assert(entries@.subrange(0, i + 1).last() == entries@[i as int]);
        }
        if e.is_file && is_html_file(e.path.as_str()) {
            let ghost before = r@;
            r.push(e.path.clone());
            assert(r@.map_values(|s: String| s@) =~= before.map_values(|s: String| s@).push(
                e.path@,
            ));
        }
        i = i + 1;
    }
    assert(entries@.subrange(0, entries@.len() as int) =~= entries@);
    r
}

/// Listing order is kept: the candidates of two runs of entries are those of
/// the first followed by those of the second.
pub proof fn lemma_candidates_concat(a: Seq<ListedEntry>, b: Seq<ListedEntry>)
    ensures
        candidates_of(a + b) == candidates_of(a) + candidates_of(b),
    decreases b.len(),
{
    if b.len() == 0 {
        assert(a + b =~= a);
        assert(candidates_of(b) =~= seq![]);
        assert(candidates_of(a) + candidates_of(b) =~= candidates_of(a));
    } else {
        lemma_candidates_concat(a, b.drop_last());
        assert((a + b).drop_last() =~= a + b.drop_last());
        assert((a + b).last() == b.last());
        if is_candidate(b.last()) {
            assert(candidates_of(a) + candidates_of(b) =~= (candidates_of(a) + candidates_of(
                b.drop_last(),
            )).push(b.last().path@));
        }
    }
}

/// Directories are not entered: an entry that is not a file, such as a nested
/// directory, adds nothing to the candidates wherever it stands in the listing,
/// whatever files it holds.
pub proof fn lemma_nested_directory_skipped(
    a: Seq<ListedEntry>,
    nested: ListedEntry,
    b: Seq<ListedEntry>,
)
    requires
        !nested.is_file,
    ensures
        candidates_of(a + seq![nested] + b) == candidates_of(a + b),
{
    lemma_candidates_concat(a + seq![nested], b);
    lemma_candidates_concat(a, seq![nested]);
    lemma_candidates_concat(a, b);
    let one = seq![nested];
    assert(one.drop_last() =~= Seq::<ListedEntry>::empty());
    assert(one.last() == nested);
    assert(candidates_of(Seq::<ListedEntry>::empty()) =~= seq![]);
    assert(candidates_of(one) =~= seq![]);
    assert(candidates_of(a) + candidates_of(seq![nested]) =~= candidates_of(a));
}

/// Every candidate is the path of a listed file whose name selects a dialect.
pub proof fn lemma_candidates_are_template_files(es: Seq<ListedEntry>, k: int)
    requires
        0 <= k < candidates_of(es).len(),
    ensures
        exists|i: int|
            0 <= i < es.len() && #[trigger] es[i].is_file && es[i].path@ == candidates_of(es)[k]
                && dialect_of(es[i].path@) is Some,
    decreases es.len(),
{
    let rest = es.drop_last();
    if is_candidate(es.last()) && k == candidates_of(rest).len() {
        assert(es[es.len() - 1].is_file);
    } else {
        lemma_candidates_are_template_files(rest, k);
        let i = choose|i: int|
            0 <= i < rest.len() && #[trigger] rest[i].is_file && rest[i].path@ == candidates_of(
                rest,
            )[k] && dialect_of(rest[i].path@) is Some;
        assert(es[i] == rest[i]);
    }
}

} // verus!

//! From attributes to diagnostics: each directive whose plugin is restricted
//! gives one diagnostic at the position of the attribute's name.
use vstd::prelude::*;
use crate::directive::{
    SyntaxNode, find_plugin_name, is_directive, is_directive_name, is_restricted,
    is_restricted_plugin, plugin_of,
};
use crate::syntax::{AttributeOccurrence, OccurrenceView, occurrence_views};
use crate::report::{SUCCESS_LINE, report_of};
use vstd::string::StringExecFns;

verus! {

/// One finding: a restricted plugin used in `file` at a 1-based line and column.
#[derive(Clone, Debug)]
pub struct Diagnostic {
    pub file: String,
    pub line: usize,
    pub column: usize,
    pub plugin: String,
}

/// A diagnostic as plain values.
pub ghost struct DiagnosticView {
    pub file: Seq<char>,
    pub line: int,
    pub column: int,
    pub plugin: Seq<char>,
}

impl View for Diagnostic {
    type V = DiagnosticView;

    open spec fn view(&self) -> DiagnosticView {
        DiagnosticView {
            file: self.file@,
            line: self.line as int,
            column: self.column as int,
            plugin: self.plugin@,
        }
    }
}

/// The views of a sequence of diagnostics.
pub open spec fn diagnostic_views(v: Seq<Diagnostic>) -> Seq<DiagnosticView> {
    v.map_values(|d: Diagnostic| d@)
}

/// The plugin segment of an optional directive parse tree.
pub open spec fn plugin_of_tree(t: Option<SyntaxNode>) -> Option<Seq<char>> {
    match t {
        Some(n) => plugin_of(n),
        None => None,
    }
}

/// The diagnostic an attribute gives, given the plugin segment of its name's
/// parse tree: one exactly when the name is a directive and that segment is a
/// restricted plugin, placed where the name starts.
pub open spec fn diagnostic_of(
    file: Seq<char>,
    o: OccurrenceView,
    plugin: Option<Seq<char>>,
) -> Option<DiagnosticView> {
    if is_directive(o.raw_name) {
        match plugin {
            Some(p) => if is_restricted(p) {
                Some(
                    DiagnosticView {
                        file: file,
                        line: o.start_line,
                        column: o.start_column,
                        plugin: p,
                    },
                )
            } else {
                None
            },
            None => None,
        }
    } else {
        None
    }
}

/// The diagnostics of a file's attributes, in document order; `trees[i]` is the
/// parse tree of the name of `occs[i]`, if it was parsed.
pub open spec fn diagnostics_of(
    file: Seq<char>,
    occs: Seq<OccurrenceView>,
    trees: Seq<Option<SyntaxNode>>,
) -> Seq<DiagnosticView>
    decreases occs.len(),
{
    if occs.len() == 0 || trees.len() == 0 {
        seq![]
    } else {
        let earlier = diagnostics_of(file, occs.drop_last(), trees.drop_last());
        match diagnostic_of(file, occs.last(), plugin_of_tree(trees.last())) {
            Some(d) => earlier.push(d),
            None => earlier,
        }
    }
}

/// Whether an attribute is a directive whose parse tree names a restricted plugin.
pub open spec fn uses_restricted_plugin(o: OccurrenceView, t: Option<SyntaxNode>) -> bool {
    is_directive(o.raw_name) && match plugin_of_tree(t) {
        Some(p) => is_restricted(p),
        None => false,
    }
}

/// A file none of whose attributes is a directive naming a restricted plugin
/// has no diagnostics, so its run reports success alone.
pub proof fn lemma_clean_file_has_no_diagnostics(
    file: Seq<char>,
    occs: Seq<OccurrenceView>,
    trees: Seq<Option<SyntaxNode>>,
)
    requires
        occs.len() == trees.len(),
        forall|i: int|
            0 <= i < occs.len() && i < trees.len() ==> !uses_restricted_plugin(
                #[trigger] occs[i],
                trees[i],
            ),
    ensures
        diagnostics_of(file, occs, trees) == Seq::<DiagnosticView>::empty(),
        report_of(diagnostics_of(file, occs, trees)) == seq![SUCCESS_LINE@],
    decreases occs.len(),
{
    if occs.len() > 0 && trees.len() > 0 {
        let (o, t) = (occs.drop_last(), trees.drop_last());
        assert forall|i: int| 0 <= i < o.len() && i < t.len() implies !uses_restricted_plugin(
            #[trigger] o[i],
            t[i],
        ) by {
            assert(o[i] == occs[i] && t[i] == trees[i]);
        }
        lemma_clean_file_has_no_diagnostics(file, o, t);
        assert(!uses_restricted_plugin(occs[occs.len() - 1], trees[trees.len() - 1]));
    }
    assert(diagnostics_of(file, occs, trees) =~= Seq::<DiagnosticView>::empty());
}

/// Attributes whose names are not directives give no diagnostic, whatever
/// their names and whatever parse trees are paired with them: two files that
/// differ only in non-directive attributes and their trees give the same
/// diagnostics.
pub proof fn lemma_non_directive_names_unread(
    file: Seq<char>,
    occs1: Seq<OccurrenceView>,
    trees1: Seq<Option<SyntaxNode>>,
    occs2: Seq<OccurrenceView>,
    trees2: Seq<Option<SyntaxNode>>,
)
    requires
        trees1.len() == occs1.len(),
        occs2.len() == occs1.len(),
        trees2.len() == occs1.len(),
        forall|i: int|
            0 <= i < occs1.len() && (is_directive(#[trigger] occs1[i].raw_name) || is_directive(
                occs2[i].raw_name,
            )) ==> occs1[i] == occs2[i] && trees1[i] == trees2[i],
    ensures
        diagnostics_of(file, occs1, trees1) == diagnostics_of(file, occs2, trees2),
        forall|i: int|
            0 <= i < occs1.len() && !is_directive(#[trigger] occs1[i].raw_name) ==> diagnostic_of(
                file,
                occs1[i],
                plugin_of_tree(trees1[i]),
            ) is None,
    decreases occs1.len(),
{
    if occs1.len() > 0 {
        let (o1, t1, o2, t2) = (
            occs1.drop_last(),
            trees1.drop_last(),
            occs2.drop_last(),
            trees2.drop_last(),
        );
        assert forall|i: int|
            0 <= i < o1.len() && (is_directive(#[trigger] o1[i].raw_name) || is_directive(
                o2[i].raw_name,
            )) implies o1[i] == o2[i] && t1[i] == t2[i] by {
            assert(o1[i] == occs1[i] && o2[i] == occs2[i]);
        }
        lemma_non_directive_names_unread(file, o1, t1, o2, t2);
        let last = occs1.len() - 1;
        assert(occs1[last] == occs1.last() && occs2[last] == occs2.last());
    }
}

/// Every diagnostic comes from a directive attribute naming a restricted
/// plugin, and stands at the line and column where that attribute's name starts.
pub proof fn lemma_diagnostics_at_attribute_names(
    file: Seq<char>,
    occs: Seq<OccurrenceView>,
    trees: Seq<Option<SyntaxNode>>,
    k: int,
)
    requires
        occs.len() == trees.len(),
        0 <= k < diagnostics_of(file, occs, trees).len(),
    ensures
        exists|i: int|
            0 <= i < occs.len() && i < trees.len() && #[trigger] uses_restricted_plugin(
                occs[i],
                trees[i],
            ) && diagnostics_of(file, occs, trees)[k] == (DiagnosticView {
                file: file,
                line: occs[i].start_line,
                column: occs[i].start_column,
                plugin: plugin_of_tree(trees[i])->Some_0,
            }),
        is_restricted(diagnostics_of(file, occs, trees)[k].plugin),
    decreases occs.len(),
{
    let (o, t) = (occs.drop_last(), trees.drop_last());
    let earlier = diagnostics_of(file, o, t);
    let last = occs.len() - 1;
    if k == earlier.len() && diagnostic_of(file, occs.last(), plugin_of_tree(trees.last())) is Some {
        assert(uses_restricted_plugin(occs[last], trees[last]));
    } else {
        lemma_diagnostics_at_attribute_names(file, o, t, k);
        let i = choose|i: int|
            0 <= i < o.len() && i < t.len() && #[trigger] uses_restricted_plugin(o[i], t[i])
                && earlier[k] == (DiagnosticView {
                file: file,
                line: o[i].start_line,
                column: o[i].start_column,
                plugin: plugin_of_tree(t[i])->Some_0,
            });
        assert(o[i] == occs[i] && t[i] == trees[i]);
    }
}

/// Document order is kept: the diagnostics of two runs of attributes are those
/// of the first followed by those of the second.
pub proof fn lemma_diagnostics_concat(
    file: Seq<char>,
    occs1: Seq<OccurrenceView>,
    trees1: Seq<Option<SyntaxNode>>,
    occs2: Seq<OccurrenceView>,
    trees2: Seq<Option<SyntaxNode>>,
)
    requires
        occs1.len() == trees1.len(),
        occs2.len() == trees2.len(),
    ensures
        diagnostics_of(file, occs1 + occs2, trees1 + trees2) == diagnostics_of(file, occs1, trees1)
            + diagnostics_of(file, occs2, trees2),
    decreases occs2.len(),
{
    if occs2.len() == 0 {
        assert(occs1 + occs2 =~= occs1);
        assert(trees1 + trees2 =~= trees1);
        assert(diagnostics_of(file, occs1, trees1) + diagnostics_of(file, occs2, trees2)
            =~= diagnostics_of(file, occs1, trees1));
    } else {
        lemma_diagnostics_concat(file, occs1, trees1, occs2.drop_last(), trees2.drop_last());
        assert((occs1 + occs2).drop_last() =~= occs1 + occs2.drop_last());
        assert((trees1 + trees2).drop_last() =~= trees1 + trees2.drop_last());
        assert((occs1 + occs2).last() == occs2.last());
        assert((trees1 + trees2).last() == trees2.last());
        let a = diagnostics_of(file, occs1, trees1);
        let b = diagnostics_of(file, occs2.drop_last(), trees2.drop_last());
        match diagnostic_of(file, occs2.last(), plugin_of_tree(trees2.last())) {
            Some(d) => {
                assert((a + b).push(d) =~= a + b.push(d));
            },
            None => {},
        }
    }
}

/// The diagnostic that one attribute gives, given the parse tree of its name.
pub fn plugin_diagnostic(file: &str, occ: &AttributeOccurrence, tree: &Option<SyntaxNode>) -> (r:
    Option<Diagnostic>)
    ensures
        match r {
            Some(d) => diagnostic_of(file@, occ@, plugin_of_tree(*tree)) == Some(d@),
            None => diagnostic_of(file@, occ@, plugin_of_tree(*tree)) is None,
        },
{
    if !is_directive_name(occ.raw_name.as_str()) {
        return None;
    }
    let node = match tree {
        Some(n) => n,
        None => {
            return None;
        },
    };
    match find_plugin_name(node) {
        Some(p) => {
            if is_restricted_plugin(p.as_str()) {
                Some(
                    Diagnostic {
                        file: String::from_str(file),
                        line: occ.start_line,
                        column: occ.start_column,
                        plugin: p,
                    },
                )
            } else {
                None
            }
        },
        None => None,
    }
}

/// The diagnostics of a file's attributes, in document order. `trees[i]` is the
/// parse tree of the name of `occs[i]`; it is read only where that name is a
/// directive, so a caller parses no other name.
pub fn file_diagnostics(
    file: &str,
    occs: &Vec<AttributeOccurrence>,
    trees: &Vec<Option<SyntaxNode>>,
) -> (r: Vec<Diagnostic>)
    requires
        occs@.len() == trees@.len(),
    ensures
        diagnostic_views(r@) == diagnostics_of(file@, occurrence_views(occs@), trees@),
{
    let mut r: Vec<Diagnostic> = Vec::new();
    let mut i: usize = 0;
    while i < occs.len()
        invariant
            occs@.len() == trees@.len(),
            i <= occs@.len(),
            diagnostic_views(r@) == diagnostics_of(
                file@,
                occurrence_views(occs@.subrange(0, i as int)),
                trees@.subrange(0, i as int),
            ),
        decreases occs@.len() - i,
    {
        let d = plugin_diagnostic(file, &occs[i], &trees[i]);
        proof {
            let os = occurrence_views(occs@.subrange(0, i + 1));
            assert(os.drop_last() =~= occurrence_views(occs@.subrange(0, i as int)));
            assert(os.last() == occs@[i as int]@);
            assert(trees@.subrange(0, i + 1).drop_last() =~= trees@.subrange(0, i as int));
        }
        match d {
            Some(d) => {
                r.push(d);
                assert(diagnostic_views(r@) =~= diagnostic_views(r@.drop_last()).push(d@));
            },
            None => {},
        }
        i = i + 1;
    }
    assert(occs@.subrange(0, occs@.len() as int) =~= occs@);
    assert(trees@.subrange(0, trees@.len() as int) =~= trees@);
    r
}

/// The diagnostics of a run, accumulated file by file in the order in which
/// the files were processed.
pub struct Findings {
    pub diagnostics: Vec<Diagnostic>,
}

impl Findings {
    /// Every accumulated diagnostic names a restricted plugin.
    pub open spec fn well_formed(&self) -> bool {
        forall|i: int|
            0 <= i < self.diagnostics@.len() ==> is_restricted(
                #[trigger] self.diagnostics@[i].plugin@,
            )
    }

    /// A run with no diagnostics yet.
    pub fn new() -> (r: Findings)
        ensures
            r.diagnostics@.len() == 0,
            r.well_formed(),
    {
        Findings { diagnostics: Vec::new() }
    }

    /// Adds a file's diagnostics after those of the files added before it.
    pub fn add_file(
        &mut self,
        file: &str,
        occs: &Vec<AttributeOccurrence>,
        trees: &Vec<Option<SyntaxNode>>,
    )
        requires
            occs@.len() == trees@.len(),
        ensures
            diagnostic_views(final(self).diagnostics@) == diagnostic_views(old(self).diagnostics@)
                + diagnostics_of(file@, occurrence_views(occs@), trees@),
            old(self).well_formed() ==> final(self).well_formed(),
    {
        let mut found = file_diagnostics(file, occs, trees);
        let ghost before = self.diagnostics@;
        let ghost added = found@;
        self.diagnostics.append(&mut found);
        assert(diagnostic_views(self.diagnostics@) =~= diagnostic_views(before) + diagnostic_views(
            added,
        ));
        assert forall|k: int| 0 <= k < added.len() implies is_restricted(
            #[trigger] added[k].plugin@,
        ) by {
            assert(diagnostic_views(added)[k] == added[k]@);
            lemma_diagnostics_at_attribute_names(file@, occurrence_views(occs@), trees@, k);
        }
        assert forall|i: int| 0 <= i < self.diagnostics@.len() && old(self).well_formed()
            implies is_restricted(#[trigger] self.diagnostics@[i].plugin@) by {
            if i < before.len() {
                assert(self.diagnostics@[i] == before[i]);
            } else {
                assert(self.diagnostics@[i] == added[i - before.len()]);
            }
        }
    }

    /// Whether the run found nothing.
    pub fn is_empty(&self) -> (r: bool)
        ensures
            r == (self.diagnostics@.len() == 0),
    {
        self.diagnostics.len() == 0
    }
}

} // verus!

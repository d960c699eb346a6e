//! Parsing a template with its dialect's grammar, and the attributes that the
//! attribute query finds in the tree.
use vstd::prelude::*;
use streaming_iterator::StreamingIterator;
use tree_sitter::{Parser, Query, QueryCursor};
use crate::dialect::{Dialect, dialect_of, dialect_for_file};

verus! {

#[verifier::external_type_specification]
#[verifier::external_body]
pub struct ExLanguage(tree_sitter::Language);

/// The structural query for attributes: an `attribute` node with its
/// `attribute_name` (capture 0) and, if present, its `quoted_attribute_value`
/// (capture 1). Every supported grammar shapes attributes this way.
pub const ATTRIBUTE_QUERY: &'static str = "(attribute (attribute_name) @attr_name (quoted_attribute_value)? @attr_value)";

/// Index of the attribute-name capture in `ATTRIBUTE_QUERY`.
pub const NAME_CAPTURE: u32 = 0;

/// Index of the quoted-value capture in `ATTRIBUTE_QUERY`.
pub const VALUE_CAPTURE: u32 = 1;

/// One captured node of a query match: the capture's index, the text the node
/// covers, and where it starts (0-based row and column, as the parser counts).
#[derive(Clone, Debug)]
pub struct Capture {
    pub index: u32,
    pub text: String,
    pub row: usize,
    pub column: usize,
}

/// A captured node as plain values.
pub ghost struct CaptureModel {
    pub index: u32,
    pub text: Seq<char>,
    pub row: usize,
    pub column: usize,
}

impl View for Capture {
    type V = CaptureModel;

    open spec fn view(&self) -> CaptureModel {
        CaptureModel { index: self.index, text: self.text@, row: self.row, column: self.column }
    }
}

/// The views of one match's captures.
pub open spec fn capture_views(m: Seq<Capture>) -> Seq<CaptureModel> {
    m.map_values(|c: Capture| c@)
}

/// The views of a sequence of matches.
pub open spec fn match_views(ms: Seq<Vec<Capture>>) -> Seq<Seq<CaptureModel>> {
    ms.map_values(|m: Vec<Capture>| capture_views(m@))
}

/// The matches of `ATTRIBUTE_QUERY` over the parse tree of `source` under the
/// grammar of dialect `d`, in the order the query cursor yields them.
pub uninterp spec fn attribute_matches_of(d: Dialect, source: Seq<char>) -> Seq<Seq<CaptureModel>>;

/// An attribute found in a template: its name, whether it has a quoted value,
/// and where its name starts (1-based line and column).
#[derive(Clone, Debug)]
pub struct AttributeOccurrence {
    pub raw_name: String,
    pub has_quoted_value: bool,
    pub start_line: usize,
    pub start_column: usize,
}

/// An attribute occurrence as plain values.
pub ghost struct OccurrenceView {
    pub raw_name: Seq<char>,
    pub has_quoted_value: bool,
    pub start_line: int,
    pub start_column: int,
}

impl View for AttributeOccurrence {
    type V = OccurrenceView;

    open spec fn view(&self) -> OccurrenceView {
        OccurrenceView {
            raw_name: self.raw_name@,
            has_quoted_value: self.has_quoted_value,
            start_line: self.start_line as int,
            start_column: self.start_column as int,
        }
    }
}

/// The views of a sequence of occurrences.
pub open spec fn occurrence_views(v: Seq<AttributeOccurrence>) -> Seq<OccurrenceView> {
    v.map_values(|o: AttributeOccurrence| o@)
}

/// A 0-based position counted from 1, held at the largest `usize`.
pub open spec fn one_based(n: usize) -> int {
    if n < usize::MAX {
        n + 1
    } else {
        n as int
    }
}

/// Index of the first capture of `m`, from the `i`-th on, with capture index `k`; or -1.
pub open spec fn first_capture(m: Seq<CaptureModel>, k: u32, i: int) -> int
    decreases m.len() - i,
{
    if i < 0 || i >= m.len() {
        -1
    } else if m[i].index == k {
        i
    } else {
        first_capture(m, k, i + 1)
    }
}

/// The attribute that one match of the attribute query stands for: the first
/// name capture gives its name and position; a value capture, its quoted value.
pub open spec fn occurrence_of(m: Seq<CaptureModel>) -> Option<OccurrenceView> {
    let k = first_capture(m, NAME_CAPTURE, 0);
    if k < 0 {
        None
    } else {
        Some(
            OccurrenceView {
                raw_name: m[k].text,
                has_quoted_value: first_capture(m, VALUE_CAPTURE, 0) >= 0,
                start_line: one_based(m[k].row),
                start_column: one_based(m[k].column),
            },
        )
    }
}

/// The attributes of a sequence of matches, in the order of the matches.
pub open spec fn occurrences_of(ms: Seq<Seq<CaptureModel>>) -> Seq<OccurrenceView>
    decreases ms.len(),
{
    if ms.len() == 0 {
        seq![]
    } else {
        let earlier = occurrences_of(ms.drop_last());
        match occurrence_of(ms.last()) {
            Some(o) => earlier.push(o),
            None => earlier,
        }
    }
}

proof fn lemma_first_capture(m: Seq<CaptureModel>, k: u32, i: int)
    requires
        0 <= i,
    ensures
        first_capture(m, k, i) == -1 || (i <= first_capture(m, k, i) < m.len() && m[first_capture(
            m,
            k,
            i,
        )].index == k),
    decreases m.len() - i,
{
    if i < m.len() && m[i].index != k {
        lemma_first_capture(m, k, i + 1);
    }
}

/// Every attribute found stands where a captured attribute name starts, counted
/// from 1, and carries that name's text; never the position of a value.
pub proof fn lemma_occurrences_at_name_captures(ms: Seq<Seq<CaptureModel>>, k: int)
    requires
        0 <= k < occurrences_of(ms).len(),
    ensures
        exists|i: int, j: int|
            0 <= i < ms.len() && 0 <= j < ms[i].len() && (#[trigger] ms[i][j]).index
                == NAME_CAPTURE && occurrences_of(ms)[k].raw_name == ms[i][j].text
                && occurrences_of(ms)[k].start_line == one_based(ms[i][j].row)
                && occurrences_of(ms)[k].start_column == one_based(ms[i][j].column),
    decreases ms.len(),
{
    let rest = ms.drop_last();
    let last = ms.len() - 1;
    if k == occurrences_of(rest).len() && occurrence_of(ms.last()) is Some {
        let j = first_capture(ms.last(), NAME_CAPTURE, 0);
        lemma_first_capture(ms.last(), NAME_CAPTURE, 0);
        assert(ms[last][j].index == NAME_CAPTURE);
    } else {
        lemma_occurrences_at_name_captures(rest, k);
        let (i, j) = choose|i: int, j: int|
            0 <= i < rest.len() && 0 <= j < rest[i].len() && (#[trigger] rest[i][j]).index
                == NAME_CAPTURE && occurrences_of(rest)[k].raw_name == rest[i][j].text
                && occurrences_of(rest)[k].start_line == one_based(rest[i][j].row)
                && occurrences_of(rest)[k].start_column == one_based(rest[i][j].column);
        assert(rest[i] == ms[i]);
    }
}

fn find_capture(m: &Vec<Capture>, k: u32) -> (r: Option<usize>)
    ensures
        match r {
            Some(j) => j == first_capture(capture_views(m@), k, 0) && j < m@.len(),
            None => first_capture(capture_views(m@), k, 0) == -1,
        },
{
    let ghost mv = capture_views(m@);
    proof {
        lemma_first_capture(mv, k, 0);
    }
    let mut i: usize = 0;
    while i < m.len()
        invariant
            i <= m@.len(),
            mv == capture_views(m@),
            first_capture(mv, k, 0) == first_capture(mv, k, i as int),
        decreases m@.len() - i,
    {
        assert(mv[i as int] == m@[i as int]@);
        if m[i].index == k {
            return Some(i);
        }
        i = i + 1;
    }
    None
}

fn one_based_position(n: usize) -> (r: usize)
    ensures
        r == one_based(n),
{
    if n < usize::MAX {
        n + 1
    } else {
        n
    }
}

/// The attribute that one match of the attribute query stands for, if the
/// match holds a name capture.
pub fn occurrence_from_match(m: &Vec<Capture>) -> (r: Option<AttributeOccurrence>)
    ensures
        match r {
            Some(o) => occurrence_of(capture_views(m@)) == Some(o@),
            None => occurrence_of(capture_views(m@)) is None,
        },
{
    let ghost mv = capture_views(m@);
    match find_capture(m, NAME_CAPTURE) {
        Some(k) => {
            let name = &m[k];
            assert(mv[k as int] == name@);
            let has_value = match find_capture(m, VALUE_CAPTURE) {
                Some(_) => true,
                None => false,
            };
            Some(
                AttributeOccurrence {
                    raw_name: name.text.clone(),
                    has_quoted_value: has_value,
                    start_line: one_based_position(name.row),
                    start_column: one_based_position(name.column),
                },
            )
        },
        None => None,
    }
}

/// The attributes of a sequence of query matches, in the order of the matches.
pub fn occurrences_from_matches(ms: &Vec<Vec<Capture>>) -> (r: Vec<AttributeOccurrence>)
    ensures
        occurrence_views(r@) == occurrences_of(match_views(ms@)),
{
    let mut r: Vec<AttributeOccurrence> = Vec::new();
    let mut i: usize = 0;
    while i < ms.len()
        invariant
            i <= ms@.len(),
            occurrence_views(r@) == occurrences_of(match_views(ms@.subrange(0, i as int))),
        decreases ms@.len() - i,
    {
        let o = occurrence_from_match(&ms[i]);
        proof {
            let next = match_views(ms@.subrange(0, i + 1));
            assert(next.drop_last() =~= match_views(ms@.subrange(0, i as int)));
            assert(next.last() == capture_views(ms@[i as int]@));
        }
        match o {
            Some(o) => {
                r.push(o);
                assert(occurrence_views(r@) =~= occurrence_views(r@.drop_last()).push(o@));
            },
            None => {},
        }
        i = i + 1;
    }
    assert(ms@.subrange(0, ms@.len() as int) =~= ms@);
    r
}

/// What went wrong while reading a template's attributes.
#[derive(Clone, Copy, Debug, PartialEq, Eq, Structural)]
pub enum LintError {
    /// The library links no grammar for this dialect.
    GrammarUnavailable,
    /// A grammar that the library does not link could not parse or be queried.
    ParseFailed,
}

/// Relies on tree_sitter_html::LANGUAGE: the HTML grammar.
#[verifier::external_body]
fn html_language() -> tree_sitter::Language {
    tree_sitter_html::LANGUAGE.into()
}

/// Relies on tree_sitter_heex::LANGUAGE: the HEEx grammar.
#[verifier::external_body]
fn heex_language() -> tree_sitter::Language {
    tree_sitter_heex::LANGUAGE.into()
}

/// Relies on tree_sitter_templ::LANGUAGE: the templ grammar.
#[verifier::external_body]
fn templ_language() -> tree_sitter::Language {
    tree_sitter_templ::LANGUAGE.into()
}

/// A template grammar, with the dialect it belongs to when the library links it.
pub struct Grammar {
    dialect: Option<Dialect>,
    language: tree_sitter::Language,
}

impl Grammar {
    /// The dialect whose linked grammar this is; `None` for a grammar a caller supplied.
    pub closed spec fn linked_dialect(&self) -> Option<Dialect> {
        self.dialect
    }

    /// The grammar the library links for a dialect. Blade's grammar is not
    /// linked: a caller that has it supplies it with `Grammar::supplied`.
    pub fn linked(d: Dialect) -> (r: Option<Grammar>)
        ensures
            r is Some <==> d != Dialect::Blade,
            r matches Some(g) ==> g.linked_dialect() == Some(d),
    {
        match d {
            Dialect::Html => Some(Grammar { dialect: Some(d), language: html_language() }),
            Dialect::Heex => Some(Grammar { dialect: Some(d), language: heex_language() }),
            Dialect::Templ => Some(Grammar { dialect: Some(d), language: templ_language() }),
            Dialect::Blade => None,
        }
    }

    /// A grammar the library does not link, supplied by the caller.
    pub fn supplied(language: tree_sitter::Language) -> (r: Grammar)
        ensures
            r.linked_dialect() is None,
    {
        Grammar { dialect: None, language }
    }
}

/// Relies on tree_sitter's Parser::set_language, Parser::parse, Query::new and
/// QueryCursor::matches, run on one text: the query's matches over the text's
/// tree. The linked grammars are of an ABI version the parser reads, no timeout
/// or cancellation is set, and they have the node kinds the attribute query
/// names, so for them and that query every step succeeds.
#[verifier::external_body]
fn grammar_matches(g: &Grammar, source: &str, query: &str) -> (r: Option<Vec<Vec<Capture>>>)
    ensures
        (g.linked_dialect() is Some && query@ == ATTRIBUTE_QUERY@) ==> (r is Some && match_views(
            r->Some_0@,
        ) == attribute_matches_of(g.linked_dialect()->Some_0, source@)),
{
    let mut parser = Parser::new();
    parser.set_language(&g.language).ok()?;
    let tree = parser.parse(source, None)?;
    let query = Query::new(&g.language, query).ok()?;
    let mut cursor = QueryCursor::new();
    let mut it = cursor.matches(&query, tree.root_node(), source.as_bytes());
    let mut r = Vec::new();
    while let Some(m) = it.next() {
        r.push(m.captures.iter().map(|c| Capture {
            index: c.index, text: source[c.node.byte_range()].to_string(),
            row: c.node.start_position().row, column: c.node.start_position().column,
        }).collect());
    }
    Some(r)
}

/// The attributes of a template, in document order: the text is parsed with
/// the grammar and the attribute query is run over the whole tree. With a
/// linked grammar this always succeeds; a supplied grammar may fail to load,
/// parse or take the query, which gives `ParseFailed`.
pub fn template_attributes(g: &Grammar, source: &str) -> (r: Result<
    Vec<AttributeOccurrence>,
    LintError,
>)
    ensures
        match g.linked_dialect() {
            Some(d) => r matches Ok(v) && occurrence_views(v@) == occurrences_of(
                attribute_matches_of(d, source@),
            ),
            None => match r {
                Ok(v) => exists|ms: Seq<Seq<CaptureModel>>|
                    occurrence_views(v@) == occurrences_of(ms),
                Err(e) => e == LintError::ParseFailed,
            },
        },
{
    match grammar_matches(g, source, ATTRIBUTE_QUERY) {
        Some(ms) => Ok(occurrences_from_matches(&ms)),
        None => Err(LintError::ParseFailed),
    }
}

/// The attributes of a file, if its name selects a dialect: `Ok(None)` for a
/// name with no dialect (the file is skipped), `GrammarUnavailable` for Blade,
/// whose grammar the library does not link, and otherwise the attributes that
/// the attribute query finds in the text under the dialect's grammar.
pub fn file_attributes(filename: &str, source: &str) -> (r: Result<
    Option<Vec<AttributeOccurrence>>,
    LintError,
>)
    ensures
        dialect_of(filename@) is None ==> r == Ok::<Option<Vec<AttributeOccurrence>>, LintError>(
            None,
        ),
        dialect_of(filename@) == Some(Dialect::Blade) ==> r == Err::<
            Option<Vec<AttributeOccurrence>>,
            LintError,
        >(LintError::GrammarUnavailable),
        (dialect_of(filename@) is Some && dialect_of(filename@) != Some(Dialect::Blade)) ==> (r matches Ok(
            Some(v),
        ) && occurrence_views(v@) == occurrences_of(
            attribute_matches_of(dialect_of(filename@)->Some_0, source@),
        )),
{
    let d = match dialect_for_file(filename) {
        Some(d) => d,
        None => {
            return Ok(None);
        },
    };
    let g = match Grammar::linked(d) {
        Some(g) => g,
        None => {
            return Err(LintError::GrammarUnavailable);
        },
    };
    match template_attributes(&g, source) {
        Ok(v) => Ok(Some(v)),
        Err(e) => Err(e),
    }
}

} // verus!

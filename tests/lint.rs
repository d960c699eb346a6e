use data_lint::dialect::{dialect_for_file, extension, file_name, is_html_file, Dialect};
use data_lint::directive::{find_plugin_name, is_directive_name, is_restricted_plugin, SyntaxNode};
use data_lint::discovery::{directory_candidates, ListedEntry};
use data_lint::lint::{file_diagnostics, plugin_diagnostic, Diagnostic, Findings};
use data_lint::report::{decimal, render_diagnostic, render_report, SUCCESS_LINE};
use data_lint::syntax::{
    file_attributes, occurrence_from_match, occurrences_from_matches, template_attributes,
    AttributeOccurrence, Capture, Grammar, LintError,
};

fn leaf(kind: &str, text: &str) -> SyntaxNode {
    SyntaxNode { kind: kind.to_string(), text: text.to_string(), children: vec![] }
}

fn node(kind: &str, text: &str, children: Vec<SyntaxNode>) -> SyntaxNode {
    SyntaxNode { kind: kind.to_string(), text: text.to_string(), children }
}

/// The shape of a directive name's tree: the prefix, then the plugin segment
/// nested one level down, then any modifiers.
fn directive_tree(name: &str, plugin: &str, modifiers: &[&str]) -> SyntaxNode {
    let mut children = vec![leaf("prefix", "data-"), node("plugin", plugin, vec![leaf("plugin_name", plugin)])];
    for m in modifiers {
        children.push(node("modifier", m, vec![leaf("modifier_name", &m[1..])]));
    }
    node("attribute", name, children)
}

fn occurrence(name: &str, line: usize, column: usize) -> AttributeOccurrence {
    AttributeOccurrence {
        raw_name: name.to_string(),
        has_quoted_value: true,
        start_line: line,
        start_column: column,
    }
}

/// Builds, for each directive name, a tree of the shape the directive grammar
/// gives: the plugin segment is cut here at the first `.`, `:` or `_`. The
/// grammar itself is not linked into these tests, so what they show of
/// modifiers is how the library reads such a tree, not how the grammar splits
/// a name.
fn trees_for(occs: &[AttributeOccurrence]) -> Vec<Option<SyntaxNode>> {
    occs.iter()
        .map(|o| {
            if !is_directive_name(&o.raw_name) {
                return None;
            }
            let rest = &o.raw_name[5..];
            let cut = rest.find(|c| c == '.' || c == ':' || c == '_').unwrap_or(rest.len());
            let mods: Vec<&str> = if cut < rest.len() { vec![&rest[cut..]] } else { vec![] };
            Some(directive_tree(&o.raw_name, &rest[..cut], &mods))
        })
        .collect()
}

#[test]
fn dialects_by_extension() {
    assert_eq!(dialect_for_file("index.html"), Some(Dialect::Html));
    assert_eq!(dialect_for_file("lib/app.heex"), Some(Dialect::Heex));
    assert_eq!(dialect_for_file("views/page.templ"), Some(Dialect::Templ));
    assert_eq!(dialect_for_file("a.b/page.html"), Some(Dialect::Html));
}

#[test]
fn blade_suffix_wins_over_extension() {
    assert_eq!(dialect_for_file("widget.blade.php"), Some(Dialect::Blade));
    assert_eq!(dialect_for_file("views/widget.blade.php"), Some(Dialect::Blade));
    assert_eq!(dialect_for_file("widget.php"), None);
}

#[test]
fn unsupported_names_have_no_dialect() {
    assert_eq!(dialect_for_file("index.HTML"), None);
    assert_eq!(dialect_for_file("index.htm"), None);
    assert_eq!(dialect_for_file(".html"), None);
    assert_eq!(dialect_for_file("html"), None);
    assert_eq!(dialect_for_file(""), None);
    assert_eq!(dialect_for_file("dir.html/readme"), None);
}

#[test]
fn is_html_file_matches_dialects() {
    assert!(is_html_file("page.html"));
    assert!(is_html_file("x.blade.php"));
    assert!(is_html_file("page.templ"));
    assert!(!is_html_file("main.rs"));
    assert!(!is_html_file("notes.txt"));
    assert!(is_html_file("x.html/."));
    assert_eq!(dialect_for_file("x.html/."), Some(Dialect::Html));
}

#[test]
fn file_names_and_extensions() {
    assert_eq!(file_name("a/b/c.html"), "c.html");
    assert_eq!(file_name("a/b/"), "b");
    assert_eq!(extension("a/b.tar.gz"), Some("gz"));
    assert_eq!(extension("a/.hidden"), None);
    assert_eq!(extension("a/.."), None);
    assert_eq!(extension("a/page.html/"), Some("html"));
    assert_eq!(extension("a/page.html/."), Some("html"));
    assert_eq!(extension("a/page.html/./"), Some("html"));
    assert_eq!(file_name("a/b/./."), "b");
    assert_eq!(extension("."), None);
    assert_eq!(extension("./"), None);
    assert_eq!(extension("noext"), None);
}

#[test]
fn directive_prefix() {
    assert!(is_directive_name("data-persist"));
    assert!(is_directive_name("data-"));
    assert!(!is_directive_name("Data-persist"));
    assert!(!is_directive_name("class"));
    assert!(!is_directive_name("x-data-persist"));
}

#[test]
fn restricted_plugins_exact_and_case_sensitive() {
    for p in [
        "animate", "custom-validity", "on-click", "on-raf", "on-resize", "persist", "query-string",
        "replace-url", "rocket", "scroll-into-view", "view-transition",
    ] {
        assert!(is_restricted_plugin(p), "{}", p);
    }
    assert!(!is_restricted_plugin("Persist"));
    assert!(!is_restricted_plugin(" persist"));
    assert!(!is_restricted_plugin("show"));
    assert!(!is_restricted_plugin("on"));
    assert!(!is_restricted_plugin("On-click"));
    assert!(!is_restricted_plugin(""));
}

#[test]
fn plugin_name_found_at_any_depth() {
    let t = directive_tree("data-on-click.outside", "on-click", &[".outside"]);
    assert_eq!(find_plugin_name(&t), Some("on-click".to_string()));
    let deep = node("a", "", vec![leaf("x", ""), node("b", "", vec![node("c", "", vec![leaf("plugin_name", "rocket")])])]);
    assert_eq!(find_plugin_name(&deep), Some("rocket".to_string()));
    let top = leaf("plugin_name", "persist");
    assert_eq!(find_plugin_name(&top), Some("persist".to_string()));
}

#[test]
fn first_plugin_name_in_pre_order_wins() {
    let t = node(
        "a",
        "",
        vec![node("b", "", vec![leaf("plugin_name", "first")]), leaf("plugin_name", "second")],
    );
    assert_eq!(find_plugin_name(&t), Some("first".to_string()));
    let none = node("a", "", vec![leaf("b", "persist")]);
    assert_eq!(find_plugin_name(&none), None);
}

#[test]
fn occurrence_positions_are_one_based() {
    let m = vec![
        Capture { index: 0, text: "data-persist".to_string(), row: 2, column: 4 },
        Capture { index: 1, text: "\"x\"".to_string(), row: 2, column: 17 },
    ];
    let o = occurrence_from_match(&m).unwrap();
    assert_eq!(o.raw_name, "data-persist");
    assert!(o.has_quoted_value);
    assert_eq!((o.start_line, o.start_column), (3, 5));
    let bare = vec![Capture { index: 0, text: "hidden".to_string(), row: 0, column: 0 }];
    let o = occurrence_from_match(&bare).unwrap();
    assert!(!o.has_quoted_value);
    assert_eq!((o.start_line, o.start_column), (1, 1));
    let no_name = vec![Capture { index: 1, text: "\"x\"".to_string(), row: 0, column: 0 }];
    assert!(occurrence_from_match(&no_name).is_none());
    assert_eq!(occurrences_from_matches(&vec![m, no_name, bare]).len(), 2);
}

#[test]
fn template_attributes_reads_html() {
    let g = Grammar::linked(Dialect::Html).unwrap();
    let occs = template_attributes(&g, "<div class=\"a\"\n  data-persist=\"x\">hi</div>").unwrap();
    assert_eq!(occs.len(), 2);
    assert_eq!(occs[0].raw_name, "class");
    assert_eq!((occs[0].start_line, occs[0].start_column), (1, 6));
    assert_eq!(occs[1].raw_name, "data-persist");
    assert!(occs[1].has_quoted_value);
    assert_eq!((occs[1].start_line, occs[1].start_column), (2, 3));
}

#[test]
fn linked_grammars() {
    assert!(Grammar::linked(Dialect::Html).is_some());
    assert!(Grammar::linked(Dialect::Heex).is_some());
    assert!(Grammar::linked(Dialect::Templ).is_some());
    assert!(Grammar::linked(Dialect::Blade).is_none());
}

#[test]
fn heex_and_templ_attributes() {
    let v = file_attributes("a.heex", "<div data-persist=\"x\"></div>").unwrap().unwrap();
    assert_eq!(v.len(), 1);
    assert_eq!(v[0].raw_name, "data-persist");
    let v = file_attributes("a.templ", "package p\n\ntempl A() {\n\t<div data-rocket=\"x\"></div>\n}\n").unwrap().unwrap();
    assert!(v.iter().any(|o| o.raw_name == "data-rocket"));
}

#[test]
fn supplied_grammar_is_used() {
    let g = Grammar::supplied(tree_sitter_html::LANGUAGE.into());
    let v = template_attributes(&g, "<a data-animate=\"1\" href=\"x\">").unwrap();
    assert_eq!(v.len(), 2);
    assert_eq!(v[0].raw_name, "data-animate");
}

#[test]
fn file_attributes_by_name() {
    assert_eq!(file_attributes("notes.txt", "<div data-persist=\"x\">").unwrap().map(|v| v.len()), None);
    assert_eq!(file_attributes("widget.blade.php", "<div>").err(), Some(LintError::GrammarUnavailable));
    let v = file_attributes("a.html", "<div data-show=\"x\"></div>").unwrap().unwrap();
    assert_eq!(v.len(), 1);
    assert_eq!(v[0].raw_name, "data-show");
}

#[test]
fn restricted_directive_gives_one_diagnostic() {
    let occs = file_attributes("page.html", "<div data-persist=\"x\"></div>").unwrap().unwrap();
    let d = file_diagnostics("page.html", &occs, &trees_for(&occs));
    assert_eq!(d.len(), 1);
    assert_eq!(d[0].plugin, "persist");
    assert_eq!(d[0].file, "page.html");
    assert_eq!((d[0].line, d[0].column), (1, 6));
    assert_eq!(render_diagnostic(&d[0]), "page.html:1:6: data-persist - You are using a pro feature");
}

#[test]
fn unrestricted_directive_gives_none() {
    let occs = file_attributes("page.html", "<div data-show=\"x\"></div>").unwrap().unwrap();
    let d = file_diagnostics("page.html", &occs, &trees_for(&occs));
    assert!(d.is_empty());
    assert_eq!(render_report(&d), vec![SUCCESS_LINE.to_string()]);
}

#[test]
fn modifiers_do_not_change_the_plugin() {
    // `<button data-on-click.outside="foo">` in widget.blade.php: the name starts at column 9.
    let occs = vec![occurrence("data-on-click.outside", 1, 9)];
    let trees = trees_for(&occs);
    let click = trees[0].as_ref().unwrap();
    assert_eq!(find_plugin_name(click), Some("on-click".to_string()));
    let d = file_diagnostics("widget.blade.php", &occs, &trees);
    assert_eq!(d.len(), 1);
    assert_eq!(d[0].plugin, "on-click");
    assert_eq!(d[0].file, "widget.blade.php");
    assert_eq!((d[0].line, d[0].column), (1, 9));
    assert_eq!(
        render_diagnostic(&d[0]),
        "widget.blade.php:1:9: data-on-click - You are using a pro feature"
    );
}

#[test]
fn other_modifiers_keep_the_plugin() {
    let occs = vec![occurrence("data-on-resize.debounce_100ms", 2, 9), occurrence("data-show.x", 3, 1)];
    let d = file_diagnostics("w.html", &occs, &trees_for(&occs));
    assert_eq!(d.len(), 1);
    assert_eq!(d[0].plugin, "on-resize");
    assert_eq!((d[0].line, d[0].column), (2, 9));
}

#[test]
fn non_directive_names_are_not_read() {
    let occs = vec![occurrence("persist", 1, 1), occurrence("x-data-persist", 1, 10)];
    let trees = vec![Some(leaf("plugin_name", "persist")), Some(leaf("plugin_name", "rocket"))];
    assert!(file_diagnostics("a.html", &occs, &trees).is_empty());
    assert!(plugin_diagnostic("a.html", &occs[0], &trees[0]).is_none());
}

#[test]
fn missing_tree_gives_no_diagnostic() {
    assert!(plugin_diagnostic("a.html", &occurrence("data-persist", 1, 1), &None).is_none());
}

#[test]
fn two_files_one_clean() {
    let mut run = Findings::new();
    let clean = file_attributes("clean.html", "<p data-text=\"$x\" class=\"c\"></p>").unwrap().unwrap();
    run.add_file("clean.html", &clean, &trees_for(&clean));
    assert!(run.is_empty());
    let bad = file_attributes("bad.html", "<p>\n<b data-rocket=\"r\"></b></p>").unwrap().unwrap();
    run.add_file("bad.html", &bad, &trees_for(&bad));
    assert_eq!(run.diagnostics.len(), 1);
    assert_eq!(run.diagnostics[0].file, "bad.html");
    assert_eq!((run.diagnostics[0].line, run.diagnostics[0].column), (2, 4));
}

#[test]
fn diagnostics_keep_file_then_document_order() {
    let mut run = Findings::new();
    let a = vec![occurrence("data-persist", 3, 1), occurrence("data-animate", 1, 1)];
    let b = vec![occurrence("data-rocket", 1, 2)];
    run.add_file("b.html", &b, &trees_for(&b));
    run.add_file("a.html", &a, &trees_for(&a));
    let seen: Vec<(String, String)> = run.diagnostics.iter().map(|d| (d.file.clone(), d.plugin.clone())).collect();
    assert_eq!(
        seen,
        vec![
            ("b.html".to_string(), "rocket".to_string()),
            ("a.html".to_string(), "persist".to_string()),
            ("a.html".to_string(), "animate".to_string()),
        ]
    );
}

#[test]
fn linting_twice_gives_the_same_diagnostics() {
    let src = "<div data-persist=\"x\" data-on-raf=\"y\" data-show=\"z\"></div>";
    let run = || {
        let occs = file_attributes("p.html", src).unwrap().unwrap();
        file_diagnostics("p.html", &occs, &trees_for(&occs))
            .iter()
            .map(render_diagnostic)
            .collect::<Vec<String>>()
    };
    let first = run();
    assert_eq!(first.len(), 2);
    assert_eq!(first, run());
}

#[test]
fn report_lines() {
    assert_eq!(render_report(&vec![]), vec!["\u{2713} No pro plugins detected!".to_string()]);
    let d = Diagnostic { file: "x/y.templ".to_string(), line: 12, column: 40, plugin: "query-string".to_string() };
    assert_eq!(render_report(&vec![d]), vec!["x/y.templ:12:40: data-query-string - You are using a pro feature".to_string()]);
}

#[test]
fn decimal_numerals() {
    assert_eq!(decimal(0), "0");
    assert_eq!(decimal(7), "7");
    assert_eq!(decimal(10), "10");
    assert_eq!(decimal(1234), "1234");
    assert_eq!(decimal(usize::MAX), usize::MAX.to_string());
}

#[test]
fn nested_directories_are_skipped() {
    let entries = vec![
        ListedEntry { path: "d/a.html".to_string(), is_file: true },
        ListedEntry { path: "d/sub".to_string(), is_file: false },
        ListedEntry { path: "d/nested.html".to_string(), is_file: false },
        ListedEntry { path: "d/readme.md".to_string(), is_file: true },
        ListedEntry { path: "d/w.blade.php".to_string(), is_file: true },
    ];
    assert_eq!(directory_candidates(&entries), vec!["d/a.html".to_string(), "d/w.blade.php".to_string()]);
}

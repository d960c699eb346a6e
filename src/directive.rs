//! Directive names: the `data-` prefix, the plugin segment found in the parse
//! tree of a directive name, and the set of restricted plugins.
use vstd::prelude::*;
use crate::text::{has_prefix, same_text, starts_with_text};

verus! {

broadcast use vstd::std_specs::vec::group_vec_axioms;

/// The prefix that marks an attribute as a directive.
pub const DIRECTIVE_PREFIX: &'static str = "data-";

/// The label of the node that holds a directive's plugin segment.
pub const PLUGIN_NAME_KIND: &'static str = "plugin_name";

/// A node of a directive name's parse tree: its label, the text it covers,
/// and its children in order.
#[derive(Debug)]
pub struct SyntaxNode {
    pub kind: String,
    pub text: String,
    pub children: Vec<SyntaxNode>,
}

/// An attribute name is a directive when it begins with `data-`.
pub open spec fn is_directive(name: Seq<char>) -> bool {
    has_prefix(name, DIRECTIVE_PREFIX@)
}

/// The plugin segment of a tree: the text of the first node, in depth-first
/// pre-order, whose label is `plugin_name`.
pub open spec fn plugin_of(n: SyntaxNode) -> Option<Seq<char>>
    decreases n, n.children@.len() + 1,
{
    if n.kind@ == PLUGIN_NAME_KIND@ {
        Some(n.text@)
    } else {
        plugin_among(n, 0)
    }
}

/// The plugin segment found first among the children of `n` from the `i`-th on.
pub open spec fn plugin_among(n: SyntaxNode, i: int) -> Option<Seq<char>>
    decreases n, n.children@.len() - i,
{
    if 0 <= i < n.children@.len() {
        match plugin_of(n.children@[i]) {
            Some(p) => Some(p),
            None => plugin_among(n, i + 1),
        }
    } else {
        None
    }
}

/// The restricted plugins, matched exactly and with case.
pub open spec fn is_restricted(p: Seq<char>) -> bool {
    ||| p == "animate"@
    ||| p == "custom-validity"@
    ||| p == "on-click"@
    ||| p == "on-raf"@
    ||| p == "on-resize"@
    ||| p == "persist"@
    ||| p == "query-string"@
    ||| p == "replace-url"@
    ||| p == "rocket"@
    ||| p == "scroll-into-view"@
    ||| p == "view-transition"@
}

/// Whether an attribute name is a directive, that is begins with `data-`.
pub fn is_directive_name(name: &str) -> (r: bool)
    ensures
        r == is_directive(name@),
{
    starts_with_text(name, DIRECTIVE_PREFIX)
}

/// Whether a plugin identifier is restricted. No case folding, no trimming.
pub fn is_restricted_plugin(plugin: &str) -> (r: bool)
    ensures
        r == is_restricted(plugin@),
{
    same_text(plugin, "animate") || same_text(plugin, "custom-validity") || same_text(plugin, "on-click") || same_text(
        plugin,
        "on-raf",
    ) || same_text(plugin, "on-resize") || same_text(plugin, "persist") || same_text(
        plugin,
        "query-string",
    ) || same_text(plugin, "replace-url") || same_text(plugin, "rocket") || same_text(
        plugin,
        "scroll-into-view",
    ) || same_text(plugin, "view-transition")
}

/// The plugin segment of a directive name's parse tree: the text of the first
/// `plugin_name` node met in a depth-first, pre-order walk from `node`.
pub fn find_plugin_name(node: &SyntaxNode) -> (r: Option<String>)
    ensures
        match r {
            Some(p) => plugin_of(*node) == Some(p@),
            None => plugin_of(*node) is None,
        },
    decreases node, node.children@.len() + 1,
{
    if same_text(node.kind.as_str(), PLUGIN_NAME_KIND) {
        return Some(node.text.clone());
    }
    let n = node.children.len();
    let mut i: usize = 0;
    while i < n
        invariant
            n == node.children@.len(),
            i <= n,
            node.kind@ != PLUGIN_NAME_KIND@,
            plugin_of(*node) == plugin_among(*node, i as int),
        decreases n - i,
    {
        let child = &node.children[i];
        assert(decreases_to!(node.children => node.children@[i as int]));
        let found = find_plugin_name(child);
        match found {
            Some(p) => {
                return Some(p);
            },
            None => {},
        }
        i = i + 1;
    }
    None
}

} // verus!

//! Which template dialect a file is written in, decided from its name alone.
use vstd::prelude::*;
use crate::text::{has_suffix, last_index_before, ends_with_text, same_text, find_last_before};
use vstd::string::StrSliceExecFns;

verus! {

/// The template dialects that the lint reads.
#[derive(Clone, Copy, Debug, PartialEq, Eq, Structural)]
pub enum Dialect {
    Html,
    Heex,
    Templ,
    Blade,
}

/// The compound suffix of Blade templates, which wins over the extension.
pub const BLADE_SUFFIX: &'static str = ".blade.php";

pub open spec fn blade_suffix() -> Seq<char> {
    seq!['.', 'b', 'l', 'a', 'd', 'e', '.', 'p', 'h', 'p']
}

/// End of `p`, looking at its first `end` characters, once trailing `/`
/// characters and trailing `.` components (a `.` right after a `/`) are dropped.
pub open spec fn trimmed_end(p: Seq<char>, end: int) -> int
    decreases end,
{
    if end > 0 && p[end - 1] == '/' {
        trimmed_end(p, end - 1)
    } else if end >= 2 && p[end - 1] == '.' && p[end - 2] == '/' {
        trimmed_end(p, end - 1)
    } else {
        end
    }
}

/// The last component of a path: what follows the last `/`, once trailing `/`
/// and trailing `.` components are dropped (`a/b.html/.` names `b.html`).
pub open spec fn file_name_of(p: Seq<char>) -> Seq<char> {
    let e = trimmed_end(p, p.len() as int);
    p.subrange(last_index_before(p, '/', e) + 1, e)
}

/// The extension of a path: what follows the last `.` of its file name, where
/// that `.` is not the name's first character, and the name is not `..`.
pub open spec fn extension_of(p: Seq<char>) -> Option<Seq<char>> {
    let n = file_name_of(p);
    let k = last_index_before(n, '.', n.len() as int);
    if n == seq!['.', '.'] || k <= 0 {
        None
    } else {
        Some(n.subrange(k + 1, n.len() as int))
    }
}

/// The dialect of an extension, if the table has one.
pub open spec fn dialect_of_extension(e: Seq<char>) -> Option<Dialect> {
    if e == seq!['h', 't', 'm', 'l'] {
        Some(Dialect::Html)
    } else if e == seq!['h', 'e', 'e', 'x'] {
        Some(Dialect::Heex)
    } else if e == seq!['t', 'e', 'm', 'p', 'l'] {
        Some(Dialect::Templ)
    } else {
        None
    }
}

/// The dialect of a file: the Blade suffix first, then the extension table.
pub open spec fn dialect_of(p: Seq<char>) -> Option<Dialect> {
    if has_suffix(p, blade_suffix()) {
        Some(Dialect::Blade)
    } else {
        match extension_of(p) {
            Some(e) => dialect_of_extension(e),
            None => None,
        }
    }
}

fn trimmed_len(p: &str) -> (r: usize)
    ensures
        r == trimmed_end(p@, p@.len() as int),
        r <= p@.len(),
{
    let mut e = p.unicode_len();
    while (e > 0 && p.get_char(e - 1) == '/') || (e >= 2 && p.get_char(e - 1) == '.' && p.get_char(
        e - 2,
    ) == '/')
        invariant
            e <= p@.len(),
            trimmed_end(p@, e as int) == trimmed_end(p@, p@.len() as int),
        decreases e,
    {
        e = e - 1;
    }
    e
}

/// The file name of a path, as `file_name_of` states it.
pub fn file_name(p: &str) -> (r: &str)
    ensures
        r@ == file_name_of(p@),
{
    let e = trimmed_len(p);
    let start: usize = match find_last_before(p, '/', e) {
        Some(k) => k + 1,
        None => 0,
    };
    p.substring_char(start, e)
}

/// The extension of a path, as `extension_of` states it.
pub fn extension(p: &str) -> (r: Option<&str>)
    ensures
        match r {
            Some(e) => extension_of(p@) == Some(e@),
            None => extension_of(p@) is None,
        },
{
    proof {
        reveal_strlit("..");
    }
    assert(".."@ =~= seq!['.', '.']);
    let n = file_name(p);
    let len = n.unicode_len();
    if same_text(n, "..") {
        return None;
    }
    match find_last_before(n, '.', len) {
        Some(k) => {
            if k == 0 {
                None
            } else {
                Some(n.substring_char(k + 1, len))
            }
        },
        None => None,
    }
}

/// The dialect of a file, decided from its name: a name that ends in
/// `.blade.php` is Blade whatever its extension; otherwise the extensions
/// `html`, `heex` and `templ` select their dialects, matched exactly and with
/// case. Any other name has no dialect.
pub fn dialect_for_file(filename: &str) -> (r: Option<Dialect>)
    ensures
        r == dialect_of(filename@),
{
    proof {
        reveal_strlit(".blade.php");
        reveal_strlit("html");
        reveal_strlit("heex");
        reveal_strlit("templ");
    }
    assert(BLADE_SUFFIX@ =~= blade_suffix());
    assert("html"@ =~= seq!['h', 't', 'm', 'l']);
    assert("heex"@ =~= seq!['h', 'e', 'e', 'x']);
    assert("templ"@ =~= seq!['t', 'e', 'm', 'p', 'l']);
    if ends_with_text(filename, BLADE_SUFFIX) {
        return Some(Dialect::Blade);
    }
    match extension(filename) {
        Some(e) => {
            if same_text(e, "html") {
                Some(Dialect::Html)
            } else if same_text(e, "heex") {
                Some(Dialect::Heex)
            } else if same_text(e, "templ") {
                Some(Dialect::Templ)
            } else {
                None
            }
        },
        None => None,
    }
}

/// Whether the lint reads a file of this name: exactly when the name has a dialect.
pub fn is_html_file(path: &str) -> (r: bool)
    ensures
        r == dialect_of(path@) is Some,
{
    match dialect_for_file(path) {
        Some(_) => true,
        None => false,
    }
}

} // verus!

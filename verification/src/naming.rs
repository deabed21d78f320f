//! Names, addresses and local paths of the nodes and files of a mirrored site.

use vstd::prelude::*;
use crate::text::{
    after_last, after_last_chars, from_chars, starts_with_chars, to_chars, trim_end, trim_end_chars,
};

verus! {

/// The separator of address segments and of local path components.
pub const SEPARATOR: char = '/';

/// The character that stands in for one that a file name may not hold.
pub const REPLACEMENT: char = '_';

/// Whether `c` may not occur in a file name: one of `< > : / \ | ? *`.
pub open spec fn is_illegal(c: char) -> bool {
    c == '<' || c == '>' || c == ':' || c == '/' || c == '\\' || c == '|' || c == '?' || c == '*'
}

/// Whether no character of `name` is illegal in a file name.
pub open spec fn is_clean(name: Seq<char>) -> bool {
    forall|i: int| 0 <= i < name.len() ==> !is_illegal(#[trigger] name[i])
}

/// `name` with every illegal character replaced by `_`, all others kept in place.
pub open spec fn sanitized(name: Seq<char>) -> Seq<char> {
    Seq::new(name.len(), |i: int| if is_illegal(name[i]) { REPLACEMENT } else { name[i] })
}

/// Whether `c` may not occur in a file name.
pub fn is_illegal_char(c: char) -> (illegal: bool)
    ensures
        illegal == is_illegal(c),
{
    c == '<' || c == '>' || c == ':' || c == '/' || c == '\\' || c == '|' || c == '?' || c == '*'
}

/// Makes a raw name usable as a single path component.
///
/// Defined on every input; the result has the length of the input and no
/// illegal character.
pub fn sanitize_file_name(name: &str) -> (clean: String)
    ensures
        clean@ == sanitized(name@),
        clean@.len() == name@.len(),
        is_clean(clean@),
{
    let raw = to_chars(name);
    let mut out: Vec<char> = Vec::new();
    let mut i: usize = 0;
    while i < raw.len()
        invariant
            i <= raw.len(),
            out@ == sanitized(raw@.take(i as int)),
        decreases raw.len() - i,
    {
        let c = raw[i];
        out.push(if is_illegal_char(c) { REPLACEMENT } else { c });
        assert(out@ =~= sanitized(raw@.take(i + 1)));
        i += 1;
    }
    assert(raw@.take(i as int) =~= raw@);
    from_chars(&out)
}

/// A sanitized name holds no illegal character.
pub proof fn lemma_sanitized_is_clean(name: Seq<char>)
    ensures
        is_clean(sanitized(name)),
        sanitized(name).len() == name.len(),
{
}

/// Sanitizing a name that holds no illegal character changes nothing.
pub proof fn lemma_clean_is_fixed_point(name: Seq<char>)
    requires
        is_clean(name),
    ensures
        sanitized(name) == name,
{
    assert(sanitized(name) =~= name);
}

/// Sanitizing twice gives what sanitizing once gives.
pub proof fn lemma_sanitize_idempotent(name: Seq<char>)
    ensures
        sanitized(sanitized(name)) == sanitized(name),
{
    lemma_sanitized_is_clean(name);
    lemma_clean_is_fixed_point(sanitized(name));
}

/// The identity of the node at `address`: its last segment that is not empty.
pub open spec fn identity_of(address: Seq<char>) -> Seq<char> {
    after_last(trim_end(address, SEPARATOR), SEPARATOR)
}

/// The name under which the node at `address` is claimed.
///
/// Two addresses that end in the same segment are one node to the traversal,
/// whatever their parents are.
pub fn node_identity(address: &str) -> (identity: String)
    ensures
        identity@ == identity_of(address@),
{
    let chars = to_chars(address);
    let trimmed = trim_end_chars(&chars, SEPARATOR);
    let last = after_last_chars(&trimmed, SEPARATOR);
    from_chars(&last)
}

/// The raw file name that a link's target ends in: what follows its last `/`.
pub open spec fn link_name(href: Seq<char>) -> Seq<char> {
    after_last(href, SEPARATOR)
}

/// The file name under which the target of `href` is stored.
pub fn file_name_of_link(href: &str) -> (name: String)
    ensures
        name@ == sanitized(link_name(href@)),
        is_clean(name@),
{
    let chars = to_chars(href);
    let last = after_last_chars(&chars, SEPARATOR);
    let raw = from_chars(&last);
    sanitize_file_name(raw.as_str())
}

/// The four characters that mark a link as absolute.
pub open spec fn absolute_marker() -> Seq<char> {
    seq!['h', 't', 't', 'p']
}

/// The address a link points to: itself where it is absolute, else behind the site's base.
pub open spec fn resolved(base: Seq<char>, href: Seq<char>) -> Seq<char> {
    if absolute_marker().is_prefix_of(href) {
        href
    } else {
        base + href
    }
}

/// The address to fetch for `href`, found on a page of the site at `base_url`.
pub fn resolve_url(base_url: &str, href: &str) -> (address: String)
    ensures
        address@ == resolved(base_url@, href@),
{
    let marker = to_chars("http");
    proof {
        reveal_strlit("http");
        assert(marker@ =~= absolute_marker());
    }
    let link = to_chars(href);
    if starts_with_chars(&link, &marker) {
        from_chars(&link)
    } else {
        let mut address = to_chars(base_url);
        let mut link = link;
        address.append(&mut link);
        from_chars(&address)
    }
}

/// `name` as a component below `parent`.
pub open spec fn joined(parent: Seq<char>, name: Seq<char>) -> Seq<char> {
    parent.push(SEPARATOR) + name
}

/// The local path of `name` inside the directory `dir`.
pub fn join_path(dir: &str, name: &str) -> (path: String)
    ensures
        path@ == joined(dir@, name@),
{
    let mut path = to_chars(dir);
    path.push(SEPARATOR);
    let mut tail = to_chars(name);
    path.append(&mut tail);
    from_chars(&path)
}

/// The address of the sub-collection `name` of the collection at `address`.
pub fn child_address(address: &str, name: &str) -> (child: String)
    ensures
        child@ == joined(trim_end(address@, SEPARATOR), name@),
{
    let chars = to_chars(address);
    let mut child = trim_end_chars(&chars, SEPARATOR);
    child.push(SEPARATOR);
    let mut tail = to_chars(name);
    child.append(&mut tail);
    from_chars(&child)
}

} // verus!

//! Reading a fetched page: the links to files and the labels of sub-collections.

use dashmap::DashMap;
use scraper::{Html, Selector};
use vstd::prelude::*;
use crate::download::{tasks_view, DownloadTask, DownloadTaskView};
use crate::frontier::{nodes_view, FrontierNode, FrontierNodeView};
use crate::ledger::VisitedLedger;
use crate::naming::{
    child_address, file_name_of_link, identity_of, join_path, joined, link_name, node_identity,
    resolve_url, resolved, sanitized, SEPARATOR,
};
use crate::text::{contains_text, same_text, strings_view, trim_end, trim_spaces, trimmed};

verus! {

/// The selector group of the links to files: anchors whose target ends in
/// the extension of a document or an archive.
pub const FILE_LINK_SELECTOR: &'static str =
    "a[href$=\".pdf\"], a[href$=\".zip\"], a[href$=\".7z\"], a[href$=\".rar\"]";

/// The selector group of the labels of sub-collections.
pub const CATEGORY_SELECTOR: &'static str = "div.cursor-pointer span.text-white.text-xs.truncate";

/// The attribute that holds the target of a link.
pub const LINK_ATTRIBUTE: &'static str = "href";

/// The number of characters of the longest text that is parsed as a page.
pub const MAX_PAGE_LENGTH: usize = 67_108_864;

/// Whether `body` is short enough to be parsed as a page.
pub open spec fn is_parsable(body: Seq<char>) -> bool {
    body.len() <= MAX_PAGE_LENGTH
}

#[verifier::external_type_specification]
#[verifier::external_body]
pub struct ExHtml(Html);

#[verifier::external_type_specification]
#[verifier::external_body]
pub struct ExSelector(Selector);

/// Whether `pattern` is a group of CSS selectors that the selector parser accepts.
pub uninterp spec fn selector_is_valid(pattern: Seq<char>) -> bool;

/// For each element of the document `body` that matches the selector group
/// `pattern`, in the order in which the parser made the elements: the value
/// of its attribute `attribute`, if it has that attribute.
pub uninterp spec fn selected_attribute(
    body: Seq<char>,
    pattern: Seq<char>,
    attribute: Seq<char>,
) -> Seq<Option<Seq<char>>>;

/// For each element of the document `body` that matches the selector group
/// `pattern`, in the order in which the parser made the elements: the text
/// of its descendants, joined.
pub uninterp spec fn selected_text(body: Seq<char>, pattern: Seq<char>) -> Seq<Seq<char>>;

/// A selector group, compiled, together with the pattern it was compiled
/// from. Values are made by compiling, and by copying such a value out of
/// the cache, so the matcher is always the one of the pattern.
pub struct CompiledSelector {
    pattern: String,
    matcher: Selector,
}

impl View for CompiledSelector {
    type V = Seq<char>;

    /// The pattern that was compiled.
    closed spec fn view(&self) -> Seq<char> {
        self.pattern@
    }
}

/// A page, parsed, together with the text it was parsed from. Values are
/// made by parsing alone, so the tree is always the one of the text.
pub struct ParsedPage {
    source: String,
    document: Html,
}

impl View for ParsedPage {
    type V = Seq<char>;

    /// The text that was parsed.
    closed spec fn view(&self) -> Seq<char> {
        self.source@
    }
}

/// The view of a list of optional strings.
pub open spec fn optional_strings_view(values: Seq<Option<String>>) -> Seq<Option<Seq<char>>> {
    Seq::new(
        values.len(),
        |i: int|
            match values[i] {
                Some(value) => Some(value@),
                None => None,
            },
    )
}

/// `Selector::parse` compiles a group of CSS selectors, or refuses it. The
/// result is kept with the pattern it came from.
#[verifier::external_body]
fn compile_selector(pattern: &str) -> (compiled: Option<CompiledSelector>)
    ensures
        compiled is Some == selector_is_valid(pattern@),
        compiled matches Some(selector) ==> selector@ == pattern@,
{
    Selector::parse(pattern).ok().map(
        |matcher| CompiledSelector { pattern: pattern.to_string(), matcher },
    )
}

/// `Html::parse_document` builds the tree of a document from its text. The
/// parser keeps text in buffers that hold less than 4 GB and panics beyond
/// that; a text of `MAX_PAGE_LENGTH` characters has at most four times as
/// many bytes and stays far below. The tree is kept with the text it came
/// from.
#[verifier::external_body]
fn parse_document(body: String) -> (page: ParsedPage)
    requires
        is_parsable(body@),
    ensures
        page@ == body@,
{
    ParsedPage { document: Html::parse_document(&body), source: body }
}

/// `Html::select` walks the elements that match a selector, in the order in
/// which the parser made them; `Element::attr` gives the value of an
/// attribute, if the element has it.
#[verifier::external_body]
fn select_attribute(page: &ParsedPage, selector: &CompiledSelector, attribute: &str) -> (values:
    Vec<Option<String>>)
    ensures
        optional_strings_view(values@) == selected_attribute(page@, selector@, attribute@),
{
    page.document.select(&selector.matcher).map(
        |element| element.value().attr(attribute).map(|value| value.to_string()),
    ).collect()
}

/// `Html::select` walks the elements that match a selector, in the order in
/// which the parser made them; `ElementRef::text` walks the text of an
/// element's descendants.
#[verifier::external_body]
fn select_text(page: &ParsedPage, selector: &CompiledSelector) -> (texts: Vec<String>)
    ensures
        strings_view(texts@) == selected_text(page@, selector@),
{
    page.document.select(&selector.matcher).map(|element| element.text().collect::<String>()).collect()
}

/// For each key that a cache of selectors holds, read as its characters:
/// the pattern of the selector that is stored under it.
pub uninterp spec fn cached_patterns(cache: DashMap<String, CompiledSelector>) -> Map<
    Seq<char>,
    Seq<char>,
>;

/// The cache of selectors that holds nothing.
pub open spec fn no_patterns() -> Map<Seq<char>, Seq<char>> {
    Map::empty()
}

/// `DashMap::new` makes a map that holds no entry.
#[verifier::external_body]
fn empty_cache() -> (cache: DashMap<String, CompiledSelector>)
    ensures
        cached_patterns(cache) == no_patterns(),
{
    DashMap::new()
}

/// `DashMap::get` gives access to the value stored under the key, if the
/// map holds one; a copy of that value is handed out.
#[verifier::external_body]
fn cached_selector(cache: &DashMap<String, CompiledSelector>, key: &str) -> (found: Option<
    CompiledSelector,
>)
    ensures
        found is Some == cached_patterns(*cache).dom().contains(key@),
        found matches Some(selector) ==> selector@ == cached_patterns(*cache)[key@],
{
    cache.get(key).map(
        |entry|
            CompiledSelector {
                pattern: entry.value().pattern.clone(),
                matcher: entry.value().matcher.clone(),
            },
    )
}

/// `DashMap::insert` stores the value under the key, in place of an entry
/// of that key if there was one, and returns the value that the key had
/// before.
#[verifier::external_body]
fn cache_selector(
    cache: &mut DashMap<String, CompiledSelector>,
    key: String,
    selector: CompiledSelector,
) -> (previous: Option<CompiledSelector>)
    ensures
        cached_patterns(*final(cache)) == cached_patterns(*old(cache)).insert(key@, selector@),
        previous is Some == cached_patterns(*old(cache)).dom().contains(key@),
{
    cache.insert(key, selector)
}

/// Compiled selectors, each kept under the pattern it was compiled from.
///
/// A pattern is compiled when it is first asked for and never again; what
/// was compiled stays as it is.
pub struct PatternCache {
    entries: DashMap<String, CompiledSelector>,
}

impl View for PatternCache {
    type V = Map<Seq<char>, Seq<char>>;

    /// For each key of the cache, the pattern of the selector under it.
    closed spec fn view(&self) -> Map<Seq<char>, Seq<char>> {
        cached_patterns(self.entries)
    }
}

impl PatternCache {
    /// Each selector is kept under the pattern it was compiled from.
    pub open spec fn wf(&self) -> bool {
        forall|key: Seq<char>| #[trigger] self@.dom().contains(key) ==> self@[key] == key
    }

    /// A cache that holds nothing.
    pub fn new() -> (cache: Self)
        ensures
            cache@ == no_patterns(),
            cache.wf(),
    {
        PatternCache { entries: empty_cache() }
    }

    /// Whether a selector is kept under `key`.
    pub fn contains(&self, key: &str) -> (held: bool)
        ensures
            held == self@.dom().contains(key@),
    {
        cached_selector(&self.entries, key).is_some()
    }

    /// A copy of the selector that is kept under `key`, if there is one.
    pub fn get(&self, key: &str) -> (selector: Option<CompiledSelector>)
        ensures
            selector is Some == self@.dom().contains(key@),
            selector matches Some(found) ==> found@ == self@[key@],
    {
        cached_selector(&self.entries, key)
    }

    /// A copy of the selector compiled from `key`, which the selector parser
    /// must accept: a pattern that it refuses is a fault of the
    /// configuration, to be found with `CompiledSelector::compile` before
    /// the cache is asked.
    ///
    /// A key that is in the cache is answered from it, and nothing changes.
    /// Any other key is compiled, once, and the result is kept under it.
    pub fn get_or_compile(&mut self, key: &str) -> (selector: CompiledSelector)
        requires
            selector_is_valid(key@),
        ensures
            old(self).wf() ==> final(self).wf(),
            old(self)@.dom().contains(key@) ==> final(self)@ == old(self)@ && selector@ == old(self)@[key@],
            !old(self)@.dom().contains(key@) ==> final(self)@ == old(self)@.insert(key@, key@)
                && selector@ == key@,
    {
        match cached_selector(&self.entries, key) {
            Some(found) => found,
            None => {
                let compiled = compile_selector(key).unwrap();
                cache_selector(&mut self.entries, String::from_str(key), compiled);
                assert(self@ =~= old(self)@.insert(key@, key@));
                cached_selector(&self.entries, key).unwrap()
            },
        }
    }
}

/// The values that are there, in order.
pub open spec fn present(values: Seq<Option<Seq<char>>>) -> Seq<Seq<char>>
    decreases values.len(),
{
    if values.len() == 0 {
        Seq::empty()
    } else {
        match values.last() {
            Some(value) => present(values.drop_last()).push(value),
            None => present(values.drop_last()),
        }
    }
}

/// The task that fetches the target `href` of a link into the directory
/// `directory`, on a site at `base`.
pub open spec fn task_for(href: Seq<char>, directory: Seq<char>, base: Seq<char>) -> DownloadTaskView {
    DownloadTaskView {
        url: resolved(base, href),
        file_path: joined(directory, sanitized(link_name(href))),
        file_name: sanitized(link_name(href)),
    }
}

/// One task for each of `targets`, in order.
pub open spec fn tasks_for(targets: Seq<Seq<char>>, directory: Seq<char>, base: Seq<char>) -> Seq<
    DownloadTaskView,
> {
    Seq::new(targets.len(), |i: int| task_for(targets[i], directory, base))
}

/// Each of `texts` without the white space around it.
pub open spec fn labels(texts: Seq<Seq<char>>) -> Seq<Seq<char>> {
    Seq::new(texts.len(), |i: int| trimmed(texts[i]))
}

/// Whether the sub-collection `name` is to be visited from a node of the
/// identity `current`: it is not claimed, is not the node itself, and is none
/// of the segments to skip.
pub open spec fn is_fresh(
    name: Seq<char>,
    claimed: Set<Seq<char>>,
    current: Seq<char>,
    skipped: Seq<Seq<char>>,
) -> bool {
    !claimed.contains(name) && name != current && !skipped.contains(name)
}

/// Those of `names` that are to be visited, in order.
pub open spec fn fresh(
    names: Seq<Seq<char>>,
    claimed: Set<Seq<char>>,
    current: Seq<char>,
    skipped: Seq<Seq<char>>,
) -> Seq<Seq<char>>
    decreases names.len(),
{
    if names.len() == 0 {
        Seq::empty()
    } else if is_fresh(names.last(), claimed, current, skipped) {
        fresh(names.drop_last(), claimed, current, skipped).push(names.last())
    } else {
        fresh(names.drop_last(), claimed, current, skipped)
    }
}

/// The node of the sub-collection `name` of `parent`.
pub open spec fn child_of(parent: FrontierNodeView, name: Seq<char>) -> FrontierNodeView {
    FrontierNodeView {
        remote_address: joined(trim_end(parent.remote_address, SEPARATOR), name),
        local_path: joined(parent.local_path, name),
    }
}

/// One node for each of `names`, in order.
pub open spec fn children_of(parent: FrontierNodeView, names: Seq<Seq<char>>) -> Seq<
    FrontierNodeView,
> {
    Seq::new(names.len(), |i: int| child_of(parent, names[i]))
}

/// What a page gives to do: files to fetch, or sub-collections to visit.
pub struct PageItems {
    /// The sub-collections to visit; none where the page links to files.
    pub subdirectories: Vec<FrontierNode>,
    /// The files to fetch.
    pub downloads: Vec<DownloadTask>,
}

/// The items of a page as contracts see them.
pub struct PageItemsView {
    pub subdirectories: Seq<FrontierNodeView>,
    pub downloads: Seq<DownloadTaskView>,
}

impl View for PageItems {
    type V = PageItemsView;

    open spec fn view(&self) -> PageItemsView {
        PageItemsView {
            subdirectories: nodes_view(self.subdirectories@),
            downloads: tasks_view(self.downloads@),
        }
    }
}

/// What the page `body` of `node` gives to do. Where it links to files,
/// one task for each link and no sub-collection. Where it links to none,
/// the sub-collections that its labels name and that are to be visited.
pub open spec fn page_items(
    body: Seq<char>,
    link_pattern: Seq<char>,
    label_pattern: Seq<char>,
    node: FrontierNodeView,
    base: Seq<char>,
    claimed: Set<Seq<char>>,
    skipped: Seq<Seq<char>>,
) -> PageItemsView {
    let targets = present(selected_attribute(body, link_pattern, LINK_ATTRIBUTE@));
    if targets.len() > 0 {
        PageItemsView {
            subdirectories: Seq::empty(),
            downloads: tasks_for(targets, node.local_path, base),
        }
    } else {
        PageItemsView {
            subdirectories: children_of(
                node,
                fresh(
                    labels(selected_text(body, label_pattern)),
                    claimed,
                    identity_of(node.remote_address),
                    skipped,
                ),
            ),
            downloads: Seq::empty(),
        }
    }
}

/// The targets of the links that have one, in order.
pub fn link_targets(values: &Vec<Option<String>>) -> (targets: Vec<String>)
    ensures
        strings_view(targets@) == present(optional_strings_view(values@)),
{
    let ghost all = optional_strings_view(values@);
    let mut targets: Vec<String> = Vec::new();
    let mut i: usize = 0;
    assert(all.take(0) =~= Seq::<Option<Seq<char>>>::empty());
    assert(strings_view(targets@) =~= Seq::<Seq<char>>::empty());
    while i < values.len()
        invariant
            i <= values.len(),
            all == optional_strings_view(values@),
            strings_view(targets@) == present(all.take(i as int)),
        decreases values.len() - i,
    {
        let ghost before = strings_view(targets@);
        assert(all.take(i + 1).drop_last() =~= all.take(i as int));
        assert(all.take(i + 1).last() == all[i as int]);
        match &values[i] {
            Some(target) => {
                targets.push(target.clone());
                assert(strings_view(targets@) =~= before.push(target@));
            },
            None => {},
        }
        i += 1;
    }
    assert(all.take(i as int) =~= all);
    targets
}

/// One task for each of `targets`, in order: each file goes into
/// `directory` under its sanitized name.
pub fn download_tasks(targets: &Vec<String>, directory: &str, base_url: &str) -> (tasks: Vec<
    DownloadTask,
>)
    ensures
        tasks_view(tasks@) == tasks_for(strings_view(targets@), directory@, base_url@),
{
    let mut tasks: Vec<DownloadTask> = Vec::new();
    let mut i: usize = 0;
    while i < targets.len()
        invariant
            i <= targets.len(),
            tasks@.len() == i,
            forall|j: int|
                0 <= j < i ==> (#[trigger] tasks@[j])@ == task_for(
                    strings_view(targets@)[j],
                    directory@,
                    base_url@,
                ),
        decreases targets.len() - i,
    {
        let href = targets[i].as_str();
        assert(strings_view(targets@)[i as int] == href@);
        let file_name = file_name_of_link(href);
        let file_path = join_path(directory, file_name.as_str());
        let url = resolve_url(base_url, href);
        tasks.push(DownloadTask { url, file_path, file_name });
        i += 1;
    }
    assert(tasks_view(tasks@) =~= tasks_for(strings_view(targets@), directory@, base_url@));
    tasks
}

/// Each of `texts` without the white space around it.
pub fn trim_labels(texts: &Vec<String>) -> (names: Vec<String>)
    ensures
        strings_view(names@) == labels(strings_view(texts@)),
{
    let mut names: Vec<String> = Vec::new();
    let mut i: usize = 0;
    while i < texts.len()
        invariant
            i <= texts.len(),
            names@.len() == i,
            forall|j: int| 0 <= j < i ==> (#[trigger] names@[j])@ == trimmed(texts@[j]@),
        decreases texts.len() - i,
    {
        names.push(trim_spaces(texts[i].as_str()));
        i += 1;
    }
    assert(strings_view(names@) =~= labels(strings_view(texts@)));
    names
}

/// Those of `names` that are to be visited from a node of the identity
/// `current`, in order: the ones that are not claimed in `ledger`, are not
/// `current` and are none of `skipped`.
pub fn fresh_names(
    names: &Vec<String>,
    ledger: &VisitedLedger,
    current: &str,
    skipped: &Vec<String>,
) -> (kept: Vec<String>)
    ensures
        strings_view(kept@) == fresh(
            strings_view(names@),
            ledger@,
            current@,
            strings_view(skipped@),
        ),
{
    let ghost all = strings_view(names@);
    let mut kept: Vec<String> = Vec::new();
    let mut i: usize = 0;
    assert(all.take(0) =~= Seq::<Seq<char>>::empty());
    assert(strings_view(kept@) =~= Seq::<Seq<char>>::empty());
    while i < names.len()
        invariant
            i <= names.len(),
            all == strings_view(names@),
            strings_view(kept@) == fresh(
                all.take(i as int),
                ledger@,
                current@,
                strings_view(skipped@),
            ),
        decreases names.len() - i,
    {
        let name = names[i].as_str();
        let ghost before = strings_view(kept@);
        assert(all.take(i + 1).drop_last() =~= all.take(i as int));
        assert(all.take(i + 1).last() == name@);
        if !ledger.is_claimed(name) && !same_text(name, current) && !contains_text(skipped, name) {
            kept.push(names[i].clone());
            assert(strings_view(kept@) =~= before.push(name@));
        }
        i += 1;
    }
    assert(all.take(i as int) =~= all);
    kept
}

/// One node for each of `names`, in order: the sub-collection of that name
/// below `parent`, remote and local.
pub fn child_nodes(parent: &FrontierNode, names: &Vec<String>) -> (children: Vec<FrontierNode>)
    ensures
        nodes_view(children@) == children_of(parent@, strings_view(names@)),
{
    let mut children: Vec<FrontierNode> = Vec::new();
    let mut i: usize = 0;
    while i < names.len()
        invariant
            i <= names.len(),
            children@.len() == i,
            forall|j: int|
                0 <= j < i ==> (#[trigger] children@[j])@ == child_of(
                    parent@,
                    strings_view(names@)[j],
                ),
        decreases names.len() - i,
    {
        let name = names[i].as_str();
        assert(strings_view(names@)[i as int] == name@);
        let remote_address = child_address(parent.remote_address.as_str(), name);
        let local_path = join_path(parent.local_path.as_str(), name);
        children.push(FrontierNode { remote_address, local_path });
        i += 1;
    }
    assert(nodes_view(children@) =~= children_of(parent@, strings_view(names@)));
    children
}

impl CompiledSelector {
    /// Compiles the selector group `pattern`; `None` where the parser refuses it.
    pub fn compile(pattern: &str) -> (compiled: Option<Self>)
        ensures
            compiled is Some == selector_is_valid(pattern@),
            compiled matches Some(selector) ==> selector@ == pattern@,
    {
        compile_selector(pattern)
    }
}

impl ParsedPage {
    /// Parses the text of a page; `None` where the text is longer than
    /// `MAX_PAGE_LENGTH` characters. No other text is refused.
    pub fn parse(body: String) -> (page: Option<Self>)
        ensures
            page is Some == is_parsable(body@),
            page matches Some(parsed) ==> parsed@ == body@,
    {
        if body.as_str().unicode_len() <= MAX_PAGE_LENGTH {
            Some(parse_document(body))
        } else {
            None
        }
    }

    /// The targets of the elements that match `selector` and have one, in
    /// the order in which the parser made the elements.
    pub fn link_targets(&self, selector: &CompiledSelector) -> (targets: Vec<String>)
        ensures
            strings_view(targets@) == present(
                selected_attribute(self@, selector@, LINK_ATTRIBUTE@),
            ),
    {
        let values = select_attribute(self, selector, LINK_ATTRIBUTE);
        link_targets(&values)
    }

    /// The text of each element that matches `selector`, without the white
    /// space around it, in the order in which the parser made the elements.
    pub fn labels(&self, selector: &CompiledSelector) -> (names: Vec<String>)
        ensures
            strings_view(names@) == labels(selected_text(self@, selector@)),
    {
        let texts = select_text(self, selector);
        trim_labels(&texts)
    }
}

/// Reads what the page of `node` gives to do.
///
/// A page that links to files gives one download for each link and nothing
/// else. Any other page gives the sub-collections that its labels name, but
/// for those that are claimed in `ledger`, that have the name of `node`
/// itself, or that are among `skipped`. A page with neither gives nothing.
pub fn read_page(
    page: &ParsedPage,
    link_selector: &CompiledSelector,
    label_selector: &CompiledSelector,
    node: &FrontierNode,
    base_url: &str,
    ledger: &VisitedLedger,
    skipped: &Vec<String>,
) -> (items: PageItems)
    ensures
        items@ == page_items(
            page@,
            link_selector@,
            label_selector@,
            node@,
            base_url@,
            ledger@,
            strings_view(skipped@),
        ),
        items@.downloads.len() > 0 ==> items@.subdirectories.len() == 0,
{
    let targets = page.link_targets(link_selector);
    if targets.len() > 0 {
        let downloads = download_tasks(&targets, node.local_path.as_str(), base_url);
        let items = PageItems { subdirectories: Vec::new(), downloads };
        assert(items@.subdirectories =~= Seq::<FrontierNodeView>::empty());
        items
    } else {
        let names = page.labels(label_selector);
        let current = node_identity(node.remote_address.as_str());
        let kept = fresh_names(&names, ledger, current.as_str(), skipped);
        let subdirectories = child_nodes(node, &kept);
        let items = PageItems { subdirectories, downloads: Vec::new() };
        assert(items@.downloads =~= Seq::<DownloadTaskView>::empty());
        items
    }
}

} // verus!

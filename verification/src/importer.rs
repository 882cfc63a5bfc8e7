//! Importing sources: reading lists of feeds in three formats, and telling
//! the new ones from those that are known already or given twice.

use vstd::prelude::*;
use vstd::string::StrSliceExecFns;
use vstd::utf8::encode_utf8;
use crate::json::{
    find_member, json_document, member, optional_text, parse_json, read_optional_text, JsonValue,
};
use crate::feed::types::{clone_opt, opt_view};
use crate::storage::models::{NewSource, SourceRecord};
use crate::text::{
    concat2, is_blank, lines_of, lowercase, split_lines, starts_with, str_eq, str_is_blank, to_lowercase,
    trim, trim_end_matches, trimmed, views, without_trailing,
};

verus! {

/// The import component, as the health report names it.
#[derive(Debug, Clone, Copy, Default)]
pub struct ImporterService;

impl ImporterService {
    /// The name of the component.
    pub fn name(&self) -> (r: &'static str)
        ensures
            r@ == "importer"@,
    {
        "importer"
    }

    /// The state of the component.
    pub fn status(&self) -> (r: &'static str)
        ensures
            r@ == "ready"@,
    {
        "ready"
    }
}

/// A source as an import names it.
#[derive(Debug, PartialEq, Eq)]
pub struct ImportSource {
    pub title: String,
    pub feed_url: String,
    pub site_url: Option<String>,
    pub category: Option<String>,
}

/// What an `ImportSource` holds, as plain sequences of characters.
pub struct ImportSourceView {
    pub title: Seq<char>,
    pub feed_url: Seq<char>,
    pub site_url: Option<Seq<char>>,
    pub category: Option<Seq<char>>,
}

impl View for ImportSource {
    type V = ImportSourceView;

    open spec fn view(&self) -> ImportSourceView {
        ImportSourceView {
            title: self.title@,
            feed_url: self.feed_url@,
            site_url: opt_view(self.site_url),
            category: opt_view(self.category),
        }
    }
}

impl Clone for ImportSource {
    fn clone(&self) -> (r: Self)
        ensures
            r == *self,
    {
        ImportSource {
            title: self.title.clone(),
            feed_url: self.feed_url.clone(),
            site_url: clone_opt(&self.site_url),
            category: clone_opt(&self.category),
        }
    }
}

/// The views of `sources`, in order.
pub open spec fn source_views(sources: Seq<ImportSource>) -> Seq<ImportSourceView> {
    Seq::new(sources.len(), |i: int| sources[i]@)
}

/// The candidates of an import, sorted into new and duplicate.
#[derive(Debug, PartialEq, Eq)]
pub struct ImportPreview {
    pub new_sources: Vec<ImportSource>,
    pub duplicate_sources: Vec<ImportSource>,
}

/// Why an import could not be read.
#[derive(Debug)]
pub enum ImportError {
    /// The text is no XML document; the text is the parser's message.
    Opml(String),
    /// The text is no JSON document, or not a list of sources.
    Json(String),
}

impl ImportError {
    /// The error as a line of text.
    pub open spec fn text(self) -> Seq<char> {
        match self {
            ImportError::Opml(m) => "invalid OPML content: "@ + m@,
            ImportError::Json(m) => "invalid JSON import format: "@ + m@,
        }
    }

    /// The error as a line of text.
    pub fn message(&self) -> (r: String)
        ensures
            r@ == self.text(),
    {
        match self {
            ImportError::Opml(m) => concat2("invalid OPML content: ", m.as_str()),
            ImportError::Json(m) => concat2("invalid JSON import format: ", m.as_str()),
        }
    }
}

/// The form in which two feed URLs are compared: trimmed, without trailing
/// slashes, in lower case.
pub open spec fn normalized_url(url: Seq<char>) -> Seq<char> {
    lowercase(without_trailing(trimmed(url), '/'))
}

/// Brings a feed URL into the form in which it is compared.
pub fn normalize_url(url: &str) -> (r: String)
    ensures
        r@ == normalized_url(url@),
{
    let t = trim(url);
    let u = trim_end_matches(t.as_str(), '/');
    to_lowercase(u.as_str())
}

/// A line names a feed: it starts with `http://` or `https://`.
pub open spec fn is_url_line(line: Seq<char>) -> bool {
    &&& line.len() > 0
    &&& !"#"@.is_prefix_of(line)
    &&& "http://"@.is_prefix_of(line) || "https://"@.is_prefix_of(line)
}

/// The source that a line of a URL list stands for: the line is both its
/// title and its feed URL.
pub open spec fn url_source(line: Seq<char>) -> ImportSourceView {
    ImportSourceView { title: line, feed_url: line, site_url: None, category: None }
}

/// The sources of the lines of a URL list: one for each line that, trimmed,
/// names a feed, in order.
pub open spec fn url_sources(lines: Seq<Seq<char>>) -> Seq<ImportSourceView>
    decreases lines.len(),
{
    if lines.len() == 0 {
        Seq::empty()
    } else if is_url_line(trimmed(lines.last())) {
        url_sources(lines.drop_last()).push(url_source(trimmed(lines.last())))
    } else {
        url_sources(lines.drop_last())
    }
}

/// Reads a list of feed URLs, one to a line. Blank lines, lines that start
/// with `#` and lines that are no HTTP URL are passed over.
pub fn parse_url_list(input: &str) -> (r: Vec<ImportSource>)
    ensures
        source_views(r@) == url_sources(lines_of(input@)),
{
    let lines = split_lines(input);
    let mut out: Vec<ImportSource> = Vec::new();
    let mut i: usize = 0;
    assert(views(lines@).take(0) =~= Seq::<Seq<char>>::empty());
    assert(source_views(out@) =~= Seq::<ImportSourceView>::empty());
    while i < lines.len()
        invariant
            i <= lines.len(),
            source_views(out@) == url_sources(views(lines@).take(i as int)),
        decreases lines.len() - i,
    {
        proof {
            let now = views(lines@).take(i + 1);
            assert(now.drop_last() =~= views(lines@).take(i as int));
            assert(now.last() == lines@[i as int]@);
        }
        let line = trim(lines[i].as_str());
        let l = line.as_str();
        let keep = l.unicode_len() > 0 && !starts_with(l, "#") && (starts_with(l, "http://")
            || starts_with(l, "https://"));
        if keep {
            let source = ImportSource {
                title: line.clone(),
                feed_url: line,
                site_url: None,
                category: None,
            };
            assert(source_views(out@.push(source)) =~= source_views(out@).push(source@));
            out.push(source);
        }
        i += 1;
    }
    assert(views(lines@).take(lines.len() as int) =~= views(lines@));
    out
}

/// Tells whether `list` holds `t`.
pub fn contains_string(list: &Vec<String>, t: &str) -> (r: bool)
    ensures
        r == views(list@).contains(t@),
{
    let mut i: usize = 0;
    while i < list.len()
        invariant
            i <= list.len(),
            forall|k: int| 0 <= k < i ==> (#[trigger] list@[k])@ != t@,
        decreases list.len() - i,
    {
        if str_eq(list[i].as_str(), t) {
            assert(views(list@)[i as int] == t@);
            return true;
        }
        i += 1;
    }
    assert forall|k: int| 0 <= k < views(list@).len() implies views(list@)[k] != t@ by {
        assert(views(list@)[k] == list@[k]@);
    }
    false
}

/// A candidate of an import with the key under which its feed URL is
/// compared.
#[derive(Debug)]
pub struct KeyedSource {
    pub key: String,
    pub source: ImportSource,
}

/// Key and view of each of `candidates`, in order.
pub open spec fn keyed_views(candidates: Seq<KeyedSource>) -> Seq<(Seq<char>, ImportSourceView)> {
    Seq::new(candidates.len(), |i: int| (candidates[i].key@, candidates[i].source@))
}

/// Each of `candidates` with its feed URL, normalised, as its key.
pub open spec fn keyed_by_url(candidates: Seq<ImportSourceView>) -> Seq<
    (Seq<char>, ImportSourceView),
> {
    Seq::new(candidates.len(), |i: int| (normalized_url(candidates[i].feed_url), candidates[i]))
}

/// The last of `candidates` that has the key `key`.
pub open spec fn last_seen(candidates: Seq<(Seq<char>, ImportSourceView)>, key: Seq<char>) -> Option<
    ImportSourceView,
>
    decreases candidates.len(),
{
    if candidates.len() == 0 {
        None
    } else if candidates.last().0 == key {
        Some(candidates.last().1)
    } else {
        last_seen(candidates.drop_last(), key)
    }
}

/// The candidates of an import, sorted.
pub struct PreviewModel {
    pub new_sources: Seq<ImportSourceView>,
    pub duplicate_sources: Seq<ImportSourceView>,
}

/// How candidates with their keys are sorted, taken in order. A candidate
/// with an empty key is dropped. One whose key is among the existing ones is
/// a duplicate. One whose key an earlier candidate had is a duplicate, and
/// is listed after the last such candidate, which is listed once more. Any
/// other is new.
pub open spec fn sorted_by_key(
    candidates: Seq<(Seq<char>, ImportSourceView)>,
    existing: Seq<Seq<char>>,
) -> PreviewModel
    decreases candidates.len(),
{
    if candidates.len() == 0 {
        PreviewModel { new_sources: Seq::empty(), duplicate_sources: Seq::empty() }
    } else {
        let before = sorted_by_key(candidates.drop_last(), existing);
        let key = candidates.last().0;
        let source = candidates.last().1;
        if key.len() == 0 {
            before
        } else if existing.contains(key) {
            PreviewModel {
                new_sources: before.new_sources,
                duplicate_sources: before.duplicate_sources.push(source),
            }
        } else {
            match last_seen(candidates.drop_last(), key) {
                Some(earlier) => PreviewModel {
                    new_sources: before.new_sources,
                    duplicate_sources: before.duplicate_sources.push(earlier).push(source),
                },
                None => PreviewModel {
                    new_sources: before.new_sources.push(source),
                    duplicate_sources: before.duplicate_sources,
                },
            }
        }
    }
}

/// How the candidates of an import are sorted: by their feed URLs,
/// normalised.
pub open spec fn preview_of(candidates: Seq<ImportSourceView>, existing: Seq<Seq<char>>) -> PreviewModel {
    sorted_by_key(keyed_by_url(candidates), existing)
}

proof fn lemma_last_seen_none(candidates: Seq<(Seq<char>, ImportSourceView)>, key: Seq<char>)
    requires
        forall|k: int| 0 <= k < candidates.len() ==> (#[trigger] candidates[k]).0 != key,
    ensures
        last_seen(candidates, key) is None,
    decreases candidates.len(),
{
    if candidates.len() > 0 {
        lemma_last_seen_none(candidates.drop_last(), key);
    }
}

proof fn lemma_last_seen_at(candidates: Seq<(Seq<char>, ImportSourceView)>, key: Seq<char>, j: int)
    requires
        0 <= j < candidates.len(),
        candidates[j].0 == key,
        forall|k: int| j < k < candidates.len() ==> (#[trigger] candidates[k]).0 != key,
    ensures
        last_seen(candidates, key) == Some(candidates[j].1),
    decreases candidates.len(),
{
    if j < candidates.len() - 1 {
        lemma_last_seen_at(candidates.drop_last(), key, j);
    }
}

/// Sorts candidates that come with their keys into new sources and
/// duplicates. `existing_keys` holds the keys that are known.
pub fn sort_keyed_candidates(candidates: Vec<KeyedSource>, existing_keys: &Vec<String>) -> (r:
    ImportPreview)
    ensures
        source_views(r.new_sources@) == sorted_by_key(
            keyed_views(candidates@),
            views(existing_keys@),
        ).new_sources,
        source_views(r.duplicate_sources@) == sorted_by_key(
            keyed_views(candidates@),
            views(existing_keys@),
        ).duplicate_sources,
{
    let mut new_sources: Vec<ImportSource> = Vec::new();
    let mut duplicate_sources: Vec<ImportSource> = Vec::new();
    let mut i: usize = 0;
    let ghost all = keyed_views(candidates@);
    let ghost known = views(existing_keys@);
    assert(all.take(0) =~= Seq::<(Seq<char>, ImportSourceView)>::empty());
    assert(source_views(new_sources@) =~= Seq::<ImportSourceView>::empty());
    assert(source_views(duplicate_sources@) =~= Seq::<ImportSourceView>::empty());
    while i < candidates.len()
        invariant
            i <= candidates.len(),
            all == keyed_views(candidates@),
            known == views(existing_keys@),
            source_views(new_sources@) == sorted_by_key(all.take(i as int), known).new_sources,
            source_views(duplicate_sources@) == sorted_by_key(
                all.take(i as int),
                known,
            ).duplicate_sources,
        decreases candidates.len() - i,
    {
        let source = candidates[i].source.clone();
        let key = candidates[i].key.as_str();
        let ghost before = all.take(i as int);
        proof {
            let now = all.take(i + 1);
            assert(now.drop_last() =~= before);
            assert(now.last() == (candidates@[i as int].key@, candidates@[i as int].source@));
        }
        if key.unicode_len() == 0 {
        } else if contains_string(existing_keys, key) {
            assert(source_views(duplicate_sources@.push(source)) =~= source_views(
                duplicate_sources@,
            ).push(source@));
            duplicate_sources.push(source);
        } else {
            let mut j: usize = i;
            let mut found: Option<usize> = None;
            while j > 0 && found.is_none()
                invariant
                    j <= i < candidates.len(),
                    all == keyed_views(candidates@),
                    before == all.take(i as int),
                    key@ == candidates@[i as int].key@,
                    match found {
                        Some(f) => f == j && j < i && before[j as int].0 == key@,
                        None => true,
                    },
                    forall|k: int|
                        (if found is Some {
                            j + 1
                        } else {
                            j as int
                        }) <= k < i ==> (#[trigger] before[k]).0 != key@,
                decreases j + if found is None { 1int } else { 0int },
            {
                if str_eq(candidates[j - 1].key.as_str(), key) {
                    found = Some((j - 1) as usize);
                }
                j -= 1;
            }
            match found {
                Some(f) => {
                    proof {
                        lemma_last_seen_at(before, key@, f as int);
                    }
                    let earlier = candidates[f].source.clone();
                    assert(source_views(duplicate_sources@.push(earlier).push(source))
                        =~= source_views(duplicate_sources@).push(earlier@).push(source@));
                    duplicate_sources.push(earlier);
                    duplicate_sources.push(source);
                },
                None => {
                    proof {
                        lemma_last_seen_none(before, key@);
                    }
                    assert(source_views(new_sources@.push(source)) =~= source_views(
                        new_sources@,
                    ).push(source@));
                    new_sources.push(source);
                },
            }
        }
        i += 1;
    }
    assert(all.take(candidates.len() as int) =~= all);
    ImportPreview { new_sources, duplicate_sources }
}

/// Sorts the candidates of an import into new sources and duplicates.
/// `existing_feed_urls` holds the feed URLs that are known, normalised.
pub fn build_import_preview(candidates: Vec<ImportSource>, existing_feed_urls: &Vec<String>) -> (r:
    ImportPreview)
    ensures
        source_views(r.new_sources@) == preview_of(
            source_views(candidates@),
            views(existing_feed_urls@),
        ).new_sources,
        source_views(r.duplicate_sources@) == preview_of(
            source_views(candidates@),
            views(existing_feed_urls@),
        ).duplicate_sources,
{
    let ghost given = candidates@;
    let mut keyed: Vec<KeyedSource> = Vec::new();
    let mut i: usize = 0;
    while i < candidates.len()
        invariant
            i <= candidates.len(),
            candidates@ == given,
            keyed.len() == i,
            forall|k: int|
                0 <= k < i ==> (#[trigger] keyed@[k]).key@ == normalized_url(given[k].feed_url@)
                    && keyed@[k].source == given[k],
        decreases candidates.len() - i,
    {
        let source = candidates[i].clone();
        let key = normalize_url(source.feed_url.as_str());
        keyed.push(KeyedSource { key, source });
        i += 1;
    }
    assert(keyed_views(keyed@) =~= keyed_by_url(source_views(given)));
    sort_keyed_candidates(keyed, existing_feed_urls)
}

/// An attribute of an XML element.
#[derive(Debug)]
pub struct XmlAttribute {
    /// The URI of the attribute's namespace, if it has one.
    pub namespace: Option<String>,
    /// The name without prefix.
    pub name: String,
    pub value: String,
}

/// A node of an XML document.
#[derive(Debug)]
pub struct XmlNode {
    pub is_element: bool,
    /// The tag name without prefix; empty for a node that is no element.
    pub name: String,
    /// The place of the parent in the document's list of nodes.
    pub parent: Option<usize>,
    pub attributes: Vec<XmlAttribute>,
}

/// What `roxmltree::Document::parse` makes of `text`: the nodes of the
/// document in document order, or the text of the error it reports.
pub uninterp spec fn xml_tree(text: Seq<char>) -> Result<Vec<XmlNode>, Seq<char>>;

/// Calls `roxmltree::Document::parse` and lists what `descendants` walks,
/// the root node first. A node's place in the list is its id, so `parent`
/// is a place in the same list.
#[verifier::external_body]
fn parse_xml_tree(text: &str) -> (r: Result<Vec<XmlNode>, String>)
    ensures
        match r {
            Ok(nodes) => xml_tree(text@) == Ok::<Vec<XmlNode>, Seq<char>>(nodes),
            Err(e) => xml_tree(text@) == Err::<Vec<XmlNode>, Seq<char>>(e@),
        },
{
    let doc = roxmltree::Document::parse(text).map_err(|e| e.to_string())?;
    Ok(doc.descendants().map(|n| XmlNode {
        is_element: n.is_element(),
        name: n.tag_name().name().to_owned(),
        parent: n.parent().map(|p| p.id().get_usize()),
        attributes: n.attributes().map(|a| XmlAttribute {
            namespace: a.namespace().map(str::to_owned),
            name: a.name().to_owned(),
            value: a.value().to_owned(),
        }).collect(),
    }).collect())
}

/// The value of the first attribute among `attributes` that has the name
/// `name` and no namespace.
pub open spec fn attribute(attributes: Seq<XmlAttribute>, name: Seq<char>) -> Option<Seq<char>>
    decreases attributes.len(),
{
    if attributes.len() == 0 {
        None
    } else if attributes[0].namespace is None && attributes[0].name@ == name {
        Some(attributes[0].value@)
    } else {
        attribute(attributes.drop_first(), name)
    }
}

/// Looks an attribute up by name.
pub fn find_attribute(attributes: &Vec<XmlAttribute>, name: &str) -> (r: Option<String>)
    ensures
        opt_view(r) == attribute(attributes@, name@),
{
    let mut i: usize = 0;
    assert(attributes@.skip(0) =~= attributes@);
    while i < attributes.len()
        invariant
            i <= attributes.len(),
            attribute(attributes@, name@) == attribute(attributes@.skip(i as int), name@),
        decreases attributes.len() - i,
    {
        assert(attributes@.skip(i as int)[0] == attributes@[i as int]);
        if attributes[i].namespace.is_none() && str_eq(attributes[i].name.as_str(), name) {
            return Some(attributes[i].value.clone());
        }
        assert(attributes@.skip(i as int).drop_first() =~= attributes@.skip(i + 1));
        i += 1;
    }
    None
}

/// The node is an `outline` element.
pub open spec fn is_outline(node: XmlNode) -> bool {
    node.is_element && node.name@ == "outline"@
}

/// `a`, or `b` where `a` is nothing.
pub open spec fn first_some(a: Option<Seq<char>>, b: Option<Seq<char>>) -> Option<Seq<char>> {
    match a {
        Some(_) => a,
        None => b,
    }
}

/// The name a node lends to the feeds below it: that of an outline that
/// names no feed itself, its `title` or else its `text`, trimmed, where
/// that is not blank.
pub open spec fn group_name(node: XmlNode) -> Option<Seq<char>> {
    if is_outline(node) && attribute(node.attributes@, "xmlUrl"@) is None {
        match first_some(
            attribute(node.attributes@, "title"@),
            attribute(node.attributes@, "text"@),
        ) {
            Some(name) => if is_blank(name) {
                None
            } else {
                Some(trimmed(name))
            },
            None => None,
        }
    } else {
        None
    }
}

/// The category a feed inherits: the name of the nearest node, from the
/// node at `at` upwards, that lends one.
pub open spec fn inherited_category(nodes: Seq<XmlNode>, at: int) -> Option<Seq<char>>
    decreases at,
{
    if 0 <= at < nodes.len() {
        match group_name(nodes[at]) {
            Some(name) => Some(name),
            None => match nodes[at].parent {
                Some(p) => if p < at {
                    inherited_category(nodes, p as int)
                } else {
                    None
                },
                None => None,
            },
        }
    } else {
        None
    }
}

/// The source that the node at `at` stands for, if it is an outline with
/// a feed URL that is not blank. The title is `title`, else `text`, else the
/// feed URL; the category is the outline's own, else the inherited one.
pub open spec fn outline_source(nodes: Seq<XmlNode>, at: int) -> Option<ImportSourceView> {
    let node = nodes[at];
    match attribute(node.attributes@, "xmlUrl"@) {
        Some(feed_url) => if is_outline(node) && !is_blank(feed_url) {
            Some(
                ImportSourceView {
                    title: match first_some(
                        attribute(node.attributes@, "title"@),
                        attribute(node.attributes@, "text"@),
                    ) {
                        Some(t) => t,
                        None => feed_url,
                    },
                    feed_url,
                    site_url: attribute(node.attributes@, "htmlUrl"@),
                    category: first_some(
                        attribute(node.attributes@, "category"@),
                        inherited_category(nodes, at),
                    ),
                },
            )
        } else {
            None
        },
        None => None,
    }
}

/// The sources of the first `count` nodes, in document order.
pub open spec fn outline_sources(nodes: Seq<XmlNode>, count: int) -> Seq<ImportSourceView>
    decreases count,
{
    if count <= 0 {
        Seq::empty()
    } else {
        match outline_source(nodes, count - 1) {
            Some(source) => outline_sources(nodes, count - 1).push(source),
            None => outline_sources(nodes, count - 1),
        }
    }
}

fn is_outline_node(node: &XmlNode) -> (r: bool)
    ensures
        r == is_outline(*node),
{
    node.is_element && str_eq(node.name.as_str(), "outline")
}

fn either(a: Option<String>, b: Option<String>) -> (r: Option<String>)
    ensures
        opt_view(r) == first_some(opt_view(a), opt_view(b)),
{
    match a {
        Some(s) => Some(s),
        None => b,
    }
}

fn group_name_of(node: &XmlNode) -> (r: Option<String>)
    ensures
        opt_view(r) == group_name(*node),
{
    if is_outline_node(node) && find_attribute(&node.attributes, "xmlUrl").is_none() {
        match either(
            find_attribute(&node.attributes, "title"),
            find_attribute(&node.attributes, "text"),
        ) {
            Some(name) => if str_is_blank(name.as_str()) {
                None
            } else {
                Some(trim(name.as_str()))
            },
            None => None,
        }
    } else {
        None
    }
}

/// Finds the category that the node at `at` inherits.
pub fn infer_opml_category(nodes: &Vec<XmlNode>, at: usize) -> (r: Option<String>)
    ensures
        opt_view(r) == inherited_category(nodes@, at as int),
{
    let mut current: usize = at;
    loop
        invariant
            inherited_category(nodes@, at as int) == inherited_category(nodes@, current as int),
        decreases current,
    {
        if current >= nodes.len() {
            return None;
        }
        match group_name_of(&nodes[current]) {
            Some(name) => {
                return Some(name);
            },
            None => {},
        }
        match nodes[current].parent {
            Some(p) => {
                if p < current {
                    current = p;
                } else {
                    return None;
                }
            },
            None => {
                return None;
            },
        }
    }
}

/// Lists the feeds of an OPML document, given as its nodes.
pub fn opml_sources(nodes: &Vec<XmlNode>) -> (r: Vec<ImportSource>)
    ensures
        source_views(r@) == outline_sources(nodes@, nodes@.len() as int),
{
    let mut out: Vec<ImportSource> = Vec::new();
    let mut i: usize = 0;
    assert(source_views(out@) =~= Seq::<ImportSourceView>::empty());
    while i < nodes.len()
        invariant
            i <= nodes.len(),
            source_views(out@) == outline_sources(nodes@, i as int),
        decreases nodes.len() - i,
    {
        let node = &nodes[i];
        match find_attribute(&node.attributes, "xmlUrl") {
            Some(feed_url) => {
                if is_outline_node(node) && !str_is_blank(feed_url.as_str()) {
                    let title = match either(
                        find_attribute(&node.attributes, "title"),
                        find_attribute(&node.attributes, "text"),
                    ) {
                        Some(t) => t,
                        None => feed_url.clone(),
                    };
                    let category = either(
                        find_attribute(&node.attributes, "category"),
                        infer_opml_category(nodes, i),
                    );
                    let source = ImportSource {
                        title,
                        feed_url,
                        site_url: find_attribute(&node.attributes, "htmlUrl"),
                        category,
                    };
                    assert(source_views(out@.push(source)) =~= source_views(out@).push(source@));
                    out.push(source);
                }
            },
            None => {},
        }
        i += 1;
    }
    out
}

/// What an OPML text comes to once the XML parser has read it.
pub open spec fn opml_outcome(tree: Result<Vec<XmlNode>, Seq<char>>) -> Result<
    Seq<ImportSourceView>,
    Seq<char>,
> {
    match tree {
        Ok(nodes) => Ok(outline_sources(nodes@, nodes@.len() as int)),
        Err(m) => Err(m),
    }
}

/// Reads the feeds of an OPML document.
pub fn parse_opml(opml_content: &str) -> (r: Result<Vec<ImportSource>, ImportError>)
    ensures
        match r {
            Ok(sources) => opml_outcome(xml_tree(opml_content@)) == Ok::<
                Seq<ImportSourceView>,
                Seq<char>,
            >(source_views(sources@)),
            Err(ImportError::Opml(m)) => opml_outcome(xml_tree(opml_content@)) == Err::<
                Seq<ImportSourceView>,
                Seq<char>,
            >(m@),
            Err(_) => false,
        },
{
    match parse_xml_tree(opml_content) {
        Err(m) => Err(ImportError::Opml(m)),
        Ok(nodes) => Ok(opml_sources(&nodes)),
    }
}

/// The source that an item of a JSON list stands for: a string is feed URL
/// and title at once; an object has a string `feed_url` and may have
/// `title`, `site_url` and `category`, each a string or `null`. Anything
/// else is refused.
pub open spec fn json_source(item: JsonValue) -> Result<ImportSourceView, ()> {
    match item {
        JsonValue::Text(url) => Ok(url_source(url@)),
        JsonValue::Object(m) => match member(m@, "feed_url"@) {
            Some(JsonValue::Text(feed_url)) => match (
                optional_text(member(m@, "title"@)),
                optional_text(member(m@, "site_url"@)),
                optional_text(member(m@, "category"@)),
            ) {
                (Ok(title), Ok(site_url), Ok(category)) => Ok(
                    ImportSourceView {
                        title: match title {
                            Some(t) => t,
                            None => feed_url@,
                        },
                        feed_url: feed_url@,
                        site_url,
                        category,
                    },
                ),
                _ => Err(()),
            },
            _ => Err(()),
        },
        _ => Err(()),
    }
}

/// The sources of a JSON list: those of the items of an array, where every
/// item is taken.
pub open spec fn json_sources(doc: JsonValue) -> Result<Seq<ImportSourceView>, ()> {
    match doc {
        JsonValue::Array(a) => {
            if forall|i: int| 0 <= i < a@.len() ==> (#[trigger] json_source(a@[i])) is Ok {
                Ok(Seq::new(a@.len(), |i: int| json_source(a@[i])->Ok_0))
            } else {
                Err(())
            }
        },
        _ => Err(()),
    }
}

/// Reads one item of a JSON list of sources.
pub fn source_from_json(item: &JsonValue) -> (r: Result<ImportSource, ()>)
    ensures
        match r {
            Ok(source) => json_source(*item) == Ok::<ImportSourceView, ()>(source@),
            Err(_) => json_source(*item) is Err,
        },
{
    match item {
        JsonValue::Text(url) => Ok(
            ImportSource { title: url.clone(), feed_url: url.clone(), site_url: None, category: None },
        ),
        JsonValue::Object(m) => match find_member(m, "feed_url") {
            Some(JsonValue::Text(feed_url)) => {
                let title = read_optional_text(m, "title")?;
                let site_url = read_optional_text(m, "site_url")?;
                let category = read_optional_text(m, "category")?;
                Ok(
                    ImportSource {
                        title: match title {
                            Some(t) => t,
                            None => feed_url.clone(),
                        },
                        feed_url: feed_url.clone(),
                        site_url,
                        category,
                    },
                )
            },
            _ => Err(()),
        },
        _ => Err(()),
    }
}

/// Reads a JSON list of sources out of its document.
pub fn sources_from_json(doc: &JsonValue) -> (r: Result<Vec<ImportSource>, ()>)
    ensures
        match r {
            Ok(sources) => json_sources(*doc) == Ok::<Seq<ImportSourceView>, ()>(
                source_views(sources@),
            ),
            Err(_) => json_sources(*doc) is Err,
        },
{
    match doc {
        JsonValue::Array(a) => {
            let mut out: Vec<ImportSource> = Vec::new();
            let mut i: usize = 0;
            while i < a.len()
                invariant
                    i <= a.len(),
                    out.len() == i,
                    *doc == JsonValue::Array(*a),
                    forall|k: int|
                        0 <= k < i ==> (#[trigger] json_source(a@[k])) == Ok::<
                            ImportSourceView,
                            (),
                        >(out@[k]@),
                decreases a.len() - i,
            {
                match source_from_json(&a[i]) {
                    Ok(source) => {
                        out.push(source);
                    },
                    Err(_) => {
                        assert(json_source(a@[i as int]) is Err);
                        return Err(());
                    },
                }
                i += 1;
            }
            assert(source_views(out@) =~= Seq::new(a@.len(), |i: int| json_source(a@[i])->Ok_0));
            Ok(out)
        },
        _ => Err(()),
    }
}

/// What a JSON text comes to once `serde_json` has read it.
pub open spec fn json_sources_outcome(doc: Result<JsonValue, Seq<char>>) -> Result<
    Seq<ImportSourceView>,
    Seq<char>,
> {
    match doc {
        Err(m) => Err(m),
        Ok(v) => match json_sources(v) {
            Ok(sources) => Ok(sources),
            Err(_) => Err("document is not a list of sources"@),
        },
    }
}

/// Reads a JSON list of sources.
pub fn parse_json_sources(input: &str) -> (r: Result<Vec<ImportSource>, ImportError>)
    ensures
        match r {
            Ok(sources) => json_sources_outcome(json_document(encode_utf8(input@))) == Ok::<
                Seq<ImportSourceView>,
                Seq<char>,
            >(source_views(sources@)),
            Err(ImportError::Json(m)) => json_sources_outcome(json_document(encode_utf8(input@)))
                == Err::<Seq<ImportSourceView>, Seq<char>>(m@),
            Err(_) => false,
        },
{
    match parse_json(input.as_bytes()) {
        Err(m) => Err(ImportError::Json(m)),
        Ok(doc) => match sources_from_json(&doc) {
            Ok(sources) => Ok(sources),
            Err(_) => Err(ImportError::Json("document is not a list of sources".to_owned())),
        },
    }
}

/// A request to import sources.
#[derive(Debug)]
pub struct ImportRequest {
    /// The name of the format of `content`, in any case.
    pub format: String,
    pub content: String,
    /// The category of the sources that bring none.
    pub default_category: Option<String>,
    /// Whether the sources are synced; they are where this is left open.
    pub is_active: Option<bool>,
}

/// The formats an import comes in.
#[derive(Debug, Clone, Copy, PartialEq, Eq, Structural)]
pub enum ImportFormat {
    Opml,
    UrlList,
    Json,
}

/// The format that a name in lower case stands for.
pub open spec fn format_named(name: Seq<char>) -> Option<ImportFormat> {
    if name == "opml"@ || name == "xml"@ {
        Some(ImportFormat::Opml)
    } else if name == "url_list"@ || name == "urls"@ || name == "txt"@ {
        Some(ImportFormat::UrlList)
    } else if name == "json"@ || name == "json_list"@ {
        Some(ImportFormat::Json)
    } else {
        None
    }
}

/// Tells the format that a name in lower case stands for.
pub fn format_of(lower: &str) -> (r: Option<ImportFormat>)
    ensures
        r == format_named(lower@),
{
    if str_eq(lower, "opml") || str_eq(lower, "xml") {
        Some(ImportFormat::Opml)
    } else if str_eq(lower, "url_list") || str_eq(lower, "urls") || str_eq(lower, "txt") {
        Some(ImportFormat::UrlList)
    } else if str_eq(lower, "json") || str_eq(lower, "json_list") {
        Some(ImportFormat::Json)
    } else {
        None
    }
}

/// Tells the format of an import by its name, whatever its case.
pub fn import_format(name: &str) -> (r: Result<ImportFormat, String>)
    ensures
        match r {
            Ok(f) => format_named(lowercase(name@)) == Some(f),
            Err(m) => format_named(lowercase(name@)) is None && m@
                == "unsupported import format: "@ + lowercase(name@),
        },
{
    let lower = to_lowercase(name);
    match format_of(lower.as_str()) {
        Some(format) => Ok(format),
        None => Err(concat2("unsupported import format: ", lower.as_str())),
    }
}

/// What the content of a request comes to, read in the format `format`.
pub open spec fn import_outcome(format: ImportFormat, content: Seq<char>) -> Result<
    Seq<ImportSourceView>,
    Seq<char>,
> {
    match format {
        ImportFormat::Opml => match opml_outcome(xml_tree(content)) {
            Ok(sources) => Ok(sources),
            Err(m) => Err("invalid OPML content: "@ + m),
        },
        ImportFormat::UrlList => Ok(url_sources(lines_of(content))),
        ImportFormat::Json => match json_sources_outcome(json_document(encode_utf8(content))) {
            Ok(sources) => Ok(sources),
            Err(m) => Err("invalid JSON import format: "@ + m),
        },
    }
}

/// Reads the candidates of an import request, in the format it names.
pub fn parse_import_sources(request: &ImportRequest) -> (r: Result<Vec<ImportSource>, String>)
    ensures
        match format_named(lowercase(request.format@)) {
            None => r matches Err(m) && m@ == "unsupported import format: "@ + lowercase(
                request.format@,
            ),
            Some(format) => match r {
                Ok(sources) => import_outcome(format, request.content@) == Ok::<
                    Seq<ImportSourceView>,
                    Seq<char>,
                >(source_views(sources@)),
                Err(m) => import_outcome(format, request.content@) == Err::<
                    Seq<ImportSourceView>,
                    Seq<char>,
                >(m@),
            },
        },
{
    match import_format(request.format.as_str()) {
        Err(m) => Err(m),
        Ok(ImportFormat::Opml) => match parse_opml(request.content.as_str()) {
            Ok(sources) => Ok(sources),
            Err(e) => Err(e.message()),
        },
        Ok(ImportFormat::UrlList) => Ok(parse_url_list(request.content.as_str())),
        Ok(ImportFormat::Json) => match parse_json_sources(request.content.as_str()) {
            Ok(sources) => Ok(sources),
            Err(e) => Err(e.message()),
        },
    }
}

/// The feed URLs of `rows`, normalised, in order.
pub open spec fn known_urls(rows: Seq<SourceRecord>) -> Seq<Seq<char>> {
    Seq::new(rows.len(), |i: int| normalized_url(rows[i].feed_url@))
}

/// Lists the feed URLs of the stored sources, normalised.
pub fn existing_feed_urls(rows: &Vec<SourceRecord>) -> (r: Vec<String>)
    ensures
        views(r@) == known_urls(rows@),
{
    let mut out: Vec<String> = Vec::new();
    let mut i: usize = 0;
    while i < rows.len()
        invariant
            i <= rows.len(),
            out.len() == i,
            forall|k: int|
                0 <= k < i ==> (#[trigger] out@[k])@ == normalized_url(rows@[k].feed_url@),
        decreases rows.len() - i,
    {
        out.push(normalize_url(rows[i].feed_url.as_str()));
        i += 1;
    }
    assert(views(out@) =~= known_urls(rows@));
    out
}

/// What a preview of an import shows.
#[derive(Debug)]
pub struct ImportPreviewResponse {
    pub new_count: usize,
    pub duplicate_count: usize,
    pub new_sources: Vec<ImportSource>,
    pub duplicate_sources: Vec<ImportSource>,
}

/// What an import reports.
#[derive(Debug, Clone, Copy, PartialEq, Eq, Structural)]
pub struct ImportExecuteResponse {
    pub imported_count: usize,
    pub duplicate_count: usize,
}

/// Previews an import: the candidates of the request, sorted against the
/// stored sources `existing_rows`, with the count of either kind.
pub fn preview_import(request: &ImportRequest, existing_rows: &Vec<SourceRecord>) -> (r: Result<
    ImportPreviewResponse,
    String,
>)
    ensures
        match format_named(lowercase(request.format@)) {
            None => r matches Err(m) && m@ == "unsupported import format: "@ + lowercase(
                request.format@,
            ),
            Some(format) => match import_outcome(format, request.content@) {
                Err(reason) => r matches Err(m) && m@ == reason,
                Ok(candidates) => {
                    &&& r matches Ok(preview)
                    &&& source_views(preview.new_sources@) == preview_of(
                        candidates,
                        known_urls(existing_rows@),
                    ).new_sources
                    &&& source_views(preview.duplicate_sources@) == preview_of(
                        candidates,
                        known_urls(existing_rows@),
                    ).duplicate_sources
                    &&& preview.new_count == preview.new_sources@.len()
                    &&& preview.duplicate_count == preview.duplicate_sources@.len()
                },
            },
        },
{
    let candidates = parse_import_sources(request)?;
    let existing = existing_feed_urls(existing_rows);
    let preview = build_import_preview(candidates, &existing);
    Ok(
        ImportPreviewResponse {
            new_count: preview.new_sources.len(),
            duplicate_count: preview.duplicate_sources.len(),
            new_sources: preview.new_sources,
            duplicate_sources: preview.duplicate_sources,
        },
    )
}

/// The source to store for a new candidate: its own category, or the
/// default where it has none.
pub open spec fn is_source_to_import(
    candidate: ImportSourceView,
    default_category: Option<Seq<char>>,
    is_active: bool,
    source: NewSource,
) -> bool {
    &&& source.title@ == candidate.title
    &&& source.feed_url@ == candidate.feed_url
    &&& opt_view(source.site_url) == candidate.site_url
    &&& opt_view(source.category) == first_some(candidate.category, default_category)
    &&& source.is_active == is_active
}

/// The sources to store for the new candidates of an import, in order.
pub fn sources_to_import(
    new_sources: &Vec<ImportSource>,
    default_category: &Option<String>,
    is_active: bool,
) -> (r: Vec<NewSource>)
    ensures
        r@.len() == new_sources@.len(),
        forall|i: int|
            0 <= i < r@.len() ==> is_source_to_import(
                new_sources@[i]@,
                opt_view(*default_category),
                is_active,
                #[trigger] r@[i],
            ),
{
    let mut out: Vec<NewSource> = Vec::new();
    let mut i: usize = 0;
    while i < new_sources.len()
        invariant
            i <= new_sources.len(),
            out.len() == i,
            forall|k: int|
                0 <= k < i ==> is_source_to_import(
                    new_sources@[k]@,
                    opt_view(*default_category),
                    is_active,
                    #[trigger] out@[k],
                ),
        decreases new_sources.len() - i,
    {
        let c = &new_sources[i];
        out.push(
            NewSource {
                title: c.title.clone(),
                site_url: clone_opt(&c.site_url),
                feed_url: c.feed_url.clone(),
                category: either(clone_opt(&c.category), clone_opt(default_category)),
                is_active,
            },
        );
        i += 1;
    }
    out
}

/// What an import is to store, and the number of duplicates it leaves out.
#[derive(Debug)]
pub struct ImportPlan {
    pub sources: Vec<NewSource>,
    pub duplicate_count: usize,
}

/// Plans an import: the new candidates of the request are to be stored,
/// active unless the request says otherwise.
pub fn plan_import(request: &ImportRequest, existing_rows: &Vec<SourceRecord>) -> (r: Result<
    ImportPlan,
    String,
>)
    ensures
        match format_named(lowercase(request.format@)) {
            None => r matches Err(m) && m@ == "unsupported import format: "@ + lowercase(
                request.format@,
            ),
            Some(format) => match import_outcome(format, request.content@) {
                Err(reason) => r matches Err(m) && m@ == reason,
                Ok(candidates) => {
                    let preview = preview_of(candidates, known_urls(existing_rows@));
                    &&& r matches Ok(plan)
                    &&& plan.duplicate_count == preview.duplicate_sources.len()
                    &&& plan.sources@.len() == preview.new_sources.len()
                    &&& forall|i: int|
                        0 <= i < plan.sources@.len() ==> is_source_to_import(
                            preview.new_sources[i],
                            opt_view(request.default_category),
                            match request.is_active {
                                Some(a) => a,
                                None => true,
                            },
                            #[trigger] plan.sources@[i],
                        )
                },
            },
        },
{
    let candidates = parse_import_sources(request)?;
    let existing = existing_feed_urls(existing_rows);
    let preview = build_import_preview(candidates, &existing);
    let is_active = match request.is_active {
        Some(a) => a,
        None => true,
    };
    let sources = sources_to_import(&preview.new_sources, &request.default_category, is_active);
    proof {
        let model = preview_of(source_views(candidates@), known_urls(existing_rows@));
        assert forall|i: int| 0 <= i < sources@.len() implies is_source_to_import(
            model.new_sources[i],
            opt_view(request.default_category),
            is_active,
            #[trigger] sources@[i],
        ) by {
            assert(model.new_sources[i] == preview.new_sources@[i]@);
        }
    }
    Ok(ImportPlan { sources, duplicate_count: preview.duplicate_sources.len() })
}

} // verus!

//! Microdata: the items that an HTML body marks with `itemscope`, and their
//! properties.
//!
//! A document is read as its outline: its nodes in document order, each with
//! its depth. The nodes below a node are those that follow it down to the
//! next node that is no deeper.
use crate::dict::{distinct, keys, lemma_written, map_of, put, slot};
use crate::model::{opt_view, pair_views, views};
use crate::text::{chars_of, string_of, trim, trimmed};
use vstd::prelude::*;

verus! {

/// One node of a document's outline.
#[derive(Debug)]
pub struct DomNode {
    /// How many nodes stand above this one.
    pub depth: usize,
    /// Whether the node is an element.
    pub element: bool,
    /// The values of the attributes that were asked for, in the order asked.
    pub attributes: Vec<Option<String>>,
    /// The text of a text node.
    pub text: Option<String>,
}

/// The content of a [`DomNode`].
pub struct DomNodeView {
    pub depth: nat,
    pub element: bool,
    pub attributes: Seq<Option<Seq<char>>>,
    pub text: Option<Seq<char>>,
}

/// The views of a list of optional texts.
pub open spec fn option_views(items: Seq<Option<String>>) -> Seq<Option<Seq<char>>> {
    items.map_values(|x: Option<String>| opt_view(x))
}

impl View for DomNode {
    type V = DomNodeView;

    open spec fn view(&self) -> DomNodeView {
        DomNodeView {
            depth: self.depth as nat,
            element: self.element,
            attributes: option_views(self.attributes@),
            text: opt_view(self.text),
        }
    }
}

/// The outline of the document that a text in HTML parses to, with the
/// attributes of the given names read off each element.
pub uninterp spec fn html_outline(html: Seq<char>, names: Seq<Seq<char>>) -> Seq<DomNodeView>;

/// `Html::parse_document` of `scraper`, and the nodes of its tree in
/// document order (`descendants` of the root), each with the number of its
/// `ancestors`, whether it `is_element`, `Element::attr` for each name, and
/// its text where it is a text node. The result depends on the arguments
/// alone.
#[verifier::external_body]
fn outline(html: &str, names: &Vec<String>) -> (rows: Vec<DomNode>)
    ensures
        views(rows@) == html_outline(html@, views(names@)),
{
    let document = scraper::Html::parse_document(html);
    document.tree.root().descendants().map(|node| DomNode {
        depth: node.ancestors().count(),
        element: node.value().is_element(),
        attributes: names.iter().map(|n| {
            node.value().as_element().and_then(|e| e.attr(n)).map(|v| v.to_owned())
        }).collect(),
        text: node.value().as_text().map(|t| t.to_string()),
    }).collect()
}

/// The place of `itemscope` among the attributes that are asked for.
pub const ITEMSCOPE: usize = 0;

/// The place of `itemtype`.
pub const ITEMTYPE: usize = 1;

/// The place of `itemprop`.
pub const ITEMPROP: usize = 2;

/// The place of `content`.
pub const CONTENT: usize = 3;

/// The place of `href`.
pub const HREF: usize = 4;

/// The names of the attributes that are asked for.
pub open spec fn attribute_names() -> Seq<Seq<char>> {
    seq!["itemscope"@, "itemtype"@, "itemprop"@, "content"@, "href"@]
}

/// The value of the attribute at place `k` of an element.
pub open spec fn attribute(node: DomNodeView, k: int) -> Option<Seq<char>> {
    if node.element && 0 <= k < node.attributes.len() {
        node.attributes[k]
    } else {
        None
    }
}

/// Whether a node opens a scope of its own.
pub open spec fn is_scope(node: DomNodeView) -> bool {
    attribute(node, ITEMSCOPE as int) is Some
}

/// The first position from `j` on whose node is no deeper than `depth`.
pub open spec fn scan_end(rows: Seq<DomNodeView>, depth: nat, j: int) -> int
    decreases rows.len() - j,
{
    if j < 0 || j >= rows.len() {
        j
    } else if rows[j].depth <= depth {
        j
    } else {
        scan_end(rows, depth, j + 1)
    }
}

/// The position just behind the nodes below node `i`.
pub open spec fn subtree_end(rows: Seq<DomNodeView>, i: int) -> int {
    scan_end(rows, rows[i].depth, i + 1)
}

/// What `scan_end` finds: every node before it is deeper, and the node at
/// it, if there is one, is not.
pub proof fn lemma_scan_end(rows: Seq<DomNodeView>, depth: nat, j: int)
    requires
        0 <= j <= rows.len(),
    ensures
        j <= scan_end(rows, depth, j) <= rows.len(),
        forall|m: int| j <= m < scan_end(rows, depth, j) ==> (#[trigger] rows[m]).depth > depth,
        scan_end(rows, depth, j) < rows.len() ==> rows[scan_end(rows, depth, j)].depth <= depth,
    decreases rows.len() - j,
{
    if j < rows.len() && rows[j].depth > depth {
        lemma_scan_end(rows, depth, j + 1);
    }
}

/// The nodes below a node that stands below another lie below that one
/// too.
pub proof fn lemma_subtrees_nest(rows: Seq<DomNodeView>, i: int, j: int)
    requires
        0 <= i < j < subtree_end(rows, i),
        j < rows.len(),
    ensures
        subtree_end(rows, j) <= subtree_end(rows, i),
{
    lemma_scan_end(rows, rows[i].depth, i + 1);
    lemma_scan_end(rows, rows[j].depth, j + 1);
    let outer = subtree_end(rows, i);
    let inner = subtree_end(rows, j);
    if inner > outer {
        assert(rows[outer].depth > rows[j].depth);
        assert(rows[j].depth > rows[i].depth);
    }
}

/// The texts of the text nodes from `from` up to `to`, in order.
pub open spec fn texts_between(rows: Seq<DomNodeView>, from: int, to: int) -> Seq<Seq<char>>
    decreases to - from,
{
    if to <= from || to > rows.len() || from < 0 {
        seq![]
    } else {
        let before = texts_between(rows, from, to - 1);
        match rows[to - 1].text {
            Some(t) => before.push(t),
            None => before,
        }
    }
}

/// The pieces put one behind the other with a blank between neighbours.
pub open spec fn joined(pieces: Seq<Seq<char>>) -> Seq<char>
    decreases pieces.len(),
{
    if pieces.len() == 0 {
        seq![]
    } else if pieces.len() == 1 {
        pieces[0]
    } else {
        joined(pieces.drop_last()) + seq![' '] + pieces.last()
    }
}

/// The value of the property that node `k` states: its `content`, else its
/// `href`, else the text below it, joined and trimmed.
pub open spec fn value_at(rows: Seq<DomNodeView>, k: int) -> Seq<char> {
    match attribute(rows[k], CONTENT as int) {
        Some(v) => v,
        None => match attribute(rows[k], HREF as int) {
            Some(v) => v,
            None => trimmed(joined(texts_between(rows, k + 1, subtree_end(rows, k)))),
        },
    }
}

/// An item: its type, its properties and the items nested in it, each
/// under the name of the property that holds it.
///
/// The two dictionaries are lists of pairs in which no name stands twice
/// (see [`well_formed`]); [`MicrodataItem::property`] and
/// [`MicrodataItem::child`] look a name up. They are no hash maps: of a
/// `HashMap` keyed by `String` nothing can be proved here, and `vstd`'s
/// `StringHashMap` cannot hold the type that it is a field of.
#[derive(Debug)]
pub struct MicrodataItem {
    pub itemtype: Option<String>,
    pub properties: Vec<(String, String)>,
    pub children: Vec<(String, MicrodataItem)>,
}

/// The content of a [`MicrodataItem`]: its properties and nested items as
/// dictionaries.
pub struct MicrodataItemView {
    pub itemtype: Option<Seq<char>>,
    pub properties: Map<Seq<char>, Seq<char>>,
    pub children: Map<Seq<char>, MicrodataItemView>,
}

/// The nested items of a list of pairs, each with its name.
pub open spec fn child_views(children: Seq<(String, MicrodataItem)>) -> Seq<
    (Seq<char>, MicrodataItemView),
>
    decreases children, 1nat,
{
    Seq::new(
        children.len(),
        |i: int|
            (
                children[i].0@,
                if 0 <= i < children.len() {
                    item_view(children[i].1)
                } else {
                    arbitrary()
                },
            ),
    )
}

/// The content of an item.
pub open spec fn item_view(item: MicrodataItem) -> MicrodataItemView
    decreases item, 0nat,
{
    MicrodataItemView {
        itemtype: opt_view(item.itemtype),
        properties: map_of(pair_views(item.properties@)),
        children: map_of(child_views(item.children@)),
    }
}

impl View for MicrodataItem {
    type V = MicrodataItemView;

    open spec fn view(&self) -> MicrodataItemView {
        item_view(*self)
    }
}

/// No name stands twice among the properties of a list of items, nor among
/// their nested items, at any depth.
pub open spec fn children_well_formed(children: Seq<(String, MicrodataItem)>) -> bool
    decreases children, 1nat,
{
    forall|i: int| 0 <= i < children.len() ==> well_formed(#[trigger] children[i].1)
}

/// No name stands twice among the properties of an item, nor among its
/// nested items, at any depth.
pub open spec fn well_formed(item: MicrodataItem) -> bool
    decreases item, 0nat,
{
    &&& distinct(keys(item.properties@))
    &&& distinct(keys(item.children@))
    &&& children_well_formed(item.children@)
}

/// What a dictionary holds under a key.
pub open spec fn lookup<W>(dictionary: Map<Seq<char>, W>, key: Seq<char>) -> Option<W> {
    if dictionary.contains_key(key) {
        Some(dictionary[key])
    } else {
        None
    }
}

impl MicrodataItem {
    /// The value of the property of a name.
    pub fn property(&self, name: &str) -> (r: Option<&String>)
        ensures
            opt_view(r) == lookup(self@.properties, name@),
    {
        proof {
            crate::dict::lemma_map_of_lookup(pair_views(self.properties@), name@);
            assert(crate::dict::firsts(pair_views(self.properties@)) =~= keys(self.properties@));
        }
        match crate::dict::find_last(&self.properties, name) {
            Some(i) => Some(&self.properties[i].1),
            None => None,
        }
    }

    /// The item nested under the name of a property.
    pub fn child(&self, name: &str) -> (r: Option<&MicrodataItem>)
        ensures
            opt_view(r) == lookup(self@.children, name@),
    {
        proof {
            crate::dict::lemma_map_of_lookup(child_views(self.children@), name@);
            assert(crate::dict::firsts(child_views(self.children@)) =~= keys(self.children@));
        }
        match crate::dict::find_last(&self.children, name) {
            Some(i) => Some(&self.children[i].1),
            None => None,
        }
    }
}

/// What has been found of an item so far.
pub struct Found {
    pub properties: Map<Seq<char>, Seq<char>>,
    pub children: Map<Seq<char>, MicrodataItemView>,
}

/// The item that node `i` opens.
pub open spec fn item_at(rows: Seq<DomNodeView>, i: int) -> MicrodataItemView
    decreases rows.len() - i, 0nat,
{
    if 0 <= i < rows.len() {
        let found = walk(
            rows,
            i + 1,
            subtree_end(rows, i),
            Found { properties: Map::empty(), children: Map::empty() },
        );
        MicrodataItemView {
            itemtype: attribute(rows[i], ITEMTYPE as int),
            properties: found.properties,
            children: found.children,
        }
    } else {
        MicrodataItemView { itemtype: None, properties: Map::empty(), children: Map::empty() }
    }
}

/// Reads the nodes from `k` up to `end` into what has been found.
///
/// A node with `itemprop` states a property. Where it opens a scope of its
/// own, the item it opens is nested under that name, and the nodes below it
/// belong to that item alone. Otherwise its value is written under that
/// name. A scope without `itemprop` is passed over with all that is below
/// it. A later property of the same name replaces an earlier one.
pub open spec fn walk(rows: Seq<DomNodeView>, k: int, end: int, found: Found) -> Found
    decreases rows.len() - k, 1nat,
{
    if k < 0 || k >= end || k >= rows.len() {
        found
    } else {
        proof {
            lemma_scan_end(rows, rows[k].depth, k + 1);
        }
        match attribute(rows[k], ITEMPROP as int) {
            Some(name) => if is_scope(rows[k]) {
                walk(
                    rows,
                    subtree_end(rows, k),
                    end,
                    Found {
                        properties: found.properties,
                        children: found.children.insert(name, item_at(rows, k)),
                    },
                )
            } else {
                walk(
                    rows,
                    k + 1,
                    end,
                    Found {
                        properties: found.properties.insert(name, value_at(rows, k)),
                        children: found.children,
                    },
                )
            },
            None => if is_scope(rows[k]) {
                walk(rows, subtree_end(rows, k), end, found)
            } else {
                walk(rows, k + 1, end, found)
            },
        }
    }
}

/// Whether node `i` stands below node `j`: it is one of the nodes that
/// follow `j` down to the next node that is no deeper than `j`.
pub open spec fn stands_below(rows: Seq<DomNodeView>, i: int, j: int) -> bool {
    0 <= j < i < subtree_end(rows, j)
}

/// Whether a scope stands above node `i`.
pub open spec fn has_scope_above(rows: Seq<DomNodeView>, i: int) -> bool {
    exists|j: int| is_scope(#[trigger] rows[j]) && stands_below(rows, i, j)
}

/// Whether node `i` opens an item of the top level: a scope with no scope
/// above it.
pub open spec fn is_top_level(rows: Seq<DomNodeView>, i: int) -> bool {
    0 <= i < rows.len() && is_scope(rows[i]) && !has_scope_above(rows, i)
}

/// The positions before `n` that open an item of the top level, in order.
pub open spec fn top_level_upto(rows: Seq<DomNodeView>, n: int) -> Seq<int>
    decreases n,
{
    if n <= 0 {
        seq![]
    } else {
        let before = top_level_upto(rows, n - 1);
        if is_top_level(rows, n - 1) {
            before.push(n - 1)
        } else {
            before
        }
    }
}

/// The items of the top level of an outline, in document order.
pub open spec fn microdata_items(rows: Seq<DomNodeView>) -> Seq<MicrodataItemView> {
    top_level_upto(rows, rows.len() as int).map_values(|i: int| item_at(rows, i))
}

/// The items of the top level of an HTML body.
pub open spec fn microdata_of(html: Seq<char>) -> Seq<MicrodataItemView> {
    microdata_items(html_outline(html, attribute_names()))
}

/// The value of the attribute at place `k`.
fn attr(node: &DomNode, k: usize) -> (r: Option<&String>)
    ensures
        opt_view(r) == attribute(node@, k as int),
{
    if node.element && k < node.attributes.len() {
        node.attributes[k].as_ref()
    } else {
        None
    }
}

/// The position just behind the nodes below node `i`.
fn end_of_subtree(rows: &Vec<DomNode>, i: usize) -> (e: usize)
    requires
        i < rows.len(),
    ensures
        e == subtree_end(views(rows@), i as int),
        i < e <= rows.len(),
{
    let depth: usize = rows[i].depth;
    let mut j: usize = i + 1;
    proof {
        lemma_scan_end(views(rows@), depth as nat, i + 1);
    }
    while j < rows.len() && rows[j].depth > depth
        invariant
            i < j <= rows.len(),
            depth == rows@[i as int].depth,
            scan_end(views(rows@), depth as nat, i + 1) == scan_end(views(rows@), depth as nat, j as int),
        decreases rows.len() - j,
    {
        j += 1;
    }
    j
}

/// Appending a piece to the joined text.
proof fn lemma_joined_push(pieces: Seq<Seq<char>>, t: Seq<char>)
    ensures
        joined(pieces.push(t)) == if pieces.len() == 0 {
            t
        } else {
            joined(pieces) + seq![' '] + t
        },
{
    assert(pieces.push(t).drop_last() =~= pieces);
}

/// The text below node `k`, joined and trimmed.
fn text_below(rows: &Vec<DomNode>, k: usize) -> (out: String)
    requires
        k < rows.len(),
    ensures
        out@ == trimmed(
            joined(texts_between(views(rows@), k + 1, subtree_end(views(rows@), k as int))),
        ),
{
    let ghost all = views(rows@);
    let end = end_of_subtree(rows, k);
    let mut buffer: Vec<char> = Vec::new();
    let mut pieces: usize = 0;
    let mut m: usize = k + 1;
    while m < end
        invariant
            k < m <= end <= rows.len(),
            all == views(rows@),
            buffer@ == joined(texts_between(all, k + 1, m as int)),
            pieces <= m,
            (pieces == 0) == (texts_between(all, k + 1, m as int).len() == 0),
        decreases end - m,
    {
        let ghost before = texts_between(all, k + 1, m as int);
        assert(all[m as int] == rows@[m as int]@);
        match &rows[m].text {
            Some(t) => {
                proof {
                    lemma_joined_push(before, t@);
                }
                if pieces > 0 {
                    buffer.push(' ');
                }
                let chars = chars_of(t.as_str());
                let mut c: usize = 0;
                let ghost head = buffer@;
                while c < chars.len()
                    invariant
                        c <= chars.len(),
                        buffer@ == head + chars@.take(c as int),
                    decreases chars.len() - c,
                {
                    buffer.push(chars[c]);
                    assert(chars@.take(c + 1) =~= chars@.take(c as int).push(chars@[c as int]));
                    c += 1;
                }
                assert(chars@.take(chars.len() as int) == chars@);
                if pieces < usize::MAX {
                    pieces += 1;
                }
            },
            None => {},
        }
        m += 1;
    }
    string_of(&trim(&buffer))
}

/// The value of the property that node `k` states.
fn value_of(rows: &Vec<DomNode>, k: usize) -> (out: String)
    requires
        k < rows.len(),
    ensures
        out@ == value_at(views(rows@), k as int),
{
    assert(views(rows@)[k as int] == rows@[k as int]@);
    match attr(&rows[k], CONTENT) {
        Some(v) => v.clone(),
        None => match attr(&rows[k], HREF) {
            Some(v) => v.clone(),
            None => text_below(rows, k),
        },
    }
}

/// Reads the item that node `i` of an outline opens.
pub fn extract_microdata_items(rows: &Vec<DomNode>, i: usize) -> (item: MicrodataItem)
    requires
        i < rows.len(),
    ensures
        item@ == item_at(views(rows@), i as int),
        well_formed(item),
    decreases rows.len() - i,
{
    let ghost all = views(rows@);
    assert(all[i as int] == rows@[i as int]@);
    let itemtype: Option<String> = match attr(&rows[i], ITEMTYPE) {
        Some(t) => Some(t.clone()),
        None => None,
    };
    let end = end_of_subtree(rows, i);
    let mut properties: Vec<(String, String)> = Vec::new();
    let mut children: Vec<(String, MicrodataItem)> = Vec::new();
    let mut k: usize = i + 1;
    let ghost empty = Found { properties: Map::empty(), children: Map::empty() };
    proof {
        assert(map_of(pair_views(properties@)) =~= Map::<Seq<char>, Seq<char>>::empty());
        assert(map_of(child_views(children@)) =~= Map::<Seq<char>, MicrodataItemView>::empty());
    }
    while k < end
        invariant
            i < k <= rows.len(),
            end <= rows.len(),
            all == views(rows@),
            distinct(keys(properties@)),
            distinct(keys(children@)),
            children_well_formed(children@),
            walk(all, i + 1, end as int, empty) == walk(
                all,
                k as int,
                end as int,
                Found {
                    properties: map_of(pair_views(properties@)),
                    children: map_of(child_views(children@)),
                },
            ),
        decreases rows.len() - k,
    {
        assert(all[k as int] == rows@[k as int]@);
        let scope: bool = attr(&rows[k], ITEMSCOPE).is_some();
        let name: Option<String> = match attr(&rows[k], ITEMPROP) {
            Some(n) => Some(n.clone()),
            None => None,
        };
        match name {
            Some(name) => {
                if scope {
                    let child = extract_microdata_items(rows, k);
                    let ghost before = children@;
                    put(&mut children, name, child);
                    proof {
                        crate::dict::lemma_slot(keys(before), name@);
                        let at = slot(keys(before), name@);
                        assert forall|x: int| 0 <= x < children@.len() implies #[trigger] child_views(
                            children@,
                        )[x] == (if x == at {
                            (name@, child@)
                        } else {
                            child_views(before)[x]
                        }) by {
                            if x != at {
                                assert(children@[x] == before[x]);
                            }
                        }
                        lemma_written(
                            before,
                            name,
                            child,
                            child_views(before),
                            child_views(children@),
                            child@,
                        );
                        assert forall|x: int| 0 <= x < children@.len() implies well_formed(
                            #[trigger] children@[x].1,
                        ) by {
                            if x != at {
                                assert(children@[x] == before[x]);
                            }
                        }
                    }
                    k = end_of_subtree(rows, k);
                } else {
                    let value = value_of(rows, k);
                    let ghost before = properties@;
                    put(&mut properties, name, value);
                    proof {
                        crate::dict::lemma_slot(keys(before), name@);
                        let at = slot(keys(before), name@);
                        assert forall|x: int| 0 <= x < properties@.len() implies #[trigger] pair_views(
                            properties@,
                        )[x] == (if x == at {
                            (name@, value@)
                        } else {
                            pair_views(before)[x]
                        }) by {
                            if x != at {
                                assert(properties@[x] == before[x]);
                            }
                        }
                        lemma_written(
                            before,
                            name,
                            value,
                            pair_views(before),
                            pair_views(properties@),
                            value@,
                        );
                    }
                    k += 1;
                }
            },
            None => {
                if scope {
                    k = end_of_subtree(rows, k);
                } else {
                    k += 1;
                }
            },
        }
    }
    MicrodataItem { itemtype, properties, children }
}

/// The items of the top level of an outline, in document order.
pub fn top_level_items(rows: &Vec<DomNode>) -> (items: Vec<MicrodataItem>)
    ensures
        views(items@) == microdata_items(views(rows@)),
        forall|i: int| 0 <= i < items@.len() ==> well_formed(#[trigger] items@[i]),
{
    let ghost all = views(rows@);
    let mut items: Vec<MicrodataItem> = Vec::new();
    let mut k: usize = 0;
    assert(views(items@) =~= top_level_upto(all, 0).map_values(|i: int| item_at(all, i)));
    while k < rows.len()
        invariant
            k <= rows.len(),
            all == views(rows@),
            views(items@) == top_level_upto(all, k as int).map_values(|i: int| item_at(all, i)),
            forall|j: int|
                0 <= j < k && is_scope(#[trigger] all[j]) ==> subtree_end(all, j) <= k,
            forall|i: int| 0 <= i < items@.len() ==> well_formed(#[trigger] items@[i]),
        decreases rows.len() - k,
    {
        assert(all[k as int] == rows@[k as int]@);
        let ghost found = top_level_upto(all, k as int);
        if attr(&rows[k], ITEMSCOPE).is_some() {
            let item = extract_microdata_items(rows, k);
            let end = end_of_subtree(rows, k);
            proof {
                assert(is_top_level(all, k as int));
                assert(top_level_upto(all, k + 1) == found.push(k as int));
                lemma_below_a_scope(all, k as int, end as int);
                crate::model::lemma_views_push(items@, item);
                assert(found.push(k as int).map_values(|i: int| item_at(all, i)) =~= found.map_values(
                    |i: int| item_at(all, i),
                ).push(item_at(all, k as int)));
                assert forall|j: int| 0 <= j < end && is_scope(#[trigger] all[j]) implies subtree_end(
                    all,
                    j,
                ) <= end by {
                    if j > k {
                        lemma_subtrees_nest(all, k as int, j);
                    }
                }
            }
            items.push(item);
            k = end;
        } else {
            assert(!is_top_level(all, k as int));
            assert(top_level_upto(all, k + 1) == found);
            k += 1;
        }
    }
    items
}

/// No node below a scope opens an item of the top level.
proof fn lemma_below_a_scope(rows: Seq<DomNodeView>, i: int, n: int)
    requires
        0 <= i < rows.len(),
        is_scope(rows[i]),
        i < n <= subtree_end(rows, i),
    ensures
        top_level_upto(rows, n) == top_level_upto(rows, i + 1),
    decreases n - i,
{
    if n > i + 1 {
        lemma_below_a_scope(rows, i, n - 1);
        assert(has_scope_above(rows, n - 1));
    }
}

/// The names of the attributes that are asked for.
fn names() -> (out: Vec<String>)
    ensures
        views(out@) == attribute_names(),
{
    let mut out: Vec<String> = Vec::new();
    out.push("itemscope".to_owned());
    out.push("itemtype".to_owned());
    out.push("itemprop".to_owned());
    out.push("content".to_owned());
    out.push("href".to_owned());
    assert(views(out@) =~= attribute_names());
    out
}

/// Reads the items of the top level of an HTML body.
pub fn extract_microdata(html: &str) -> (items: Vec<MicrodataItem>)
    ensures
        views(items@) == microdata_of(html@),
        forall|i: int| 0 <= i < items@.len() ==> well_formed(#[trigger] items@[i]),
{
    let rows = outline(html, &names());
    top_level_items(&rows)
}

/// Every item of the top level is opened by a scope with no scope above
/// it, and every such scope opens one: nothing nested is handed out by
/// itself.
pub proof fn lemma_top_level_only(rows: Seq<DomNodeView>, n: int, i: int)
    requires
        0 <= n <= rows.len(),
    ensures
        top_level_upto(rows, n).contains(i) <==> (i < n && is_top_level(rows, i)),
    decreases n,
{
    if n > 0 {
        lemma_top_level_only(rows, n - 1, i);
        let before = top_level_upto(rows, n - 1);
        if is_top_level(rows, n - 1) {
            let now = before.push(n - 1);
            assert(now[before.len() as int] == n - 1);
            if before.contains(i) {
                let at = choose|at: int| 0 <= at < before.len() && before[at] == i;
                assert(now[at] == i);
            }
            if now.contains(i) {
                let at = choose|at: int| 0 <= at < now.len() && now[at] == i;
                if at < before.len() {
                    assert(before[at] == i);
                }
            }
        }
    }
}

/// Each item that is handed out is the item of a scope with no scope above
/// it.
pub proof fn lemma_items_are_top_level(rows: Seq<DomNodeView>, k: int)
    requires
        0 <= k < microdata_items(rows).len(),
    ensures
        ({
            let i = top_level_upto(rows, rows.len() as int)[k];
            &&& microdata_items(rows)[k] == item_at(rows, i)
            &&& is_scope(rows[i])
            &&& forall|j: int| is_scope(#[trigger] rows[j]) ==> !stands_below(rows, i, j)
        }),
{
    let top = top_level_upto(rows, rows.len() as int);
    let i = top[k];
    assert(top.contains(i));
    lemma_top_level_only(rows, rows.len() as int, i);
}

} // verus!

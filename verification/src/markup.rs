//! The markup of a page, and the references it holds.

use vstd::prelude::*;
use crate::text::{same_text, texts};
use crate::target::text_of;

verus! {

/// One attribute of an element; `value` is `None` where the markup gives the
/// attribute's name alone.
#[derive(Debug)]
pub struct Attribute {
    pub name: String,
    pub value: Option<String>,
}

/// An element: its tag name and its attributes. The attributes stand in no
/// particular order; look one up with `attribute`.
#[derive(Debug)]
pub struct Element {
    pub name: String,
    pub attributes: Vec<Attribute>,
}

/// One node of a document.
#[derive(Debug)]
pub enum Node {
    Text(String),
    Element(Element),
    Comment(String),
}

/// A parsed page: every node of its tree, in document order.
#[derive(Debug)]
pub struct Document {
    pub nodes: Vec<Node>,
}

/// One root node of a parsed page with every node that stands below it, in
/// document order.
#[derive(Debug)]
pub struct Subtree {
    pub root: Node,
    pub below: Vec<Node>,
}

/// An element as a plain value. Its attributes are a map: the order in which
/// an element lists them carries no meaning.
pub struct ElementView {
    pub name: Seq<char>,
    pub attributes: Map<Seq<char>, Option<Seq<char>>>,
}

/// A node as a plain value.
pub enum NodeView {
    Text(Seq<char>),
    Element(ElementView),
    Comment(Seq<char>),
}

/// The value that a list of attributes gives to `key`; where the list names
/// `key` twice the later entry counts. `None` where the list does not name it.
pub open spec fn lookup(attributes: Seq<Attribute>, key: Seq<char>) -> Option<Option<Seq<char>>>
    decreases attributes.len(),
{
    if attributes.len() == 0 {
        None
    } else if attributes.last().name@ == key {
        Some(text_of(attributes.last().value))
    } else {
        lookup(attributes.drop_last(), key)
    }
}

impl View for Element {
    type V = ElementView;

    open spec fn view(&self) -> ElementView {
        ElementView {
            name: self.name@,
            attributes: Map::new(
                |key: Seq<char>| lookup(self.attributes@, key).is_some(),
                |key: Seq<char>| lookup(self.attributes@, key).unwrap(),
            ),
        }
    }
}

impl View for Node {
    type V = NodeView;

    open spec fn view(&self) -> NodeView {
        match *self {
            Node::Text(content) => NodeView::Text(content@),
            Node::Element(element) => NodeView::Element(element@),
            Node::Comment(content) => NodeView::Comment(content@),
        }
    }
}

/// The nodes of a list as plain values, in order.
pub open spec fn node_views(nodes: Seq<Node>) -> Seq<NodeView> {
    Seq::new(nodes.len(), |i: int| nodes[i]@)
}

impl View for Document {
    type V = Seq<NodeView>;

    open spec fn view(&self) -> Seq<NodeView> {
        node_views(self.nodes@)
    }
}

/// The nodes of a page in document order: for each root in turn the root
/// itself, then what stands below it.
pub open spec fn laid_out(roots: Seq<Subtree>) -> Seq<NodeView>
    decreases roots.len(),
{
    if roots.len() == 0 {
        Seq::empty()
    } else {
        laid_out(roots.drop_last()).push(roots.last().root@) + node_views(roots.last().below@)
    }
}

/// The nodes of an optional document.
pub open spec fn nodes_of(document: Option<Document>) -> Option<Seq<NodeView>> {
    match document {
        Some(d) => Some(d@),
        None => None,
    }
}

/// Calls `html_parser::Dom::parse` on `html` and hands out each root node of
/// the tree it returns, together with what the parser's own node iterator
/// yields below that root. Texts, comments, tag names and attribute entries
/// are copied as they are; the parser keeps `id` and `class` apart from the
/// other attributes, and they are not copied. `None` where the parser reports
/// an error. Nothing is claimed of the outcome: whether the parser accepts a
/// page depends on more than the page, such as the stack that is left to it.
#[verifier::external_body]
fn parse_html(html: &str) -> (parsed: Option<Vec<Subtree>>) {
    let copy = |node: &html_parser::Node| match node {
        html_parser::Node::Text(content) => Node::Text(content.clone()),
        html_parser::Node::Comment(content) => Node::Comment(content.clone()),
        html_parser::Node::Element(e) => Node::Element(Element {
            name: e.name.clone(),
            attributes: e.attributes.iter().map(|(k, v)| Attribute { name: k.clone(), value: v.clone() }).collect(),
        }),
    };
    let dom = html_parser::Dom::parse(html).ok()?;
    let roots = dom.children.iter();
    Some(roots.map(|root| Subtree { root: copy(root), below: root.into_iter().map(copy).collect() }).collect())
}

/// Lays the roots of a page and what stands below them out as one document,
/// in document order.
pub fn lay_out(roots: Vec<Subtree>) -> (document: Document)
    ensures
        document@ == laid_out(roots@),
{
    let ghost all = roots@;
    let mut nodes: Vec<Node> = Vec::new();
    assert(node_views(nodes@) =~= laid_out(all.take(0)));
    for subtree in it: roots
        invariant
            it.seq() == all,
            node_views(nodes@) == laid_out(all.take(it.index() as int)),
    {
        let ghost before = nodes@;
        assert(all.take(it.index() + 1).drop_last() =~= all.take(it.index() as int));
        assert(all.take(it.index() + 1).last() == subtree);
        let Subtree { root, below } = subtree;
        let mut below = below;
        nodes.push(root);
        nodes.append(&mut below);
        assert(node_views(nodes@) =~= node_views(before).push(root@) + node_views(subtree.below@));
    }
    assert(all.take(all.len() as int) =~= all);
    Document { nodes }
}

/// The tag name of an anchor.
pub open spec fn anchor_tag() -> Seq<char> {
    seq!['a']
}

/// The tag name of an image.
pub open spec fn image_tag() -> Seq<char> {
    seq!['i', 'm', 'g']
}

/// The attribute that holds an anchor's target.
pub open spec fn href_key() -> Seq<char> {
    seq!['h', 'r', 'e', 'f']
}

/// The attribute that holds an image's source.
pub open spec fn src_key() -> Seq<char> {
    seq!['s', 'r', 'c']
}

/// The link that a node contributes: the value of `href` where the node is an
/// anchor that has one.
pub open spec fn link_of(node: NodeView) -> Option<Seq<char>> {
    match node {
        NodeView::Element(element) => if element.name == anchor_tag() {
            match element.attributes.get(href_key()) {
                Some(Some(value)) => Some(value),
                _ => None,
            }
        } else {
            None
        },
        _ => None,
    }
}

/// The image source that a node contributes: for an image element the value
/// of `src`, empty where it has none.
pub open spec fn image_of(node: NodeView) -> Option<Seq<char>> {
    match node {
        NodeView::Element(element) => if element.name == image_tag() {
            match element.attributes.get(src_key()) {
                Some(Some(value)) => Some(value),
                _ => Some(Seq::empty()),
            }
        } else {
            None
        },
        _ => None,
    }
}

/// What the nodes contribute under `pick`, in the nodes' order.
pub open spec fn gathered(
    nodes: Seq<NodeView>,
    pick: spec_fn(NodeView) -> Option<Seq<char>>,
) -> Seq<Seq<char>>
    decreases nodes.len(),
{
    if nodes.len() == 0 {
        Seq::empty()
    } else {
        match pick(nodes.last()) {
            Some(value) => gathered(nodes.drop_last(), pick).push(value),
            None => gathered(nodes.drop_last(), pick),
        }
    }
}

/// The link targets of a document, in document order.
pub open spec fn links_of(nodes: Seq<NodeView>) -> Seq<Seq<char>> {
    gathered(nodes, |node: NodeView| link_of(node))
}

/// The image sources of a document, in document order.
pub open spec fn images_of(nodes: Seq<NodeView>) -> Seq<Seq<char>> {
    gathered(nodes, |node: NodeView| image_of(node))
}

impl Element {
    /// The value of the attribute `key`: `None` where the element does not
    /// have it, `Some(None)` where it has the name without a value.
    pub fn attribute(&self, key: &str) -> (value: Option<Option<String>>)
        ensures
            match value {
                Some(v) => self@.attributes.get(key@) == Some(text_of(v)),
                None => self@.attributes.get(key@).is_none(),
            },
    {
        let mut found: Option<Option<String>> = None;
        let mut i: usize = 0;
        while i < self.attributes.len()
            invariant
                i <= self.attributes.len(),
                match found {
                    Some(v) => lookup(self.attributes@.take(i as int), key@) == Some(text_of(v)),
                    None => lookup(self.attributes@.take(i as int), key@).is_none(),
                },
            decreases self.attributes.len() - i,
        {
            let entry = &self.attributes[i];
            assert(self.attributes@.take(i + 1).drop_last() =~= self.attributes@.take(i as int));
            if same_text(entry.name.as_str(), key) {
                found = Some(entry.value.clone());
            }
            i += 1;
        }
        assert(self.attributes@.take(i as int) =~= self.attributes@);
        found
    }
}

impl Document {
    /// A document without nodes.
    pub fn empty() -> (document: Document)
        ensures
            document@ == Seq::<NodeView>::empty(),
    {
        let document = Document { nodes: Vec::new() };
        assert(document@ =~= Seq::<NodeView>::empty());
        document
    }

    /// Parses a page's markup into its nodes in document order. `None` where
    /// the parser does not accept the markup.
    pub fn parse(html: &str) -> (parsed: Option<Document>) {
        match parse_html(html) {
            Some(roots) => Some(lay_out(roots)),
            None => None,
        }
    }
}

/// The nodes of a parse result, none where parsing failed.
pub open spec fn document_or_empty(parsed: Option<Seq<NodeView>>) -> Seq<NodeView> {
    match parsed {
        Some(nodes) => nodes,
        None => Seq::empty(),
    }
}

/// The parsed document, or an empty one where parsing failed.
pub fn or_empty(parsed: Option<Document>) -> (document: Document)
    ensures
        document@ == document_or_empty(nodes_of(parsed)),
{
    match parsed {
        Some(document) => document,
        None => Document::empty(),
    }
}

/// The `href` of every anchor that has one, in document order. Nothing is
/// left out as a duplicate.
pub fn extract_links(document: &Document) -> (links: Vec<String>)
    ensures
        texts(links@) == links_of(document@),
{
    let mut links: Vec<String> = Vec::new();
    let mut i: usize = 0;
    assert(texts(links@) =~= links_of(document@.take(0)));
    while i < document.nodes.len()
        invariant
            i <= document.nodes.len(),
            texts(links@) == links_of(document@.take(i as int)),
        decreases document.nodes.len() - i,
    {
        let ghost before = texts(links@);
        assert(document@.take(i + 1).drop_last() =~= document@.take(i as int));
        assert(document@.take(i + 1).last() == document.nodes@[i as int]@);
        match &document.nodes[i] {
            Node::Element(element) => {
                proof {
                    reveal_strlit("a");
                    reveal_strlit("href");
                    assert("a"@ =~= anchor_tag());
                    assert("href"@ =~= href_key());
                }
                if same_text(element.name.as_str(), "a") {
                    match element.attribute("href") {
                        Some(Some(value)) => {
                            links.push(value);
                            assert(texts(links@) =~= before.push(value@));
                        },
                        _ => {},
                    }
                }
            },
            _ => {},
        }
        i += 1;
    }
    assert(document@.take(i as int) =~= document@);
    links
}

/// The `src` of every image element, in document order, empty for an image
/// without one: the list has one entry for each image element. Nothing is
/// left out as a duplicate.
pub fn extract_images(document: &Document) -> (sources: Vec<String>)
    ensures
        texts(sources@) == images_of(document@),
{
    let mut sources: Vec<String> = Vec::new();
    let mut i: usize = 0;
    assert(texts(sources@) =~= images_of(document@.take(0)));
    while i < document.nodes.len()
        invariant
            i <= document.nodes.len(),
            texts(sources@) == images_of(document@.take(i as int)),
        decreases document.nodes.len() - i,
    {
        let ghost before = texts(sources@);
        assert(document@.take(i + 1).drop_last() =~= document@.take(i as int));
        assert(document@.take(i + 1).last() == document.nodes@[i as int]@);
        match &document.nodes[i] {
            Node::Element(element) => {
                proof {
                    reveal_strlit("img");
                    reveal_strlit("src");
                    assert("img"@ =~= image_tag());
                    assert("src"@ =~= src_key());
                }
                if same_text(element.name.as_str(), "img") {
                    let source = match element.attribute("src") {
                        Some(Some(value)) => value,
                        _ => String::new(),
                    };
                    sources.push(source);
                    assert(texts(sources@) =~= before.push(source@));
                }
            },
            _ => {},
        }
        i += 1;
    }
    assert(document@.take(i as int) =~= document@);
    sources
}

} // verus!

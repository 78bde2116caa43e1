//! A parsed HTML page as a table of nodes in document order, each naming its
//! parent, and the lookups that extraction makes on it.

use vstd::prelude::*;
use select::node::Data;
use crate::text::{same_text, split_words, words_of};

verus! {

/// What a node holds: text, an element with its attributes (name, value),
/// or a comment.
#[derive(Debug, PartialEq, Eq)]
pub enum NodeData {
    Text(String),
    Element(Vec<(String, String)>),
    Comment,
}

/// One node of a page: its parent's index, if any, and its data.
#[derive(Debug, PartialEq, Eq)]
pub struct Node {
    pub parent: Option<usize>,
    pub data: NodeData,
}

/// A parsed page: its nodes in document order.
#[derive(Debug, PartialEq, Eq)]
pub struct Document {
    pub nodes: Vec<Node>,
}

/// How an element is looked for: by one of its classes, or by the value of
/// one attribute.
#[derive(Clone, Copy, Debug, PartialEq, Eq)]
pub enum Selector {
    Class(&'static str),
    Attr(&'static str, &'static str),
}

/// The node table that select's parser builds for an HTML text.
pub uninterp spec fn html_nodes(html: Seq<char>) -> Seq<Node>;

/// Relies on select's `Document::from(&str)`: html5ever's parse of the text,
/// flattened by select into nodes in document order; copied node for node.
#[verifier::external_body]
fn parse_html_nodes(html: &str) -> (r: Vec<Node>)
    ensures
        r@ == html_nodes(html@),
{
    select::document::Document::from(html).nodes.into_iter().map(|raw| Node {
        parent: raw.parent,
        data: match raw.data {
            Data::Text(t) => NodeData::Text(t.to_string()),
            Data::Element(_, a) => NodeData::Element(
                a.into_iter().map(|(k, v)| (k.local.to_string(), v.to_string())).collect(),
            ),
            Data::Comment(_) => NodeData::Comment,
        },
    }).collect()
}

/// Whether node `a` lies on the chain of parents of node `i`. A parent link
/// that does not point to an earlier node ends the chain.
pub open spec fn is_ancestor(nodes: Seq<Node>, a: int, i: int) -> bool
    decreases i,
{
    if 0 <= i < nodes.len() {
        match nodes[i].parent {
            Some(p) => (p as int) < i && (p as int == a || is_ancestor(nodes, a, p as int)),
            None => false,
        }
    } else {
        false
    }
}

/// Whether node `i` lies in the scope searched: the whole page, or the
/// strict descendants of one node.
pub open spec fn in_scope(nodes: Seq<Node>, scope: Option<usize>, i: int) -> bool {
    match scope {
        None => true,
        Some(a) => is_ancestor(nodes, a as int, i),
    }
}

/// The value of the first attribute named `name`.
pub open spec fn attr_value(attrs: Seq<(String, String)>, name: Seq<char>) -> Option<Seq<char>>
    decreases attrs.len(),
{
    if attrs.len() == 0 {
        None
    } else if attrs[0].0@ == name {
        Some(attrs[0].1@)
    } else {
        attr_value(attrs.drop_first(), name)
    }
}

/// The value of attribute `name` of a node; only elements have attributes.
pub open spec fn node_attr(node: Node, name: Seq<char>) -> Option<Seq<char>> {
    match node.data {
        NodeData::Element(attrs) => attr_value(attrs@, name),
        _ => None,
    }
}

pub open spec fn class_attr() -> Seq<char> {
    seq!['c', 'l', 'a', 's', 's']
}

/// Whether a node is picked by a selector.
pub open spec fn selects(sel: Selector, node: Node) -> bool {
    match sel {
        Selector::Class(c) => match node_attr(node, class_attr()) {
            Some(v) => words_of(v).contains(c@),
            None => false,
        },
        Selector::Attr(n, v) => node_attr(node, n@) == Some(v@),
    }
}

/// The indices below `k` of the nodes in scope that the selector picks, in
/// document order.
pub open spec fn found(nodes: Seq<Node>, scope: Option<usize>, sel: Selector, k: int) -> Seq<usize>
    decreases k,
{
    if k <= 0 {
        Seq::empty()
    } else if in_scope(nodes, scope, k - 1) && selects(sel, nodes[k - 1]) {
        found(nodes, scope, sel, k - 1).push((k - 1) as usize)
    } else {
        found(nodes, scope, sel, k - 1)
    }
}

/// All matches in the page.
pub open spec fn find_all_spec(nodes: Seq<Node>, scope: Option<usize>, sel: Selector) -> Seq<usize> {
    found(nodes, scope, sel, nodes.len() as int)
}

/// The first match in the page, if any.
pub open spec fn find_first_spec(nodes: Seq<Node>, scope: Option<usize>, sel: Selector) -> Option<usize> {
    let all = find_all_spec(nodes, scope, sel);
    if all.len() > 0 {
        Some(all[0])
    } else {
        None
    }
}

/// The texts of the nodes below `k` that are `i` itself or lie under it,
/// joined in document order.
pub open spec fn text_upto(nodes: Seq<Node>, i: int, k: int) -> Seq<char>
    decreases k,
{
    if k <= 0 || k > nodes.len() {
        Seq::empty()
    } else {
        let prev = text_upto(nodes, i, k - 1);
        match nodes[k - 1].data {
            NodeData::Text(t) => if k - 1 == i || is_ancestor(nodes, i, k - 1) {
                prev + t@
            } else {
                prev
            },
            _ => prev,
        }
    }
}

/// The whole text of node `i`: its own and that of everything under it.
pub open spec fn text_of(nodes: Seq<Node>, i: int) -> Seq<char> {
    text_upto(nodes, i, nodes.len() as int)
}

/// The texts of the text nodes below `k` whose parent is `i`, joined.
pub open spec fn own_text_upto(nodes: Seq<Node>, i: int, k: int) -> Seq<char>
    decreases k,
{
    if k <= 0 || k > nodes.len() {
        Seq::empty()
    } else {
        let prev = own_text_upto(nodes, i, k - 1);
        match nodes[k - 1].data {
            NodeData::Text(t) => if nodes[k - 1].parent == Some(i as usize) {
                prev + t@
            } else {
                prev
            },
            _ => prev,
        }
    }
}

/// The text of the direct text children of node `i`; nested markup is left out.
pub open spec fn own_text_of(nodes: Seq<Node>, i: int) -> Seq<char> {
    own_text_upto(nodes, i, nodes.len() as int)
}

impl Document {
    /// Parses an HTML text into its node table.
    pub fn parse(html: &str) -> (r: Document)
        ensures
            r.nodes@ == html_nodes(html@),
    {
        Document { nodes: parse_html_nodes(html) }
    }

    /// Whether node `a` is an ancestor of node `i`.
    pub fn is_ancestor(&self, a: usize, i: usize) -> (r: bool)
        requires
            i < self.nodes@.len(),
        ensures
            r == is_ancestor(self.nodes@, a as int, i as int),
    {
        let mut cur: usize = i;
        loop
            invariant
                cur < self.nodes@.len(),
                is_ancestor(self.nodes@, a as int, i as int) == is_ancestor(self.nodes@, a as int, cur as int),
            decreases cur,
        {
            match self.nodes[cur].parent {
                Some(p) => {
                    if p >= cur {
                        return false;
                    }
                    if p == a {
                        return true;
                    }
                    cur = p;
                },
                None => {
                    return false;
                },
            }
        }
    }

    /// The value of attribute `name` of node `i`, if it is an element that has it.
    pub fn attr(&self, i: usize, name: &str) -> (r: Option<&String>)
        requires
            i < self.nodes@.len(),
        ensures
            match r {
                Some(v) => node_attr(self.nodes@[i as int], name@) == Some(v@),
                None => node_attr(self.nodes@[i as int], name@) is None,
            },
    {
        let node = &self.nodes[i];
        assert(*node == self.nodes@[i as int]);
        match &node.data {
            NodeData::Element(attrs) => {
                let mut k: usize = 0;
                assert(attrs@.skip(0) =~= attrs@);
                while k < attrs.len()
                    invariant
                        0 <= k <= attrs@.len(),
                        i < self.nodes@.len(),
                        node_attr(self.nodes@[i as int], name@) == attr_value(attrs@, name@),
                        attr_value(attrs@, name@) == attr_value(attrs@.skip(k as int), name@),
                    decreases attrs@.len() - k,
                {
                    assert(attrs@.skip(k as int).drop_first() =~= attrs@.skip(k + 1));
                    assert(attrs@.skip(k as int)[0] == attrs@[k as int]);
                    if same_text(attrs[k].0.as_str(), name) {
                        return Some(&attrs[k].1);
                    }
                    k = k + 1;
                }
                None
            },
            _ => None,
        }
    }

    /// Whether node `i` is picked by the selector.
    pub fn selects(&self, sel: Selector, i: usize) -> (r: bool)
        requires
            i < self.nodes@.len(),
        ensures
            r == selects(sel, self.nodes@[i as int]),
    {
        match sel {
            Selector::Class(c) => {
                proof {
                    reveal_strlit("class");
                    assert("class"@ =~= class_attr());
                }
                match self.attr(i, "class") {
                    Some(v) => {
                        let words = split_words(v.as_str());
                        let ghost ws = words@.map_values(|w: String| w@);
                        let mut k: usize = 0;
                        while k < words.len()
                            invariant
                                0 <= k <= words@.len(),
                                i < self.nodes@.len(),
                                sel == Selector::Class(c),
                                node_attr(self.nodes@[i as int], class_attr()) == Some(v@),
                                ws == words_of(v@),
                                ws.len() == words@.len(),
                                forall|j: int| 0 <= j < words@.len() ==> #[trigger] ws[j] == words@[j]@,
                                forall|j: int| 0 <= j < k ==> ws[j] != c@,
                            decreases words@.len() - k,
                        {
                            if same_text(words[k].as_str(), c) {
                                assert(ws[k as int] == c@);
                                assert(ws.contains(c@));
                                return true;
                            }
                            k = k + 1;
                        }
                        false
                    },
                    None => false,
                }
            },
            Selector::Attr(n, v) => match self.attr(i, n) {
                Some(x) => same_text(x.as_str(), v),
                None => false,
            },
        }
    }

    /// The nodes in scope that the selector picks, in document order.
    pub fn find_all(&self, scope: Option<usize>, sel: Selector) -> (r: Vec<usize>)
        ensures
            r@ == find_all_spec(self.nodes@, scope, sel),
            forall|j: int| 0 <= j < r@.len() ==> r@[j] < self.nodes@.len(),
    {
        let mut r: Vec<usize> = Vec::new();
        let mut k: usize = 0;
        while k < self.nodes.len()
            invariant
                0 <= k <= self.nodes@.len(),
                r@ == found(self.nodes@, scope, sel, k as int),
                forall|j: int| 0 <= j < r@.len() ==> r@[j] < k,
            decreases self.nodes@.len() - k,
        {
            let inside = match scope {
                None => true,
                Some(a) => self.is_ancestor(a, k),
            };
            if inside && self.selects(sel, k) {
                r.push(k);
            }
            k = k + 1;
        }
        r
    }

    /// The first node in scope that the selector picks.
    pub fn find_first(&self, scope: Option<usize>, sel: Selector) -> (r: Option<usize>)
        ensures
            r == find_first_spec(self.nodes@, scope, sel),
            r is Some ==> r->0 < self.nodes@.len(),
    {
        let all = self.find_all(scope, sel);
        if all.len() > 0 {
            Some(all[0])
        } else {
            None
        }
    }

    /// The whole text of node `i`.
    pub fn text(&self, i: usize) -> (r: String)
        requires
            i < self.nodes@.len(),
        ensures
            r@ == text_of(self.nodes@, i as int),
    {
        let mut r = String::new();
        let mut k: usize = 0;
        while k < self.nodes.len()
            invariant
                0 <= k <= self.nodes@.len(),
                i < self.nodes@.len(),
                r@ == text_upto(self.nodes@, i as int, k as int),
            decreases self.nodes@.len() - k,
        {
            match &self.nodes[k].data {
                NodeData::Text(t) => {
                    if k == i || self.is_ancestor(i, k) {
                        r.append(t.as_str());
                    }
                },
                _ => {},
            }
            k = k + 1;
        }
        r
    }

    /// The text of the direct text children of node `i`.
    pub fn own_text(&self, i: usize) -> (r: String)
        ensures
            r@ == own_text_of(self.nodes@, i as int),
    {
        let mut r = String::new();
        let mut k: usize = 0;
        while k < self.nodes.len()
            invariant
                0 <= k <= self.nodes@.len(),
                r@ == own_text_upto(self.nodes@, i as int, k as int),
            decreases self.nodes@.len() - k,
        {
            match &self.nodes[k].data {
                NodeData::Text(t) => {
                    if self.nodes[k].parent == Some(i) {
                        r.append(t.as_str());
                    }
                },
                _ => {},
            }
            k = k + 1;
        }
        r
    }
}

} // verus!

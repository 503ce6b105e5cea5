//! A parsed HTML document held as plain values: an arena of nodes in document
//! order, linked to their first child and their next sibling.
use vstd::prelude::*;
use select::node::Data;

use crate::text::{is_ws, is_ws_char, push_chars};

verus! {

/// What a node of the document is.
pub enum NodeData {
    /// A run of character data.
    Text(String),
    /// An element: its local name and its attributes, as (local name, value) pairs.
    Element(String, Vec<(String, String)>),
    /// A comment, whose content the extraction never reads.
    Comment,
}

/// One node of the arena. Links are indices into `Markup::nodes`.
pub struct MarkupNode {
    pub first_child: Option<usize>,
    pub next: Option<usize>,
    pub data: NodeData,
}

/// A whole document: its nodes in document order.
pub struct Markup {
    pub nodes: Vec<MarkupNode>,
}

/// The mathematical model of a node's payload.
pub enum NodeKind {
    Text(Seq<char>),
    Element(Seq<char>, Seq<(Seq<char>, Seq<char>)>),
    Comment,
}

/// The mathematical model of a node.
pub struct NodeModel {
    pub first_child: Option<usize>,
    pub next: Option<usize>,
    pub kind: NodeKind,
}

pub open spec fn attr_view(a: (String, String)) -> (Seq<char>, Seq<char>) {
    (a.0@, a.1@)
}

impl View for MarkupNode {
    type V = NodeModel;

    open spec fn view(&self) -> NodeModel {
        NodeModel {
            first_child: self.first_child,
            next: self.next,
            kind: match self.data {
                NodeData::Text(t) => NodeKind::Text(t@),
                NodeData::Element(n, a) => NodeKind::Element(n@, a@.map_values(|p| attr_view(p))),
                NodeData::Comment => NodeKind::Comment,
            },
        }
    }
}

impl View for Markup {
    type V = Seq<NodeModel>;

    open spec fn view(&self) -> Seq<NodeModel> {
        self.nodes@.map_values(|n: MarkupNode| n@)
    }
}

/// The node arena that the HTML parser builds from a text.
pub uninterp spec fn html_tree(s: Seq<char>) -> Seq<NodeModel>;

/// Relies on `select::document::Document::from(&str)`: html5ever parses the text and
/// select stores the nodes in document order; each stored node is copied here with its
/// first-child and next-sibling links and its text, or its element name and attributes.
#[verifier::external_body]
pub(crate) fn parse_html(s: &str) -> (r: Markup)
    ensures
        r@ == html_tree(s@),
{
    let document = select::document::Document::from(s);
    let nodes = document.nodes.into_iter().map(|raw| MarkupNode {
        first_child: raw.first_child,
        next: raw.next,
        data: match raw.data {
            Data::Text(t) => NodeData::Text(t.to_string()),
            Data::Element(n, a) => NodeData::Element(n.local.to_string(), a.into_iter().map(|(k, v)| (k.local.to_string(), v.to_string())).collect()),
            Data::Comment(_) => NodeData::Comment,
        },
    }).collect();
    Markup { nodes }
}

/// The first child of node `j`, or `nodes.len()` for none. A link that does not
/// point forward counts as absent: in a document-order arena every link does.
pub open spec fn child_of(nodes: Seq<NodeModel>, j: int) -> int {
    match nodes[j].first_child {
        Some(k) => if j < k < nodes.len() { k as int } else { nodes.len() as int },
        None => nodes.len() as int,
    }
}

/// The next sibling of node `j`, or `nodes.len()` for none (see `child_of`).
pub open spec fn sibling_of(nodes: Seq<NodeModel>, j: int) -> int {
    match nodes[j].next {
        Some(k) => if j < k < nodes.len() { k as int } else { nodes.len() as int },
        None => nodes.len() as int,
    }
}

/// A test on a single node.
pub enum Pattern {
    /// An element with this local name.
    Name(Seq<char>),
    /// An element whose `class` attribute lists this class.
    Class(Seq<char>),
}

/// The value of the first attribute named `name`, searching from position `i`.
pub open spec fn attr_from(attrs: Seq<(Seq<char>, Seq<char>)>, name: Seq<char>, i: int) -> Option<Seq<char>>
    decreases attrs.len() - i,
{
    if 0 <= i < attrs.len() {
        if attrs[i].0 == name { Some(attrs[i].1) } else { attr_from(attrs, name, i + 1) }
    } else {
        None
    }
}

/// `c` stands in `v` at position `i` as a whole whitespace-separated token.
pub open spec fn token_at(v: Seq<char>, c: Seq<char>, i: int) -> bool {
    &&& 0 <= i
    &&& i + c.len() <= v.len()
    &&& v.subrange(i, i + c.len()) == c
    &&& (i == 0 || is_ws(v[i - 1]))
    &&& (i + c.len() == v.len() || is_ws(v[i + c.len()]))
}

pub open spec fn has_token(v: Seq<char>, c: Seq<char>) -> bool {
    exists|i: int| token_at(v, c, i)
}

pub open spec fn node_matches(nodes: Seq<NodeModel>, j: int, p: Pattern) -> bool {
    match nodes[j].kind {
        NodeKind::Element(n, attrs) => match p {
            Pattern::Name(name) => n == name,
            Pattern::Class(c) => match attr_from(attrs, "class"@, 0) {
                Some(v) => has_token(v, c),
                None => false,
            },
        },
        _ => false,
    }
}

/// A test on a node, in executable form.
pub enum Matcher {
    Name(&'static str),
    Class(&'static str),
}

impl View for Matcher {
    type V = Pattern;

    open spec fn view(&self) -> Pattern {
        match *self {
            Matcher::Name(n) => Pattern::Name(n@),
            Matcher::Class(c) => Pattern::Class(c@),
        }
    }
}

/// Whether `c` stands in `v` as a whole token.
pub fn contains_token(v: &Vec<char>, c: &Vec<char>) -> (r: bool)
    ensures
        r == has_token(v@, c@),
{
    if c.len() > v.len() {
        assert forall|i: int| !token_at(v@, c@, i) by {}
        return false;
    }
    let last = v.len() - c.len();
    let mut i: usize = 0;
    loop
        invariant
            last == v.len() - c.len(),
            c.len() <= v.len(),
            i <= last,
            forall|k: int| 0 <= k < i ==> !token_at(v@, c@, k),
        decreases last - i,
    {
        let before = i == 0 || is_ws_char(v[i - 1]);
        let after = i == last || is_ws_char(v[i + c.len()]);
        if before && after {
            let mut same = true;
            let mut j: usize = 0;
            while j < c.len()
                invariant
                    i <= last,
                    last == v.len() - c.len(),
                    j <= c.len(),
                    same ==> forall|t: int| 0 <= t < j ==> v@[i + t] == c@[t],
                    !same ==> v@.subrange(i as int, i + c.len()) != c@,
                decreases c.len() - j,
            {
                if v[i + j] != c[j] {
                    assert(v@.subrange(i as int, i + c.len())[j as int] != c@[j as int]);
                    same = false;
                }
                j += 1;
            }
            if same {
                assert(v@.subrange(i as int, i + c.len()) =~= c@);
                assert(token_at(v@, c@, i as int));
                return true;
            }
        }
        assert(!token_at(v@, c@, i as int));
        if i == last {
            assert forall|k: int| !token_at(v@, c@, k) by {
                if 0 <= k < i {
                } else if k == i {
                } else {
                }
            }
            return false;
        }
        i += 1;
    }
}


/// The first child of node `j` in executable form (see `child_of`).
pub fn child_index(doc: &Markup, j: usize) -> (r: usize)
    requires
        j < doc@.len(),
    ensures
        r == child_of(doc@, j as int),
{
    match doc.nodes[j].first_child {
        Some(k) => if j < k && k < doc.nodes.len() { k } else { doc.nodes.len() },
        None => doc.nodes.len(),
    }
}

/// The next sibling of node `j` in executable form (see `sibling_of`).
pub fn sibling_index(doc: &Markup, j: usize) -> (r: usize)
    requires
        j < doc@.len(),
    ensures
        r == sibling_of(doc@, j as int),
{
    match doc.nodes[j].next {
        Some(k) => if j < k && k < doc.nodes.len() { k } else { doc.nodes.len() },
        None => doc.nodes.len(),
    }
}

/// The value of the first attribute of `attrs` named `class`.
pub fn class_attr(attrs: &Vec<(String, String)>) -> (r: Option<&String>)
    ensures
        match r {
            Some(v) => attr_from(attrs@.map_values(|p| attr_view(p)), "class"@, 0) == Some(v@),
            None => attr_from(attrs@.map_values(|p| attr_view(p)), "class"@, 0) is None,
        },
{
    let ghost view = attrs@.map_values(|p| attr_view(p));
    let class_name = String::from_str("class");
    let mut i: usize = 0;
    while i < attrs.len()
        invariant
            view == attrs@.map_values(|p| attr_view(p)),
            class_name@ == "class"@,
            i <= attrs.len(),
            attr_from(view, "class"@, 0) == attr_from(view, "class"@, i as int),
        decreases attrs.len() - i,
    {
        if attrs[i].0 == class_name {
            return Some(&attrs[i].1);
        }
        i += 1;
    }
    None
}

/// Whether node `j` passes the test `m`.
pub fn matches_at(doc: &Markup, j: usize, m: &Matcher) -> (r: bool)
    requires
        j < doc@.len(),
    ensures
        r == node_matches(doc@, j as int, m@),
{
    match &doc.nodes[j].data {
        NodeData::Element(n, attrs) => match m {
            Matcher::Name(name) => {
                let wanted = String::from_str(name);
                *n == wanted
            },
            Matcher::Class(c) => match class_attr(attrs) {
                Some(v) => {
                    let mut value: Vec<char> = Vec::new();
                    push_chars(&mut value, v.as_str());
                    let mut wanted: Vec<char> = Vec::new();
                    push_chars(&mut wanted, c);
                    contains_token(&value, &wanted)
                },
                None => false,
            },
        },
        _ => false,
    }
}


/// The first node passing `p` along the sibling chain that starts at `k`.
pub open spec fn first_sibling_matching(nodes: Seq<NodeModel>, k: int, p: Pattern) -> Option<int>
    decreases nodes.len() - k,
{
    if 0 <= k < nodes.len() {
        if node_matches(nodes, k, p) {
            Some(k)
        } else {
            first_sibling_matching(nodes, sibling_of(nodes, k), p)
        }
    } else {
        None
    }
}

/// The first child of node `i` that passes `p`.
pub open spec fn child_matching(nodes: Seq<NodeModel>, i: int, p: Pattern) -> Option<int> {
    first_sibling_matching(nodes, child_of(nodes, i), p)
}

/// The first node passing `p`, in document order, in the forest of subtrees rooted at
/// `k` and at its following siblings.
pub open spec fn first_in_forest(nodes: Seq<NodeModel>, k: int, p: Pattern) -> Option<int>
    decreases nodes.len() - k,
{
    if 0 <= k < nodes.len() {
        if node_matches(nodes, k, p) {
            Some(k)
        } else {
            match first_in_forest(nodes, child_of(nodes, k), p) {
                Some(d) => Some(d),
                None => first_in_forest(nodes, sibling_of(nodes, k), p),
            }
        }
    } else {
        None
    }
}

/// The first proper descendant of node `i`, in document order, that passes `p`.
pub open spec fn descendant_matching(nodes: Seq<NodeModel>, i: int, p: Pattern) -> Option<int> {
    first_in_forest(nodes, child_of(nodes, i), p)
}

/// The indices, from `k` on and in increasing order, of the nodes that pass `p`.
pub open spec fn all_matching_from(nodes: Seq<NodeModel>, k: int, p: Pattern) -> Seq<int>
    decreases nodes.len() - k,
{
    if 0 <= k < nodes.len() {
        if node_matches(nodes, k, p) {
            seq![k].add(all_matching_from(nodes, k + 1, p))
        } else {
            all_matching_from(nodes, k + 1, p)
        }
    } else {
        Seq::empty()
    }
}

/// Every node of the document that passes `p`, in document order.
pub open spec fn all_matching(nodes: Seq<NodeModel>, p: Pattern) -> Seq<int> {
    all_matching_from(nodes, 0, p)
}

/// The text that node `k` itself holds.
pub open spec fn own_text(nodes: Seq<NodeModel>, k: int) -> Seq<char> {
    match nodes[k].kind {
        NodeKind::Text(t) => t,
        _ => Seq::empty(),
    }
}

/// The text of the subtrees rooted at `k` and at its following siblings, in document
/// order; with `breaks`, each `br` element adds a line feed where it stands.
pub open spec fn forest_text(nodes: Seq<NodeModel>, k: int, breaks: bool) -> Seq<char>
    decreases nodes.len() - k,
{
    if 0 <= k < nodes.len() {
        let mark = if breaks && node_matches(nodes, k, Pattern::Name("br"@)) {
            seq!['\n']
        } else {
            Seq::empty()
        };
        mark + own_text(nodes, k) + forest_text(nodes, child_of(nodes, k), breaks)
            + forest_text(nodes, sibling_of(nodes, k), breaks)
    } else {
        Seq::empty()
    }
}

/// All the text of node `i` and of its descendants, in document order.
pub open spec fn subtree_text(nodes: Seq<NodeModel>, i: int, breaks: bool) -> Seq<char> {
    own_text(nodes, i) + forest_text(nodes, child_of(nodes, i), breaks)
}

/// The first child of node `i` that passes `m`.
pub fn find_child(doc: &Markup, i: usize, m: &Matcher) -> (r: Option<usize>)
    requires
        i < doc@.len(),
    ensures
        match r {
            Some(d) => child_matching(doc@, i as int, m@) == Some(d as int) && d < doc@.len(),
            None => child_matching(doc@, i as int, m@) is None,
        },
{
    let mut k = child_index(doc, i);
    while k < doc.nodes.len()
        invariant
            i < doc@.len(),
            k <= doc@.len(),
            child_matching(doc@, i as int, m@) == first_sibling_matching(doc@, k as int, m@),
        decreases doc@.len() - k,
    {
        if matches_at(doc, k, m) {
            return Some(k);
        }
        k = sibling_index(doc, k);
    }
    None
}

/// The first node passing `m` in the forest at `k` (see `first_in_forest`).
pub fn find_in_forest(doc: &Markup, k: usize, m: &Matcher) -> (r: Option<usize>)
    requires
        k <= doc@.len(),
    ensures
        match r {
            Some(d) => first_in_forest(doc@, k as int, m@) == Some(d as int) && d < doc@.len(),
            None => first_in_forest(doc@, k as int, m@) is None,
        },
    decreases doc@.len() - k,
{
    if k >= doc.nodes.len() {
        return None;
    }
    if matches_at(doc, k, m) {
        return Some(k);
    }
    match find_in_forest(doc, child_index(doc, k), m) {
        Some(d) => Some(d),
        None => find_in_forest(doc, sibling_index(doc, k), m),
    }
}

/// The first proper descendant of node `i` that passes `m`, in document order.
pub fn find_descendant(doc: &Markup, i: usize, m: &Matcher) -> (r: Option<usize>)
    requires
        i < doc@.len(),
    ensures
        match r {
            Some(d) => descendant_matching(doc@, i as int, m@) == Some(d as int) && d < doc@.len(),
            None => descendant_matching(doc@, i as int, m@) is None,
        },
{
    let c = child_index(doc, i);
    let r = find_in_forest(doc, c, m);
    assert(descendant_matching(doc@, i as int, m@) == first_in_forest(doc@, c as int, m@));
    r
}

/// Every node of the document that passes `m`, in document order.
pub fn find_all(doc: &Markup, m: &Matcher) -> (r: Vec<usize>)
    ensures
        r@.map_values(|x: usize| x as int) == all_matching(doc@, m@),
        forall|t: int| 0 <= t < r@.len() ==> r@[t] < doc@.len(),
{
    let mut out: Vec<usize> = Vec::new();
    let mut k: usize = 0;
    while k < doc.nodes.len()
        invariant
            k <= doc@.len(),
            out@.map_values(|x: usize| x as int) + all_matching_from(doc@, k as int, m@)
                == all_matching(doc@, m@),
            forall|t: int| 0 <= t < out@.len() ==> out@[t] < doc@.len(),
        decreases doc@.len() - k,
    {
        let ghost before = out@;
        if matches_at(doc, k, m) {
            out.push(k);
            assert(out@.map_values(|x: usize| x as int) =~= before.map_values(|x: usize| x as int).push(k as int));
            assert(out@.map_values(|x: usize| x as int) + all_matching_from(doc@, k + 1, m@)
                =~= before.map_values(|x: usize| x as int) + all_matching_from(doc@, k as int, m@));
        }
        k += 1;
    }
    assert(out@.map_values(|x: usize| x as int) =~= out@.map_values(|x: usize| x as int) + all_matching_from(doc@, k as int, m@));
    out
}

/// Appends the text of the forest at `k` to `out` (see `forest_text`).
pub fn push_forest_text(doc: &Markup, k: usize, breaks: bool, out: &mut Vec<char>)
    requires
        k <= doc@.len(),
    ensures
        final(out)@ == old(out)@ + forest_text(doc@, k as int, breaks),
    decreases doc@.len() - k,
{
    if k >= doc.nodes.len() {
        assert(old(out)@ + forest_text(doc@, k as int, breaks) =~= old(out)@);
        return;
    }
    let ghost start = out@;
    if breaks && matches_at(doc, k, &Matcher::Name("br")) {
        out.push('\n');
    }
    push_own_text(doc, k, out);
    push_forest_text(doc, child_index(doc, k), breaks, out);
    push_forest_text(doc, sibling_index(doc, k), breaks, out);
    proof {
        let nodes = doc@;
        let mark = if breaks && node_matches(nodes, k as int, Pattern::Name("br"@)) {
            seq!['\n']
        } else {
            Seq::<char>::empty()
        };
        assert(out@ =~= start + (mark + own_text(nodes, k as int) + forest_text(nodes, child_of(nodes, k as int), breaks)
            + forest_text(nodes, sibling_of(nodes, k as int), breaks)));
    }
}

/// Appends the text that node `k` itself holds to `out`.
pub fn push_own_text(doc: &Markup, k: usize, out: &mut Vec<char>)
    requires
        k < doc@.len(),
    ensures
        final(out)@ == old(out)@ + own_text(doc@, k as int),
{
    match &doc.nodes[k].data {
        NodeData::Text(t) => push_chars(out, t.as_str()),
        _ => {
            assert(old(out)@ + own_text(doc@, k as int) =~= old(out)@);
        },
    }
}

/// All the text of node `i` and of its descendants (see `subtree_text`).
pub fn collect_text(doc: &Markup, i: usize, breaks: bool) -> (r: Vec<char>)
    requires
        i < doc@.len(),
    ensures
        r@ == subtree_text(doc@, i as int, breaks),
{
    let mut out: Vec<char> = Vec::new();
    push_own_text(doc, i, &mut out);
    push_forest_text(doc, child_index(doc, i), breaks, &mut out);
    assert(out@ =~= subtree_text(doc@, i as int, breaks));
    out
}

} // verus!

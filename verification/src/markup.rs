//! The markup extractor: plain text of an HTML fragment, without quoted
//! replies.

use scraper::Html;
use vstd::prelude::*;
use vstd::string::StringExecFns;

verus! {

/// One node of a parsed fragment, in document order: its text if it is a
/// text node, and the element names of its ancestors, nearest first (`None`
/// for an ancestor that is no element).
pub struct MarkupNode {
    pub text: Option<String>,
    pub ancestors: Vec<Option<String>>,
}

/// The mathematical value of a `MarkupNode`.
pub ghost struct NodeModel {
    pub text: Option<Seq<char>>,
    pub ancestors: Seq<Option<Seq<char>>>,
}

/// The characters of an optional string.
pub open spec fn text_view(o: Option<String>) -> Option<Seq<char>> {
    match o {
        Some(s) => Some(s@),
        None => None,
    }
}

impl View for MarkupNode {
    type V = NodeModel;

    open spec fn view(&self) -> NodeModel {
        NodeModel {
            text: text_view(self.text),
            ancestors: Seq::new(self.ancestors@.len(), |i: int| text_view(self.ancestors@[i])),
        }
    }
}

/// The values of a sequence of nodes.
pub open spec fn node_views(nodes: Seq<MarkupNode>) -> Seq<NodeModel> {
    Seq::new(nodes.len(), |i: int| nodes[i]@)
}

/// The nodes of the tree that `scraper::Html::parse_fragment` builds from
/// `html`, from the root element down, in document order.
pub uninterp spec fn parsed_fragment(html: Seq<char>) -> Seq<NodeModel>;

/// Name of the element that holds a quoted reply.
pub open spec fn quote_tag() -> Seq<char> {
    "blockquote"@
}

/// The node lies inside a quoted reply, at any depth.
pub open spec fn quoted(n: NodeModel) -> bool {
    exists|i: int| 0 <= i < n.ancestors.len() && n.ancestors[i] == Some(quote_tag())
}

/// The text a node contributes: its own, unless it is quoted or no text node.
pub open spec fn node_text(n: NodeModel) -> Seq<char> {
    match n.text {
        Some(t) => if quoted(n) {
            Seq::<char>::empty()
        } else {
            t
        },
        None => Seq::<char>::empty(),
    }
}

/// The text of all unquoted text nodes, concatenated in document order.
pub open spec fn visible(nodes: Seq<NodeModel>) -> Seq<char>
    decreases nodes.len(),
{
    if nodes.len() == 0 {
        Seq::<char>::empty()
    } else {
        visible(nodes.drop_last()) + node_text(nodes.last())
    }
}

/// Parses `html` with `scraper::Html::parse_fragment` and lists the nodes
/// under `root_element()` as `descendants()` yields them. For each node the
/// text is what `as_text` gives, and the ancestors are what `ancestors()`
/// yields, each as `as_element` and `name` give it. The parser never fails;
/// the list depends on `html` alone.
#[verifier::external_body]
pub(crate) fn fragment_nodes(html: &str) -> (nodes: Vec<MarkupNode>)
    ensures
        node_views(nodes@) == parsed_fragment(html@),
{
    let doc = Html::parse_fragment(html);
    doc.root_element().descendants().map(|n| MarkupNode {
        text: n.value().as_text().map(|t| t.to_string()),
        ancestors: n.ancestors().map(|a| a.value().as_element().map(|e| e.name().to_string())).collect(),
    }).collect()
}

/// Whether `node` lies inside a quoted reply.
pub fn is_quoted(node: &MarkupNode) -> (r: bool)
    ensures
        r == quoted(node@),
{
    let tag = String::from_str("blockquote");
    let n: usize = node.ancestors.len();
    let mut i: usize = 0;
    while i < n
        invariant
            i <= n,
            n == node.ancestors@.len(),
            tag@ == quote_tag(),
            forall|k: int| 0 <= k < i ==> node@.ancestors[k] != Some(quote_tag()),
        decreases n - i,
    {
        match &node.ancestors[i] {
            Some(name) => {
                if *name == tag {
                    assert(node@.ancestors[i as int] == Some(quote_tag()));
                    return true;
                }
            },
            None => {},
        }
        i += 1;
    }
    false
}

/// Concatenates the text of the unquoted text nodes.
pub fn visible_text(nodes: &Vec<MarkupNode>) -> (r: String)
    ensures
        r@ == visible(node_views(nodes@)),
{
    let mut out = String::new();
    let n: usize = nodes.len();
    let mut i: usize = 0;
    while i < n
        invariant
            i <= n,
            n == nodes.len(),
            out@ == visible(node_views(nodes@).take(i as int)),
        decreases n - i,
    {
        let node = &nodes[i];
        proof {
            let all = node_views(nodes@);
            assert(all.take(i + 1).drop_last() =~= all.take(i as int));
            assert(all.take(i + 1).last() == node@);
        }
        let ghost before = out@;
        match &node.text {
            Some(t) => {
                if !is_quoted(node) {
                    out.append(t.as_str());
                }
            },
            None => {},
        }
        assert(out@ =~= before + node_text(node@));
        i += 1;
    }
    assert(node_views(nodes@).take(n as int) =~= node_views(nodes@));
    out
}

/// Plain text of an HTML fragment: every quoted reply is left out with all
/// that it holds, and the remaining text nodes are joined in document order.
pub fn convert_html_to_text(html: &str) -> (r: String)
    ensures
        r@ == visible(parsed_fragment(html@)),
{
    let nodes = fragment_nodes(html);
    visible_text(&nodes)
}

/// The visible text of two runs of nodes is the visible text of the first
/// followed by that of the second.
pub proof fn lemma_visible_concat(a: Seq<NodeModel>, b: Seq<NodeModel>)
    ensures
        visible(a + b) == visible(a) + visible(b),
    decreases b.len(),
{
    if b.len() == 0 {
        assert(a + b =~= a);
        assert(visible(a) + visible(b) =~= visible(a));
    } else {
        lemma_visible_concat(a, b.drop_last());
        assert((a + b).drop_last() =~= a + b.drop_last());
        assert((a + b).last() == b.last());
        assert(visible(a + b) =~= visible(a) + visible(b));
    }
}

/// Nothing below a quoted reply reaches the output, however deep it lies:
/// a node with a `blockquote` ancestor can be taken out of the node list
/// without changing the visible text.
pub proof fn lemma_quoted_node_hidden(before: Seq<NodeModel>, n: NodeModel, after: Seq<NodeModel>)
    requires
        quoted(n),
    ensures
        visible(before.push(n) + after) == visible(before + after),
{
    lemma_visible_concat(before.push(n), after);
    lemma_visible_concat(before, after);
    assert(before.push(n).drop_last() =~= before);
    assert(visible(before.push(n)) =~= visible(before));
}

} // verus!

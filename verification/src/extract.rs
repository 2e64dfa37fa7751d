//! The HTML extractor: for a document and a structural selector it yields,
//! per matching element, the element's first text node. The selection itself
//! is done by the `scraper` crate behind a trusted wrapper; everything from
//! the selected text nodes onward is verified.

use vstd::prelude::*;

verus! {

/// Whether `scraper::Selector::parse` accepts the selector text. The parse is
/// a pure function of the selector string.
pub uninterp spec fn selector_ok(selector: Seq<char>) -> bool;

/// What selecting `selector` over the parse of `html` yields: one entry per
/// matching element, in document order, holding the element's first text node
/// (if it has one) and the number of its text nodes. Both the HTML parse and
/// the selection are pure functions of the two strings.
pub uninterp spec fn selected_texts(html: Seq<char>, selector: Seq<char>) -> Seq<
    (Option<Seq<char>>, nat),
>;

/// One matching element's text nodes: the first one, and how many there are.
pub(crate) struct TextNode {
    pub(crate) first: Option<String>,
    pub(crate) count: usize,
}

pub(crate) open spec fn node_view(n: TextNode) -> (Option<Seq<char>>, nat) {
    (
        match n.first {
            Some(s) => Some(s@),
            None => None,
        },
        n.count as nat,
    )
}

/// Relies on `scraper`: `Selector::parse` accepts or rejects a selector by
/// its text alone; `Html::parse_document` parses the document; `Html::select`
/// yields the elements matching the selector in document order; and
/// `ElementRef::text` walks an element's text nodes in document order. This
/// returns, per matching element, its first text node and its text node
/// count, or `None` when the selector does not compile.
#[verifier::external_body]
pub(crate) fn select_text_nodes(html: &str, selector: &str) -> (r: Option<Vec<TextNode>>)
    ensures
        r is Some <==> selector_ok(selector@),
        r matches Some(nodes) ==> nodes@.map_values(|n: TextNode| node_view(n)) == selected_texts(
            html@,
            selector@,
        ),
{
    let sel = match scraper::Selector::parse(selector) {
        Ok(s) => s,
        Err(_) => return None,
    };
    let doc = scraper::Html::parse_document(html);
    let mut nodes = Vec::new();
    for el in doc.select(&sel) {
        let first = el.text().next().map(|t| t.to_string());
        nodes.push(TextNode { first, count: el.text().count() });
    }
    Some(nodes)
}

/// Relies on `scraper::Selector::parse`, which accepts or rejects a selector
/// by its text alone.
#[verifier::external_body]
pub fn selector_compiles(selector: &str) -> (r: bool)
    ensures
        r == selector_ok(selector@),
{
    scraper::Selector::parse(selector).is_ok()
}

/// The first text of every element that has one, in order.
pub open spec fn first_texts(nodes: Seq<(Option<Seq<char>>, nat)>) -> Seq<Seq<char>>
    decreases nodes.len(),
{
    if nodes.len() == 0 {
        Seq::empty()
    } else {
        first_texts(nodes.drop_last()) + (match nodes.last().0 {
            Some(t) => seq![t],
            None => Seq::<Seq<char>>::empty(),
        })
    }
}

/// The text-node count of every element with more than one text node, in
/// order: each is an anomaly worth a diagnostic, though the first text is
/// still used.
pub open spec fn anomaly_counts(nodes: Seq<(Option<Seq<char>>, nat)>) -> Seq<nat>
    decreases nodes.len(),
{
    if nodes.len() == 0 {
        Seq::empty()
    } else {
        anomaly_counts(nodes.drop_last()) + (if nodes.last().1 > 1 {
            seq![nodes.last().1]
        } else {
            Seq::<nat>::empty()
        })
    }
}

/// What the extractor yields for one document: the raw texts, and the
/// anomaly diagnostics (text-node counts above one).
#[derive(Debug, PartialEq, Eq)]
pub struct Extraction {
    pub texts: Vec<String>,
    pub anomalies: Vec<usize>,
}

/// Extracts the first text node of every element of `html` matching
/// `selector`, in document order, together with the anomaly counts; `None`
/// exactly when the selector does not compile.
pub fn extract_first_texts(html: &str, selector: &str) -> (r: Option<Extraction>)
    ensures
        r is Some <==> selector_ok(selector@),
        r matches Some(e) ==> e.texts.deep_view() == first_texts(selected_texts(html@, selector@))
            && e.anomalies@.map_values(|c: usize| c as nat) == anomaly_counts(
            selected_texts(html@, selector@),
        ),
{
    let nodes = match select_text_nodes(html, selector) {
        Some(nodes) => nodes,
        None => {
            return None;
        },
    };
    let ghost nv = nodes@.map_values(|n: TextNode| node_view(n));
    let mut texts: Vec<String> = Vec::new();
    let mut anomalies: Vec<usize> = Vec::new();
    let mut i: usize = 0;
    while i < nodes.len()
        invariant
            nv == nodes@.map_values(|n: TextNode| node_view(n)),
            nv == selected_texts(html@, selector@),
            0 <= i <= nodes.len(),
            texts.deep_view() == first_texts(nv.subrange(0, i as int)),
            anomalies@.map_values(|c: usize| c as nat) == anomaly_counts(
                nv.subrange(0, i as int),
            ),
        decreases nodes.len() - i,
    {
        let node = &nodes[i];
        let ghost prefix = nv.subrange(0, i as int);
        let ghost step = nv.subrange(0, i + 1);
        proof {
            assert(step.drop_last() =~= prefix);
            assert(step.last() == nv[i as int]);
            assert(nv[i as int] == node_view(nodes@[i as int]));
        }
        match &node.first {
            Some(t) => {
                let ghost before = texts.deep_view();
                texts.push(t.clone());
                proof {
                    assert(texts.deep_view() =~= before.push(t@));
                    assert(before.push(t@) =~= first_texts(prefix) + seq![t@]);
                }
            },
            None => {},
        }
        if node.count > 1 {
            let ghost before = anomalies@.map_values(|c: usize| c as nat);
            anomalies.push(node.count);
            proof {
                assert(anomalies@.map_values(|c: usize| c as nat) =~= before.push(
                    node.count as nat,
                ));
                assert(before.push(node.count as nat) =~= anomaly_counts(prefix) + seq![
                    node.count as nat,
                ]);
            }
        }
        i = i + 1;
    }
    proof {
        assert(nv.subrange(0, nodes@.len() as int) =~= nv);
    }
    Some(Extraction { texts, anomalies })
}

/// When every matching element has a text node, the extractor yields exactly
/// one raw text per element, in document order.
pub proof fn lemma_extractor_yields_all(nodes: Seq<(Option<Seq<char>>, nat)>)
    requires
        forall|i: int| 0 <= i < nodes.len() ==> nodes[i].0 is Some,
    ensures
        first_texts(nodes).len() == nodes.len(),
        forall|i: int| 0 <= i < nodes.len() ==> first_texts(nodes)[i] == nodes[i].0->0,
    decreases nodes.len(),
{
    if nodes.len() > 0 {
        let head = nodes.drop_last();
        assert(forall|i: int| 0 <= i < head.len() ==> head[i] == nodes[i]);
        lemma_extractor_yields_all(head);
        assert(first_texts(nodes) == first_texts(head) + seq![nodes.last().0->0]);
    }
}

} // verus!

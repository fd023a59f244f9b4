//! The history compactor: finds the most recent checkpoint entry, truncates
//! everything before it, merges the entry's three node lists, and replaces the
//! summary marker with one rendered text node — or, when rendering cannot
//! proceed, stores the merged list back unchanged so that no data is lost.
use vstd::prelude::*;
use crate::node::{
    Node, NodeData, HistoryEntry, HistorySummaryPayload, nodes_abs, is_summary_node,
    is_tool_result_node, has_summary, has_history_summary_node, clone_tool_result_node,
};
use crate::summary::{render_summary_chars, rendered_summary_spec};
use crate::text::is_blank;

verus! {

/// Whether any of the entry's three node lists holds a summary marker.
pub open spec fn entry_has_summary_spec(e: HistoryEntry) -> bool {
    has_summary(e.request_nodes@) || has_summary(e.structured_request_nodes@) || has_summary(
        e.nodes@,
    )
}

/// Whether a history entry carries a compaction checkpoint marker.
pub fn chat_history_item_has_summary(item: &HistoryEntry) -> (r: bool)
    ensures
        r == entry_has_summary_spec(*item),
{
    has_history_summary_node(&item.request_nodes) || has_history_summary_node(
        &item.structured_request_nodes,
    ) || has_history_summary_node(&item.nodes)
}

/// The entry's three node lists as one list, in their fixed merge order.
pub open spec fn merged_of(e: HistoryEntry) -> Seq<Node> {
    e.request_nodes@ + e.structured_request_nodes@ + e.nodes@
}

/// Every tool-result node of the list, in order.
pub open spec fn tool_result_nodes(ns: Seq<Node>) -> Seq<Node>
    decreases ns.len(),
{
    if ns.len() == 0 {
        Seq::empty()
    } else {
        tool_result_nodes(ns.drop_last()) + (if is_tool_result_node(ns.last()) {
            seq![ns.last()]
        } else {
            Seq::empty()
        })
    }
}

/// Every node that is neither a summary marker nor a tool result, in order.
pub open spec fn kept_nodes(ns: Seq<Node>) -> Seq<Node>
    decreases ns.len(),
{
    if ns.len() == 0 {
        Seq::empty()
    } else {
        kept_nodes(ns.drop_last()) + (if !is_summary_node(ns.last()) && !is_tool_result_node(
            ns.last(),
        ) {
            seq![ns.last()]
        } else {
            Seq::empty()
        })
    }
}

/// A marker node whose payload decoded and whose template is not blank, so
/// that rendering it succeeds.
pub open spec fn renderable_marker(n: Node) -> bool {
    match n.data {
        NodeData::HistorySummary { payload: Some(pl) } => !is_blank(pl.message_template@),
        _ => false,
    }
}

/// The decoded payload of a marker node.
pub open spec fn marker_payload(n: Node) -> HistorySummaryPayload
    recommends
        n.data matches NodeData::HistorySummary { payload: Some(_) },
{
    match n.data {
        NodeData::HistorySummary { payload: Some(pl) } => pl,
        _ => arbitrary(),
    }
}

/// Index `k` is the checkpoint: the last entry carrying a summary marker.
pub open spec fn checkpoint_at(h: Seq<HistoryEntry>, k: int) -> bool {
    &&& 0 <= k < h.len()
    &&& entry_has_summary_spec(h[k])
    &&& forall|j: int| k < j < h.len() ==> !entry_has_summary_spec(h[j])
}

/// Index `p` is the position of the first summary marker in the merged list.
pub open spec fn first_marker_at(m: Seq<Node>, p: int) -> bool {
    &&& 0 <= p < m.len()
    &&& is_summary_node(m[p])
    &&& forall|j: int| 0 <= j < p ==> !is_summary_node(m[j])
}

/// What the entry's primary node list holds after the marker at `p` was
/// processed: on success, one text node reusing the marker's identifier and
/// carrying the rendered summary, followed by every merged node that was
/// neither a marker nor a tool result; on failure, the merged list unchanged.
pub open spec fn marker_outcome(e1: HistoryEntry, m: Seq<Node>, p: int) -> bool {
    if renderable_marker(m[p]) {
        &&& e1.request_nodes@.len() == kept_nodes(m).len() + 1
        &&& e1.request_nodes@.skip(1) == kept_nodes(m)
        &&& e1.request_nodes@[0].id == m[p].id
        &&& e1.request_nodes@[0].data matches NodeData::Text { content } && content@
            == rendered_summary_spec(marker_payload(m[p]), nodes_abs(tool_result_nodes(m)))
        &&& forall|i: int|
            0 <= i < e1.request_nodes@.len() ==> !is_summary_node(#[trigger] e1.request_nodes@[i])
                && !is_tool_result_node(e1.request_nodes@[i])
    } else {
        e1.request_nodes@ == m
    }
}

/// How the surviving first entry relates to the checkpoint entry it came from:
/// plain fields kept, the three node lists merged into the primary list, and
/// the merged list rewritten only when the marker was found and rendered.
pub open spec fn rewrite_ok(e1: HistoryEntry, e0: HistoryEntry) -> bool {
    let m = merged_of(e0);
    &&& e1.response_text == e0.response_text
    &&& e1.request_message == e0.request_message
    &&& e1.request_id == e0.request_id
    &&& e1.response_nodes == e0.response_nodes
    &&& e1.structured_output_nodes == e0.structured_output_nodes
    &&& e1.structured_request_nodes@ == Seq::<Node>::empty()
    &&& e1.nodes@ == Seq::<Node>::empty()
    &&& if !has_summary(m) {
        e1.request_nodes@ == m
    } else {
        exists|p: int| #[trigger] first_marker_at(m, p) && marker_outcome(e1, m, p)
    }
}

/// The whole compaction step: the history was cut at checkpoint `k`, the tail
/// kept byte for byte, and the first entry rewritten as `rewrite_ok` says.
pub open spec fn compacted_from(h0: Seq<HistoryEntry>, h1: Seq<HistoryEntry>, k: int) -> bool {
    &&& checkpoint_at(h0, k)
    &&& h1.len() == h0.len() - k
    &&& forall|i: int| 1 <= i < h1.len() ==> h1[i] == h0[k + i]
    &&& rewrite_ok(h1[0], h0[k])
}

proof fn lemma_kept_nodes_clean(ns: Seq<Node>)
    ensures
        forall|i: int|
            0 <= i < kept_nodes(ns).len() ==> !is_summary_node(#[trigger] kept_nodes(ns)[i])
                && !is_tool_result_node(kept_nodes(ns)[i]),
    decreases ns.len(),
{
    if ns.len() > 0 {
        lemma_kept_nodes_clean(ns.drop_last());
        let kd = kept_nodes(ns.drop_last());
        assert forall|i: int| 0 <= i < kept_nodes(ns).len() implies !is_summary_node(
            #[trigger] kept_nodes(ns)[i],
        ) && !is_tool_result_node(kept_nodes(ns)[i]) by {
            if i < kd.len() {
                assert(kept_nodes(ns)[i] == kd[i]);
            } else {
                assert(kept_nodes(ns)[i] == ns.last());
            }
        }
    }
}

/// Rewrites the history in place: everything before the most recent entry with
/// a summary marker is dropped; on that entry the three node lists are merged,
/// and the marker is replaced by the rendered summary text when rendering
/// succeeds, while on failure every merged node is kept unchanged.
pub fn compact_chat_history(history: &mut Vec<HistoryEntry>)
    ensures
        (forall|i: int|
            0 <= i < old(history)@.len() ==> !entry_has_summary_spec(old(history)@[i]))
            ==> final(history)@ == old(history)@,
        (exists|i: int| 0 <= i < old(history)@.len() && entry_has_summary_spec(old(history)@[i]))
            ==> exists|k: int| compacted_from(old(history)@, final(history)@, k),
{
    let ghost h0 = history@;
    let mut i: usize = history.len();
    let mut found = false;
    let mut k: usize = 0;
    while !found && i > 0
        invariant
            0 <= i <= h0.len(),
            history@ == h0,
            !found ==> forall|j: int| i <= j < h0.len() ==> !entry_has_summary_spec(h0[j]),
            found ==> checkpoint_at(h0, k as int),
        decreases i,
    {
        i -= 1;
        if chat_history_item_has_summary(&history[i]) {
            found = true;
            k = i;
        }
    }
    if !found {
        return ;
    }

    let mut t: usize = 0;
    while t < k
        invariant
            0 <= t <= k,
            checkpoint_at(h0, k as int),
            history@ == h0.skip(t as int),
        decreases k - t,
    {
        proof {
            assert(h0.skip(t as int).remove(0) =~= h0.skip(t + 1));
        }
        history.remove(0);
        t += 1;
    }

    let mut e = history.remove(0);
    let ghost e0 = e;
    proof {
        assert(e0 == h0[k as int]);
        assert(h0.skip(k as int).remove(0) =~= h0.skip(k + 1));
    }
    let mut merged: Vec<Node> = Vec::new();
    merged.append(&mut e.request_nodes);
    merged.append(&mut e.structured_request_nodes);
    merged.append(&mut e.nodes);
    let ghost m = merged@;
    proof {
        assert(m =~= merged_of(e0));
    }

    let mut p: usize = 0;
    let mut foundp = false;
    while p < merged.len()
        invariant
            0 <= p <= m.len(),
            merged@ == m,
            !foundp ==> forall|j: int| 0 <= j < p ==> !is_summary_node(m[j]),
            foundp ==> first_marker_at(m, p as int),
        decreases m.len() - p,
    {
        if matches!(&merged[p].data, NodeData::HistorySummary { .. }) {
            foundp = true;
            break ;
        }
        p += 1;
    }
    if !foundp {
        e.request_nodes = merged;
        history.insert(0, e);
        proof {
            assert(history@ =~= seq![e].add(h0.skip(k + 1)));
            assert(history@.len() == h0.len() - k);
            assert forall|i2: int| 1 <= i2 < history@.len() implies history@[i2] == h0[
                k + i2
            ] by {
                assert(history@[i2] == h0.skip(k + 1)[i2 - 1]);
            }
            assert(history@[0] == e);
            assert(!has_summary(m));
            assert(rewrite_ok(history@[0], h0[k as int]));
            assert(compacted_from(h0, history@, k as int));
        }
        return ;
    }

    let sum_id = merged[p].id;
    let mut trs: Vec<Node> = Vec::new();
    let mut q: usize = 0;
    while q < merged.len()
        invariant
            0 <= q <= m.len(),
            merged@ == m,
            nodes_abs(trs@) == nodes_abs(tool_result_nodes(m.take(q as int))),
        decreases m.len() - q,
    {
        let ghost t1 = tool_result_nodes(m.take(q + 1));
        proof {
            assert(m.take(q + 1).drop_last() =~= m.take(q as int));
            assert(m.take(q + 1).last() == m[q as int]);
        }
        if matches!(&merged[q].data, NodeData::ToolResult { .. }) {
            let ghost oldtrs = trs@;
            let c = clone_tool_result_node(&merged[q]);
            trs.push(c);
            proof {
                assert(t1 =~= tool_result_nodes(m.take(q as int)).push(m[q as int]));
                assert(nodes_abs(trs@) =~= nodes_abs(oldtrs).push(crate::node::node_abs(c)));
                assert(nodes_abs(t1) =~= nodes_abs(tool_result_nodes(m.take(q as int))).push(
                    crate::node::node_abs(m[q as int]),
                ));
                assert(nodes_abs(trs@) =~= nodes_abs(t1));
            }
        } else {
            proof {
                assert(t1 =~= tool_result_nodes(m.take(q as int)));
                assert(nodes_abs(trs@) =~= nodes_abs(t1));
            }
        }
        q += 1;
    }
    proof {
        assert(m.take(m.len() as int) =~= m);
    }

    let rendered: Option<Vec<char>> = match &merged[p].data {
        NodeData::HistorySummary { payload: Some(pl) } => render_summary_chars(pl, &trs),
        _ => None,
    };
    match rendered {
        None => {
            e.request_nodes = merged;
            history.insert(0, e);
            proof {
                assert(history@ =~= seq![e].add(h0.skip(k + 1)));
                assert(history@.len() == h0.len() - k);
                assert forall|i2: int| 1 <= i2 < history@.len() implies history@[i2] == h0[
                    k + i2
                ] by {
                    assert(history@[i2] == h0.skip(k + 1)[i2 - 1]);
                }
                assert(history@[0] == e);
                assert(!renderable_marker(m[p as int]));
                assert(marker_outcome(history@[0], m, p as int));
                assert(first_marker_at(m, p as int) && marker_outcome(history@[0], m, p as int));
                assert(rewrite_ok(history@[0], h0[k as int]));
                assert(compacted_from(h0, history@, k as int));
            }
        },
        Some(text) => {
            let text_node = Node { id: sum_id, data: NodeData::Text { content: text } };
            let ghost tn = text_node;
            let mut rev: Vec<Node> = Vec::new();
            proof {
                assert(m.take(m.len() as int) =~= m);
                assert(rev@.reverse() =~= Seq::<Node>::empty());
            }
            while merged.len() > 0
                invariant
                    merged@.len() <= m.len(),
                    merged@ == m.take(merged@.len() as int),
                    kept_nodes(m.take(merged@.len() as int)) + rev@.reverse() == kept_nodes(m),
                decreases merged@.len(),
            {
                let ghost j = merged@.len() - 1;
                let ghost oldrev = rev@;
                proof {
                    assert(m.take(j + 1).drop_last() =~= m.take(j));
                    assert(m.take(j + 1).last() == m[j]);
                    assert(merged@.subrange(0, merged@.len() - 1) =~= m.take(j));
                }
                let n = match merged.pop() {
                    Some(n) => n,
                    None => {
                        proof {
                            assert(false);
                        }
                        Node { id: 0, data: NodeData::Opaque { kind: 0, content: Vec::new() } }
                    },
                };
                let keep = !matches!(&n.data, NodeData::HistorySummary { .. }) && !matches!(
                    &n.data,
                    NodeData::ToolResult { .. },
                );
                if keep {
                    rev.push(n);
                    proof {
                        assert(rev@.reverse() =~= seq![n].add(oldrev.reverse()));
                        assert(kept_nodes(m.take(j + 1)) =~= kept_nodes(m.take(j)).push(n));
                        assert(kept_nodes(m.take(j)) + rev@.reverse() =~= kept_nodes(m));
                    }
                } else {
                    proof {
                        assert(kept_nodes(m.take(j + 1)) =~= kept_nodes(m.take(j)));
                    }
                }
            }
            proof {
                assert(m.take(0) =~= Seq::<Node>::empty());
                assert(kept_nodes(Seq::<Node>::empty()) + rev@.reverse() =~= rev@.reverse());
                assert(rev@.reverse() == kept_nodes(m));
            }
            let mut newn: Vec<Node> = Vec::new();
            newn.push(text_node);
            proof {
                assert(newn@.skip(1) =~= Seq::<Node>::empty());
                assert(newn@.skip(1) + rev@.reverse() =~= rev@.reverse());
            }
            while rev.len() > 0
                invariant
                    newn@.len() >= 1,
                    newn@[0] == tn,
                    newn@.skip(1) + rev@.reverse() == kept_nodes(m),
                decreases rev@.len(),
            {
                let ghost oldrev = rev@;
                let ghost oldnew = newn@;
                let n = match rev.pop() {
                    Some(n) => n,
                    None => {
                        proof {
                            assert(false);
                        }
                        Node { id: 0, data: NodeData::Opaque { kind: 0, content: Vec::new() } }
                    },
                };
                newn.push(n);
                proof {
                    assert(oldrev.reverse() =~= seq![n].add(
                        oldrev.subrange(0, oldrev.len() - 1).reverse(),
                    ));
                    assert(newn@.skip(1) =~= oldnew.skip(1).push(n));
                    assert(newn@.skip(1) + rev@.reverse() =~= oldnew.skip(1) + oldrev.reverse());
                }
            }
            proof {
                assert(rev@.reverse() =~= Seq::<Node>::empty());
                assert(newn@.skip(1) + rev@.reverse() =~= newn@.skip(1));
                assert(newn@.skip(1) == kept_nodes(m));
            }
            e.request_nodes = newn;
            history.insert(0, e);
            proof {
                lemma_kept_nodes_clean(m);
                assert(history@ =~= seq![e].add(h0.skip(k + 1)));
                assert(history@.len() == h0.len() - k);
                assert forall|i2: int| 1 <= i2 < history@.len() implies history@[i2] == h0[
                    k + i2
                ] by {
                    assert(history@[i2] == h0.skip(k + 1)[i2 - 1]);
                }
                assert(history@[0] == e);
                assert(renderable_marker(m[p as int]));
                assert(history@[0].request_nodes@[0].data matches NodeData::Text { content }
                    && content@ == rendered_summary_spec(
                    marker_payload(m[p as int]),
                    nodes_abs(tool_result_nodes(m)),
                ));
                assert(forall|i: int|
                    1 <= i < history@[0].request_nodes@.len() ==> history@[0].request_nodes@[i]
                        == kept_nodes(m)[i - 1]);
                assert(marker_outcome(history@[0], m, p as int));
                assert(first_marker_at(m, p as int) && marker_outcome(history@[0], m, p as int));
                assert(rewrite_ok(history@[0], h0[k as int]));
                assert(compacted_from(h0, history@, k as int));
            }
        },
    }
}

} // verus!

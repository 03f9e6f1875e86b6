use vstd::prelude::*;
use crate::node::{
    Graph, Link, NodeWidget, PinId, inputs_below, inputs_into, lemma_inputs_below_gap, node_inputs,
};

verus! {

/// One evaluation: take the last `arity` values off the stack, in order, as
/// the inputs of node `node_index`, and push the value of its output pin
/// `pin_index`.
#[derive(Clone, Copy, Debug, PartialEq, Eq, Structural)]
pub struct Step {
    pub node_index: usize,
    pub pin_index: usize,
    pub arity: usize,
}

/// The steps that compute output pin `p` of node `n`: first the steps of each
/// of its inputs, in the order `node_inputs` gives, then the node itself.
/// Recursion deeper than `fuel` nodes gives `None`.
pub open spec fn plan(links: Seq<Link>, n: usize, p: usize, fuel: nat) -> Option<Seq<Step>>
    decreases fuel, 0nat,
{
    if fuel == 0 {
        None
    } else {
        let ins = node_inputs(links, n);
        match plan_list(links, ins, (fuel - 1) as nat) {
            Some(s) => Some(s.push(Step { node_index: n, pin_index: p, arity: ins.len() as usize })),
            None => None,
        }
    }
}

/// The steps of each pin of `ins` in turn.
pub open spec fn plan_list(links: Seq<Link>, ins: Seq<PinId>, fuel: nat) -> Option<Seq<Step>>
    decreases fuel, ins.len(),
{
    if ins.len() == 0 {
        Some(seq![])
    } else {
        match plan_list(links, ins.drop_last(), fuel) {
            Some(a) => match plan(links, ins.last().node_index, ins.last().pin_index, fuel) {
                Some(b) => Some(a + b),
                None => None,
            },
            None => None,
        }
    }
}

/// The plan of a pin of a graph: recursion may go as deep as the graph has
/// nodes, which an acyclic graph never exceeds.
pub open spec fn graph_plan<W: NodeWidget>(g: &Graph<W>, n: usize, p: usize) -> Option<Seq<Step>> {
    plan(g.links@, n, p, g.nodes@.len() as nat)
}

proof fn lemma_plan_list_prefix_none(links: Seq<Link>, ins: Seq<PinId>, j: int, fuel: nat)
    requires
        0 <= j <= ins.len(),
        plan_list(links, ins.take(j), fuel) is None,
    ensures
        plan_list(links, ins, fuel) is None,
    decreases ins.len(),
{
    if j == ins.len() {
        assert(ins.take(j) == ins);
    } else {
        assert(ins.drop_last().take(j) == ins.take(j));
        lemma_plan_list_prefix_none(links, ins.drop_last(), j, fuel);
    }
}

/// Appends the plan of pin `p` of node `n` to `out`; `false` when the
/// recursion runs deeper than `fuel`.
fn plan_into<W: NodeWidget>(
    graph: &Graph<W>,
    n: usize,
    p: usize,
    fuel: usize,
    out: &mut Vec<Step>,
) -> (ok: bool)
    ensures
        ok == plan(graph.links@, n, p, fuel as nat) is Some,
        ok ==> final(out)@ == old(out)@ + plan(graph.links@, n, p, fuel as nat)->Some_0,
    decreases fuel,
{
    if fuel == 0 {
        return false;
    }
    let ghost links = graph.links@;
    let ghost start = out@;
    let ins = graph.inputs_for(n);
    let mut i: usize = 0;
    assert(ins@.take(0) == Seq::<PinId>::empty());
    while i < ins.len()
        invariant
            links == graph.links@,
            fuel > 0,
            ins@ == node_inputs(links, n),
            i <= ins@.len(),
            plan_list(links, ins@.take(i as int), (fuel - 1) as nat) is Some,
            out@ == start + plan_list(links, ins@.take(i as int), (fuel - 1) as nat)->Some_0,
        decreases ins@.len() - i,
    {
        let pin = ins[i];
        let ghost before = out@;
        assert(ins@.take(i + 1).drop_last() == ins@.take(i as int));
        assert(ins@.take(i + 1).last() == pin);
        if !plan_into(graph, pin.node_index, pin.pin_index, fuel - 1, out) {
            proof {
                lemma_plan_list_prefix_none(links, ins@, i + 1, (fuel - 1) as nat);
            }
            return false;
        }
        assert(out@ == start + plan_list(links, ins@.take(i + 1), (fuel - 1) as nat)->Some_0);
        i = i + 1;
    }
    assert(ins@.take(ins@.len() as int) == ins@);
    out.push(Step { node_index: n, pin_index: p, arity: ins.len() });
    true
}

/// The evaluation plan of output pin `pin_index` of node `node_index`:
/// `None` when the recursion runs deeper than the graph has nodes, which
/// only a cycle can cause.
pub fn resolve_plan<W: NodeWidget>(graph: &Graph<W>, node_index: usize, pin_index: usize) -> (r:
    Option<Vec<Step>>)
    ensures
        match r {
            Some(v) => graph_plan(graph, node_index, pin_index) == Some(v@),
            None => graph_plan(graph, node_index, pin_index) is None,
        },
{
    let mut out: Vec<Step> = Vec::new();
    if plan_into(graph, node_index, pin_index, graph.nodes.len(), &mut out) {
        assert(out@ == Seq::<Step>::empty() + graph_plan(graph, node_index, pin_index)->Some_0);
        assert(Seq::<Step>::empty() + graph_plan(graph, node_index, pin_index)->Some_0
            =~= graph_plan(graph, node_index, pin_index)->Some_0);
        Some(out)
    } else {
        None
    }
}

/// A node that no link feeds is evaluated alone, with no input values: its
/// plan is one step of arity zero.
pub proof fn lemma_unlinked_node_plan(links: Seq<Link>, n: usize, p: usize, fuel: nat)
    requires
        fuel > 0,
        forall|i: int| 0 <= i < links.len() ==> #[trigger] links[i].1.node_index != n,
    ensures
        plan(links, n, p, fuel) == Some(seq![Step { node_index: n, pin_index: p, arity: 0 }]),
{
    lemma_inputs_below_gap(links, n, 0, usize::MAX as nat + 1);
    assert(node_inputs(links, n) == inputs_below(links, n, 0));
    assert(Seq::<Step>::empty().push(Step { node_index: n, pin_index: p, arity: 0 }) =~= seq![
        Step { node_index: n, pin_index: p, arity: 0 },
    ]);
}

/// The plan depends on the links, the pin and the depth bound alone: asking
/// twice, with no change in between, gives the same steps.
pub proof fn lemma_plan_repeatable(
    links: Seq<Link>,
    n: usize,
    p: usize,
    fuel: nat,
    first: Option<Seq<Step>>,
    second: Option<Seq<Step>>,
)
    requires
        first == plan(links, n, p, fuel),
        second == plan(links, n, p, fuel),
    ensures
        first == second,
{
}

/// Running `steps` on a stack that holds `depth` values: the number of values
/// at the end, or `None` if some step would take more values than are there.
pub open spec fn depth_after(steps: Seq<Step>, depth: nat) -> Option<nat>
    decreases steps.len(),
{
    if steps.len() == 0 {
        Some(depth)
    } else if steps[0].arity > depth {
        None
    } else {
        depth_after(steps.drop_first(), (depth - steps[0].arity + 1) as nat)
    }
}

proof fn lemma_depth_after_concat(a: Seq<Step>, b: Seq<Step>, d: nat)
    ensures
        depth_after(a + b, d) == match depth_after(a, d) {
            Some(e) => depth_after(b, e),
            None => None,
        },
    decreases a.len(),
{
    if a.len() > 0 {
        assert((a + b).drop_first() == a.drop_first() + b);
        assert((a + b)[0] == a[0]);
        if a[0].arity <= d {
            lemma_depth_after_concat(a.drop_first(), b, (d - a[0].arity + 1) as nat);
        }
    } else {
        assert(a + b == b);
    }
}

proof fn lemma_inputs_below_last(links: Seq<Link>, n: usize, k: nat)
    requires
        links.len() > 0,
    ensures
        inputs_below(links, n, k).len() == inputs_below(links.drop_last(), n, k).len() + (if links.last().1.node_index == n
            && links.last().1.pin_index < k {
            1int
        } else {
            0int
        }),
    decreases k,
{
    if k > 0 {
        lemma_inputs_below_last(links, n, (k - 1) as nat);
    }
}

proof fn lemma_node_inputs_len(links: Seq<Link>, n: usize)
    ensures
        node_inputs(links, n).len() <= links.len(),
    decreases links.len(),
{
    if links.len() > 0 {
        lemma_inputs_below_last(links, n, usize::MAX as nat + 1);
        lemma_node_inputs_len(links.drop_last(), n);
    } else {
        lemma_inputs_below_gap(links, n, 0, usize::MAX as nat + 1);
    }
}

proof fn lemma_plan_depth(links: Seq<Link>, n: usize, p: usize, fuel: nat, d: nat)
    requires
        links.len() <= usize::MAX,
        plan(links, n, p, fuel) is Some,
    ensures
        depth_after(plan(links, n, p, fuel)->Some_0, d) == Some(d + 1),
    decreases fuel, 0nat,
{
    let ins = node_inputs(links, n);
    lemma_node_inputs_len(links, n);
    let l = plan_list(links, ins, (fuel - 1) as nat)->Some_0;
    let step = Step { node_index: n, pin_index: p, arity: ins.len() as usize };
    lemma_plan_list_depth(links, ins, (fuel - 1) as nat, d);
    assert(plan(links, n, p, fuel) == Some(l.push(step)));
    assert(step.arity == ins.len());
    lemma_depth_after_concat(l, seq![step], d);
    assert(l.push(step) == l + seq![step]);
    assert(seq![step].drop_first() == Seq::<Step>::empty());
    assert(depth_after(seq![step], d + ins.len()) == depth_after(Seq::<Step>::empty(), d + 1));
}

proof fn lemma_plan_list_depth(links: Seq<Link>, ins: Seq<PinId>, fuel: nat, d: nat)
    requires
        links.len() <= usize::MAX,
        plan_list(links, ins, fuel) is Some,
    ensures
        depth_after(plan_list(links, ins, fuel)->Some_0, d) == Some(d + ins.len()),
    decreases fuel, ins.len(),
{
    if ins.len() > 0 {
        let a = plan_list(links, ins.drop_last(), fuel)->Some_0;
        let b = plan(links, ins.last().node_index, ins.last().pin_index, fuel)->Some_0;
        lemma_plan_list_depth(links, ins.drop_last(), fuel, d);
        lemma_plan_depth(links, ins.last().node_index, ins.last().pin_index, fuel, (d + ins.len() - 1) as nat);
        lemma_depth_after_concat(a, b, d);
    }
}

/// Run on a value stack, a plan never takes more values than the stack
/// holds, and it leaves exactly one value more than it found: the value of
/// the pin it was made for.
pub proof fn lemma_plan_leaves_one_value(links: Seq<Link>, n: usize, p: usize, fuel: nat)
    requires
        links.len() <= usize::MAX,
        plan(links, n, p, fuel) is Some,
    ensures
        depth_after(plan(links, n, p, fuel)->Some_0, 0) == Some(1nat),
{
    lemma_plan_depth(links, n, p, fuel, 0);
}

} // verus!

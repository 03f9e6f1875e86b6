use vstd::prelude::*;

verus! {

/// Which side of a node a pin sits on.
#[derive(Clone, Copy, Debug, Hash, PartialEq, Eq, Structural)]
pub enum PinDirection {
    Input,
    Output,
}

impl PinDirection {
    pub fn opposite(&self) -> (r: PinDirection)
        ensures
            r != *self,
    {
        match self {
            PinDirection::Input => PinDirection::Output,
            PinDirection::Output => PinDirection::Input,
        }
    }
}

/// Address of one pin: the node's position in the graph, the pin's position
/// among that node's pins of the given direction.
#[derive(Clone, Copy, Debug, PartialEq, Eq, Structural)]
pub struct PinId {
    pub node_index: usize,
    pub pin_index: usize,
    pub direction: PinDirection,
}

/// A link, stored as (output pin, input pin).
pub type Link = (PinId, PinId);

/// The canonical link between two pins, where `p` is the pin a drag ended on.
pub open spec fn canonical_link(p: PinId, other: PinId) -> Link {
    if p.direction == PinDirection::Input {
        (other, p)
    } else {
        (p, other)
    }
}

impl PinId {
    /// The link between `self` and `other`, with the output end first
    /// whenever the two pins have opposite directions.
    pub fn link(self, other: PinId) -> (r: Link)
        ensures
            r == canonical_link(self, other),
            self.direction != other.direction ==> r.0.direction == PinDirection::Output
                && r.1.direction == PinDirection::Input,
    {
        match self.direction {
            PinDirection::Input => (other, self),
            PinDirection::Output => (self, other),
        }
    }
}

/// A connection point of a node.
#[derive(Debug)]
pub struct Pin {}

impl Pin {
    pub fn new() -> (r: Pin) {
        Pin {  }
    }
}

/// What a graph needs to know of the nodes it holds: how many pins each side
/// has, and a title.
pub trait NodeWidget {
    spec fn in_count(&self) -> nat;

    spec fn out_count(&self) -> nat;

    spec fn title_text(&self) -> Seq<char>;

    fn in_pins(&self) -> (r: Vec<Pin>)
        ensures
            r@.len() == self.in_count(),
    ;

    fn out_pins(&self) -> (r: Vec<Pin>)
        ensures
            r@.len() == self.out_count(),
    ;

    fn title(&self) -> (r: String)
        ensures
            r@ == self.title_text(),
    ;
}

#[derive(Debug)]
pub struct Node<W: NodeWidget> {
    pub widget: W,
}

impl<W: NodeWidget> Node<W> {
    pub fn new(widget: W) -> (r: Node<W>)
        ensures
            r.widget == widget,
    {
        Node { widget }
    }
}

/// Whether a link joins an output pin of an existing node to an input pin of
/// an existing node, both within the pin counts the nodes declare.
pub open spec fn link_valid<W: NodeWidget>(nodes: Seq<Node<W>>, l: Link) -> bool {
    &&& l.0.direction == PinDirection::Output
    &&& l.1.direction == PinDirection::Input
    &&& l.0.node_index < nodes.len()
    &&& l.1.node_index < nodes.len()
    &&& l.0.pin_index < nodes[l.0.node_index as int].widget.out_count()
    &&& l.1.pin_index < nodes[l.1.node_index as int].widget.in_count()
}

pub open spec fn links_valid<W: NodeWidget>(nodes: Seq<Node<W>>, links: Seq<Link>) -> bool {
    forall|i: int| 0 <= i < links.len() ==> link_valid(nodes, #[trigger] links[i])
}

/// The links that remain when every link with an end at `pin` is taken out.
pub open spec fn links_without_pin(links: Seq<Link>, pin: PinId) -> Seq<Link>
    decreases links.len(),
{
    if links.len() == 0 {
        seq![]
    } else {
        let rest = links_without_pin(links.drop_last(), pin);
        let l = links.last();
        if l.0 == pin || l.1 == pin {
            rest
        } else {
            rest.push(l)
        }
    }
}

pub open spec fn touches(l: Link, k: usize) -> bool {
    l.0.node_index == k || l.1.node_index == k
}

/// A pin's address once the node at position `k` is gone.
pub open spec fn shift_pin(p: PinId, k: usize) -> PinId {
    if p.node_index > k {
        PinId { node_index: (p.node_index - 1) as usize, pin_index: p.pin_index, direction: p.direction }
    } else {
        p
    }
}

/// `l` is the renumbered form of a link in `links` that does not touch node `k`.
pub open spec fn comes_from_untouched(links: Seq<Link>, k: usize, l: Link) -> bool {
    exists|j: int| 0 <= j < links.len() && !touches(#[trigger] links[j], k) && shift_link(links[j], k) == l
}

pub open spec fn shift_link(l: Link, k: usize) -> Link {
    (shift_pin(l.0, k), shift_pin(l.1, k))
}

/// The links once the node at position `k` is removed: those touching it are
/// dropped, the others renumbered, in their order.
pub open spec fn links_after_removal(links: Seq<Link>, k: usize) -> Seq<Link>
    decreases links.len(),
{
    if links.len() == 0 {
        seq![]
    } else {
        let rest = links_after_removal(links.drop_last(), k);
        if touches(links.last(), k) {
            rest
        } else {
            rest.push(shift_link(links.last(), k))
        }
    }
}

/// The output pins linked to input pin `p` of node `n`, in link order.
pub open spec fn inputs_into(links: Seq<Link>, n: usize, p: nat) -> Seq<PinId>
    decreases links.len(),
{
    if links.len() == 0 {
        seq![]
    } else {
        let rest = inputs_into(links.drop_last(), n, p);
        let l = links.last();
        if l.1.node_index == n && l.1.pin_index == p {
            rest.push(l.0)
        } else {
            rest
        }
    }
}

/// The output pins linked to the input pins of node `n` below `k`: ordered by
/// the input pin they feed, in link order among links into the same pin.
pub open spec fn inputs_below(links: Seq<Link>, n: usize, k: nat) -> Seq<PinId>
    decreases k,
{
    if k == 0 {
        seq![]
    } else {
        inputs_below(links, n, (k - 1) as nat) + inputs_into(links, n, (k - 1) as nat)
    }
}

/// All output pins linked into node `n`, as `inputs_below` orders them.
pub open spec fn node_inputs(links: Seq<Link>, n: usize) -> Seq<PinId> {
    inputs_below(links, n, usize::MAX as nat + 1)
}

pub proof fn lemma_inputs_into_none(links: Seq<Link>, n: usize, p: nat)
    requires
        forall|i: int|
            0 <= i < links.len() ==> !(#[trigger] links[i].1.node_index == n && links[i].1.pin_index
                == p),
    ensures
        inputs_into(links, n, p) == Seq::<PinId>::empty(),
    decreases links.len(),
{
    if links.len() > 0 {
        let d = links.drop_last();
        assert forall|i: int| 0 <= i < d.len() implies !(#[trigger] d[i].1.node_index == n
            && d[i].1.pin_index == p) by {
            assert(d[i] == links[i]);
        }
        lemma_inputs_into_none(d, n, p);
        assert(links.last() == links[links.len() - 1]);
    }
}

/// No link enters a pin in `[a, b)`: the inputs below `b` are those below `a`.
pub proof fn lemma_inputs_below_gap(links: Seq<Link>, n: usize, a: nat, b: nat)
    requires
        a <= b,
        forall|i: int|
            0 <= i < links.len() && #[trigger] links[i].1.node_index == n ==> links[i].1.pin_index
                < a || links[i].1.pin_index >= b,
    ensures
        inputs_below(links, n, b) == inputs_below(links, n, a),
    decreases b - a,
{
    if a < b {
        let c = (b - 1) as nat;
        lemma_inputs_below_gap(links, n, a, c);
        lemma_inputs_into_none(links, n, c);
        assert(inputs_below(links, n, b) == inputs_below(links, n, c) + Seq::<PinId>::empty());
        assert(inputs_below(links, n, c) + Seq::<PinId>::empty() =~= inputs_below(links, n, c));
    }
}

pub proof fn lemma_links_after_removal_origin(links: Seq<Link>, k: usize, i: int)
    requires
        0 <= i < links_after_removal(links, k).len(),
    ensures
        exists|j: int|
            0 <= j < links.len() && !touches(#[trigger] links[j], k) && shift_link(links[j], k)
                == links_after_removal(links, k)[i],
    decreases links.len(),
{
    let d = links.drop_last();
    let rest = links_after_removal(d, k);
    if i < rest.len() {
        lemma_links_after_removal_origin(d, k, i);
        let j = choose|j: int|
            0 <= j < d.len() && !touches(#[trigger] d[j], k) && shift_link(d[j], k) == rest[i];
        assert(links[j] == d[j]);
    } else {
        let j = links.len() - 1;
        assert(links[j] == links.last());
    }
}

pub proof fn lemma_links_without_pin_origin(links: Seq<Link>, pin: PinId, i: int)
    requires
        0 <= i < links_without_pin(links, pin).len(),
    ensures
        exists|j: int|
            0 <= j < links.len() && #[trigger] links[j] == links_without_pin(links, pin)[i],
        links_without_pin(links, pin)[i].0 != pin,
        links_without_pin(links, pin)[i].1 != pin,
    decreases links.len(),
{
    let d = links.drop_last();
    let rest = links_without_pin(d, pin);
    if i < rest.len() {
        lemma_links_without_pin_origin(d, pin, i);
        let j = choose|j: int| 0 <= j < d.len() && #[trigger] d[j] == rest[i];
        assert(links[j] == d[j]);
    } else {
        let j = links.len() - 1;
        assert(links[j] == links.last());
    }
}

pub proof fn lemma_links_without_pin_len(links: Seq<Link>, pin: PinId)
    ensures
        links_without_pin(links, pin).len() <= links.len(),
        links_without_pin(links, pin).len() == links.len() ==> links_without_pin(links, pin)
            == links,
    decreases links.len(),
{
    if links.len() > 0 {
        lemma_links_without_pin_len(links.drop_last(), pin);
        if links_without_pin(links, pin).len() == links.len() {
            assert(links.drop_last().push(links.last()) =~= links);
        }
    }
}

/// Takes out every link with an end at `pin_id`; says whether any went.
pub fn disconnect_pin(links: &mut Vec<Link>, pin_id: &PinId) -> (r: bool)
    ensures
        final(links)@ == links_without_pin(old(links)@, *pin_id),
        r == (final(links)@ != old(links)@),
{
    let ghost start = links@;
    let mut kept: Vec<Link> = Vec::new();
    let mut i: usize = 0;
    while i < links.len()
        invariant
            links@ == start,
            i <= start.len(),
            kept@ == links_without_pin(start.take(i as int), *pin_id),
        decreases start.len() - i,
    {
        let l = links[i];
        assert(start.take(i + 1).drop_last() == start.take(i as int));
        if !(l.0 == *pin_id || l.1 == *pin_id) {
            kept.push(l);
        }
        i = i + 1;
    }
    assert(start.take(start.len() as int) == start);
    proof {
        lemma_links_without_pin_len(start, *pin_id);
    }
    let removed = kept.len() < links.len();
    *links = kept;
    removed
}

pub struct Graph<W: NodeWidget> {
    pub nodes: Vec<Node<W>>,
    pub links: Vec<Link>,
}

impl<W: NodeWidget> Graph<W> {
    /// Every link joins an output pin to an input pin that exist.
    pub open spec fn wf(&self) -> bool {
        links_valid(self.nodes@, self.links@)
    }

    pub fn new() -> (r: Graph<W>)
        ensures
            r.nodes@.len() == 0,
            r.links@.len() == 0,
            r.wf(),
    {
        Graph { nodes: Vec::new(), links: Vec::new() }
    }

    /// Appends a node, linked to nothing.
    pub fn add_node(&mut self, widget: W)
        requires
            old(self).wf(),
        ensures
            final(self).nodes@ == old(self).nodes@.push(Node { widget }),
            final(self).links@ == old(self).links@,
            final(self).wf(),
    {
        self.nodes.push(Node::new(widget));
        assert forall|i: int| 0 <= i < self.links@.len() implies link_valid(
            self.nodes@,
            #[trigger] self.links@[i],
        ) by {
            let l = self.links@[i];
            assert(link_valid(old(self).nodes@, l));
            assert(self.nodes@[l.0.node_index as int] == old(self).nodes@[l.0.node_index as int]);
            assert(self.nodes@[l.1.node_index as int] == old(self).nodes@[l.1.node_index as int]);
        }
    }

    pub fn is_valid_link(&self, l: Link) -> (r: bool)
        ensures
            r == link_valid(self.nodes@, l),
    {
        l.0.direction == PinDirection::Output && l.1.direction == PinDirection::Input
            && l.0.node_index < self.nodes.len() && l.1.node_index < self.nodes.len()
            && l.0.pin_index < self.nodes[l.0.node_index].widget.out_pins().len()
            && l.1.pin_index < self.nodes[l.1.node_index].widget.in_pins().len()
    }

    /// Links the pin a drag ended on, `to`, with the pin it started from,
    /// output end first. A pair that cannot form a valid link is refused and
    /// the graph stays as it is. Duplicates and cycles are accepted.
    pub fn add_link(&mut self, to: PinId, from: PinId) -> (r: bool)
        requires
            old(self).wf(),
        ensures
            r == link_valid(old(self).nodes@, canonical_link(to, from)),
            final(self).nodes@ == old(self).nodes@,
            r ==> final(self).links@ == old(self).links@.push(canonical_link(to, from)),
            !r ==> final(self).links@ == old(self).links@,
            final(self).wf(),
    {
        let l = to.link(from);
        if self.is_valid_link(l) {
            self.links.push(l);
            assert forall|i: int| 0 <= i < self.links@.len() implies link_valid(
                self.nodes@,
                #[trigger] self.links@[i],
            ) by {
                if i < old(self).links@.len() {
                    assert(self.links@[i] == old(self).links@[i]);
                }
            }
            true
        } else {
            false
        }
    }

    /// Takes out every link with an end at `pin`; says whether any went.
    pub fn disconnect(&mut self, pin: PinId) -> (r: bool)
        requires
            old(self).wf(),
        ensures
            final(self).nodes@ == old(self).nodes@,
            final(self).links@ == links_without_pin(old(self).links@, pin),
            r == (final(self).links@ != old(self).links@),
            final(self).wf(),
    {
        let r = disconnect_pin(&mut self.links, &pin);
        assert forall|i: int| 0 <= i < self.links@.len() implies link_valid(
            self.nodes@,
            #[trigger] self.links@[i],
        ) by {
            lemma_links_without_pin_origin(old(self).links@, pin, i);
        }
        r
    }

    /// A graph of `nodes` and of those `links` that address existing pins,
    /// in their order; the others are dropped.
    pub fn from_parts(nodes: Vec<Node<W>>, links: Vec<Link>) -> (r: Graph<W>)
        ensures
            r.nodes@ == nodes@,
            r.links@ == links@.filter(|l: Link| link_valid(nodes@, l)),
            r.wf(),
    {
        let mut g = Graph { nodes, links };
        g.retain_valid_links();
        g
    }

    /// Keeps only the links that address existing pins, in their order.
    pub fn retain_valid_links(&mut self)
        ensures
            final(self).nodes@ == old(self).nodes@,
            final(self).links@ == old(self).links@.filter(|l: Link| link_valid(old(self).nodes@, l)),
            final(self).wf(),
    {
        let ghost start = self.links@;
        let ghost pred = |l: Link| link_valid(self.nodes@, l);
        let mut kept: Vec<Link> = Vec::new();
        let mut i: usize = 0;
        while i < self.links.len()
            invariant
                self.links@ == start,
                self.nodes@ == old(self).nodes@,
                pred == (|l: Link| link_valid(self.nodes@, l)),
                i <= start.len(),
                kept@ == start.take(i as int).filter(pred),
            decreases start.len() - i,
        {
            let l = self.links[i];
            assert(start.take(i + 1).drop_last() == start.take(i as int));
            proof {
                reveal_with_fuel(Seq::filter, 1);
            }
            if self.is_valid_link(l) {
                kept.push(l);
            }
            i = i + 1;
        }
        assert(start.take(start.len() as int) == start);
        proof {
            broadcast use vstd::seq_lib::group_filter_ensures;

            assert forall|j: int| 0 <= j < kept@.len() implies link_valid(
                self.nodes@,
                #[trigger] kept@[j],
            ) by {
                assert(pred(kept@[j]));
            }
        }
        self.links = kept;
    }

    /// The output pins linked into node `node_index`, ordered by the input pin
    /// they feed; links into the same pin keep their order.
    pub fn inputs_for(&self, node_index: usize) -> (r: Vec<PinId>)
        ensures
            r@ == node_inputs(self.links@, node_index),
    {
        let ghost links = self.links@;
        let mut out: Vec<PinId> = Vec::new();
        let mut lo: usize = 0;
        let mut done = false;
        while !done
            invariant
                links == self.links@,
                !done ==> out@ == inputs_below(links, node_index, lo as nat),
                done ==> out@ == node_inputs(links, node_index),
            decreases usize::MAX as int + 1 - lo - (if done {
                1int
            } else {
                0int
            }),
        {
            match self.lowest_pin_from(node_index, lo) {
                None => {
                    proof {
                        lemma_inputs_below_gap(links, node_index, lo as nat, usize::MAX as nat + 1);
                    }
                    done = true;
                },
                Some(q) => {
                    proof {
                        lemma_inputs_below_gap(links, node_index, lo as nat, q as nat);
                    }
                    let mut i: usize = 0;
                    while i < self.links.len()
                        invariant
                            links == self.links@,
                            i <= links.len(),
                            out@ == inputs_below(links, node_index, q as nat) + inputs_into(
                                links.take(i as int),
                                node_index,
                                q as nat,
                            ),
                        decreases links.len() - i,
                    {
                        let l = self.links[i];
                        assert(links.take(i + 1).drop_last() == links.take(i as int));
                        if l.1.node_index == node_index && l.1.pin_index == q {
                            out.push(l.0);
                        }
                        i = i + 1;
                    }
                    assert(links.take(links.len() as int) == links);
                    assert(out@ == inputs_below(links, node_index, q as nat + 1));
                    if q == usize::MAX {
                        done = true;
                    } else {
                        lo = q + 1;
                    }
                },
            }
        }
        out
    }

    /// The lowest input pin index at least `lo` that a link into node `n` feeds.
    fn lowest_pin_from(&self, n: usize, lo: usize) -> (r: Option<usize>)
        ensures
            match r {
                Some(q) => lo <= q && forall|i: int|
                    0 <= i < self.links@.len() && #[trigger] self.links@[i].1.node_index == n
                        ==> self.links@[i].1.pin_index < lo || self.links@[i].1.pin_index >= q,
                None => forall|i: int|
                    0 <= i < self.links@.len() && #[trigger] self.links@[i].1.node_index == n
                        ==> self.links@[i].1.pin_index < lo,
            },
    {
        let mut best: Option<usize> = None;
        let mut i: usize = 0;
        while i < self.links.len()
            invariant
                i <= self.links@.len(),
                match best {
                    Some(q) => lo <= q && forall|j: int|
                        0 <= j < i && #[trigger] self.links@[j].1.node_index == n
                            ==> self.links@[j].1.pin_index < lo || self.links@[j].1.pin_index >= q,
                    None => forall|j: int|
                        0 <= j < i && #[trigger] self.links@[j].1.node_index == n
                            ==> self.links@[j].1.pin_index < lo,
                },
            decreases self.links@.len() - i,
        {
            let to = self.links[i].1;
            if to.node_index == n && to.pin_index >= lo {
                match best {
                    Some(q) => {
                        if to.pin_index < q {
                            best = Some(to.pin_index);
                        }
                    },
                    None => {
                        best = Some(to.pin_index);
                    },
                }
            }
            i = i + 1;
        }
        best
    }

    /// Removes the node at `index`: links touching it are dropped, the others
    /// renumbered so that node positions stay dense.
    pub fn remove_node(&mut self, index: usize)
        requires
            index < old(self).nodes@.len(),
        ensures
            final(self).nodes@ == old(self).nodes@.remove(index as int),
            final(self).links@ == links_after_removal(old(self).links@, index),
            old(self).wf() ==> final(self).wf(),
    {
        let ghost start = self.links@;
        let mut kept: Vec<Link> = Vec::new();
        let mut i: usize = 0;
        while i < self.links.len()
            invariant
                self.links@ == start,
                i <= start.len(),
                kept@ == links_after_removal(start.take(i as int), index),
            decreases start.len() - i,
        {
            let l = self.links[i];
            assert(start.take(i + 1).drop_last() == start.take(i as int));
            if l.0.node_index != index && l.1.node_index != index {
                let from = if l.0.node_index > index {
                    PinId { node_index: l.0.node_index - 1, pin_index: l.0.pin_index, direction: l.0.direction }
                } else {
                    l.0
                };
                let to = if l.1.node_index > index {
                    PinId { node_index: l.1.node_index - 1, pin_index: l.1.pin_index, direction: l.1.direction }
                } else {
                    l.1
                };
                kept.push((from, to));
            }
            i = i + 1;
        }
        assert(start.take(start.len() as int) == start);
        self.links = kept;
        self.nodes.remove(index);
        proof {
            if old(self).wf() {
                lemma_removal_keeps_links_valid(old(self).nodes@, start, index);
            }
        }
    }
}

/// Removing a node from a graph whose links are valid leaves links that are
/// valid for the remaining nodes; each of them is a renumbered link of the
/// given links that did not touch the removed node.
pub proof fn lemma_removal_keeps_links_valid<W: NodeWidget>(
    nodes: Seq<Node<W>>,
    links: Seq<Link>,
    k: usize,
)
    requires
        k < nodes.len(),
        links_valid(nodes, links),
    ensures
        links_valid(nodes.remove(k as int), links_after_removal(links, k)),
        forall|i: int|
            0 <= i < links_after_removal(links, k).len() ==> comes_from_untouched(
                links,
                k,
                #[trigger] links_after_removal(links, k)[i],
            ),
{
    let after = links_after_removal(links, k);
    let rest = nodes.remove(k as int);
    assert forall|i: int| 0 <= i < after.len() implies link_valid(rest, #[trigger] after[i]) by {
        lemma_links_after_removal_origin(links, k, i);
        let j = choose|j: int|
            0 <= j < links.len() && !touches(#[trigger] links[j], k) && shift_link(links[j], k)
                == after[i];
        assert(link_valid(nodes, links[j]));
        let a = links[j].0.node_index;
        let b = links[j].1.node_index;
        if a > k {
            assert(rest[a - 1] == nodes[a as int]);
        } else {
            assert(rest[a as int] == nodes[a as int]);
        }
        if b > k {
            assert(rest[b - 1] == nodes[b as int]);
        } else {
            assert(rest[b as int] == nodes[b as int]);
        }
    }
    assert forall|i: int| 0 <= i < after.len() implies comes_from_untouched(
        links,
        k,
        #[trigger] after[i],
    ) by {
        lemma_links_after_removal_origin(links, k, i);
    }
}

} // verus!

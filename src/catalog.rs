use vstd::prelude::*;
use vstd::string::StringExecFns;
use crate::node::{Graph, NodeWidget, Node, Pin};

verus! {

/// An 8-bit sRGBA color with premultiplied alpha, as the editor stores it.
#[derive(Clone, Copy, Debug, PartialEq, Eq, Structural)]
pub struct Rgba {
    pub r: u8,
    pub g: u8,
    pub b: u8,
    pub a: u8,
}

/// The catalog of node kinds, each with its literal configuration.
#[derive(Clone, Debug, PartialEq)]
pub enum NodeKind {
    /// Yields the evaluation time.
    Time,
    /// A number literal, held as the bit pattern of an IEEE-754 single.
    Float(u32),
    /// A text literal.
    Text(String),
    /// A color literal.
    Color(Rgba),
    /// `a * (1 - t) + b * t` of its three inputs.
    Lerp,
    /// Cubic easing; the flag tells ease-in from ease-out.
    Cubic(bool),
    /// An image loaded from the file at the stored path.
    Pixmap(String),
    /// A color field seen through a transform.
    TransformColorField,
    /// A number in [0, 1] as an angle in [0, 2π).
    Revolution,
    Rotate,
    Scale,
    /// A hexagonal tiling filled from a color field.
    Hex,
    /// The sink whose input is the picture shown.
    Output,
}

/// `n` pins.
fn pins(n: usize) -> (r: Vec<Pin>)
    ensures
        r@.len() == n,
{
    let mut v: Vec<Pin> = Vec::new();
    let mut i: usize = 0;
    while i < n
        invariant
            i <= n,
            v@.len() == i,
        decreases n - i,
    {
        v.push(Pin::new());
        i = i + 1;
    }
    v
}

impl NodeKind {
    pub open spec fn input_count(&self) -> nat {
        match self {
            NodeKind::Lerp => 3,
            NodeKind::Cubic(_) => 1,
            NodeKind::Revolution => 1,
            NodeKind::Rotate => 1,
            NodeKind::Scale => 2,
            NodeKind::TransformColorField => 2,
            NodeKind::Hex => 4,
            NodeKind::Output => 1,
            _ => 0,
        }
    }

    pub open spec fn output_count(&self) -> nat {
        match self {
            NodeKind::Output => 0,
            _ => 1,
        }
    }

    pub open spec fn title_spec(&self) -> Seq<char> {
        match self {
            NodeKind::Time => "time"@,
            NodeKind::Float(_) => "float"@,
            NodeKind::Text(_) => "text"@,
            NodeKind::Color(_) => "color"@,
            NodeKind::Lerp => "lerp"@,
            NodeKind::Cubic(_) => "cubic"@,
            NodeKind::Pixmap(_) => "pixmap"@,
            NodeKind::TransformColorField => "transform color field"@,
            NodeKind::Revolution => "revolution"@,
            NodeKind::Rotate => "rotate"@,
            NodeKind::Scale => "scale"@,
            NodeKind::Hex => "hex"@,
            NodeKind::Output => "output"@,
        }
    }
}

impl NodeWidget for NodeKind {
    open spec fn in_count(&self) -> nat {
        self.input_count()
    }

    open spec fn out_count(&self) -> nat {
        self.output_count()
    }

    open spec fn title_text(&self) -> Seq<char> {
        self.title_spec()
    }

    fn in_pins(&self) -> (r: Vec<Pin>) {
        match self {
            NodeKind::Lerp => pins(3),
            NodeKind::Cubic(_) => pins(1),
            NodeKind::Revolution => pins(1),
            NodeKind::Rotate => pins(1),
            NodeKind::Scale => pins(2),
            NodeKind::TransformColorField => pins(2),
            NodeKind::Hex => pins(4),
            NodeKind::Output => pins(1),
            _ => pins(0),
        }
    }

    fn out_pins(&self) -> (r: Vec<Pin>) {
        match self {
            NodeKind::Output => pins(0),
            _ => pins(1),
        }
    }

    fn title(&self) -> (r: String) {
        let s = match self {
            NodeKind::Time => "time",
            NodeKind::Float(_) => "float",
            NodeKind::Text(_) => "text",
            NodeKind::Color(_) => "color",
            NodeKind::Lerp => "lerp",
            NodeKind::Cubic(_) => "cubic",
            NodeKind::Pixmap(_) => "pixmap",
            NodeKind::TransformColorField => "transform color field",
            NodeKind::Revolution => "revolution",
            NodeKind::Rotate => "rotate",
            NodeKind::Scale => "scale",
            NodeKind::Hex => "hex",
            NodeKind::Output => "output",
        };
        String::from_str(s)
    }
}

/// A fresh graph: a single output node and no links.
pub fn create_graph() -> (r: Graph<NodeKind>)
    ensures
        r.nodes@ == seq![Node { widget: NodeKind::Output }],
        r.links@.len() == 0,
        r.wf(),
{
    let mut graph = Graph::new();
    graph.add_node(NodeKind::Output);
    assert(graph.nodes@ =~= seq![Node { widget: NodeKind::Output }]);
    graph
}

} // verus!

use vstd::prelude::*;
use vstd::string::{StrSliceExecFns, StringExecFns};
use crate::catalog::{NodeKind, Rgba};

verus! {

/// The literal configuration a node record carries.
#[derive(Clone, Debug, PartialEq)]
pub enum Payload {
    Nothing,
    /// A number, as the bit pattern of an IEEE-754 single.
    Number(u32),
    Text(String),
    Flag(bool),
    Path(String),
    Color(Rgba),
}

/// Which payload a record with a given tag carries.
#[derive(Clone, Copy, Debug, PartialEq, Eq, Structural)]
pub enum PayloadShape {
    Nothing,
    Number,
    Text,
    Flag,
    Path,
    Color,
}

/// The persisted form of a node: a type tag and a payload.
#[derive(Clone, Debug, PartialEq)]
pub struct NodeRecord {
    pub tag: String,
    pub payload: Payload,
}

pub open spec fn tag_of(k: NodeKind) -> Seq<char> {
    match k {
        NodeKind::Time => "time"@,
        NodeKind::Float(_) => "float"@,
        NodeKind::Text(_) => "string"@,
        NodeKind::Color(_) => "color"@,
        NodeKind::Lerp => "lerp"@,
        NodeKind::Cubic(_) => "cubic"@,
        NodeKind::Pixmap(_) => "pixmap"@,
        NodeKind::TransformColorField => "transform-color-field"@,
        NodeKind::Revolution => "revolution"@,
        NodeKind::Rotate => "rotate"@,
        NodeKind::Scale => "scale"@,
        NodeKind::Hex => "hex"@,
        NodeKind::Output => "output"@,
    }
}

pub open spec fn payload_of(k: NodeKind) -> Payload {
    match k {
        NodeKind::Float(bits) => Payload::Number(bits),
        NodeKind::Text(s) => Payload::Text(s),
        NodeKind::Color(c) => Payload::Color(c),
        NodeKind::Cubic(is_in) => Payload::Flag(is_in),
        NodeKind::Pixmap(path) => Payload::Path(path),
        _ => Payload::Nothing,
    }
}

pub open spec fn shape_of_payload(p: Payload) -> PayloadShape {
    match p {
        Payload::Nothing => PayloadShape::Nothing,
        Payload::Number(_) => PayloadShape::Number,
        Payload::Text(_) => PayloadShape::Text,
        Payload::Flag(_) => PayloadShape::Flag,
        Payload::Path(_) => PayloadShape::Path,
        Payload::Color(_) => PayloadShape::Color,
    }
}

/// The payload a record with tag `tag` carries; unknown tags carry none.
pub open spec fn shape_of_tag(tag: Seq<char>) -> PayloadShape {
    if tag == "float"@ {
        PayloadShape::Number
    } else if tag == "string"@ {
        PayloadShape::Text
    } else if tag == "color"@ {
        PayloadShape::Color
    } else if tag == "cubic"@ {
        PayloadShape::Flag
    } else if tag == "pixmap"@ {
        PayloadShape::Path
    } else {
        PayloadShape::Nothing
    }
}

/// The node a record stands for: `None` for an unknown tag, or for a known
/// tag whose payload is not of the shape it needs. Tags without a payload
/// ignore whatever payload comes with them.
pub open spec fn kind_of(tag: Seq<char>, p: Payload) -> Option<NodeKind> {
    if tag == "time"@ {
        Some(NodeKind::Time)
    } else if tag == "float"@ {
        match p {
            Payload::Number(bits) => Some(NodeKind::Float(bits)),
            _ => None,
        }
    } else if tag == "string"@ {
        match p {
            Payload::Text(s) => Some(NodeKind::Text(s)),
            _ => None,
        }
    } else if tag == "color"@ {
        match p {
            Payload::Color(c) => Some(NodeKind::Color(c)),
            _ => None,
        }
    } else if tag == "lerp"@ {
        Some(NodeKind::Lerp)
    } else if tag == "cubic"@ {
        match p {
            Payload::Flag(is_in) => Some(NodeKind::Cubic(is_in)),
            _ => None,
        }
    } else if tag == "pixmap"@ {
        match p {
            Payload::Path(path) => Some(NodeKind::Pixmap(path)),
            _ => None,
        }
    } else if tag == "transform-color-field"@ {
        Some(NodeKind::TransformColorField)
    } else if tag == "revolution"@ {
        Some(NodeKind::Revolution)
    } else if tag == "rotate"@ {
        Some(NodeKind::Rotate)
    } else if tag == "scale"@ {
        Some(NodeKind::Scale)
    } else if tag == "hex"@ {
        Some(NodeKind::Hex)
    } else if tag == "output"@ {
        Some(NodeKind::Output)
    } else {
        None
    }
}

/// Whether two texts hold the same characters.
fn same_text(a: &str, b: &str) -> (r: bool)
    ensures
        r == (a@ == b@),
{
    let n = a.unicode_len();
    if n != b.unicode_len() {
        return false;
    }
    let mut i: usize = 0;
    while i < n
        invariant
            n == a@.len(),
            n == b@.len(),
            i <= n,
            forall|j: int| 0 <= j < i ==> a@[j] == b@[j],
        decreases n - i,
    {
        if a.get_char(i) != b.get_char(i) {
            return false;
        }
        i = i + 1;
    }
    assert(a@ =~= b@);
    true
}

/// The record that persists `kind`.
pub fn encode(kind: &NodeKind) -> (r: NodeRecord)
    ensures
        r.tag@ == tag_of(*kind),
        r.payload == payload_of(*kind),
{
    let (tag, payload) = match kind {
        NodeKind::Time => ("time", Payload::Nothing),
        NodeKind::Float(bits) => ("float", Payload::Number(*bits)),
        NodeKind::Text(s) => ("string", Payload::Text(s.clone())),
        NodeKind::Color(c) => ("color", Payload::Color(*c)),
        NodeKind::Lerp => ("lerp", Payload::Nothing),
        NodeKind::Cubic(is_in) => ("cubic", Payload::Flag(*is_in)),
        NodeKind::Pixmap(path) => ("pixmap", Payload::Path(path.clone())),
        NodeKind::TransformColorField => ("transform-color-field", Payload::Nothing),
        NodeKind::Revolution => ("revolution", Payload::Nothing),
        NodeKind::Rotate => ("rotate", Payload::Nothing),
        NodeKind::Scale => ("scale", Payload::Nothing),
        NodeKind::Hex => ("hex", Payload::Nothing),
        NodeKind::Output => ("output", Payload::Nothing),
    };
    NodeRecord { tag: String::from_str(tag), payload }
}

/// The payload that a record tagged `tag` carries, so that a reader knows
/// what to look for.
pub fn payload_shape(tag: &str) -> (r: PayloadShape)
    ensures
        r == shape_of_tag(tag@),
{
    if same_text(tag, "float") {
        PayloadShape::Number
    } else if same_text(tag, "string") {
        PayloadShape::Text
    } else if same_text(tag, "color") {
        PayloadShape::Color
    } else if same_text(tag, "cubic") {
        PayloadShape::Flag
    } else if same_text(tag, "pixmap") {
        PayloadShape::Path
    } else {
        PayloadShape::Nothing
    }
}

/// The node that a record with tag `tag` and payload `payload` stands for.
pub fn decode(tag: &str, payload: Payload) -> (r: Option<NodeKind>)
    ensures
        r == kind_of(tag@, payload),
{
    if same_text(tag, "time") {
        Some(NodeKind::Time)
    } else if same_text(tag, "float") {
        match payload {
            Payload::Number(bits) => Some(NodeKind::Float(bits)),
            _ => None,
        }
    } else if same_text(tag, "string") {
        match payload {
            Payload::Text(s) => Some(NodeKind::Text(s)),
            _ => None,
        }
    } else if same_text(tag, "color") {
        match payload {
            Payload::Color(c) => Some(NodeKind::Color(c)),
            _ => None,
        }
    } else if same_text(tag, "lerp") {
        Some(NodeKind::Lerp)
    } else if same_text(tag, "cubic") {
        match payload {
            Payload::Flag(is_in) => Some(NodeKind::Cubic(is_in)),
            _ => None,
        }
    } else if same_text(tag, "pixmap") {
        match payload {
            Payload::Path(path) => Some(NodeKind::Pixmap(path)),
            _ => None,
        }
    } else if same_text(tag, "transform-color-field") {
        Some(NodeKind::TransformColorField)
    } else if same_text(tag, "revolution") {
        Some(NodeKind::Revolution)
    } else if same_text(tag, "rotate") {
        Some(NodeKind::Rotate)
    } else if same_text(tag, "scale") {
        Some(NodeKind::Scale)
    } else if same_text(tag, "hex") {
        Some(NodeKind::Hex)
    } else if same_text(tag, "output") {
        Some(NodeKind::Output)
    } else {
        None
    }
}

/// Decoding the record of any node gives that node back, and the tag names
/// the shape of the payload that goes with it.
pub proof fn lemma_round_trip(k: NodeKind)
    ensures
        kind_of(tag_of(k), payload_of(k)) == Some(k),
        shape_of_tag(tag_of(k)) == shape_of_payload(payload_of(k)),
{
    reveal_strlit("time");
    assert("time"@.len() == 4 && "time"@[0] == 't');
    reveal_strlit("float");
    assert("float"@.len() == 5 && "float"@[0] == 'f');
    reveal_strlit("string");
    assert("string"@.len() == 6 && "string"@[0] == 's');
    reveal_strlit("color");
    assert("color"@.len() == 5 && "color"@[0] == 'c');
    reveal_strlit("lerp");
    assert("lerp"@.len() == 4 && "lerp"@[0] == 'l');
    reveal_strlit("cubic");
    assert("cubic"@.len() == 5 && "cubic"@[0] == 'c');
    reveal_strlit("pixmap");
    assert("pixmap"@.len() == 6 && "pixmap"@[0] == 'p');
    reveal_strlit("transform-color-field");
    assert("transform-color-field"@.len() == 21 && "transform-color-field"@[0] == 't');
    reveal_strlit("revolution");
    assert("revolution"@.len() == 10 && "revolution"@[0] == 'r');
    reveal_strlit("rotate");
    assert("rotate"@.len() == 6 && "rotate"@[0] == 'r');
    reveal_strlit("scale");
    assert("scale"@.len() == 5 && "scale"@[0] == 's');
    reveal_strlit("hex");
    assert("hex"@.len() == 3 && "hex"@[0] == 'h');
    reveal_strlit("output");
    assert("output"@.len() == 6 && "output"@[0] == 'o');
    assert("color"@[1] == 'o' && "cubic"@[1] == 'u');
}

} // verus!

use pixel_labs::catalog::{NodeKind, Rgba};
use pixel_labs::codec::{decode, encode, payload_shape, Payload, PayloadShape};

fn all_kinds() -> Vec<NodeKind> {
    vec![
        NodeKind::Time,
        NodeKind::Float(0x3f800000),
        NodeKind::Text(String::from("hello")),
        NodeKind::Color(Rgba { r: 255, g: 0, b: 0, a: 255 }),
        NodeKind::Lerp,
        NodeKind::Cubic(true),
        NodeKind::Cubic(false),
        NodeKind::Pixmap(String::from("assets/tile.png")),
        NodeKind::TransformColorField,
        NodeKind::Revolution,
        NodeKind::Rotate,
        NodeKind::Scale,
        NodeKind::Hex,
        NodeKind::Output,
    ]
}

#[test]
fn every_kind_round_trips() {
    for kind in all_kinds() {
        let record = encode(&kind);
        assert_eq!(decode(&record.tag, record.payload.clone()), Some(kind.clone()));
        let shape = payload_shape(&record.tag);
        let expected = match record.payload {
            Payload::Nothing => PayloadShape::Nothing,
            Payload::Number(_) => PayloadShape::Number,
            Payload::Text(_) => PayloadShape::Text,
            Payload::Flag(_) => PayloadShape::Flag,
            Payload::Path(_) => PayloadShape::Path,
            Payload::Color(_) => PayloadShape::Color,
        };
        assert_eq!(shape, expected);
    }
}

#[test]
fn encode_uses_persisted_tags() {
    assert_eq!(encode(&NodeKind::Float(0x3f800000)).tag, "float");
    assert_eq!(encode(&NodeKind::Float(0x3f800000)).payload, Payload::Number(0x3f800000));
    assert_eq!(encode(&NodeKind::Text(String::from("x"))).tag, "string");
    assert_eq!(encode(&NodeKind::TransformColorField).tag, "transform-color-field");
    assert_eq!(encode(&NodeKind::Cubic(false)).payload, Payload::Flag(false));
}

#[test]
fn unknown_tag_or_wrong_payload_is_refused() {
    assert_eq!(decode("spline", Payload::Nothing), None);
    assert_eq!(decode("", Payload::Nothing), None);
    assert_eq!(decode("float", Payload::Nothing), None);
    assert_eq!(decode("color", Payload::Text(String::from("#ff0000ff"))), None);
    assert_eq!(decode("cubic", Payload::Number(1)), None);
    assert_eq!(decode("pixmap", Payload::Text(String::from("a.png"))), None);
    assert_eq!(payload_shape("spline"), PayloadShape::Nothing);
}

#[test]
fn payloadless_tags_ignore_payload() {
    assert_eq!(decode("hex", Payload::Number(3)), Some(NodeKind::Hex));
    assert_eq!(decode("output", Payload::Flag(true)), Some(NodeKind::Output));
}

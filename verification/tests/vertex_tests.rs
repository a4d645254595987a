use lyon_path::FillRule;
use lyon_path::VertexId;

#[test]
fn vertex_id_conversions() {
    let id = VertexId(7);
    assert_eq!(id.offset(), 7);
    assert_eq!(id.to_usize(), 7usize);
    assert_eq!(VertexId::from_usize(7usize), id);
    assert_eq!(VertexId::from_usize(usize::MAX), VertexId::invalid());
    assert_eq!(VertexId::invalid().offset(), u32::MAX);
}

#[test]
fn fill_rule_is_a_plain_value() {
    assert_eq!(FillRule::EvenOdd, FillRule::EvenOdd);
    assert_ne!(FillRule::EvenOdd, FillRule::NonZero);
}

#[test]
fn vertex_id_from_conversions() {
    assert_eq!(VertexId::from(7u16), VertexId(7));
    assert_eq!(VertexId::from(7u32), VertexId(7));
    assert_eq!(VertexId::from(7i32), VertexId(7));
    assert_eq!(VertexId::from(-1i32), VertexId::invalid());
    let id = VertexId(9);
    assert_eq!(u16::from(id), 9u16);
    assert_eq!(u32::from(id), 9u32);
    assert_eq!(i32::from(id), 9i32);
    assert_eq!(usize::from(id), 9usize);
}

#[test]
fn vertex_id_offset_arithmetic() {
    assert_eq!(VertexId(3).add(4), VertexId(7));
    assert_eq!(VertexId(7).sub(4), VertexId(3));
    assert_eq!(VertexId(5).add(0), VertexId(5));
    assert_eq!(VertexId(5).sub(5), VertexId(0));
}

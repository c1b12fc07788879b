use postgres_browser_proxy::{point_json, EwkbError, LongLat};

fn point(srid: Option<i32>, long: f64, lat: f64) -> Vec<u8> {
    let mut raw = vec![1u8];
    let type_id: u32 = if srid.is_some() { 0x2000_0001 } else { 1 };
    raw.extend_from_slice(&type_id.to_le_bytes());
    if let Some(s) = srid {
        raw.extend_from_slice(&s.to_le_bytes());
    }
    raw.extend_from_slice(&long.to_le_bytes());
    raw.extend_from_slice(&lat.to_le_bytes());
    raw
}

#[test]
fn point_with_srid() {
    let p = LongLat::from_ewkb(&point(Some(4326), 13.4, 52.5)).unwrap();
    assert_eq!(f64::from_bits(p.long_bits), 13.4);
    assert_eq!(f64::from_bits(p.lat_bits), 52.5);
    assert_eq!(p.srid, Some(4326));
}

#[test]
fn point_without_srid() {
    let p = LongLat::from_ewkb(&point(None, -1.25, 0.5)).unwrap();
    assert_eq!(p, LongLat::new((-1.25f64).to_bits(), 0.5f64.to_bits(), None));
}

#[test]
fn negative_srid() {
    let p = LongLat::from_ewkb(&point(Some(-2), 0.0, 0.0)).unwrap();
    assert_eq!(p.srid, Some(-2));
}

#[test]
fn byte_order_byte_is_ignored() {
    let mut raw = point(Some(4326), 1.0, 2.0);
    let a = LongLat::from_ewkb(&raw);
    raw[0] = 0;
    assert_eq!(LongLat::from_ewkb(&raw), a);
}

#[test]
fn refusals() {
    let raw = point(Some(4326), 1.0, 2.0);
    assert_eq!(LongLat::from_ewkb(&raw[..raw.len() - 1]), Err(EwkbError::Truncated));
    assert_eq!(LongLat::from_ewkb(&raw[..3]), Err(EwkbError::Truncated));
    assert_eq!(LongLat::from_ewkb(&[]), Err(EwkbError::Truncated));
    let mut line = raw.clone();
    line[1] = 2;
    assert_eq!(
        LongLat::from_ewkb(&line),
        Err(EwkbError::UnsupportedGeometry(0x2000_0002))
    );
}

#[test]
fn geography_type_name() {
    assert!(LongLat::accepts("geography"));
    assert!(!LongLat::accepts("geometry"));
}

#[test]
fn point_as_json() {
    assert_eq!(point_json("13.4", "52.5"), "{\"long\":13.4,\"lat\":52.5}");
}

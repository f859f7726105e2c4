use hexboard::hex::{contains_coord, HexCoord};

#[test]
fn new_derives_third_component() {
    let c = HexCoord::new(2, -5);
    assert_eq!(c.q, 2);
    assert_eq!(c.r, -5);
    assert_eq!(c.s, 3);
    assert_eq!(c.q + c.r + c.s, 0);
}

#[test]
fn add_is_component_wise() {
    let a = HexCoord { q: 1, r: -1, s: 0 };
    let b = HexCoord { q: -3, r: 2, s: 1 };
    let c = a.add(b);
    assert_eq!(c, HexCoord { q: -2, r: 1, s: 1 });
    assert_eq!(c.q + c.r + c.s, 0);
}

#[test]
fn default_is_center() {
    let c = HexCoord::default();
    assert_eq!(c, HexCoord { q: 0, r: 0, s: 0 });
}

#[test]
fn bounds_check_uses_all_components() {
    let c = HexCoord { q: 3, r: -5, s: 2 };
    assert!(c.is_in_bounds(5));
    assert!(!c.is_in_bounds(4));
    assert!(HexCoord { q: 0, r: 0, s: 0 }.is_in_bounds(0));
    assert!(!HexCoord { q: 1, r: -1, s: 0 }.is_in_bounds(0));
}

#[test]
fn contains_coord_scans_all() {
    let v = vec![
        HexCoord { q: 0, r: 0, s: 0 },
        HexCoord { q: 1, r: -1, s: 0 },
    ];
    assert!(contains_coord(&v, HexCoord { q: 1, r: -1, s: 0 }));
    assert!(!contains_coord(&v, HexCoord { q: -1, r: 1, s: 0 }));
    assert!(!contains_coord(&Vec::new(), HexCoord { q: 0, r: 0, s: 0 }));
}

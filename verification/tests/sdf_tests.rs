use yt_raymarch_2d::sdf::{is_supported_sides, DistanceFormula, SdfKind};

#[test]
fn supported_polygons_are_accepted() {
    for sides in [4usize, 5, 6, 8] {
        assert!(is_supported_sides(sides));
        assert_eq!(SdfKind::regular_polygon(sides), SdfKind::RegularPolygon { sides });
    }
}

#[test]
fn other_polygons_are_refused() {
    for sides in [0usize, 1, 2, 3, 7, 9, 12, usize::MAX] {
        assert!(!is_supported_sides(sides));
    }
}

#[test]
fn formulas() {
    assert_eq!(SdfKind::Circle.dist_formula(), DistanceFormula::Circle);
    assert_eq!(SdfKind::Quad.dist_formula(), DistanceFormula::Box);
    assert_eq!(SdfKind::RegularPolygon { sides: 5 }.dist_formula(), DistanceFormula::Pentagon);
    assert_eq!(SdfKind::RegularPolygon { sides: 6 }.dist_formula(), DistanceFormula::Hexagon);
    assert_eq!(SdfKind::RegularPolygon { sides: 8 }.dist_formula(), DistanceFormula::Octagon);
}

#[test]
fn square_is_accepted_but_has_no_formula() {
    let square = SdfKind::regular_polygon(4);
    assert!(!square.has_formula());
    assert!(!SdfKind::RegularPolygon { sides: 7 }.has_formula());
    assert!(SdfKind::Circle.has_formula());
    assert!(SdfKind::RegularPolygon { sides: 8 }.has_formula());
}

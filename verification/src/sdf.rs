use vstd::prelude::*;

verus! {

/// The kind of a scene shape whose signed distance the ray marcher measures;
/// its dimensions are kept beside it by the caller.
#[derive(Clone, Copy, Debug, PartialEq, Eq, Structural)]
pub enum SdfKind {
    Circle,
    Quad,
    RegularPolygon { sides: usize },
}

/// The distance formula that a shape is measured with.
#[derive(Clone, Copy, Debug, PartialEq, Eq, Structural)]
pub enum DistanceFormula {
    Circle,
    Box,
    Pentagon,
    Hexagon,
    Octagon,
}

/// The numbers of sides of the regular polygons that a scene accepts.
pub open spec fn supported_sides(sides: usize) -> bool {
    sides == 4 || sides == 5 || sides == 6 || sides == 8
}

/// The formula that measures a shape of `kind`, if there is one.
pub open spec fn formula_of(kind: SdfKind) -> Option<DistanceFormula> {
    match kind {
        SdfKind::Circle => Some(DistanceFormula::Circle),
        SdfKind::Quad => Some(DistanceFormula::Box),
        SdfKind::RegularPolygon { sides } => if sides == 5 {
            Some(DistanceFormula::Pentagon)
        } else if sides == 6 {
            Some(DistanceFormula::Hexagon)
        } else if sides == 8 {
            Some(DistanceFormula::Octagon)
        } else {
            None
        },
    }
}

/// Whether a regular polygon with `sides` sides can be a scene shape.
pub fn is_supported_sides(sides: usize) -> (b: bool)
    ensures
        b == supported_sides(sides),
{
    sides == 4 || sides == 5 || sides == 6 || sides == 8
}

impl SdfKind {
    /// A regular polygon as a scene shape; it must have 4, 5, 6 or 8 sides.
    pub fn regular_polygon(sides: usize) -> (r: SdfKind)
        requires
            supported_sides(sides),
        ensures
            r == (SdfKind::RegularPolygon { sides }),
    {
        SdfKind::RegularPolygon { sides }
    }

    /// Whether some formula measures this shape.
    pub fn has_formula(&self) -> (b: bool)
        ensures
            b == formula_of(*self) is Some,
    {
        match self {
            SdfKind::Circle => true,
            SdfKind::Quad => true,
            SdfKind::RegularPolygon { sides } => *sides == 5 || *sides == 6 || *sides == 8,
        }
    }

    /// The formula that measures this shape; there must be one.
    pub fn dist_formula(&self) -> (r: DistanceFormula)
        requires
            formula_of(*self) is Some,
        ensures
            formula_of(*self) == Some(r),
    {
        match self {
            SdfKind::Circle => DistanceFormula::Circle,
            SdfKind::Quad => DistanceFormula::Box,
            SdfKind::RegularPolygon { sides } => {
                if *sides == 5 {
                    DistanceFormula::Pentagon
                } else if *sides == 6 {
                    DistanceFormula::Hexagon
                } else {
                    DistanceFormula::Octagon
                }
            },
        }
    }
}

/// Every polygon that a scene accepts, but the four-sided one, can be measured.
pub proof fn lemma_accepted_polygons_measurable(sides: usize)
    requires
        supported_sides(sides),
        sides != 4,
    ensures
        formula_of(SdfKind::RegularPolygon { sides }) is Some,
{
}

/// A scene accepts a regular polygon with exactly 4, 5, 6 or 8 sides.
pub proof fn lemma_supported_sides_exactly(sides: usize)
    ensures
        supported_sides(sides) <==> (sides == 4 || sides == 5 || sides == 6 || sides == 8),
{
}

/// A regular polygon is measured exactly when it has 5, 6 or 8 sides: with
/// the pentagon formula for 5, the hexagon formula for 6 and the octagon
/// formula for 8.
pub proof fn lemma_polygon_formulas_exactly(sides: usize)
    ensures
        formula_of(SdfKind::RegularPolygon { sides }) is Some <==> (sides == 5 || sides == 6
            || sides == 8),
        formula_of(SdfKind::RegularPolygon { sides }) == Some(DistanceFormula::Pentagon) <==> sides
            == 5,
        formula_of(SdfKind::RegularPolygon { sides }) == Some(DistanceFormula::Hexagon) <==> sides
            == 6,
        formula_of(SdfKind::RegularPolygon { sides }) == Some(DistanceFormula::Octagon) <==> sides
            == 8,
{
}

/// Circles and quads can always be measured.
pub proof fn lemma_circles_and_quads_measurable()
    ensures
        formula_of(SdfKind::Circle) == Some(DistanceFormula::Circle),
        formula_of(SdfKind::Quad) == Some(DistanceFormula::Box),
{
}

} // verus!

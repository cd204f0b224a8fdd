//! The seven shapes a piece can take, with their cell offsets and colors.
use vstd::prelude::*;

verus! {

/// Number of shapes in the catalog.
pub const SHAPE_COUNT: usize = 7;

/// The identity of a piece's shape.
#[derive(Clone, Copy, Debug, PartialEq, Eq, Structural)]
pub enum ShapeKind {
    I,
    L,
    J,
    Z,
    S,
    O,
    T,
}

/// A color as red, green and blue components.
#[derive(Clone, Copy, Debug, PartialEq, Eq, Structural)]
pub struct Color {
    pub r: u8,
    pub g: u8,
    pub b: u8,
}

/// The catalog's order of shapes: the shape drawn for index `i`.
pub open spec fn kind_at(i: int) -> ShapeKind {
    if i == 0 {
        ShapeKind::I
    } else if i == 1 {
        ShapeKind::L
    } else if i == 2 {
        ShapeKind::J
    } else if i == 3 {
        ShapeKind::Z
    } else if i == 4 {
        ShapeKind::S
    } else if i == 5 {
        ShapeKind::O
    } else {
        ShapeKind::T
    }
}

/// The four offsets `(dx, dy)` of a shape's cells from its pivot, in order.
pub open spec fn shape_offsets(kind: ShapeKind) -> Seq<(i32, i32)> {
    match kind {
        ShapeKind::I => seq![(0i32, 0i32), (0i32, -1i32), (0i32, 1i32), (0i32, 2i32)],
        ShapeKind::L => seq![(0i32, 0i32), (1i32, 0i32), (-1i32, 0i32), (1i32, 1i32)],
        ShapeKind::J => seq![(0i32, 0i32), (1i32, 0i32), (-1i32, 0i32), (-1i32, 1i32)],
        ShapeKind::Z => seq![(0i32, 0i32), (0i32, 1i32), (1i32, 0i32), (-1i32, 1i32)],
        ShapeKind::S => seq![(0i32, 0i32), (0i32, 1i32), (-1i32, 0i32), (1i32, 1i32)],
        ShapeKind::O => seq![(0i32, 0i32), (0i32, 1i32), (1i32, 0i32), (1i32, 1i32)],
        ShapeKind::T => seq![(0i32, 0i32), (-1i32, 0i32), (1i32, 0i32), (0i32, 1i32)],
    }
}

/// The color shared by every cell of a shape.
pub open spec fn shape_color(kind: ShapeKind) -> Color {
    match kind {
        ShapeKind::I => Color { r: 0x84, g: 0xCD, b: 0xEE },
        ShapeKind::L => Color { r: 0xFF, g: 0xB2, b: 0x1B },
        ShapeKind::J => Color { r: 0x02, g: 0x14, b: 0x96 },
        ShapeKind::Z => Color { r: 0xDE, g: 0x00, b: 0x00 },
        ShapeKind::S => Color { r: 0x88, g: 0xFF, b: 0x55 },
        ShapeKind::O => Color { r: 0xF9, g: 0xE9, b: 0x09 },
        ShapeKind::T => Color { r: 0x9C, g: 0x0F, b: 0xBF },
    }
}

/// Every offset of every shape lies within one column or row of the pivot,
/// at most one row below it and at most two rows above it.
pub proof fn lemma_offsets_bounded(kind: ShapeKind)
    ensures
        shape_offsets(kind).len() == 4,
        shape_offsets(kind)[0] == (0i32, 0i32),
        forall|i: int|
            0 <= i < 4 ==> -1 <= #[trigger] shape_offsets(kind)[i].0 <= 1 && -1
                <= shape_offsets(kind)[i].1 <= 2,
{
}

/// Two different shapes never have the same set of offsets.
pub proof fn lemma_shapes_distinct(a: ShapeKind, b: ShapeKind)
    requires
        a != b,
    ensures
        shape_offsets(a).to_set() != shape_offsets(b).to_set(),
{
    let sa = shape_offsets(a);
    let sb = shape_offsets(b);
    let w = distinguishing_offset(a, b);
    assert(sa.contains(w) != sb.contains(w)) by {
        if sa.contains(w) {
            let i = choose|i: int| 0 <= i < sa.len() && sa[i] == w;
        }
        if sb.contains(w) {
            let i = choose|i: int| 0 <= i < sb.len() && sb[i] == w;
        }
    }
    assert(sa.to_set().contains(w) != sb.to_set().contains(w));
}

/// An offset that one of two different shapes has and the other lacks.
spec fn distinguishing_offset(a: ShapeKind, b: ShapeKind) -> (i32, i32) {
    let lj = |k: ShapeKind| k == ShapeKind::L || k == ShapeKind::J;
    if a == ShapeKind::I || b == ShapeKind::I {
        (0i32, -1i32)
    } else if lj(a) != lj(b) {
        (0i32, 1i32)
    } else if lj(a) {
        (1i32, 1i32)
    } else if a == ShapeKind::S || b == ShapeKind::S {
        (1i32, 0i32)
    } else if a == ShapeKind::T || b == ShapeKind::T {
        (-1i32, 0i32)
    } else {
        (1i32, 1i32)
    }
}

/// Builds a vector of four offsets.
fn four_offsets(a: (i32, i32), b: (i32, i32), c: (i32, i32), d: (i32, i32)) -> (r: Vec<(i32, i32)>)
    ensures
        r@ == seq![a, b, c, d],
{
    let mut r: Vec<(i32, i32)> = Vec::new();
    r.push(a);
    r.push(b);
    r.push(c);
    r.push(d);
    assert(r@ =~= seq![a, b, c, d]);
    r
}

impl ShapeKind {
    /// The shape at position `i` of the catalog.
    pub fn from_index(i: usize) -> (r: ShapeKind)
        requires
            i < SHAPE_COUNT,
        ensures
            r == kind_at(i as int),
    {
        if i == 0 {
            ShapeKind::I
        } else if i == 1 {
            ShapeKind::L
        } else if i == 2 {
            ShapeKind::J
        } else if i == 3 {
            ShapeKind::Z
        } else if i == 4 {
            ShapeKind::S
        } else if i == 5 {
            ShapeKind::O
        } else {
            ShapeKind::T
        }
    }

    /// The shape chosen by a random word: the word taken modulo the number
    /// of shapes indexes the catalog.
    pub fn pick(word: usize) -> (r: ShapeKind)
        ensures
            r == kind_at(word as int % SHAPE_COUNT as int),
    {
        ShapeKind::from_index(word % SHAPE_COUNT)
    }

    /// A shape drawn from the catalog with the thread-local random generator.
    pub fn choose_random() -> (r: ShapeKind)
        ensures
            exists|i: int| 0 <= i < SHAPE_COUNT && r == #[trigger] kind_at(i),
    {
        let w = random_word();
        let r = ShapeKind::pick(w);
        assert(r == kind_at(w as int % SHAPE_COUNT as int));
        r
    }

    /// The offsets of this shape's four cells from its pivot.
    pub fn offsets(self) -> (r: Vec<(i32, i32)>)
        ensures
            r@ == shape_offsets(self),
    {
        match self {
            ShapeKind::I => four_offsets((0, 0), (0, -1), (0, 1), (0, 2)),
            ShapeKind::L => four_offsets((0, 0), (1, 0), (-1, 0), (1, 1)),
            ShapeKind::J => four_offsets((0, 0), (1, 0), (-1, 0), (-1, 1)),
            ShapeKind::Z => four_offsets((0, 0), (0, 1), (1, 0), (-1, 1)),
            ShapeKind::S => four_offsets((0, 0), (0, 1), (-1, 0), (1, 1)),
            ShapeKind::O => four_offsets((0, 0), (0, 1), (1, 0), (1, 1)),
            ShapeKind::T => four_offsets((0, 0), (-1, 0), (1, 0), (0, 1)),
        }
    }

    /// The color of this shape's cells.
    pub fn color(self) -> (r: Color)
        ensures
            r == shape_color(self),
    {
        match self {
            ShapeKind::I => Color { r: 0x84, g: 0xCD, b: 0xEE },
            ShapeKind::L => Color { r: 0xFF, g: 0xB2, b: 0x1B },
            ShapeKind::J => Color { r: 0x02, g: 0x14, b: 0x96 },
            ShapeKind::Z => Color { r: 0xDE, g: 0x00, b: 0x00 },
            ShapeKind::S => Color { r: 0x88, g: 0xFF, b: 0x55 },
            ShapeKind::O => Color { r: 0xF9, g: 0xE9, b: 0x09 },
            ShapeKind::T => Color { r: 0x9C, g: 0x0F, b: 0xBF },
        }
    }
}

/// Relies on `rand::random::<usize>`: a word drawn from the thread-local
/// generator. Any value may come back.
#[verifier::external_body]
fn random_word() -> (r: usize) {
    rand::random::<usize>()
}

} // verus!

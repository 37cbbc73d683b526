//! Values shared by every element: grid positions and packets.
use plotters::style::{Color, RGBColor, ShapeStyle};
use vstd::prelude::*;

verus! {

/// Height of a drawn packet, in hundredths of a chart unit.
pub const PKT_HEIGHT: i64 = 150;

/// Size of a data packet, in hundredths of a chart unit.
pub const DATA_PKT_WIDTH: u64 = 25;

/// Size of an acknowledgment, in hundredths of a chart unit.
pub const ACK_PKT_WIDTH: u64 = 10;

/// `plotters::style::ShapeStyle`, how a shape is drawn. The simulation
/// carries it with each packet and never looks inside.
#[verifier::external_type_specification]
#[verifier::external_body]
pub struct ExShapeStyle(ShapeStyle);

/// The style that `Color::filled` of plotters gives for the opaque colour
/// with the given red, green and blue parts.
pub uninterp spec fn filled_style(r: u8, g: u8, b: u8) -> ShapeStyle;

/// Calls `plotters::style::Color::filled` on `RGBColor(r, g, b)`, which
/// makes a filled style of that colour. Taken on trust: that the call
/// gives the same style whenever it is given the same three colour parts.
/// Nothing is claimed of what the style holds.
#[verifier::external_body]
pub(crate) fn filled(r: u8, g: u8, b: u8) -> (style: ShapeStyle)
    ensures
        style == filled_style(r, g, b),
{
    RGBColor(r, g, b).filled()
}

/// A position on the drawing grid, in hundredths of a chart unit:
/// horizontal first, vertical second.
#[derive(Clone, Copy, Debug)]
pub struct Coord(pub i64, pub i64);

impl Coord {
    /// Whether the component-wise sum with `other` fits the grid.
    pub open spec fn can_add(self, other: Coord) -> bool {
        &&& i64::MIN <= self.0 + other.0 <= i64::MAX
        &&& i64::MIN <= self.1 + other.1 <= i64::MAX
    }

    /// Whether the component-wise difference with `other` fits the grid.
    pub open spec fn can_sub(self, other: Coord) -> bool {
        &&& i64::MIN <= self.0 - other.0 <= i64::MAX
        &&& i64::MIN <= self.1 - other.1 <= i64::MAX
    }

    /// Component-wise sum.
    pub fn add(&self, other: Coord) -> (sum: Coord)
        requires
            self.can_add(other),
        ensures
            sum.0 == self.0 + other.0,
            sum.1 == self.1 + other.1,
    {
        Coord(self.0 + other.0, self.1 + other.1)
    }

    /// Component-wise difference.
    pub fn sub(&self, other: Coord) -> (diff: Coord)
        requires
            self.can_sub(other),
        ensures
            diff.0 == self.0 - other.0,
            diff.1 == self.1 - other.1,
    {
        Coord(self.0 - other.0, self.1 - other.1)
    }
}

/// A unit of data travelling along a path.
#[derive(Clone, Copy)]
pub struct Packet {
    /// Number of bytes, drawn as the packet's width in hundredths of a
    /// chart unit.
    pub size: u64,
    /// Where the packet was last placed: the left-centre of its rectangle.
    pub coord: Coord,
    /// Index of the downstream target that a bottleneck routes the packet to.
    pub addr: u16,
    /// How the packet is drawn.
    pub style: ShapeStyle,
}

} // verus!

//! Placing a drawing on the display: in its centre, or in its top right
//! corner.

use vstd::prelude::*;

use crate::battery_icon::BatteryIcon;
use crate::geometry::{pt, Point, Size};

verus! {

/// Whether a drawing of size `drawable` fits on a display of size `display`.
pub open spec fn fits(display: Size, drawable: Size) -> bool {
    drawable.width <= display.width && drawable.height <= display.height
}

/// The move that centres a drawing of size `drawable` that stands at the
/// origin: half the room that the display leaves on each axis, rounded down.
pub open spec fn spec_center_offset(display: Size, drawable: Size) -> Point {
    pt((display.width - drawable.width) / 2, (display.height - drawable.height) / 2)
}

/// Whether a drawing of size `drawable` fits on a display of size `display`
/// with 20 pixels to spare on the right.
pub open spec fn fits_top_right(display: Size, drawable: Size) -> bool {
    drawable.width + 20 <= display.width
}

/// The move that puts a drawing of size `drawable` that stands at the origin
/// into the top right corner, 20 pixels from the right and from the top. The
/// horizontal move is cut to 32 bits.
pub open spec fn spec_top_right_offset(display: Size, drawable: Size) -> Point {
    Point { x: (display.width - drawable.width - 20) as u32 as i32, y: 20 }
}

/// The move that centres a drawing of size `drawable` that stands at the origin.
pub fn center_offset(display: Size, drawable: Size) -> (r: Point)
    requires
        fits(display, drawable),
    ensures
        r == spec_center_offset(display, drawable),
{
    let x = ((display.width - drawable.width) / 2) as i32;
    let y = ((display.height - drawable.height) / 2) as i32;
    Point::new(x, y)
}

/// The move that puts a drawing of size `drawable` that stands at the origin
/// into the top right corner.
pub fn top_right_offset(display: Size, drawable: Size) -> (r: Point)
    requires
        fits_top_right(display, drawable),
    ensures
        r == spec_top_right_offset(display, drawable),
{
    let x = (display.width - drawable.width - 20) as i32;
    Point::new(x, 20)
}

/// A drawing of size `drawable` at the origin, moved by the centring move,
/// leaves as much room on its left as on its right, and as much above as
/// below, up to one pixel.
pub proof fn lemma_center_margins(display: Size, drawable: Size)
    requires
        fits(display, drawable),
    ensures
        ({
            let o = spec_center_offset(display, drawable);
            let right = display.width - (o.x + drawable.width);
            let bottom = display.height - (o.y + drawable.height);
            &&& 0 <= o.x && o.x <= right <= o.x + 1
            &&& 0 <= o.y && o.y <= bottom <= o.y + 1
        }),
{
}

/// A drawing of size `drawable` at the origin, moved by the top-right move,
/// stands 20 pixels below the top and ends 20 pixels before the right edge.
pub proof fn lemma_top_right_margins(display: Size, drawable: Size)
    requires
        fits_top_right(display, drawable),
        display.width - drawable.width - 20 <= i32::MAX,
    ensures
        ({
            let o = spec_top_right_offset(display, drawable);
            &&& o.y == 20
            &&& display.width - (o.x + drawable.width) == 20
        }),
{
}

/// A drawing that can be centred on a display.
pub trait Center: Sized {
    spec fn can_center(&self, display: Size) -> bool;

    spec fn spec_center(&self, display: Size) -> Self;

    /// The drawing moved into the centre of a display of size `display`.
    fn center(&self, display: Size) -> (r: Self)
        requires
            self.can_center(display),
        ensures
            r == self.spec_center(display),
    ;
}

/// A drawing that can be put into the top right corner of a display.
pub trait TopRight: Sized {
    spec fn can_translate_to_top_right(&self, display: Size) -> bool;

    spec fn spec_translate_to_top_right(&self, display: Size) -> Self;

    /// The drawing moved into the top right corner of a display of size `display`.
    fn translate_to_top_right(&self, display: Size) -> (r: Self)
        requires
            self.can_translate_to_top_right(display),
        ensures
            r == self.spec_translate_to_top_right(display),
    ;
}

impl<C: Copy> Center for BatteryIcon<C> {
    open spec fn can_center(&self, display: Size) -> bool {
        &&& self.size_defined()
        &&& fits(display, self.spec_size())
        &&& self.can_translate(spec_center_offset(display, self.spec_size()))
    }

    open spec fn spec_center(&self, display: Size) -> Self {
        self.spec_translate(spec_center_offset(display, self.spec_size()))
    }

    fn center(&self, display: Size) -> (r: Self) {
        let offset = center_offset(display, self.size());
        self.translate(offset)
    }
}

impl<C: Copy> TopRight for BatteryIcon<C> {
    open spec fn can_translate_to_top_right(&self, display: Size) -> bool {
        &&& self.size_defined()
        &&& fits_top_right(display, self.spec_size())
        &&& self.can_translate(spec_top_right_offset(display, self.spec_size()))
    }

    open spec fn spec_translate_to_top_right(&self, display: Size) -> Self {
        self.spec_translate(spec_top_right_offset(display, self.spec_size()))
    }

    fn translate_to_top_right(&self, display: Size) -> (r: Self) {
        let offset = top_right_offset(display, self.size());
        self.translate(offset)
    }
}

/// Centring moves the whole icon: both corners by the same offset, so its
/// size, colours and charge stay as they were. An icon standing at the
/// origin ends with as much room on its left as on its right, and as much
/// above as below, up to one pixel.
pub proof fn lemma_center_moves_whole_icon<C: Copy>(icon: BatteryIcon<C>, display: Size)
    requires
        icon.can_center(display),
    ensures
        ({
            let c = icon.spec_center(display);
            &&& c.top_left.x - icon.top_left.x == c.bottom_right.x - icon.bottom_right.x
            &&& c.top_left.y - icon.top_left.y == c.bottom_right.y - icon.bottom_right.y
            &&& c.spec_size() == icon.spec_size()
            &&& c.state_of_charge == icon.state_of_charge
            &&& c.bg_color == icon.bg_color && c.fg_color == icon.fg_color
            &&& c.empty_color == icon.empty_color && c.full_color == icon.full_color
            &&& (icon.top_left == pt(0, 0) && 0 <= icon.bottom_right.x && 0 <= icon.bottom_right.y)
                ==> {
                &&& 0 <= c.top_left.x <= display.width - c.bottom_right.x <= c.top_left.x + 1
                &&& 0 <= c.top_left.y <= display.height - c.bottom_right.y <= c.top_left.y + 1
            }
        }),
{
}

/// Putting the icon into the top right corner moves the whole icon: both
/// corners by the same offset, so its size, colours and charge stay as they
/// were. An icon standing at the origin ends 20 pixels below the display's
/// top and 20 pixels before its right edge.
pub proof fn lemma_top_right_moves_whole_icon<C: Copy>(icon: BatteryIcon<C>, display: Size)
    requires
        icon.can_translate_to_top_right(display),
    ensures
        ({
            let c = icon.spec_translate_to_top_right(display);
            &&& c.top_left.x - icon.top_left.x == c.bottom_right.x - icon.bottom_right.x
            &&& c.top_left.y - icon.top_left.y == c.bottom_right.y - icon.bottom_right.y
            &&& c.spec_size() == icon.spec_size()
            &&& c.state_of_charge == icon.state_of_charge
            &&& c.bg_color == icon.bg_color && c.fg_color == icon.fg_color
            &&& c.empty_color == icon.empty_color && c.full_color == icon.full_color
            &&& (icon.top_left == pt(0, 0) && 0 <= icon.bottom_right.x && 0 <= icon.bottom_right.y
                && display.width - icon.bottom_right.x - 20 <= i32::MAX) ==> {
                &&& c.top_left.y == 20
                &&& display.width - c.bottom_right.x == 20
            }
        }),
{
}

} // verus!

//! The battery icon of the watch face: its outline, its colours, and the
//! part of it that is filled according to the state of charge.
//!
//!        6+------+5
//!         |      |
//!     8+--+7    4+--+3
//!      |            |
//!      |            |
//!     1+------------+2

use vstd::prelude::*;

use crate::battery::StateOfCharge;
use crate::geometry::{can_add, in_i32, pt, spec_add, Line, Point, Rectangle, Size};

verus! {

/// A battery icon between two corners, in the colours given, filled to its
/// state of charge, which it holds in whole percent.
#[derive(Debug, Clone, Copy)]
pub struct BatteryIcon<C> {
    pub top_left: Point,
    pub bottom_right: Point,
    pub bg_color: C,
    pub fg_color: C,
    pub empty_color: C,
    pub full_color: C,
    pub state_of_charge: StateOfCharge,
}

pub open spec fn abs(x: int) -> int {
    if x < 0 {
        -x
    } else {
        x
    }
}

/// Rust's integer division, which rounds towards zero, for a positive divisor.
pub open spec fn div_towards_zero(a: int, b: int) -> int {
    if a >= 0 {
        a / b
    } else {
        -((-a) / b)
    }
}

pub open spec fn spec_max(a: int, b: int) -> int {
    if a >= b {
        a
    } else {
        b
    }
}

fn fits_i32(x: i64) -> (r: bool)
    ensures
        r == in_i32(x as int),
{
    i32::MIN as i64 <= x && x <= i32::MAX as i64
}

impl<C> BatteryIcon<C> {
    /// Whether the icon's size can be computed: the differences of the
    /// corners' coordinates have an absolute value within `i32`.
    pub open spec fn size_defined(&self) -> bool {
        &&& i32::MIN < self.top_left.x - self.bottom_right.x <= i32::MAX
        &&& i32::MIN < self.top_left.y - self.bottom_right.y <= i32::MAX
    }

    pub open spec fn width(&self) -> int {
        abs(self.top_left.x - self.bottom_right.x)
    }

    pub open spec fn height(&self) -> int {
        abs(self.top_left.y - self.bottom_right.y)
    }

    pub open spec fn spec_size(&self) -> Size {
        Size { width: self.width() as u32, height: self.height() as u32 }
    }

    /// The icon moved by `by`.
    pub open spec fn spec_translate(&self, by: Point) -> Self {
        BatteryIcon {
            top_left: spec_add(self.top_left, by),
            bottom_right: spec_add(self.bottom_right, by),
            ..*self
        }
    }

    pub open spec fn can_translate(&self, by: Point) -> bool {
        can_add(self.top_left, by) && can_add(self.bottom_right, by)
    }

    /// The top of the outline's sides, where the battery's knob begins.
    pub open spec fn shoulder_y(&self) -> int {
        self.top_left.y + self.height() / 10
    }

    pub open spec fn knob_left_x(&self) -> int {
        self.top_left.x + self.width() / 5
    }

    pub open spec fn knob_right_x(&self) -> int {
        self.bottom_right.x - self.width() / 5
    }

    /// Whether the outline can be computed within `i32`.
    pub open spec fn border_defined(&self) -> bool {
        &&& self.size_defined()
        &&& in_i32(self.shoulder_y())
        &&& in_i32(self.knob_left_x())
        &&& in_i32(self.knob_right_x())
    }

    /// The corners of the outline, numbered as in the picture above from 1.
    pub open spec fn spec_border_corners(&self) -> Seq<Point> {
        seq![
            pt(self.top_left.x as int, self.bottom_right.y as int),
            self.bottom_right,
            pt(self.bottom_right.x as int, self.shoulder_y()),
            pt(self.knob_right_x(), self.shoulder_y()),
            pt(self.knob_right_x(), self.top_left.y as int),
            pt(self.knob_left_x(), self.top_left.y as int),
            pt(self.knob_left_x(), self.shoulder_y()),
            pt(self.top_left.x as int, self.shoulder_y()),
        ]
    }

    /// The eight lines of the outline: from each corner to the next, and
    /// from the last back to the first.
    pub open spec fn spec_border_lines(&self) -> Seq<Line> {
        Seq::new(
            8,
            |i: int|
                Line {
                    start: self.spec_border_corners()[i],
                    end: self.spec_border_corners()[(i + 1) % 8],
                },
        )
    }

    /// Top of the knob's filling.
    pub open spec fn knob_top(&self) -> int {
        self.shoulder_y()
    }

    /// Bottom of the knob's filling, top of the body's.
    pub open spec fn knob_bottom(&self) -> int {
        self.shoulder_y() + self.width() / 5
    }

    /// Bottom of the body's filling.
    pub open spec fn body_bottom(&self) -> int {
        self.bottom_right.y - self.width() / 5
    }

    pub open spec fn content_height(&self) -> int {
        self.body_bottom() - self.knob_top()
    }

    /// The height of the filling: the state of charge's share of the content
    /// height, rounded towards zero.
    pub open spec fn fill_height(&self) -> int {
        div_towards_zero(self.content_height() * self.state_of_charge.percentage, 100)
    }

    /// Top of the filling.
    pub open spec fn fill_top(&self) -> int {
        self.body_bottom() - self.fill_height()
    }

    /// Whether the filling of the knob is drawn: the filling reaches above the
    /// knob's bottom.
    pub open spec fn knob_filled(&self) -> bool {
        self.fill_top() < self.knob_bottom()
    }

    /// Whether the filling of the body is drawn: more than 1 percent is left.
    pub open spec fn body_filled(&self) -> bool {
        self.state_of_charge.percentage > 1
    }

    /// Whether the filling can be computed within `i32`.
    pub open spec fn contents_defined(&self) -> bool {
        &&& self.size_defined()
        &&& in_i32(self.knob_top())
        &&& in_i32(self.knob_bottom())
        &&& in_i32(self.body_bottom())
        &&& in_i32(self.content_height())
        &&& in_i32(self.fill_top())
        &&& self.knob_filled() ==> {
            &&& in_i32(2 * self.width())
            &&& in_i32(self.top_left.x + 2 * self.width() / 5)
            &&& in_i32(self.bottom_right.x - 2 * self.width() / 5)
        }
        &&& self.body_filled() ==> in_i32(self.knob_left_x()) && in_i32(self.knob_right_x())
    }

    /// The filling of the knob, where it is drawn.
    pub open spec fn spec_knob_filling(&self) -> Option<Rectangle> {
        if self.knob_filled() {
            Some(
                Rectangle {
                    top_left: pt(
                        self.top_left.x + 2 * self.width() / 5,
                        spec_max(self.knob_top(), self.fill_top()),
                    ),
                    bottom_right: pt(self.bottom_right.x - 2 * self.width() / 5, self.knob_bottom()),
                },
            )
        } else {
            None
        }
    }

    /// The filling of the body, where it is drawn.
    pub open spec fn spec_body_filling(&self) -> Option<Rectangle> {
        if self.body_filled() {
            Some(
                Rectangle {
                    top_left: pt(self.knob_left_x(), spec_max(self.knob_bottom(), self.fill_top())),
                    bottom_right: pt(self.knob_right_x(), self.body_bottom()),
                },
            )
        } else {
            None
        }
    }
}

impl<C: Copy> BatteryIcon<C> {
    /// The icon moved by `by`.
    pub fn translate(&self, by: Point) -> (r: Self)
        requires
            self.can_translate(by),
        ensures
            r == self.spec_translate(by),
    {
        BatteryIcon {
            top_left: self.top_left.add(by),
            bottom_right: self.bottom_right.add(by),
            ..*self
        }
    }

    /// Moves the icon by `by`.
    pub fn translate_mut(&mut self, by: Point)
        requires
            old(self).can_translate(by),
        ensures
            *final(self) == old(self).spec_translate(by),
    {
        self.top_left = self.top_left.add(by);
        self.bottom_right = self.bottom_right.add(by);
    }

    pub fn top_left(&self) -> (r: Point)
        ensures
            r == self.top_left,
    {
        self.top_left
    }

    pub fn bottom_right(&self) -> (r: Point)
        ensures
            r == self.bottom_right,
    {
        self.bottom_right
    }

    /// The distances between the corners, horizontally and vertically.
    pub fn size(&self) -> (r: Size)
        requires
            self.size_defined(),
        ensures
            r == self.spec_size(),
            r.width == self.width(),
            r.height == self.height(),
    {
        let dx = self.top_left.x - self.bottom_right.x;
        let dy = self.top_left.y - self.bottom_right.y;
        let width = if dx < 0 { -dx } else { dx };
        let height = if dy < 0 { -dy } else { dy };
        Size { width: width as u32, height: height as u32 }
    }

    /// The outline's colour: the full colour from 100 percent, the empty
    /// colour below 10 percent, the foreground colour between.
    pub fn border_color(&self) -> (r: C)
        ensures
            r == if self.state_of_charge.percentage >= 100 {
                self.full_color
            } else if self.state_of_charge.percentage < 10 {
                self.empty_color
            } else {
                self.fg_color
            },
    {
        if self.state_of_charge.percentage >= 100 {
            self.full_color
        } else if self.state_of_charge.percentage < 10 {
            self.empty_color
        } else {
            self.fg_color
        }
    }

    /// The filling's colour: the full colour from 100 percent, the empty
    /// colour below 20 percent, the foreground colour between.
    pub fn contents_color(&self) -> (r: C)
        ensures
            r == if self.state_of_charge.percentage >= 100 {
                self.full_color
            } else if self.state_of_charge.percentage < 20 {
                self.empty_color
            } else {
                self.fg_color
            },
    {
        if self.state_of_charge.percentage >= 100 {
            self.full_color
        } else if self.state_of_charge.percentage < 20 {
            self.empty_color
        } else {
            self.fg_color
        }
    }

    /// Whether the outline can be computed (see `border_defined`).
    pub fn border_computable(&self) -> (r: bool)
        ensures
            r == self.border_defined(),
    {
        let dx = self.top_left.x as i64 - self.bottom_right.x as i64;
        let dy = self.top_left.y as i64 - self.bottom_right.y as i64;
        if dx <= i32::MIN as i64 || dx > i32::MAX as i64 || dy <= i32::MIN as i64 || dy
            > i32::MAX as i64 {
            return false;
        }
        let w = if dx < 0 { -dx } else { dx };
        let h = if dy < 0 { -dy } else { dy };
        let shoulder = self.top_left.y as i64 + h / 10;
        let left = self.top_left.x as i64 + w / 5;
        let right = self.bottom_right.x as i64 - w / 5;
        fits_i32(shoulder) && fits_i32(left) && fits_i32(right)
    }

    /// Whether the filling can be computed (see `contents_defined`).
    pub fn contents_computable(&self) -> (r: bool)
        ensures
            r == self.contents_defined(),
    {
        let dx = self.top_left.x as i64 - self.bottom_right.x as i64;
        let dy = self.top_left.y as i64 - self.bottom_right.y as i64;
        if dx <= i32::MIN as i64 || dx > i32::MAX as i64 || dy <= i32::MIN as i64 || dy
            > i32::MAX as i64 {
            return false;
        }
        let w = if dx < 0 { -dx } else { dx };
        let h = if dy < 0 { -dy } else { dy };
        let knob_top = self.top_left.y as i64 + h / 10;
        let knob_bottom = knob_top + w / 5;
        let body_bottom = self.bottom_right.y as i64 - w / 5;
        let content_height = body_bottom - knob_top;
        let p = self.state_of_charge.percentage as i64;
        assert(-0x1000_0000 * 16 * 255 <= content_height * p <= 0x1000_0000 * 16 * 255) by (nonlinear_arith)
            requires
                -0x1000_0000 * 16 <= content_height <= 0x1000_0000 * 16,
                0 <= p <= 255,
        {
            assert(-0x1000_0000 * 16 * p <= content_height * p <= 0x1000_0000 * 16 * p);
        }
        let product = content_height * p;
        let fill = if product >= 0 {
            product / 100
        } else {
            -((-product) / 100)
        };
        let fill_top = body_bottom - fill;
        if !(fits_i32(knob_top) && fits_i32(knob_bottom) && fits_i32(body_bottom) && fits_i32(
            content_height,
        ) && fits_i32(fill_top)) {
            return false;
        }
        if fill_top < knob_bottom {
            if !(fits_i32(2 * w) && fits_i32(self.top_left.x as i64 + 2 * w / 5) && fits_i32(
                self.bottom_right.x as i64 - 2 * w / 5,
            )) {
                return false;
            }
        }
        if self.state_of_charge.percentage > 1 {
            if !(fits_i32(self.top_left.x as i64 + w / 5) && fits_i32(
                self.bottom_right.x as i64 - w / 5,
            )) {
                return false;
            }
        }
        true
    }

    /// The background: the rectangle between the corners, drawn and filled
    /// in the background colour.
    pub fn background(&self) -> (r: Rectangle)
        ensures
            r == (Rectangle { top_left: self.top_left, bottom_right: self.bottom_right }),
    {
        Rectangle { top_left: self.top_left, bottom_right: self.bottom_right }
    }

    /// The width of the outline's strokes: a tenth of the icon's width.
    pub fn border_stroke_width(&self) -> (r: u32)
        requires
            self.size_defined(),
        ensures
            r == self.width() / 10,
    {
        self.size().width / 10
    }

    /// The eight lines of the outline, drawn in `border_color`.
    pub fn border_lines(&self) -> (r: Vec<Line>)
        requires
            self.border_defined(),
        ensures
            r@ == self.spec_border_lines(),
    {
        let size = self.size();
        let height = size.height as i32;
        let width = size.width as i32;
        let point1 = Point::new(self.top_left.x, self.bottom_right.y);
        let point2 = self.bottom_right;
        let point3 = Point::new(self.bottom_right.x, self.top_left.y + height / 10);
        let point4 = Point::new(self.bottom_right.x - width / 5, self.top_left.y + height / 10);
        let point5 = Point::new(self.bottom_right.x - width / 5, self.top_left.y);
        let point6 = Point::new(self.top_left.x + width / 5, self.top_left.y);
        let point7 = Point::new(self.top_left.x + width / 5, self.top_left.y + height / 10);
        let point8 = Point::new(self.top_left.x, self.top_left.y + height / 10);
        let r = vec![
            Line { start: point1, end: point2 },
            Line { start: point2, end: point3 },
            Line { start: point3, end: point4 },
            Line { start: point4, end: point5 },
            Line { start: point5, end: point6 },
            Line { start: point6, end: point7 },
            Line { start: point7, end: point8 },
            Line { start: point8, end: point1 },
        ];
        assert(r@ =~= self.spec_border_lines());
        r
    }

    /// The filling: of the knob where the charge reaches into it, and of the
    /// body where more than 1 percent is left; drawn and filled in
    /// `contents_color`.
    pub fn contents(&self) -> (r: (Option<Rectangle>, Option<Rectangle>))
        requires
            self.contents_defined(),
        ensures
            r.0 == self.spec_knob_filling(),
            r.1 == self.spec_body_filling(),
    {
        let size = self.size();
        let height = size.height as i32;
        let width = size.width as i32;
        let top_rect1 = self.top_left.y + height / 10;
        let bottom_rect1 = self.top_left.y + height / 10 + width / 5;
        let top_rect2 = bottom_rect1;
        let bottom_rect2 = self.bottom_right.y - width / 5;
        let content_height = bottom_rect2 - top_rect1;
        let p = self.state_of_charge.percentage as i64;
        let product = content_height as i64 * p;
        let fill = if product >= 0 {
            product / 100
        } else {
            -((-product) / 100)
        };
        assert(fill == self.fill_height());
        let max_top = (bottom_rect2 as i64 - fill) as i32;
        let knob = if max_top < bottom_rect1 {
            let left_rect1 = self.top_left.x + 2 * width / 5;
            let right_rect1 = self.bottom_right.x - 2 * width / 5;
            let top = if top_rect1 >= max_top {
                top_rect1
            } else {
                max_top
            };
            Some(
                Rectangle {
                    top_left: Point::new(left_rect1, top),
                    bottom_right: Point::new(right_rect1, bottom_rect1),
                },
            )
        } else {
            None
        };
        let body = if self.state_of_charge.percentage > 1 {
            let left_rect2 = self.top_left.x + width / 5;
            let right_rect2 = self.bottom_right.x - width / 5;
            let top = if top_rect2 >= max_top {
                top_rect2
            } else {
                max_top
            };
            Some(
                Rectangle {
                    top_left: Point::new(left_rect2, top),
                    bottom_right: Point::new(right_rect2, bottom_rect2),
                },
            )
        } else {
            None
        };
        (knob, body)
    }
}

/// Moving an icon keeps its size, colours and state of charge.
pub proof fn lemma_translate_keeps_size<C>(icon: BatteryIcon<C>, by: Point)
    requires
        icon.can_translate(by),
    ensures
        icon.spec_translate(by).width() == icon.width(),
        icon.spec_translate(by).height() == icon.height(),
        icon.spec_translate(by).size_defined() == icon.size_defined(),
        icon.spec_translate(by).state_of_charge == icon.state_of_charge,
        icon.spec_translate(by).fg_color == icon.fg_color,
        icon.spec_translate(by).bg_color == icon.bg_color,
        icon.spec_translate(by).empty_color == icon.empty_color,
        icon.spec_translate(by).full_color == icon.full_color,
{
}

/// Moving an icon by `by` and then by the opposite of `by` gives it back.
pub proof fn lemma_translate_back<C>(icon: BatteryIcon<C>, by: Point)
    requires
        icon.can_translate(by),
        in_i32(-by.x),
        in_i32(-by.y),
    ensures
        icon.spec_translate(by).can_translate(pt(-by.x, -by.y)),
        icon.spec_translate(by).spec_translate(pt(-by.x, -by.y)) == icon,
{
}

/// Moving an icon twice moves it by the sum of the two moves.
pub proof fn lemma_translate_twice<C>(icon: BatteryIcon<C>, a: Point, b: Point)
    requires
        icon.can_translate(a),
        icon.spec_translate(a).can_translate(b),
        in_i32(a.x + b.x),
        in_i32(a.y + b.y),
    ensures
        icon.can_translate(pt(a.x + b.x, a.y + b.y)),
        icon.spec_translate(a).spec_translate(b) == icon.spec_translate(pt(a.x + b.x, a.y + b.y)),
{
}

/// `b` is `a` moved by `by`: both absent, or both present with each corner
/// moved by `by`.
pub open spec fn rect_moved(a: Option<Rectangle>, b: Option<Rectangle>, by: Point) -> bool {
    match (a, b) {
        (None, None) => true,
        (Some(a), Some(b)) => {
            &&& b.top_left.x == a.top_left.x + by.x
            &&& b.top_left.y == a.top_left.y + by.y
            &&& b.bottom_right.x == a.bottom_right.x + by.x
            &&& b.bottom_right.y == a.bottom_right.y + by.y
        },
        _ => false,
    }
}

/// `b` is the line `a` moved by `by`.
pub open spec fn line_moved(a: Line, b: Line, by: Point) -> bool {
    &&& b.start.x == a.start.x + by.x
    &&& b.start.y == a.start.y + by.y
    &&& b.end.x == a.end.x + by.x
    &&& b.end.y == a.end.y + by.y
}

/// Whether point `p` lies within the rectangle between the icon's corners.
pub open spec fn within_icon<C>(icon: BatteryIcon<C>, p: Point) -> bool {
    &&& icon.top_left.x <= p.x <= icon.bottom_right.x
    &&& icon.top_left.y <= p.y <= icon.bottom_right.y
}

/// Moving an icon moves its filling with it: the knob's and the body's
/// filling of the moved icon are those of the icon, moved by the same offset,
/// and each is drawn in the one exactly where it is drawn in the other.
pub proof fn lemma_translate_moves_contents<C>(icon: BatteryIcon<C>, by: Point)
    requires
        icon.contents_defined(),
        icon.can_translate(by),
        icon.spec_translate(by).contents_defined(),
    ensures
        rect_moved(icon.spec_knob_filling(), icon.spec_translate(by).spec_knob_filling(), by),
        rect_moved(icon.spec_body_filling(), icon.spec_translate(by).spec_body_filling(), by),
{
    let t = icon.spec_translate(by);
    assert(t.width() == icon.width() && t.height() == icon.height());
    assert(t.shoulder_y() == icon.shoulder_y() + by.y);
    assert(t.body_bottom() == icon.body_bottom() + by.y);
    assert(t.content_height() == icon.content_height());
    assert(t.fill_height() == icon.fill_height());
    assert(t.fill_top() == icon.fill_top() + by.y);
    assert(t.knob_filled() == icon.knob_filled());
}

/// The filling lies horizontally within the icon, and starts no higher than
/// the icon's top; the body's filling ends no lower than the icon's bottom.
pub proof fn lemma_contents_within_icon<C>(icon: BatteryIcon<C>)
    requires
        icon.contents_defined(),
        icon.top_left.x <= icon.bottom_right.x,
    ensures
        icon.spec_knob_filling() matches Some(r) ==> {
            &&& icon.top_left.x <= r.top_left.x <= r.bottom_right.x <= icon.bottom_right.x
            &&& icon.top_left.y <= r.top_left.y
        },
        icon.spec_body_filling() matches Some(r) ==> {
            &&& icon.top_left.x <= r.top_left.x <= r.bottom_right.x <= icon.bottom_right.x
            &&& icon.top_left.y <= r.top_left.y
            &&& r.bottom_right.y <= icon.bottom_right.y
        },
{
}

/// Moving an icon moves its outline with it: each of the eight lines of the
/// moved icon is the icon's line moved by the same offset.
pub proof fn lemma_translate_moves_border<C>(icon: BatteryIcon<C>, by: Point)
    requires
        icon.border_defined(),
        icon.can_translate(by),
        icon.spec_translate(by).border_defined(),
    ensures
        icon.spec_border_lines().len() == 8,
        icon.spec_translate(by).spec_border_lines().len() == 8,
        forall|i: int|
            0 <= i < 8 ==> line_moved(
                #[trigger] icon.spec_border_lines()[i],
                icon.spec_translate(by).spec_border_lines()[i],
                by,
            ),
{
    let t = icon.spec_translate(by);
    assert(t.width() == icon.width() && t.height() == icon.height());
    let a = icon.spec_border_corners();
    let b = t.spec_border_corners();
    assert forall|k: int| 0 <= k < 8 implies b[k].x == a[k].x + by.x && b[k].y == a[k].y + by.y by {
        if k == 0 {
        } else if k == 1 {
        } else if k == 2 {
        } else if k == 3 {
        } else if k == 4 {
        } else if k == 5 {
        } else if k == 6 {
        } else {
        }
    }
    assert forall|i: int| 0 <= i < 8 implies line_moved(
        #[trigger] icon.spec_border_lines()[i],
        t.spec_border_lines()[i],
        by,
    ) by {
        assert(0 <= (i + 1) % 8 < 8);
    }
}

/// The outline is closed, each line starting where the one before ends, and
/// every corner of it lies within the rectangle between the icon's corners.
pub proof fn lemma_border_within_icon<C>(icon: BatteryIcon<C>)
    requires
        icon.border_defined(),
        icon.top_left.x <= icon.bottom_right.x,
        icon.top_left.y <= icon.bottom_right.y,
    ensures
        icon.spec_border_lines().len() == 8,
        forall|i: int|
            0 <= i < 8 ==> #[trigger] icon.spec_border_lines()[i].end == icon.spec_border_lines()[(
            i + 1) % 8].start,
        forall|i: int|
            0 <= i < 8 ==> within_icon(icon, #[trigger] icon.spec_border_lines()[i].start)
                && within_icon(icon, icon.spec_border_lines()[i].end),
{
    let a = icon.spec_border_corners();
    assert forall|k: int| 0 <= k < 8 implies within_icon(icon, #[trigger] a[k]) by {
        if k == 0 {
        } else if k == 1 {
        } else if k == 2 {
        } else if k == 3 {
        } else if k == 4 {
        } else if k == 5 {
        } else if k == 6 {
        } else {
        }
    }
    assert forall|i: int| 0 <= i < 8 implies #[trigger] icon.spec_border_lines()[i].end
        == icon.spec_border_lines()[(i + 1) % 8].start by {
        assert(0 <= (i + 1) % 8 < 8);
        assert(0 <= (i + 2) % 8 < 8);
        assert(((i + 1) % 8 + 1) % 8 == (i + 2) % 8);
    }
    assert forall|i: int| 0 <= i < 8 implies within_icon(icon, #[trigger] icon.spec_border_lines()[i].start)
        && within_icon(icon, icon.spec_border_lines()[i].end) by {
        assert(0 <= (i + 1) % 8 < 8);
        assert(within_icon(icon, a[i]));
        assert(within_icon(icon, a[(i + 1) % 8]));
    }
}

/// More charge fills no less: of two icons that differ only in their state of
/// charge, and whose body is at least as tall as the knob's top lies below the
/// icon's top, the one with more charge has every filling that the other has,
/// at the same sides and bottom and with its top no lower.
pub proof fn lemma_contents_grow_with_charge<C>(a: BatteryIcon<C>, b: BatteryIcon<C>)
    requires
        a.contents_defined(),
        b.contents_defined(),
        b.top_left == a.top_left,
        b.bottom_right == a.bottom_right,
        a.state_of_charge.percentage <= b.state_of_charge.percentage,
        a.top_left.y + a.height() / 10 <= a.bottom_right.y - a.width() / 5,
    ensures
        a.spec_knob_filling() matches Some(ra) ==> (b.spec_knob_filling() matches Some(rb) && {
            &&& rb.top_left.y <= ra.top_left.y
            &&& rb.top_left.x == ra.top_left.x
            &&& rb.bottom_right == ra.bottom_right
        }),
        a.spec_body_filling() matches Some(ra) ==> (b.spec_body_filling() matches Some(rb) && {
            &&& rb.top_left.y <= ra.top_left.y
            &&& rb.top_left.x == ra.top_left.x
            &&& rb.bottom_right == ra.bottom_right
        }),
{
    let ch = a.content_height();
    let pa = a.state_of_charge.percentage as int;
    let pb = b.state_of_charge.percentage as int;
    assert(ch >= 0);
    assert(b.content_height() == ch);
    assert(ch * pa <= ch * pb) by (nonlinear_arith)
        requires
            ch >= 0,
            pa <= pb,
    ;
    assert(0 <= ch * pa) by (nonlinear_arith)
        requires
            ch >= 0,
            pa >= 0,
    ;
    assert((ch * pa) / 100 <= (ch * pb) / 100) by {
        vstd::arithmetic::div_mod::lemma_div_is_ordered(ch * pa, ch * pb, 100);
    }
    assert(a.fill_height() <= b.fill_height());
    assert(b.fill_top() <= a.fill_top());
}

/// At a full charge the filling fills the outline: the knob's filling starts
/// at the outline's shoulders and lies between the sides of the outline's
/// knob, and the body's filling starts where the knob's filling ends.
pub proof fn lemma_full_icon_contents<C>(icon: BatteryIcon<C>)
    requires
        icon.contents_defined(),
        icon.border_defined(),
        icon.state_of_charge.percentage == 100,
        icon.top_left.x + 5 <= icon.bottom_right.x,
        icon.top_left.y + icon.height() / 10 <= icon.bottom_right.y - icon.width() / 5,
    ensures
        icon.spec_knob_filling() matches Some(k) && icon.spec_body_filling() matches Some(r) && {
            &&& k.top_left.y == icon.spec_border_lines()[2].start.y
            &&& k.top_left.y == icon.spec_border_lines()[3].start.y
            &&& icon.spec_border_lines()[5].start.x <= k.top_left.x
            &&& k.bottom_right.x <= icon.spec_border_lines()[4].start.x
            &&& r.top_left.y == k.bottom_right.y
        },
{
    let ch = icon.content_height();
    assert(ch >= 0);
    assert((ch * 100) / 100 == ch) by (nonlinear_arith)
        requires
            ch >= 0,
    ;
    assert(icon.fill_height() == ch);
    assert(icon.fill_top() == icon.knob_top());
    assert(icon.width() >= 5);
}

} // verus!

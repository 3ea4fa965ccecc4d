use klok::battery::StateOfCharge;
use klok::battery_icon::BatteryIcon;
use klok::clock::{format_time, ms_until_next_minute};
use klok::drawable_utils::{center_offset, top_right_offset, Center, TopRight};
use klok::font::{NumbersFont, CHARACTER_HEIGHT, CHARACTER_WIDTH, CHARS_PER_ROW};
use klok::geometry::{Line, Point, Rectangle, Rgb565, Size};
use klok::watchface::{battery_icon_for, BatteryProvider, TimeProvider, Watchface};

fn icon(percentage: u8) -> BatteryIcon<u8> {
    BatteryIcon {
        top_left: Point::new(0, 0),
        bottom_right: Point::new(10, 20),
        bg_color: 0,
        fg_color: 1,
        empty_color: 2,
        full_color: 3,
        state_of_charge: StateOfCharge::from_percentage(percentage),
    }
}

fn rect(x0: i32, y0: i32, x1: i32, y1: i32) -> Rectangle {
    Rectangle { top_left: Point::new(x0, y0), bottom_right: Point::new(x1, y1) }
}

#[test]
fn icon_size_and_moves() {
    let i = icon(50);
    assert_eq!(i.size(), Size::new(10, 20));
    let moved = i.translate(Point::new(5, -7));
    assert_eq!(moved.top_left(), Point::new(5, -7));
    assert_eq!(moved.bottom_right(), Point::new(15, 13));
    assert_eq!(moved.size(), i.size());
    let back = moved.translate(Point::new(-5, 7));
    assert_eq!(back.top_left, i.top_left);
    assert_eq!(back.bottom_right, i.bottom_right);
    let mut m = i;
    m.translate_mut(Point::new(5, -7));
    assert_eq!((m.top_left, m.bottom_right), (moved.top_left, moved.bottom_right));
    let flipped = BatteryIcon { top_left: Point::new(10, 20), bottom_right: Point::new(0, 0), ..i };
    assert_eq!(flipped.size(), Size::new(10, 20));
}

#[test]
fn icon_colours() {
    assert_eq!(icon(100).border_color(), 3);
    assert_eq!(icon(100).contents_color(), 3);
    assert_eq!(icon(9).border_color(), 2);
    assert_eq!(icon(10).border_color(), 1);
    assert_eq!(icon(15).contents_color(), 2);
    assert_eq!(icon(20).contents_color(), 1);
    assert_eq!(icon(99).border_color(), 1);
}

#[test]
fn icon_outline() {
    let i = icon(50);
    let corners = [(0, 20), (10, 20), (10, 2), (8, 2), (8, 0), (2, 0), (2, 2), (0, 2)];
    let lines = i.border_lines();
    assert_eq!(lines.len(), 8);
    for k in 0..8 {
        let (x0, y0) = corners[k];
        let (x1, y1) = corners[(k + 1) % 8];
        assert_eq!(lines[k], Line { start: Point::new(x0, y0), end: Point::new(x1, y1) });
    }
    assert_eq!(i.border_stroke_width(), 1);
    assert_eq!(i.background(), rect(0, 0, 10, 20));
}

#[test]
fn icon_filling() {
    assert_eq!(icon(50).contents(), (None, Some(rect(2, 10, 8, 18))));
    assert_eq!(icon(100).contents(), (Some(rect(4, 2, 6, 4)), Some(rect(2, 4, 8, 18))));
    assert_eq!(icon(1).contents(), (None, None));
    assert_eq!(icon(2).contents(), (None, Some(rect(2, 18, 8, 18))));
    assert_eq!(icon(90).contents(), (None, Some(rect(2, 4, 8, 18))));
    assert_eq!(icon(95).contents(), (Some(rect(4, 3, 6, 4)), Some(rect(2, 4, 8, 18))));
}

#[test]
fn placing_on_the_display() {
    let display = Size::new(240, 240);
    assert_eq!(center_offset(display, Size::new(10, 20)), Point::new(115, 110));
    assert_eq!(center_offset(display, Size::new(11, 21)), Point::new(114, 109));
    assert_eq!(top_right_offset(display, Size::new(10, 20)), Point::new(210, 20));
    let centred = icon(50).center(display);
    assert_eq!(centred.top_left, Point::new(115, 110));
    let cornered = icon(50).translate_to_top_right(display);
    assert_eq!((cornered.top_left, cornered.bottom_right), (Point::new(210, 20), Point::new(220, 40)));
}

#[test]
fn numbers_font() {
    for (k, c) in "0123456789".chars().enumerate() {
        assert_eq!(NumbersFont::char_offset(c), k as u32);
    }
    assert_eq!(NumbersFont::char_offset(':'), 10);
    assert_eq!(NumbersFont::char_offset(' '), 15);
    assert_eq!(NumbersFont::char_offset('a'), 15);
    assert_eq!(NumbersFont::character_size(), Size::new(40, 52));
    assert_eq!(NumbersFont::font_image_width(), 640);
    assert_eq!((CHARACTER_WIDTH, CHARACTER_HEIGHT, CHARS_PER_ROW), (40, 52, 16));
}

#[test]
fn time_text() {
    assert_eq!(format_time(9, 5), "09:05");
    assert_eq!(format_time(12, 45), "12:45");
    assert_eq!(format_time(0, 0), "00:00");
    assert_eq!(format_time(123, 7), "123:07");
}

#[test]
fn redraw_delay() {
    assert_eq!(ms_until_next_minute(0), 60000);
    assert_eq!(ms_until_next_minute(59), 1000);
    assert_eq!(ms_until_next_minute(60), 0);
}

struct FixedTime;

impl TimeProvider for FixedTime {
    fn get_time(&self) -> String {
        "13:37".to_string()
    }
}

struct FixedBattery(u8);

impl BatteryProvider for FixedBattery {
    fn get_state_of_charge(&self) -> StateOfCharge {
        StateOfCharge::from_percentage(self.0)
    }
}

#[test]
fn watchface_battery_icon() {
    let display = Size::new(240, 240);
    let i = battery_icon_for(StateOfCharge::from_percentage(5), display);
    assert_eq!((i.top_left, i.bottom_right), (Point::new(210, 20), Point::new(220, 40)));
    assert_eq!(i.bg_color, Rgb565::black());
    assert_eq!(i.fg_color, Rgb565::white());
    assert_eq!(i.empty_color, Rgb565::red());
    assert_eq!(i.full_color, Rgb565::green());
    assert_eq!(i.border_color(), Rgb565::red());

    let with_battery = Watchface::new(FixedTime, Some(FixedBattery(77)));
    assert_eq!(with_battery.time(), "13:37");
    let shown = with_battery.battery_icon(display).unwrap();
    assert_eq!(shown.state_of_charge.percentage(), 77);
    assert_eq!(shown.top_left, Point::new(210, 20));

    let without_battery: Watchface<FixedTime, FixedBattery> = Watchface::new(FixedTime, None);
    assert!(without_battery.battery_icon(display).is_none());
}

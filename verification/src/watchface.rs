//! The watch face: the time in the middle of the display and, where the
//! watch knows its battery, a battery icon in the top right corner.

use vstd::prelude::*;

use crate::battery::StateOfCharge;
use crate::battery_icon::BatteryIcon;
use crate::drawable_utils::TopRight;
use crate::geometry::{Point, Rgb565, Size};

verus! {

/// Gives the state of charge of the battery, in whole percent.
pub trait BatteryProvider {
    fn get_state_of_charge(&self) -> StateOfCharge;
}

/// Gives the time to show, as text.
pub trait TimeProvider {
    fn get_time(&self) -> String;
}

/// A watch face that shows the time of its time provider and the state of
/// charge of its battery provider, where it has one.
pub struct Watchface<TP, BP> where TP: TimeProvider, BP: BatteryProvider {
    time_provider: TP,
    battery_provider: Option<BP>,
}

/// The battery icon at the origin: 10 by 20 pixels, black behind, white
/// outline and filling, red when nearly empty, green when full.
pub open spec fn spec_unplaced_battery_icon(state_of_charge: StateOfCharge) -> BatteryIcon<Rgb565> {
    BatteryIcon {
        top_left: Point { x: 0, y: 0 },
        bottom_right: Point { x: 10, y: 20 },
        bg_color: Rgb565::spec_new(0, 0, 0),
        fg_color: Rgb565::spec_new(31, 63, 31),
        empty_color: Rgb565::spec_new(31, 0, 0),
        full_color: Rgb565::spec_new(0, 63, 0),
        state_of_charge,
    }
}

/// The displays in whose top right corner the battery icon can be put: 30
/// pixels wide at least, and the icon's right edge within `i32`.
pub open spec fn battery_icon_fits(display: Size) -> bool {
    &&& 30 <= display.width
    &&& ((display.width - 30) as u32 as i32) + 10 <= i32::MAX
}

/// Whether the battery icon can be put into the top right corner of a
/// display of size `display` (see `battery_icon_fits`).
pub fn battery_icon_fits_display(display: Size) -> (r: bool)
    ensures
        r == battery_icon_fits(display),
{
    if display.width < 30 {
        return false;
    }
    let x = (display.width - 30) as i32;
    x <= i32::MAX - 10
}

/// The battery icon of the watch face, in the top right corner.
pub open spec fn spec_battery_icon(state_of_charge: StateOfCharge, display: Size) -> BatteryIcon<Rgb565> {
    spec_unplaced_battery_icon(state_of_charge).spec_translate_to_top_right(display)
}

/// The battery icon for a state of charge, in the top right corner of a
/// display of size `display`.
pub fn battery_icon_for(state_of_charge: StateOfCharge, display: Size) -> (r: BatteryIcon<Rgb565>)
    requires
        battery_icon_fits(display),
    ensures
        r == spec_battery_icon(state_of_charge, display),
{
    let icon = BatteryIcon {
        top_left: Point::new(0, 0),
        bottom_right: Point::new(10, 20),
        bg_color: Rgb565::black(),
        fg_color: Rgb565::white(),
        empty_color: Rgb565::red(),
        full_color: Rgb565::green(),
        state_of_charge,
    };
    assert(icon == spec_unplaced_battery_icon(state_of_charge));
    icon.translate_to_top_right(display)
}

impl<TP, BP> Watchface<TP, BP> where TP: TimeProvider, BP: BatteryProvider {
    pub closed spec fn spec_time_provider(&self) -> TP {
        self.time_provider
    }

    pub closed spec fn spec_battery_provider(&self) -> Option<BP> {
        self.battery_provider
    }

    /// A watch face of the given providers.
    pub fn new(time_provider: TP, battery_provider: Option<BP>) -> (r: Watchface<TP, BP>)
        ensures
            r.spec_time_provider() == time_provider,
            r.spec_battery_provider() == battery_provider,
    {
        Watchface { time_provider, battery_provider }
    }

    /// Whether the watch face has a battery provider.
    pub fn has_battery_provider(&self) -> (r: bool)
        ensures
            r == self.spec_battery_provider() is Some,
    {
        self.battery_provider.is_some()
    }

    /// The time to show, as the time provider gives it.
    pub fn time(&self) -> (r: String)
        ensures
            call_ensures(TP::get_time, (&self.spec_time_provider(),), r),
    {
        self.time_provider.get_time()
    }

    /// The battery icon in the top right corner of a display of size
    /// `display`, at the state of charge that the battery provider gives;
    /// none where the watch face has no battery provider.
    pub fn battery_icon(&self, display: Size) -> (r: Option<BatteryIcon<Rgb565>>)
        requires
            battery_icon_fits(display),
        ensures
            r is None <==> self.spec_battery_provider() is None,
            r matches Some(icon) ==> icon == spec_battery_icon(icon.state_of_charge, display),
            r matches Some(icon) ==> (self.spec_battery_provider() matches Some(bp) && call_ensures(
                BP::get_state_of_charge,
                (&bp,),
                icon.state_of_charge,
            )),
    {
        match &self.battery_provider {
            Some(battery_provider) => {
                let state_of_charge = battery_provider.get_state_of_charge();
                Some(battery_icon_for(state_of_charge, display))
            },
            None => None,
        }
    }
}

} // verus!

//! A block that shows the charge of a battery.

use vstd::prelude::*;
use vstd::string::StringExecFns;
use crate::bar::blocks::Block;
use crate::text::same_text;

verus! {

#[derive(Debug)]
pub struct Battery {
    pub format_charging: String,
    pub format_discharging: String,
    pub format_full: String,
    pub interval_secs: u64,
    pub color: u32,
    pub battery_path: String,
}

impl Battery {
    /// Where the system tells about the battery called `name`; the battery
    /// is "BAT0" where no name is given.
    pub open spec fn path_of(name: Option<String>) -> Seq<char> {
        "/sys/class/power_supply/"@ + match name {
            Some(given) => given@,
            None => "BAT0"@,
        }
    }

    pub fn new(
        format_charging: &str,
        format_discharging: &str,
        format_full: &str,
        interval_secs: u64,
        color: u32,
        battery_name: Option<String>,
    ) -> (battery: Battery)
        ensures
            battery.format_charging@ == format_charging@,
            battery.format_discharging@ == format_discharging@,
            battery.format_full@ == format_full@,
            battery.interval_secs == interval_secs,
            battery.color == color,
            battery.battery_path@ == Self::path_of(battery_name),
    {
        let mut battery_path = String::from_str("/sys/class/power_supply/");
        match &battery_name {
            Some(given) => battery_path.append(given.as_str()),
            None => battery_path.append("BAT0"),
        }
        Battery {
            format_charging: String::from_str(format_charging),
            format_discharging: String::from_str(format_discharging),
            format_full: String::from_str(format_full),
            interval_secs,
            color,
            battery_path,
        }
    }

    /// The format for a status that the system reports: the one for
    /// charging, the one for a full battery, or else the one for
    /// discharging.
    pub open spec fn format_of(self, status: Seq<char>) -> Seq<char> {
        if status == "Charging"@ {
            self.format_charging@
        } else if status == "Full"@ {
            self.format_full@
        } else {
            self.format_discharging@
        }
    }

    /// Computes `format_of`.
    pub fn format_for(&self, status: &str) -> (format: &String)
        ensures
            format@ == self.format_of(status@),
    {
        if same_text(status, "Charging") {
            &self.format_charging
        } else if same_text(status, "Full") {
            &self.format_full
        } else {
            &self.format_discharging
        }
    }
}

impl Block for Battery {
    open spec fn refresh_secs(&self) -> u64 {
        self.interval_secs
    }

    open spec fn shade(&self) -> u32 {
        self.color
    }

    fn interval(&self) -> (seconds: u64) {
        self.interval_secs
    }

    fn color(&self) -> (color: u32) {
        self.color
    }
}

} // verus!

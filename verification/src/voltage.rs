//! Charge levels and the pure arithmetic behind the voltage sensing path.
//!
//! The ADC transactions themselves are hardware I/O and stay outside the
//! library; what is here is every decision made on the raw readings: the
//! supply-voltage calculation, the voltage-divider scaling, and the mapping
//! from millivolts to a charge level.

use vstd::arithmetic::div_mod::lemma_div_is_ordered;
use vstd::arithmetic::mul::lemma_mul_upper_bound;
use vstd::prelude::*;

verus! {

/// Charge levels, from an empty supercap to a full one.
#[derive(Clone, Copy, Debug, PartialEq, Eq, Structural)]
pub enum VoltageLevels {
    Dead,
    Critical,
    VeryLow,
    Low,
    Medium,
    High,
    Full,
}

impl VoltageLevels {
    /// The numeric code a level is persisted as.
    pub open spec fn code_spec(self) -> u32 {
        match self {
            VoltageLevels::Dead => 0,
            VoltageLevels::Critical => 1,
            VoltageLevels::VeryLow => 2,
            VoltageLevels::Low => 3,
            VoltageLevels::Medium => 4,
            VoltageLevels::High => 5,
            VoltageLevels::Full => 6,
        }
    }

    /// The numeric code a level is persisted as.
    pub fn code(self) -> (r: u32)
        ensures
            r == self.code_spec(),
    {
        match self {
            VoltageLevels::Dead => 0,
            VoltageLevels::Critical => 1,
            VoltageLevels::VeryLow => 2,
            VoltageLevels::Low => 3,
            VoltageLevels::Medium => 4,
            VoltageLevels::High => 5,
            VoltageLevels::Full => 6,
        }
    }

    /// Which level a stored code decodes to, if any.
    pub open spec fn from_int_spec(v: u32) -> Option<VoltageLevels> {
        if v == 0 {
            Some(VoltageLevels::Dead)
        } else if v == 1 {
            Some(VoltageLevels::Critical)
        } else if v == 2 {
            Some(VoltageLevels::VeryLow)
        } else if v == 3 {
            Some(VoltageLevels::Low)
        } else if v == 4 {
            Some(VoltageLevels::Medium)
        } else if v == 5 {
            Some(VoltageLevels::High)
        } else if v == 6 {
            Some(VoltageLevels::Full)
        } else {
            None
        }
    }

    /// Decode a stored code; `None` for anything out of range.
    pub fn from_int(v: u32) -> (r: Option<VoltageLevels>)
        ensures
            r == Self::from_int_spec(v),
    {
        if v == 0 {
            Some(VoltageLevels::Dead)
        } else if v == 1 {
            Some(VoltageLevels::Critical)
        } else if v == 2 {
            Some(VoltageLevels::VeryLow)
        } else if v == 3 {
            Some(VoltageLevels::Low)
        } else if v == 4 {
            Some(VoltageLevels::Medium)
        } else if v == 5 {
            Some(VoltageLevels::High)
        } else if v == 6 {
            Some(VoltageLevels::Full)
        } else {
            None
        }
    }

    /// A human-readable name for the level.
    pub fn label(self) -> (r: &'static str)
        ensures
            self == VoltageLevels::Dead ==> r@ == "Dead"@,
            self == VoltageLevels::Critical ==> r@ == "Critical"@,
            self == VoltageLevels::VeryLow ==> r@ == "VeryLow"@,
            self == VoltageLevels::Low ==> r@ == "Low"@,
            self == VoltageLevels::Medium ==> r@ == "Medium"@,
            self == VoltageLevels::High ==> r@ == "High"@,
            self == VoltageLevels::Full ==> r@ == "Full"@,
    {
        match self {
            VoltageLevels::Dead => "Dead",
            VoltageLevels::Critical => "Critical",
            VoltageLevels::VeryLow => "VeryLow",
            VoltageLevels::Low => "Low",
            VoltageLevels::Medium => "Medium",
            VoltageLevels::High => "High",
            VoltageLevels::Full => "Full",
        }
    }
}

/// The charge level a supercap or solar voltage (in millivolts) maps to.
pub open spec fn charging_level_spec(millivolts: u16) -> VoltageLevels {
    if millivolts <= 2700 {
        VoltageLevels::Dead
    } else if millivolts <= 3000 {
        VoltageLevels::Critical
    } else if millivolts <= 3500 {
        VoltageLevels::VeryLow
    } else if millivolts <= 4000 {
        VoltageLevels::Low
    } else if millivolts <= 4500 {
        VoltageLevels::Medium
    } else if millivolts <= 5000 {
        VoltageLevels::High
    } else {
        VoltageLevels::Full
    }
}

/// Map a measured voltage in millivolts to a charge level.
pub fn charging_levels(solar_intensity: u16) -> (r: VoltageLevels)
    ensures
        r == charging_level_spec(solar_intensity),
{
    if solar_intensity <= 2700 {
        VoltageLevels::Dead
    } else if solar_intensity <= 3000 {
        VoltageLevels::Critical
    } else if solar_intensity <= 3500 {
        VoltageLevels::VeryLow
    } else if solar_intensity <= 4000 {
        VoltageLevels::Low
    } else if solar_intensity <= 4500 {
        VoltageLevels::Medium
    } else if solar_intensity <= 5000 {
        VoltageLevels::High
    } else {
        VoltageLevels::Full
    }
}

/// The charge indicator distracts, so it is shown only when the level is
/// `Low` or below.
pub fn charge_to_show_for(charge: VoltageLevels) -> (r: Option<VoltageLevels>)
    ensures
        charge.code_spec() <= 3 ==> r == Some(charge),
        charge.code_spec() > 3 ==> r is None,
{
    let c = charge.code();
    if c <= 3 {
        Some(charge)
    } else {
        None
    }
}

/// The supply voltage in millivolts, from the reference-voltage reading and
/// its factory calibration value (taken at a 3.000 V supply).
pub fn vdd_from_calibration(vref_cal: u16, vref: u16) -> (r: u32)
    requires
        vref > 0,
    ensures
        r == 3000 * (vref_cal as int) / (vref as int),
{
    proof {
        lemma_mul_upper_bound(3000, 3000, vref_cal as int, 0xFFFF);
    }
    3000u32 * (vref_cal as u32) / (vref as u32)
}

/// The voltage in millivolts behind a half-ratio divider, from a 12-bit ADC
/// reading scaled against the supply voltage.
pub fn divider_voltage(raw: u16, vdd: u32) -> (r: u32)
    requires
        raw <= 4095,
        vdd <= 1_000_000,
    ensures
        r == 2 * ((raw as int * vdd as int) / 4095),
{
    proof {
        lemma_mul_upper_bound(raw as int, 4095, vdd as int, 1_000_000);
        lemma_div_is_ordered(raw as int * vdd as int, (4095 * 1_000_000) as int, 4095);
    }
    2 * ((raw as u32 * vdd) / 4095)
}

} // verus!

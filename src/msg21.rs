//! The status byte of an Aid-to-Navigation report (message type 21).
//!
//! The top three bits select a page; only page 7 has a defined layout:
//! bits 4-3 give the RACON state, bits 2-1 the light state and bit 0 the
//! general health.

use vstd::prelude::*;

verus! {

#[derive(Debug, Clone, Copy, PartialEq, Eq, Structural)]
pub enum RaconStatus {
    NotFitted,
    NotMonitored,
    Operational,
    Test,
    Unknown,
}

#[derive(Debug, Clone, Copy, PartialEq, Eq, Structural)]
pub enum LightStatus {
    NoLightOrNotMonitored,
    On,
    Off,
    FailOrReducedRange,
    Unknown,
}

#[derive(Debug, Clone, Copy, PartialEq, Eq, Structural)]
pub enum GeneralHealth {
    Good,
    Alarm,
    Unknown,
}

/// The interpreted status of one Aid-to-Navigation report.
#[derive(Debug, Clone, Copy, PartialEq, Eq, Structural)]
pub struct AtonStatus {
    pub page_id: u8,
    pub racon_status: Option<RaconStatus>,
    pub light_status: Option<LightStatus>,
    pub health: GeneralHealth,
}

/// The page selected by a status byte: its three most significant bits.
pub open spec fn page_of(status_byte: u8) -> u8 {
    status_byte >> 5u8
}

pub open spec fn racon_of(code: u8) -> RaconStatus {
    if code == 0 {
        RaconStatus::NotFitted
    } else if code == 1 {
        RaconStatus::NotMonitored
    } else if code == 2 {
        RaconStatus::Operational
    } else {
        RaconStatus::Test
    }
}

pub open spec fn light_of(code: u8) -> LightStatus {
    if code == 0 {
        LightStatus::NoLightOrNotMonitored
    } else if code == 1 {
        LightStatus::On
    } else if code == 2 {
        LightStatus::Off
    } else {
        LightStatus::FailOrReducedRange
    }
}

pub open spec fn health_of(code: u8) -> GeneralHealth {
    if code == 0 {
        GeneralHealth::Good
    } else {
        GeneralHealth::Alarm
    }
}

/// What a status byte means: for page 7 the three sub-fields, for any other
/// page nothing at all.
pub open spec fn interpret(
    status_byte: u8,
) -> (Option<RaconStatus>, Option<LightStatus>, GeneralHealth) {
    if page_of(status_byte) == 7 {
        (
            Some(racon_of((status_byte >> 3u8) & 3u8)),
            Some(light_of((status_byte >> 1u8) & 3u8)),
            health_of(status_byte & 1u8),
        )
    } else {
        (None, None, GeneralHealth::Unknown)
    }
}

/// Interprets a status byte according to its page.
pub fn parse_aton_status(status_byte: u8) -> (r: (
    Option<RaconStatus>,
    Option<LightStatus>,
    GeneralHealth,
))
    ensures
        r == interpret(status_byte),
        page_of(status_byte) == 7 ==> {
            &&& r.0 is Some && r.0 != Some(RaconStatus::Unknown)
            &&& r.1 is Some && r.1 != Some(LightStatus::Unknown)
            &&& r.2 != GeneralHealth::Unknown
        },
        page_of(status_byte) != 7 ==> r == (
            None::<RaconStatus>,
            None::<LightStatus>,
            GeneralHealth::Unknown,
        ),
{
    let page_id = status_byte >> 5u8;
    if page_id == 7 {
        let racon_bits = (status_byte >> 3u8) & 3u8;
        let light_bits = (status_byte >> 1u8) & 3u8;
        let health_bit = status_byte & 1u8;
        let racon = match racon_bits {
            0 => RaconStatus::NotFitted,
            1 => RaconStatus::NotMonitored,
            2 => RaconStatus::Operational,
            _ => RaconStatus::Test,
        };
        let light = match light_bits {
            0 => LightStatus::NoLightOrNotMonitored,
            1 => LightStatus::On,
            2 => LightStatus::Off,
            _ => LightStatus::FailOrReducedRange,
        };
        let health = if health_bit == 0 {
            GeneralHealth::Good
        } else {
            GeneralHealth::Alarm
        };
        (Some(racon), Some(light), health)
    } else {
        (None, None, GeneralHealth::Unknown)
    }
}

/// The status carried by a byte, with its page id.
pub fn aton_status_of(status_byte: u8) -> (r: AtonStatus)
    ensures
        r.page_id == page_of(status_byte),
        r.page_id < 8,
        (r.racon_status, r.light_status, r.health) == interpret(status_byte),
{
    let (racon_status, light_status, health) = parse_aton_status(status_byte);
    assert(status_byte >> 5u8 < 8u8) by (bit_vector);
    AtonStatus { page_id: status_byte >> 5u8, racon_status, light_status, health }
}

} // verus!

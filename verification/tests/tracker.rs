use rs1090::co2::EfSource;
use rs1090::modes::{CprPosition, DownlinkFrame, ExtendedSquitter, GroundVector, Airspeed, TypeCoding};
use rs1090::tracker::{AircraftState, AltitudeValue, Tracker};

/// Nanoseconds in a millisecond.
const MS: u64 = 1_000_000;

/// The frame "8da2c1bd587ba2adb31799cb802b": DF17 from a2c1bd, airborne
/// position with barometric altitude 23650 ft, even CPR frame.

fn position_frame(icao: u32) -> DownlinkFrame {
    DownlinkFrame::Adsb {
        icao,
        me: ExtendedSquitter::AirbornePositionBaroAltitude(CprPosition {
            alt: Some(23650),
            odd: false,
            lat_cpr: 87769,
            lon_cpr: 71577,
        }),
    }
}

/// The frame "8da61789200464b3cf6c207c7b06": DF17 from a61789,
/// identification "AFR3360", category A0.
fn identity_frame() -> DownlinkFrame {
    DownlinkFrame::Adsb {
        icao: 0xa61789,
        me: ExtendedSquitter::AircraftIdentification { tc: TypeCoding::A, ca: 0, cn: "AFR3360".to_string() },
    }
}

fn get<'a>(tracker: &'a Tracker, hex: &str) -> Option<&'a AircraftState> {
    tracker.aircraft.iter().find(|a| a.hex == hex)
}

#[test]
fn tracker_creates_aircraft() {
    let mut tracker = Tracker::new(None, None);
    assert_eq!(tracker.count(), 0);

    let frame = position_frame(0xa2c1bd);
    tracker.update(&frame, Some(0x80));
    assert_eq!(tracker.count(), 1);
    let ac = tracker.aircraft.iter().next().unwrap();
    assert_eq!(ac.hex, "a2c1bd");
    assert!(ac.messages > 0);
}

#[test]
fn tracker_decodes_identity() {
    let mut tracker = Tracker::new(None, None);

    let frame = identity_frame();
    tracker.update(&frame, None);
    let ac = get(&tracker, "a61789").unwrap();
    assert!(ac.callsign.is_some(), "callsign should be decoded");
}

#[test]
fn tracker_expires_stale() {
    let mut tracker = Tracker::new(None, None);

    let frame = position_frame(0xa2c1bd);
    tracker.update_at(&frame, None, 1_000 * MS);
    assert_eq!(tracker.count(), 1);

    // 301 s after the last message
    tracker.expire_stale_at((1_000 + 301_000) * MS);
    assert_eq!(tracker.count(), 0);
}

#[test]
fn country_lookup_on_create() {
    let mut tracker = Tracker::new(None, None);

    let frame = position_frame(0x3c6752);
    tracker.update(&frame, None);
    let ac = get(&tracker, "3c6752").unwrap();
    assert_eq!(ac.country_code.as_deref(), Some("de"));
    assert_eq!(ac.country.as_deref(), Some("Germany"));
}

#[test]
fn identification_sets_callsign_and_category() {
    let mut tracker = Tracker::new(None, None);
    let frame = DownlinkFrame::Adsb {
        icao: 0xa61789,
        me: ExtendedSquitter::AircraftIdentification { tc: TypeCoding::B, ca: 2, cn: " DLH1A  ".to_string() },
    };
    tracker.update_at(&frame, None, 0);
    let ac = get(&tracker, "a61789").unwrap();
    assert_eq!(ac.callsign.as_deref(), Some("DLH1A"));
    assert_eq!(ac.category.as_deref(), Some("B2"));
    assert_eq!(identity_frame_category(), "A0");
}

fn identity_frame_category() -> String {
    let mut tracker = Tracker::new(None, None);
    tracker.update_at(&identity_frame(), None, 0);
    tracker.aircraft[0].category.clone().unwrap()
}

#[test]
fn fresh_aircraft_defaults() {
    let mut tracker = Tracker::new(None, None);
    tracker.update_at(&DownlinkFrame::AllCallReply { icao: 0x3c6752 }, None, 42);
    let ac = &tracker.aircraft[0];
    assert_eq!(ac.hex, "3c6752");
    assert_eq!(ac.icao_raw, 0x3c6752);
    assert_eq!(ac.messages, 1);
    assert_eq!(ac.last_message, 42);
    assert_eq!(ac.seen_pos, u64::MAX);
    assert_eq!(ac.ef_used, Some(70));
    assert_eq!(ac.ef_source, Some(EfSource::Default));
    assert!(ac.lat.is_none());
}

#[test]
fn messages_counted_per_aircraft_and_total() {
    let mut tracker = Tracker::new(None, None);
    tracker.update_at(&position_frame(0xa2c1bd), None, 0);
    tracker.update_at(&position_frame(0xa2c1bd), None, 10);
    tracker.update_at(&identity_frame(), None, 20);
    tracker.update_at(&DownlinkFrame::Other, None, 30);
    assert_eq!(tracker.total_messages, 4);
    assert_eq!(tracker.count(), 2);
    assert_eq!(get(&tracker, "a2c1bd").unwrap().messages, 2);
    assert_eq!(get(&tracker, "a2c1bd").unwrap().last_message, 10);
    assert_eq!(get(&tracker, "a61789").unwrap().messages, 1);
}

#[test]
fn tisb_address_is_marked() {
    let mut tracker = Tracker::new(None, None);
    let frame = DownlinkFrame::TisB { crc: 0x3c6752, me: ExtendedSquitter::SurfacePosition };
    tracker.update_at(&frame, None, 0);
    let ac = get(&tracker, "~3c6752").unwrap();
    assert_eq!(ac.alt_baro, Some(AltitudeValue::Ground));
    assert_eq!(ac.country_code.as_deref(), Some("de"));
}

#[test]
fn short_addresses_are_zero_padded() {
    let mut tracker = Tracker::new(None, None);
    tracker.update_at(&DownlinkFrame::SurveillanceAltitudeReply { crc: 0x00abc, altitude: 0 }, None, 0);
    let ac = get(&tracker, "000abc").unwrap();
    // altitude 0 means unknown
    assert_eq!(ac.alt_baro, None);
    tracker.update_at(&DownlinkFrame::SurveillanceAltitudeReply { crc: 0x00abc, altitude: 3500 }, None, 0);
    assert_eq!(get(&tracker, "000abc").unwrap().alt_baro, Some(AltitudeValue::Feet(3500)));
}

#[test]
fn squawk_is_four_hex_digits() {
    let mut tracker = Tracker::new(None, None);
    tracker.update_at(&DownlinkFrame::SurveillanceIdentityReply { crc: 0x4ca123, id: 0x7700 }, None, 0);
    assert_eq!(get(&tracker, "4ca123").unwrap().squawk.as_deref(), Some("7700"));
    tracker.update_at(&DownlinkFrame::CommBIdentityReply { crc: 0x4ca123, id: 0x0042 }, None, 0);
    assert_eq!(get(&tracker, "4ca123").unwrap().squawk.as_deref(), Some("0042"));
}

#[test]
fn signal_level_kept_only_when_nonzero() {
    let mut tracker = Tracker::new(None, None);
    tracker.update_at(&position_frame(0xa2c1bd), Some(0x80), 0);
    assert_eq!(tracker.aircraft[0].rssi, Some(0x80));
    tracker.update_at(&position_frame(0xa2c1bd), Some(0), 0);
    assert_eq!(tracker.aircraft[0].rssi, Some(0x80));
}

#[test]
fn velocity_and_status() {
    let mut tracker = Tracker::new(None, None);
    let frame = DownlinkFrame::Adsb {
        icao: 0xa2c1bd,
        me: ExtendedSquitter::AirborneVelocity {
            ground: Some(GroundVector { track: 1825, speed: 4513, vrate: -832 }),
            airspeed: None,
        },
    };
    tracker.update_at(&frame, None, 0);
    let airspeed = DownlinkFrame::Adsb {
        icao: 0xa2c1bd,
        me: ExtendedSquitter::AirborneVelocity {
            ground: None,
            airspeed: Some(Airspeed { airspeed: 250, airspeed_type: 1 }),
        },
    };
    tracker.update_at(&airspeed, None, 0);
    let status = DownlinkFrame::Adsb {
        icao: 0xa2c1bd,
        me: ExtendedSquitter::OperationStatus { version: 2, nacp: 9, sil: 3 },
    };
    tracker.update_at(&status, None, 0);
    let ac = &tracker.aircraft[0];
    assert_eq!(ac.gs, Some(4513));
    assert_eq!(ac.track, Some(1825));
    assert_eq!(ac.baro_rate, Some(-832));
    assert_eq!(ac.tas, Some(250));
    assert_eq!(ac.ias, None);
    assert_eq!(ac.version, Some(2));
    assert_eq!(ac.nac_p, Some(9));
    assert_eq!(ac.sil, Some(3));
}

fn odd_frame(icao: u32) -> DownlinkFrame {
    DownlinkFrame::Adsb {
        icao,
        me: ExtendedSquitter::AirbornePositionBaroAltitude(CprPosition {
            alt: Some(23650),
            odd: true,
            lat_cpr: 74158,
            lon_cpr: 50194,
        }),
    }
}

#[test]
fn cpr_pair_requests_position() {
    let mut tracker = Tracker::new(None, None);
    assert!(tracker.update_at(&position_frame(0xa2c1bd), None, 0).is_none());
    let req = tracker.update_at(&odd_frame(0xa2c1bd), None, 5_000 * MS).expect("fresh pair");
    assert_eq!(req.hex, "a2c1bd");
    assert!(!req.even.odd);
    assert!(req.odd.odd);
    assert_eq!(req.prev, None);
    assert_eq!(req.now, 5_000 * MS);
    assert_eq!(tracker.aircraft[0].alt_baro, Some(AltitudeValue::Feet(23650)));
}

#[test]
fn stale_cpr_pair_not_decoded() {
    let mut tracker = Tracker::new(None, None);
    tracker.update_at(&position_frame(0xa2c1bd), None, 0);
    // 11 s later the even frame is too old
    assert!(tracker.update_at(&odd_frame(0xa2c1bd), None, 11_000 * MS).is_none());
    // but 10.999 s still counts as 10 whole seconds
    let mut tracker = Tracker::new(None, None);
    tracker.update_at(&position_frame(0xa2c1bd), None, 0);
    assert!(tracker.update_at(&odd_frame(0xa2c1bd), None, 10_999 * MS).is_some());
}

#[test]
fn positions_accumulate_distance_and_co2() {
    let mut tracker = Tracker::new(None, None);
    tracker.update_at(&position_frame(0xa2c1bd), None, 0);
    let req = tracker.update_at(&odd_frame(0xa2c1bd), None, 1_000 * MS).unwrap();
    tracker.record_position(&req, 52_000_000, 4_000_000, None);
    assert_eq!(tracker.count_with_position(), 1);
    let ac = &tracker.aircraft[0];
    assert_eq!(ac.lat, Some(52_000_000));
    assert_eq!(ac.seen_pos, 0);
    assert_eq!(ac.dist_mm, 0);

    // A 2 km move with the default factor (7.0 kg/km).
    let req = tracker.update_at(&position_frame(0xa2c1bd), None, 2_000 * MS).unwrap();
    assert_eq!(req.prev, Some((52_000_000, 4_000_000)));
    tracker.record_position(&req, 52_018_000, 4_000_000, Some(2_000_000));
    let ac = &tracker.aircraft[0];
    assert_eq!(ac.dist_mm, 2_000_000);
    assert_eq!(ac.co2_tenth_mg, 2_000_000 * 70);
    // 2 km at 7 kg/km is 14 kg
    assert_eq!(ac.co2_tenth_mg as f64 / 1e7, 14.0);

    // Jitter (5 m) and jumps (60 km) are not counted.
    let req = tracker.update_at(&odd_frame(0xa2c1bd), None, 3_000 * MS).unwrap();
    tracker.record_position(&req, 52_018_010, 4_000_000, Some(5_000));
    let req = tracker.update_at(&odd_frame(0xa2c1bd), None, 4_000 * MS).unwrap();
    tracker.record_position(&req, 52_600_000, 4_000_000, Some(60_000_000));
    let ac = &tracker.aircraft[0];
    assert_eq!(ac.dist_mm, 2_000_000);
    assert_eq!(ac.lat, Some(52_600_000));
}

#[test]
fn emission_factor_follows_known_type() {
    let mut tracker = Tracker::new(None, None);
    tracker.update_at(&position_frame(0xa2c1bd), None, 0);
    tracker.aircraft[0].type_code = Some("A320".to_string());
    let req = tracker.update_at(&odd_frame(0xa2c1bd), None, 0).unwrap();
    tracker.record_position(&req, 1_000_000, 1_000_000, None);
    let req = tracker.update_at(&odd_frame(0xa2c1bd), None, 0).unwrap();
    tracker.record_position(&req, 1_010_000, 1_000_000, Some(1_000_000));
    let ac = &tracker.aircraft[0];
    assert_eq!(ac.ef_used, Some(95));
    assert_eq!(ac.ef_source, Some(EfSource::Type));
    assert_eq!(ac.co2_tenth_mg, 95_000_000);
}

#[test]
fn position_off_globe_ignored() {
    let mut tracker = Tracker::new(None, None);
    tracker.update_at(&position_frame(0xa2c1bd), None, 0);
    let req = tracker.update_at(&odd_frame(0xa2c1bd), None, 0).unwrap();
    tracker.record_position(&req, 91_000_000, 0, None);
    assert_eq!(tracker.count_with_position(), 0);
}

#[test]
fn ages_follow_clock() {
    let mut tracker = Tracker::new(None, None);
    tracker.update_at(&position_frame(0xa2c1bd), None, 1_000 * MS);
    let req = tracker.update_at(&odd_frame(0xa2c1bd), None, 2_000 * MS).unwrap();
    tracker.record_position(&req, 1, 1, None);
    tracker.update_ages_at(9_500 * MS);
    assert_eq!(tracker.aircraft[0].seen, 7_500 * MS);
    assert_eq!(tracker.aircraft[0].seen_pos, 7_500 * MS);
    assert_eq!(tracker.latest, 9_500 * MS);
    tracker.expire_stale_at((2_000 + 299_999) * MS);
    assert_eq!(tracker.count(), 1);
}

#[test]
fn expiry_counts_whole_seconds_of_nanoseconds() {
    // heard at 0.9 ms, checked at 300 000.5 ms: 299.9996 s, still current
    let mut tracker = Tracker::new(None, None);
    tracker.update_at(&position_frame(0xa2c1bd), None, 900_000);
    tracker.expire_stale_at(300_000_500_000);
    assert_eq!(tracker.count(), 1);
    tracker.expire_stale_at(300_000_900_000);
    assert_eq!(tracker.count(), 0);
}

#[test]
fn clock_never_goes_back() {
    let mut tracker = Tracker::new(None, None);
    tracker.update_at(&position_frame(0xa2c1bd), None, 5_000 * MS);
    tracker.update_ages_at(1_000 * MS);
    assert_eq!(tracker.latest, 5_000 * MS);
    tracker.update(&position_frame(0x3c6752), None);
    assert!(tracker.latest >= 5_000 * MS);
    assert!(tracker.aircraft.iter().all(|a| a.last_message <= tracker.latest && a.messages >= 1));
    let total: u64 = tracker.aircraft.iter().map(|a| a.messages).sum();
    assert!(total <= tracker.total_messages);
}

#[test]
fn receiver_position_kept() {
    let tracker = Tracker::new(Some(48_120_000), Some(-11_560_000));
    assert_eq!(tracker.receiver_lat, Some(48_120_000));
    assert_eq!(tracker.receiver_lon, Some(-11_560_000));
    assert_eq!(tracker.count(), 0);
    assert_eq!(tracker.total_messages, 0);
}

#[test]
fn receiver_position_survives_operations() {
    let mut tracker = Tracker::new(Some(48_120_000), Some(11_560_000));
    tracker.update_at(&position_frame(0xa2c1bd), None, 0);
    let req = tracker.update_at(&odd_frame(0xa2c1bd), None, MS).unwrap();
    tracker.record_position(&req, 1, 1, None);
    assert_eq!(tracker.latest, MS);
    tracker.update_ages_at(2 * MS);
    tracker.expire_stale_at(3 * MS);
    assert_eq!(tracker.receiver_lat, Some(48_120_000));
    assert_eq!(tracker.receiver_lon, Some(11_560_000));
}

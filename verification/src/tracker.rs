//! tracker — aircraft state machine
//!
//! Merges individual Mode S / ADS-B messages into a per-aircraft state
//! object: callsign, altitude, velocity, squawk, category, CPR frame
//! pairing for position decoding, CO₂ accounting, and timeouts.
//!
//! Each aircraft is identified by its hex address text. Times are
//! nanoseconds of a monotonic clock; positions are in micro-degrees;
//! speeds and angles in tenths of their unit; distances in millimetres and
//! CO₂ in units of 0.1 mg (see [`crate::co2`]).
//!
//! The global CPR decode and the great-circle distance are floating-point
//! computations done by the caller: when a message completes a fresh
//! even/odd CPR pair, [`Tracker::update`] answers a [`PositionRequest`],
//! and the caller hands the decoded position back to
//! [`Tracker::record_position`].

use vstd::prelude::*;
use crate::clock::{instant_now, nanos_since};
use crate::co2::{emission_factor, emission_factor_spec, EfSource, EF_DEFAULT, MAX_JUMP_MM, MIN_MOVE_MM};
use crate::icao_country::{country_of_address, lemma_lookup_hex_text, lookup, lookup_spec, IcaoCountry};
use crate::modes::{Airspeed, CprPosition, DownlinkFrame, ExtendedSquitter, GroundVector, TypeCoding};
use crate::text::{
    decimal_text, digit_char, format_hex, hex_text, hex_u32_value, lemma_hex_text_parses, opt_as_str, opt_str_chars, opt_string_chars, push_decimal,
    lemma_hex_text_value, strip_leading, strip_leading_spec, trim_spec, trim_to_string,
};

verus! {

/// How long before an aircraft with no messages is removed (seconds).
pub const AIRCRAFT_TIMEOUT_SECS: u64 = 300;

/// Maximum age for a CPR frame to be usable for global decode (seconds).
pub const CPR_MAX_AGE_SECS: u64 = 10;

/// Nanoseconds in a second: the clock's unit.
pub const NANOS_PER_SEC: u64 = 1_000_000_000;

/// Largest latitude magnitude accepted from a decode, in micro-degrees.
pub const MAX_LAT_E6: i32 = 90_000_000;

/// Largest longitude magnitude accepted from a decode, in micro-degrees.
pub const MAX_LON_E6: i32 = 180_000_000;

/// Barometric altitude: either a numeric value or "ground".
#[derive(Debug, Clone, Copy, PartialEq, Eq, Structural)]
pub enum AltitudeValue {
    Feet(i32),
    Ground,
}

/// Saved CPR frame for position decoding.
#[derive(Debug, Clone, Copy)]
pub struct CprFrame {
    pub position: CprPosition,
    /// When the frame arrived (ns).
    pub received: u64,
}

/// Per-aircraft tracked state.
#[derive(Debug, Clone)]
pub struct AircraftState {
    pub hex: String,
    pub icao_raw: u32,
    // Identification
    pub callsign: Option<String>,
    /// Emitter category, e.g. "A3", "B2".
    pub category: Option<String>,
    pub registration: Option<String>,
    /// ICAO type designator, from an external database, not ADS-B.
    pub type_code: Option<String>,
    // Position, micro-degrees
    pub lat: Option<i32>,
    pub lon: Option<i32>,
    pub nic: Option<u8>,
    // Altitude
    pub alt_baro: Option<AltitudeValue>,
    pub alt_geom: Option<i32>,
    // Velocity
    /// Ground speed, tenths of a knot.
    pub gs: Option<i32>,
    /// Track over ground, tenths of a degree.
    pub track: Option<i32>,
    /// ft/min
    pub baro_rate: Option<i16>,
    /// ft/min
    pub geom_rate: Option<i16>,
    /// Indicated airspeed, knots.
    pub ias: Option<u16>,
    /// True airspeed, knots.
    pub tas: Option<u16>,
    /// Mach number, thousandths.
    pub mach: Option<u16>,
    // Transponder
    pub squawk: Option<String>,
    pub emergency: Option<String>,
    /// ADS-B version (0, 1, 2).
    pub version: Option<u8>,
    pub nac_p: Option<u8>,
    pub nac_v: Option<u8>,
    pub sil: Option<u8>,
    pub sil_type: Option<String>,
    // Signal / message stats
    /// Signal level (1–255) of the last ADS-B frame that carried a non-zero
    /// level; its dBFS value is 10·log10(level / 255).
    pub rssi: Option<u8>,
    pub messages: u64,
    // Timing, ns
    /// Time since the last message.
    pub seen: u64,
    /// Time since the last position (`u64::MAX` before the first).
    pub seen_pos: u64,
    pub last_message: u64,
    pub last_position: Option<u64>,
    // Country (from ICAO hex range)
    pub country: Option<String>,
    pub country_code: Option<String>,
    // CPR state: the latest even and odd frame
    pub cpr_even: Option<CprFrame>,
    pub cpr_odd: Option<CprFrame>,
    // CO₂ tracking
    pub prev_lat: Option<i32>,
    pub prev_lon: Option<i32>,
    /// Distance flown while tracked, mm.
    pub dist_mm: u64,
    /// CO₂ emitted over that distance, units of 0.1 mg.
    pub co2_tenth_mg: u64,
    /// Emission factor last used, tenths of kg/km.
    pub ef_used: Option<u16>,
    pub ef_source: Option<EfSource>,
}

/// A position decode that the caller should perform: the even and odd CPR
/// frames of the aircraft `hex`, its previous position (for the distance
/// flown), and the time of the message that completed the pair.
#[derive(Debug)]
pub struct PositionRequest {
    pub hex: String,
    pub even: CprPosition,
    pub odd: CprPosition,
    pub prev: Option<(i32, i32)>,
    pub now: u64,
}

// ───────────────────────────── Specification ─────────────────────────────

/// Nanoseconds from `then` to `now`, zero if `now` is earlier
/// (as `Instant::duration_since`).
pub open spec fn age_nanos(now: u64, then: u64) -> u64 {
    if now >= then {
        (now - then) as u64
    } else {
        0
    }
}

/// Whole seconds from `then` to `now` (as `Duration::as_secs`).
pub open spec fn age_secs(now: u64, then: u64) -> u64 {
    age_nanos(now, then) / NANOS_PER_SEC
}

/// The country fields of `a` hold the looked-up country `c`.
pub open spec fn country_matches(a: AircraftState, c: Option<IcaoCountry>) -> bool {
    match c {
        Some(c) => {
            &&& a.country matches Some(n) && n@ == c.country@
            &&& a.country_code matches Some(k) && k@ == c.code@
        },
        None => a.country is None && a.country_code is None,
    }
}

/// `a` is the state of an aircraft first heard at `now`.
pub open spec fn fresh(a: AircraftState, hex: Seq<char>, icao: u32, now: u64) -> bool {
    &&& a.hex@ == hex
    &&& a.icao_raw == icao
    &&& a.callsign is None && a.category is None && a.registration is None && a.type_code is None
    &&& a.lat is None && a.lon is None && a.nic is None
    &&& a.alt_baro is None && a.alt_geom is None
    &&& a.gs is None && a.track is None && a.baro_rate is None && a.geom_rate is None
    &&& a.ias is None && a.tas is None && a.mach is None
    &&& a.squawk is None && a.emergency is None && a.version is None
    &&& a.nac_p is None && a.nac_v is None && a.sil is None && a.sil_type is None
    &&& a.rssi is None && a.messages == 0
    &&& a.seen == 0 && a.seen_pos == u64::MAX && a.last_message == now && a.last_position is None
    &&& country_matches(a, lookup_spec(strip_leading_spec(hex, '~')))
    &&& a.cpr_even is None && a.cpr_odd is None
    &&& a.prev_lat is None && a.prev_lon is None
    &&& a.dist_mm == 0 && a.co2_tenth_mg == 0
    &&& a.ef_used == Some(EF_DEFAULT) && a.ef_source == Some(EfSource::Default)
}

/// A message was heard from the aircraft at `now`.
pub open spec fn touched(a: AircraftState, now: u64) -> AircraftState {
    AircraftState { messages: (a.messages + 1) as u64, last_message: now, seen: 0, ..a }
}

/// The signal level of an ADS-B frame is kept when it is non-zero.
pub open spec fn with_signal(a: AircraftState, signal: Option<u8>) -> AircraftState {
    match signal {
        Some(s) => if s > 0 {
            AircraftState { rssi: Some(s), ..a }
        } else {
            a
        },
        None => a,
    }
}

/// A surveillance altitude (feet, 0 when unknown) is kept when known.
pub open spec fn with_reply_altitude(a: AircraftState, altitude: u16) -> AircraftState {
    if altitude > 0 {
        AircraftState { alt_baro: Some(AltitudeValue::Feet(altitude as i32)), ..a }
    } else {
        a
    }
}

/// Barometric altitude of a position message: "ground" unless positive.
pub open spec fn baro_altitude(alt: Option<u16>) -> AltitudeValue {
    match alt {
        Some(x) => if x > 0 {
            AltitudeValue::Feet(x as i32)
        } else {
            AltitudeValue::Ground
        },
        None => AltitudeValue::Ground,
    }
}

/// The CPR frame `p` received at `now` replaces the one of the same format.
pub open spec fn with_cpr(a: AircraftState, p: CprPosition, now: u64) -> AircraftState {
    if p.odd {
        AircraftState { cpr_odd: Some(CprFrame { position: p, received: now }), ..a }
    } else {
        AircraftState { cpr_even: Some(CprFrame { position: p, received: now }), ..a }
    }
}

/// The letter of a type coding.
pub open spec fn type_coding_letter(tc: TypeCoding) -> char {
    match tc {
        TypeCoding::D => 'D',
        TypeCoding::C => 'C',
        TypeCoding::B => 'B',
        TypeCoding::A => 'A',
    }
}

/// Category text: type coding letter, then the category number.
pub open spec fn category_text(tc: TypeCoding, ca: u8) -> Seq<char> {
    seq![type_coding_letter(tc)] + decimal_text(ca as nat)
}

/// The state after an extended squitter message `me` received at `now`.
pub open spec fn me_effect(before: AircraftState, after: AircraftState, me: ExtendedSquitter, now: u64) -> bool {
    match me {
        ExtendedSquitter::AircraftIdentification { tc, ca, cn } => {
            &&& after == AircraftState { callsign: after.callsign, category: after.category, ..before }
            &&& after.callsign matches Some(c) && c@ == trim_spec(cn@)
            &&& after.category matches Some(k) && k@ == category_text(tc, ca)
        },
        ExtendedSquitter::AirbornePositionBaroAltitude(p) => after == with_cpr(
            AircraftState { alt_baro: Some(baro_altitude(p.alt)), ..before },
            p,
            now,
        ),
        ExtendedSquitter::AirbornePositionGnssAltitude(p) => after == with_cpr(
            match p.alt {
                Some(x) => if x > 0 {
                    AircraftState { alt_geom: Some(x as i32), ..before }
                } else {
                    before
                },
                None => before,
            },
            p,
            now,
        ),
        ExtendedSquitter::SurfacePosition => after == AircraftState {
            alt_baro: Some(AltitudeValue::Ground),
            ..before
        },
        ExtendedSquitter::AirborneVelocity { ground, airspeed } => {
            let a1 = match ground {
                Some(g) => AircraftState {
                    gs: Some(g.speed),
                    track: Some(g.track),
                    baro_rate: Some(g.vrate),
                    ..before
                },
                None => before,
            };
            after == match airspeed {
                Some(s) => if s.airspeed > 0 {
                    if s.airspeed_type != 0 {
                        AircraftState { tas: Some(s.airspeed), ..a1 }
                    } else {
                        AircraftState { ias: Some(s.airspeed), ..a1 }
                    }
                } else {
                    a1
                },
                None => a1,
            }
        },
        ExtendedSquitter::TargetStateAndStatus { nacp, sil } => after == AircraftState {
            nac_p: Some(nacp),
            sil: Some(sil),
            ..before
        },
        ExtendedSquitter::OperationStatus { version, nacp, sil } => after == AircraftState {
            version: Some(version),
            nac_p: Some(nacp),
            sil: Some(sil),
            ..before
        },
        ExtendedSquitter::AircraftStatus => after == before,
        ExtendedSquitter::Other => after == before,
    }
}

/// The hex text of the aircraft a frame concerns, if any: six or more
/// lower-case digits of its address, with a `~` in front for TIS-B.
pub open spec fn frame_hex(frame: DownlinkFrame) -> Option<Seq<char>> {
    match frame {
        DownlinkFrame::Adsb { icao, .. } => Some(hex_text(icao as nat, 6)),
        DownlinkFrame::TisB { crc, .. } => Some(seq!['~'] + hex_text(crc as nat, 6)),
        DownlinkFrame::AllCallReply { icao } => Some(hex_text(icao as nat, 6)),
        DownlinkFrame::SurveillanceAltitudeReply { crc, .. } => Some(hex_text(crc as nat, 6)),
        DownlinkFrame::SurveillanceIdentityReply { crc, .. } => Some(hex_text(crc as nat, 6)),
        DownlinkFrame::ShortAirAirSurveillance { crc, .. } => Some(hex_text(crc as nat, 6)),
        DownlinkFrame::LongAirAir { crc, .. } => Some(hex_text(crc as nat, 6)),
        DownlinkFrame::CommBAltitudeReply { crc, .. } => Some(hex_text(crc as nat, 6)),
        DownlinkFrame::CommBIdentityReply { crc, .. } => Some(hex_text(crc as nat, 6)),
        DownlinkFrame::Other => None,
    }
}

/// The raw address of the aircraft a frame concerns.
pub open spec fn frame_address(frame: DownlinkFrame) -> u32 {
    match frame {
        DownlinkFrame::Adsb { icao, .. } => icao,
        DownlinkFrame::TisB { crc, .. } => crc,
        DownlinkFrame::AllCallReply { icao } => icao,
        DownlinkFrame::SurveillanceAltitudeReply { crc, .. } => crc,
        DownlinkFrame::SurveillanceIdentityReply { crc, .. } => crc,
        DownlinkFrame::ShortAirAirSurveillance { crc, .. } => crc,
        DownlinkFrame::LongAirAir { crc, .. } => crc,
        DownlinkFrame::CommBAltitudeReply { crc, .. } => crc,
        DownlinkFrame::CommBIdentityReply { crc, .. } => crc,
        DownlinkFrame::Other => 0,
    }
}

/// The state of an aircraft after `frame`, received at `now` with `signal`.
pub open spec fn frame_effect(
    before: AircraftState,
    after: AircraftState,
    frame: DownlinkFrame,
    signal: Option<u8>,
    now: u64,
) -> bool {
    let t = touched(before, now);
    match frame {
        DownlinkFrame::Adsb { me, .. } => me_effect(with_signal(t, signal), after, me, now),
        DownlinkFrame::TisB { me, .. } => me_effect(t, after, me, now),
        DownlinkFrame::AllCallReply { .. } => after == t,
        DownlinkFrame::SurveillanceAltitudeReply { altitude, .. } => after == with_reply_altitude(t, altitude),
        DownlinkFrame::ShortAirAirSurveillance { altitude, .. } => after == with_reply_altitude(t, altitude),
        DownlinkFrame::LongAirAir { altitude, .. } => after == with_reply_altitude(t, altitude),
        DownlinkFrame::CommBAltitudeReply { altitude, .. } => after == with_reply_altitude(t, altitude),
        DownlinkFrame::SurveillanceIdentityReply { id, .. } => {
            &&& after == AircraftState { squawk: after.squawk, ..t }
            &&& after.squawk matches Some(q) && q@ == hex_text(id as nat, 4)
        },
        DownlinkFrame::CommBIdentityReply { id, .. } => {
            &&& after == AircraftState { squawk: after.squawk, ..t }
            &&& after.squawk matches Some(q) && q@ == hex_text(id as nat, 4)
        },
        DownlinkFrame::Other => after == before,
    }
}

/// Whether `frame` carries an airborne position.
pub open spec fn carries_position(frame: DownlinkFrame) -> bool {
    match frame {
        DownlinkFrame::Adsb { me, .. } => is_airborne_position(me),
        DownlinkFrame::TisB { me, .. } => is_airborne_position(me),
        _ => false,
    }
}

pub open spec fn is_airborne_position(me: ExtendedSquitter) -> bool {
    me is AirbornePositionBaroAltitude || me is AirbornePositionGnssAltitude
}

/// The CPR pair of `a` if both frames are at most `CPR_MAX_AGE_SECS` old.
pub open spec fn fresh_cpr_pair(a: AircraftState, now: u64) -> Option<(CprPosition, CprPosition)> {
    match (a.cpr_even, a.cpr_odd) {
        (Some(e), Some(o)) => if age_secs(now, e.received) <= CPR_MAX_AGE_SECS && age_secs(now, o.received)
            <= CPR_MAX_AGE_SECS {
            Some((e.position, o.position))
        } else {
            None
        },
        _ => None,
    }
}

/// The previous position of `a`, if it has one.
pub open spec fn prev_position(a: AircraftState) -> Option<(i32, i32)> {
    match (a.prev_lat, a.prev_lon) {
        (Some(x), Some(y)) => Some((x, y)),
        _ => None,
    }
}

/// `r` asks for the decode of the fresh CPR pair of `a`, if there is one.
pub open spec fn requests_pair(r: Option<PositionRequest>, a: AircraftState, now: u64) -> bool {
    match fresh_cpr_pair(a, now) {
        Some((e, o)) => r matches Some(q) && q.hex@ == a.hex@ && q.even == e && q.odd == o && q.prev
            == prev_position(a) && q.now == now,
        None => r is None,
    }
}

/// Index of the aircraft with hex text `hex`.
pub open spec fn index_of(aircraft: Seq<AircraftState>, hex: Seq<char>) -> Option<int> {
    if exists|i: int| 0 <= i < aircraft.len() && aircraft[i].hex@ == hex {
        Some(choose|i: int| 0 <= i < aircraft.len() && aircraft[i].hex@ == hex)
    } else {
        None
    }
}

/// The state after a decoded position (`lat`, `lon` in micro-degrees) at
/// `now`, `dist` being the distance from the previous position in mm.
/// A move of more than `MIN_MOVE_MM` and less than `MAX_JUMP_MM` counts
/// towards the distance flown and the CO₂ emitted.
pub open spec fn position_effect(a: AircraftState, lat: i32, lon: i32, dist: Option<u64>, now: u64) -> AircraftState {
    let counted = counted_move(a, dist);
    let d = match dist {
        Some(d) => d,
        None => 0,
    };
    let (ef, src) = emission_factor_spec(opt_string_chars(a.type_code), None, opt_string_chars(a.category));
    let a1 = if counted {
        AircraftState {
            dist_mm: sat_add(a.dist_mm, d),
            ef_used: Some(ef),
            ef_source: Some(src),
            co2_tenth_mg: sat_add(a.co2_tenth_mg, (d * ef) as u64),
            ..a
        }
    } else {
        a
    };
    AircraftState {
        prev_lat: Some(lat),
        prev_lon: Some(lon),
        lat: Some(lat),
        lon: Some(lon),
        last_position: Some(now),
        seen_pos: 0,
        ..a1
    }
}

/// Whether a move of `dist` mm from the previous position of `a` counts:
/// more than `MIN_MOVE_MM` (jitter) and less than `MAX_JUMP_MM` (lost track).
pub open spec fn counted_move(a: AircraftState, dist: Option<u64>) -> bool {
    match (prev_position(a), dist) {
        (Some(_), Some(d)) => MIN_MOVE_MM < d && d < MAX_JUMP_MM,
        _ => false,
    }
}

/// `x + y`, saturating at `u64::MAX`.
pub open spec fn sat_add(x: u64, y: u64) -> u64 {
    if x + y > u64::MAX {
        u64::MAX
    } else {
        (x + y) as u64
    }
}

/// Whether a decoded position lies on the globe.
pub open spec fn position_on_globe(lat: i32, lon: i32) -> bool {
    -MAX_LAT_E6 <= lat <= MAX_LAT_E6 && -MAX_LON_E6 <= lon <= MAX_LON_E6
}

/// The state of an aircraft after the ages are brought up to `now`.
pub open spec fn aged(a: AircraftState, now: u64) -> AircraftState {
    AircraftState {
        seen: age_nanos(now, a.last_message),
        seen_pos: match a.last_position {
            Some(t) => age_nanos(now, t),
            None => a.seen_pos,
        },
        ..a
    }
}

/// Whether an aircraft is still tracked at `now`.
pub open spec fn is_current(a: AircraftState, now: u64) -> bool {
    age_secs(now, a.last_message) < AIRCRAFT_TIMEOUT_SECS
}

pub open spec fn has_position(a: AircraftState) -> bool {
    a.lat is Some
}

/// Every aircraft of `s` with its ages brought up to `now`.
pub open spec fn aged_all(s: Seq<AircraftState>, now: u64) -> Seq<AircraftState> {
    s.map_values(|a: AircraftState| aged(a, now))
}

/// The aircraft of `s` still tracked at `now`, in order.
pub open spec fn current_only(s: Seq<AircraftState>, now: u64) -> Seq<AircraftState> {
    s.filter(|a: AircraftState| is_current(a, now))
}

// ───────────────────────────── Aircraft state ─────────────────────────────

impl AircraftState {
    fn new(hex: &str, icao: u32, now: u64) -> (r: AircraftState)
        ensures
            fresh(r, hex@, icao, now),
    {
        let country_info = lookup(strip_leading(hex, '~'));
        let (ef_val, ef_src) = emission_factor(None, None, None);
        let (country, country_code) = match country_info {
            Some(c) => (Some(String::from_str(c.country)), Some(String::from_str(c.code))),
            None => (None, None),
        };
        AircraftState {
            hex: String::from_str(hex),
            icao_raw: icao,
            callsign: None,
            category: None,
            registration: None,
            type_code: None,
            lat: None,
            lon: None,
            nic: None,
            alt_baro: None,
            alt_geom: None,
            gs: None,
            track: None,
            baro_rate: None,
            geom_rate: None,
            ias: None,
            tas: None,
            mach: None,
            squawk: None,
            emergency: None,
            version: None,
            nac_p: None,
            nac_v: None,
            sil: None,
            sil_type: None,
            rssi: None,
            messages: 0,
            seen: 0,
            seen_pos: u64::MAX,
            last_message: now,
            last_position: None,
            country,
            country_code,
            cpr_even: None,
            cpr_odd: None,
            prev_lat: None,
            prev_lon: None,
            dist_mm: 0,
            co2_tenth_mg: 0,
            ef_used: Some(ef_val),
            ef_source: Some(ef_src),
        }
    }

    /// Store a CPR frame (even or odd) for deferred position decoding.
    fn store_cpr(&mut self, position: CprPosition, now: u64)
        ensures
            *final(self) == with_cpr(*old(self), position, now),
    {
        let frame = CprFrame { position, received: now };
        if position.odd {
            self.cpr_odd = Some(frame);
        } else {
            self.cpr_even = Some(frame);
        }
    }

    /// Ask for a position decode if the stored even and odd frames are
    /// both recent enough.
    fn try_decode_position(&self, now: u64) -> (r: Option<PositionRequest>)
        ensures
            requests_pair(r, *self, now),
    {
        let (even, odd) = match (&self.cpr_even, &self.cpr_odd) {
            (Some(e), Some(o)) => (*e, *o),
            _ => return None,
        };
        let even_age = if now >= even.received { now - even.received } else { 0 };
        let odd_age = if now >= odd.received { now - odd.received } else { 0 };
        if even_age / NANOS_PER_SEC > CPR_MAX_AGE_SECS || odd_age / NANOS_PER_SEC > CPR_MAX_AGE_SECS {
            return None;
        }
        let prev = match (self.prev_lat, self.prev_lon) {
            (Some(x), Some(y)) => Some((x, y)),
            _ => None,
        };
        Some(PositionRequest { hex: self.hex.clone(), even: even.position, odd: odd.position, prev, now })
    }

    /// Record a decoded position and account for the distance flown.
    fn update_position(&mut self, lat: i32, lon: i32, dist: Option<u64>, now: u64)
        ensures
            *final(self) == position_effect(*old(self), lat, lon, dist, now),
    {
        if let (Some(_), Some(_), Some(d)) = (self.prev_lat, self.prev_lon, dist) {
            if d > MIN_MOVE_MM && d < MAX_JUMP_MM {
                self.dist_mm = self.dist_mm.saturating_add(d);
                let (ef, src) = emission_factor(opt_as_str(&self.type_code), None, opt_as_str(&self.category));
                self.ef_used = Some(ef);
                self.ef_source = Some(src);
                assert(d * (ef as u64) < 50_000_000 * 65536) by (nonlinear_arith)
                    requires
                        d < 50_000_000,
                        ef < 65536,
                ;
                self.co2_tenth_mg = self.co2_tenth_mg.saturating_add(d * (ef as u64));
            }
        }
        self.prev_lat = Some(lat);
        self.prev_lon = Some(lon);
        self.lat = Some(lat);
        self.lon = Some(lon);
        self.last_position = Some(now);
        self.seen_pos = 0;
    }
    /// A message was heard at `now`.
    fn touch(&mut self, now: u64)
        requires
            old(self).messages < u64::MAX,
        ensures
            *final(self) == touched(*old(self), now),
    {
        self.messages = self.messages + 1;
        self.last_message = now;
        self.seen = 0;
    }
}

/// The category text of an identification message.
fn category_string(tc: TypeCoding, ca: u8) -> (r: String)
    ensures
        r@ == category_text(tc, ca),
{
    let mut out = String::from_str(match tc {
        TypeCoding::D => "D",
        TypeCoding::C => "C",
        TypeCoding::B => "B",
        TypeCoding::A => "A",
    });
    proof {
        reveal_strlit("D");
        reveal_strlit("C");
        reveal_strlit("B");
        reveal_strlit("A");
    }
    assert(out@ =~= seq![type_coding_letter(tc)]);
    push_decimal(&mut out, ca as u32);
    out
}

/// Apply an ADS-B extended squitter message to an aircraft state; answer
/// a position decode request when the message completes a fresh CPR pair.
fn apply_me(ac: &mut AircraftState, me: &ExtendedSquitter, now: u64) -> (r: Option<PositionRequest>)
    ensures
        me_effect(*old(ac), *final(ac), *me, now),
        is_airborne_position(*me) ==> requests_pair(r, *final(ac), now),
        !is_airborne_position(*me) ==> r is None,
{
    match me {
        ExtendedSquitter::AircraftIdentification { tc, ca, cn } => {
            ac.callsign = Some(trim_to_string(cn.as_str()));
            ac.category = Some(category_string(*tc, *ca));
            None
        },
        ExtendedSquitter::AirbornePositionBaroAltitude(p) => {
            ac.alt_baro = Some(
                match p.alt {
                    Some(x) => if x > 0 {
                        AltitudeValue::Feet(x as i32)
                    } else {
                        AltitudeValue::Ground
                    },
                    None => AltitudeValue::Ground,
                },
            );
            ac.store_cpr(*p, now);
            ac.try_decode_position(now)
        },
        ExtendedSquitter::AirbornePositionGnssAltitude(p) => {
            if let Some(x) = p.alt {
                if x > 0 {
                    ac.alt_geom = Some(x as i32);
                }
            }
            ac.store_cpr(*p, now);
            ac.try_decode_position(now)
        },
        ExtendedSquitter::SurfacePosition => {
            // Surface positions also use CPR but are not decoded.
            ac.alt_baro = Some(AltitudeValue::Ground);
            None
        },
        ExtendedSquitter::AirborneVelocity { ground, airspeed } => {
            if let Some(g) = ground {
                ac.gs = Some(g.speed);
                ac.track = Some(g.track);
                ac.baro_rate = Some(g.vrate);
            }
            if let Some(s) = airspeed {
                if s.airspeed > 0 {
                    if s.airspeed_type != 0 {
                        ac.tas = Some(s.airspeed);
                    } else {
                        ac.ias = Some(s.airspeed);
                    }
                }
            }
            None
        },
        ExtendedSquitter::AircraftStatus => None,
        ExtendedSquitter::TargetStateAndStatus { nacp, sil } => {
            ac.nac_p = Some(*nacp);
            ac.sil = Some(*sil);
            None
        },
        ExtendedSquitter::OperationStatus { version, nacp, sil } => {
            ac.version = Some(*version);
            ac.nac_p = Some(*nacp);
            ac.sil = Some(*sil);
            None
        },
        ExtendedSquitter::Other => None,
    }
}

// ───────────────────────────── Tracker ─────────────────────────────

/// The aircraft tracker / state manager.
pub struct Tracker {
    pub aircraft: Vec<AircraftState>,
    pub total_messages: u64,
    /// Receiver position, micro-degrees.
    pub receiver_lat: Option<i32>,
    pub receiver_lon: Option<i32>,
    /// Origin of the tracker's nanosecond clock.
    pub clock: std::time::Instant,
    /// The latest time the tracker has acted on (ns); readings of the clock
    /// never go back before it.
    pub latest: u64,
}

/// No two aircraft share a hex text.
pub open spec fn hex_distinct(aircraft: Seq<AircraftState>) -> bool {
    forall|i: int, j: int| 0 <= i < j < aircraft.len() ==> aircraft[i].hex@ != aircraft[j].hex@
}

/// The messages of all aircraft together.
pub open spec fn messages_total(aircraft: Seq<AircraftState>) -> int
    decreases aircraft.len(),
{
    if aircraft.len() == 0 {
        0
    } else {
        messages_total(aircraft.drop_last()) + aircraft.last().messages
    }
}

/// The time a reading of the clock stands for: the reading, unless the
/// tracker has already acted on a later time.
pub open spec fn clamped(reading: u64, latest: u64) -> u64 {
    if reading < latest {
        latest
    } else {
        reading
    }
}

/// The aircraft list after `frame`: the aircraft it concerns (found by its
/// hex text, or appended when new) changes as `frame_effect` says, all
/// others stay as they were; `r` is the position decode the frame calls for.
pub open spec fn update_outcome(
    before: Seq<AircraftState>,
    after: Seq<AircraftState>,
    frame: DownlinkFrame,
    signal: Option<u8>,
    now: u64,
    r: Option<PositionRequest>,
) -> bool {
    match frame_hex(frame) {
        None => after == before && r is None,
        Some(hex) => {
            let k = match index_of(before, hex) {
                Some(i) => i,
                None => before.len() as int,
            };
            &&& after.len() == (if index_of(before, hex) is None { before.len() + 1 } else { before.len() as nat })
            &&& forall|j: int| 0 <= j < before.len() && j != k ==> after[j] == before[j]
            &&& index_of(before, hex) matches Some(i) ==> frame_effect(before[i], after[i], frame, signal, now)
            &&& index_of(before, hex) is None ==> exists|b: AircraftState|
                fresh(b, hex, frame_address(frame), now) && frame_effect(b, after[k], frame, signal, now)
            &&& carries_position(frame) ==> requests_pair(r, after[k], now)
            &&& !carries_position(frame) ==> r is None
        },
    }
}

/// With distinct hex texts, the aircraft at index `i` is the one `index_of` finds.
proof fn lemma_index_of_unique(aircraft: Seq<AircraftState>, hex: Seq<char>, i: int)
    requires
        0 <= i < aircraft.len(),
        aircraft[i].hex@ == hex,
        forall|a: int, b: int| 0 <= a < b < aircraft.len() ==> aircraft[a].hex@ != aircraft[b].hex@,
    ensures
        index_of(aircraft, hex) == Some(i),
{
    let j = choose|j: int| 0 <= j < aircraft.len() && aircraft[j].hex@ == hex;
    if j < i {
        assert(aircraft[j].hex@ != aircraft[i].hex@);
    } else if j > i {
        assert(aircraft[i].hex@ != aircraft[j].hex@);
    }
}

impl Tracker {
    /// Well-formedness: one entry per hex text; every tracked aircraft has
    /// sent at least one message, and together no more than the tracker has
    /// seen; no aircraft was heard after the latest time acted on.
    pub open spec fn wf(&self) -> bool {
        &&& hex_distinct(self.aircraft@)
        &&& forall|i: int| 0 <= i < self.aircraft@.len() ==> self.aircraft@[i].messages <= self.total_messages
        &&& forall|i: int| 0 <= i < self.aircraft@.len() ==> self.aircraft@[i].messages >= 1
        &&& messages_total(self.aircraft@) <= self.total_messages
        &&& forall|i: int| 0 <= i < self.aircraft@.len() ==> self.aircraft@[i].last_message <= self.latest
    }

    /// A tracker with no aircraft; the receiver position is in micro-degrees.
    pub fn new(receiver_lat: Option<i32>, receiver_lon: Option<i32>) -> (r: Tracker)
        ensures
            r.wf(),
            r.aircraft@.len() == 0,
            r.total_messages == 0,
            r.receiver_lat == receiver_lat,
            r.receiver_lon == receiver_lon,
            r.latest == 0,
    {
        Tracker { aircraft: Vec::new(), total_messages: 0, receiver_lat, receiver_lon, clock: instant_now(), latest: 0 }
    }

    /// Index of the aircraft with hex text `hex`.
    fn find(&self, hex: &String) -> (r: Option<usize>)
        requires
            self.wf(),
        ensures
            r matches Some(i) ==> index_of(self.aircraft@, hex@) == Some(i as int),
            r is None ==> index_of(self.aircraft@, hex@) is None,
    {
        let mut i: usize = 0;
        while i < self.aircraft.len()
            invariant
                self.wf(),
                i <= self.aircraft@.len(),
                forall|k: int| 0 <= k < i ==> self.aircraft@[k].hex@ != hex@,
            decreases self.aircraft@.len() - i,
        {
            if self.aircraft[i].hex == *hex {
                proof {
                    lemma_index_of_unique(self.aircraft@, hex@, i as int);
                }
                return Some(i);
            }
            i = i + 1;
        }
        None
    }

    /// Get the index of an existing aircraft, or create a new entry.
    fn get_or_create(&mut self, hex: String, icao: u32, now: u64) -> (i: usize)
        requires
            old(self).wf(),
        ensures
            hex_distinct(final(self).aircraft@),
            final(self).total_messages == old(self).total_messages,
            final(self).latest == old(self).latest,
            final(self).receiver_lat == old(self).receiver_lat,
            final(self).receiver_lon == old(self).receiver_lon,
            final(self).clock == old(self).clock,
            i < final(self).aircraft@.len(),
            match index_of(old(self).aircraft@, hex@) {
                Some(k) => i == k && final(self).aircraft@ == old(self).aircraft@,
                None => i == old(self).aircraft@.len() && final(self).aircraft@ == old(self).aircraft@.push(
                    final(self).aircraft@[i as int],
                ) && fresh(final(self).aircraft@[i as int], hex@, icao, now),
            },
    {
        match self.find(&hex) {
            Some(i) => i,
            None => {
                let ac = AircraftState::new(hex.as_str(), icao, now);
                self.aircraft.push(ac);
                proof {
                    assert forall|a: int, b: int| 0 <= a < b < self.aircraft@.len() implies self.aircraft@[a].hex@
                        != self.aircraft@[b].hex@ by {
                        if b == self.aircraft@.len() - 1 {
                            if self.aircraft@[a].hex@ == hex@ {
                                assert(exists|j: int| 0 <= j < old(self).aircraft@.len() && old(self).aircraft@[j].hex@ == hex@);
                            }
                        }
                    }
                }
                self.aircraft.len() - 1
            },
        }
    }

    /// Process a decoded frame received now and update aircraft state.
    pub fn update(&mut self, frame: &DownlinkFrame, signal: Option<u8>) -> (r: Option<PositionRequest>)
        requires
            old(self).wf(),
            old(self).total_messages < u64::MAX,
        ensures
            final(self).receiver_lat == old(self).receiver_lat,
            final(self).receiver_lon == old(self).receiver_lon,
            final(self).clock == old(self).clock,
            final(self).wf(),
            final(self).total_messages == old(self).total_messages + 1,
            exists|now: u64|
                now >= old(self).latest && final(self).latest == now && #[trigger] update_outcome(
                    old(self).aircraft@,
                    final(self).aircraft@,
                    *frame,
                    signal,
                    now,
                    r,
                ),
    {
        let now = self.clock_reading();
        self.update_at(frame, signal, now)
    }

    /// The current time (ns): a reading of the clock, never before the
    /// latest time acted on (the clock is monotonic).
    fn clock_reading(&self) -> (now: u64)
        ensures
            now >= self.latest,
            exists|reading: u64| now == clamped(reading, self.latest),
    {
        let reading = nanos_since(&self.clock);
        let now = if reading < self.latest {
            self.latest
        } else {
            reading
        };
        assert(now == clamped(reading, self.latest));
        now
    }

    /// Process a decoded frame received at `now` (ns) and update aircraft state.
    pub fn update_at(&mut self, frame: &DownlinkFrame, signal: Option<u8>, now: u64) -> (r: Option<PositionRequest>)
        requires
            old(self).wf(),
            old(self).total_messages < u64::MAX,
        ensures
            final(self).receiver_lat == old(self).receiver_lat,
            final(self).receiver_lon == old(self).receiver_lon,
            final(self).clock == old(self).clock,
            final(self).wf(),
            final(self).total_messages == old(self).total_messages + 1,
            final(self).latest == clamped(now, old(self).latest),
            update_outcome(old(self).aircraft@, final(self).aircraft@, *frame, signal, now, r),
    {
        if now > self.latest {
            self.latest = now;
        }
        self.total_messages = self.total_messages + 1;
        let (hex, addr) = match frame {
            DownlinkFrame::Adsb { icao, .. } => (format_hex(*icao, 6), *icao),
            DownlinkFrame::TisB { crc, .. } => {
                // non-ICAO address: marked with a prefix
                let mut h = String::from_str("~");
                let digits = format_hex(*crc, 6);
                h.append(digits.as_str());
                proof {
                    reveal_strlit("~");
                }
                assert(h@ =~= seq!['~'] + hex_text(*crc as nat, 6));
                (h, *crc)
            },
            DownlinkFrame::AllCallReply { icao } => (format_hex(*icao, 6), *icao),
            DownlinkFrame::SurveillanceAltitudeReply { crc, .. } => (format_hex(*crc, 6), *crc),
            DownlinkFrame::SurveillanceIdentityReply { crc, .. } => (format_hex(*crc, 6), *crc),
            DownlinkFrame::ShortAirAirSurveillance { crc, .. } => (format_hex(*crc, 6), *crc),
            DownlinkFrame::LongAirAir { crc, .. } => (format_hex(*crc, 6), *crc),
            DownlinkFrame::CommBAltitudeReply { crc, .. } => (format_hex(*crc, 6), *crc),
            DownlinkFrame::CommBIdentityReply { crc, .. } => (format_hex(*crc, 6), *crc),
            DownlinkFrame::Other => return None,
        };
        assert(frame_hex(*frame) == Some(hex@));
        assert(frame_address(*frame) == addr);
        let ghost before = self.aircraft@;
        let i = self.get_or_create(hex, addr, now);
        let ghost base = self.aircraft@[i as int];
        let ghost created = self.aircraft@;
        self.aircraft[i].touch(now);
        let r = match frame {
            DownlinkFrame::Adsb { me, .. } => {
                if let Some(sig) = signal {
                    if sig > 0 {
                        self.aircraft[i].rssi = Some(sig);
                    }
                }
                apply_me(&mut self.aircraft[i], me, now)
            },
            DownlinkFrame::TisB { me, .. } => apply_me(&mut self.aircraft[i], me, now),
            DownlinkFrame::SurveillanceAltitudeReply { altitude, .. }
            | DownlinkFrame::ShortAirAirSurveillance { altitude, .. }
            | DownlinkFrame::LongAirAir { altitude, .. }
            | DownlinkFrame::CommBAltitudeReply { altitude, .. } => {
                if *altitude > 0 {
                    self.aircraft[i].alt_baro = Some(AltitudeValue::Feet(*altitude as i32));
                }
                None
            },
            DownlinkFrame::SurveillanceIdentityReply { id, .. } => {
                self.aircraft[i].squawk = Some(format_hex(*id as u32, 4));
                None
            },
            DownlinkFrame::CommBIdentityReply { id, .. } => {
                self.aircraft[i].squawk = Some(format_hex(*id, 4));
                None
            },
            _ => None,
        };
        proof {
            assert(frame_effect(base, self.aircraft@[i as int], *frame, signal, now));
            assert forall|j: int| 0 <= j < self.aircraft@.len() && j != i implies self.aircraft@[j] == created[j] by {}
            self.lemma_counts_after_frame(before, created, i as int, base, *frame, signal, now);
        }
        r
    }

    /// The counts after a frame at `now` for the aircraft at `i` of
    /// `created` (`before`, or `before` with a fresh aircraft appended).
    proof fn lemma_counts_after_frame(
        &self,
        before: Seq<AircraftState>,
        created: Seq<AircraftState>,
        i: int,
        base: AircraftState,
        frame: DownlinkFrame,
        signal: Option<u8>,
        now: u64,
    )
        requires
            !(frame is Other),
            hex_distinct(self.aircraft@),
            now <= self.latest,
            self.total_messages >= 1,
            forall|k: int| 0 <= k < before.len() ==> before[k].messages <= self.total_messages - 1,
            forall|k: int| 0 <= k < before.len() ==> before[k].messages >= 1,
            messages_total(before) <= self.total_messages - 1,
            forall|k: int| 0 <= k < before.len() ==> before[k].last_message <= self.latest,
            created == before || (created == before.push(base) && base.messages == 0),
            0 <= i < created.len(),
            base == created[i],
            self.aircraft@.len() == created.len(),
            forall|j: int| 0 <= j < created.len() && j != i ==> self.aircraft@[j] == created[j],
            frame_effect(base, self.aircraft@[i], frame, signal, now),
        ensures
            self.wf(),
    {
        let after = self.aircraft@;
        lemma_frame_counts_message(base, after[i], frame, signal, now);
        assert(after =~= created.update(i, after[i]));
        lemma_total_update(created, i, after[i]);
        if created == before {
            lemma_total_member(before, i);
        } else {
            lemma_total_push(before, base);
        }
        lemma_total_nonneg(before);
    }

    /// Record the position decoded for `request` (micro-degrees), with the
    /// distance from the aircraft's previous position in mm when it has
    /// one. Positions off the globe are ignored, as is a request for an
    /// aircraft no longer tracked.
    pub fn record_position(&mut self, request: &PositionRequest, lat: i32, lon: i32, dist: Option<u64>)
        requires
            old(self).wf(),
        ensures
            final(self).receiver_lat == old(self).receiver_lat,
            final(self).receiver_lon == old(self).receiver_lon,
            final(self).clock == old(self).clock,
            final(self).latest == old(self).latest,
            final(self).wf(),
            final(self).total_messages == old(self).total_messages,
            final(self).aircraft@ == (if position_on_globe(lat, lon) {
                match index_of(old(self).aircraft@, request.hex@) {
                    Some(i) => old(self).aircraft@.update(
                        i,
                        position_effect(old(self).aircraft@[i], lat, lon, dist, request.now),
                    ),
                    None => old(self).aircraft@,
                }
            } else {
                old(self).aircraft@
            }),
    {
        if lat < -MAX_LAT_E6 || lat > MAX_LAT_E6 || lon < -MAX_LON_E6 || lon > MAX_LON_E6 {
            return;
        }
        if let Some(i) = self.find(&request.hex) {
            self.aircraft[i].update_position(lat, lon, dist, request.now);
            assert(self.aircraft@ =~= old(self).aircraft@.update(
                i as int,
                position_effect(old(self).aircraft@[i as int], lat, lon, dist, request.now),
            ));
            proof {
                lemma_total_update(old(self).aircraft@, i as int, self.aircraft@[i as int]);
            }
        }
    }

    /// Bring `seen` / `seen_pos` of every aircraft up to `now` (ns).
    pub fn update_ages_at(&mut self, now: u64)
        requires
            old(self).wf(),
        ensures
            final(self).receiver_lat == old(self).receiver_lat,
            final(self).receiver_lon == old(self).receiver_lon,
            final(self).clock == old(self).clock,
            final(self).wf(),
            final(self).total_messages == old(self).total_messages,
            final(self).latest == clamped(now, old(self).latest),
            final(self).aircraft@ == aged_all(old(self).aircraft@, now),
    {
        if now > self.latest {
            self.latest = now;
        }
        let n = self.aircraft.len();
        let mut i: usize = 0;
        while i < n
            invariant
                n == self.aircraft@.len(),
                n == old(self).aircraft@.len(),
                i <= n,
                self.total_messages == old(self).total_messages,
                self.latest == clamped(now, old(self).latest),
                self.receiver_lat == old(self).receiver_lat,
                self.receiver_lon == old(self).receiver_lon,
                self.clock == old(self).clock,
                forall|k: int| 0 <= k < i ==> self.aircraft@[k] == aged(old(self).aircraft@[k], now),
                forall|k: int| i <= k < n ==> self.aircraft@[k] == old(self).aircraft@[k],
            decreases n - i,
        {
            let last = self.aircraft[i].last_message;
            self.aircraft[i].seen = if now >= last { now - last } else { 0 };
            if let Some(t) = self.aircraft[i].last_position {
                self.aircraft[i].seen_pos = if now >= t { now - t } else { 0 };
            }
            i = i + 1;
        }
        assert(self.aircraft@ =~= aged_all(old(self).aircraft@, now));
        proof {
            lemma_total_same_messages(old(self).aircraft@, self.aircraft@);
        }
    }

    /// Update `seen` / `seen_pos` for all aircraft (call before serialising).
    pub fn update_ages(&mut self)
        requires
            old(self).wf(),
        ensures
            final(self).receiver_lat == old(self).receiver_lat,
            final(self).receiver_lon == old(self).receiver_lon,
            final(self).clock == old(self).clock,
            final(self).wf(),
            final(self).total_messages == old(self).total_messages,
            exists|now: u64|
                now >= old(self).latest && final(self).latest == now && final(self).aircraft@
                    == #[trigger] aged_all(old(self).aircraft@, now),
    {
        let now = self.clock_reading();
        self.update_ages_at(now);
    }

    /// Remove the aircraft not heard from for `AIRCRAFT_TIMEOUT_SECS` at `now` (ns).
    pub fn expire_stale_at(&mut self, now: u64)
        requires
            old(self).wf(),
        ensures
            final(self).receiver_lat == old(self).receiver_lat,
            final(self).receiver_lon == old(self).receiver_lon,
            final(self).clock == old(self).clock,
            final(self).wf(),
            final(self).total_messages == old(self).total_messages,
            final(self).latest == clamped(now, old(self).latest),
            final(self).aircraft@ == current_only(old(self).aircraft@, now),
    {
        if now > self.latest {
            self.latest = now;
        }
        let ghost pred = |a: AircraftState| is_current(a, now);
        let ghost all = old(self).aircraft@;
        let ghost mut j: int = 0;
        let mut i: usize = 0;
        assert(all.take(0).filter(pred) =~= Seq::<AircraftState>::empty()) by {
            reveal_with_fuel(Seq::<_>::filter, 1);
        }
        assert(self.aircraft@.take(0) =~= Seq::<AircraftState>::empty());
        assert(all.skip(0) =~= all);
        while i < self.aircraft.len()
            invariant
                0 <= j <= all.len(),
                i <= j,
                i <= self.aircraft@.len(),
                self.aircraft@.take(i as int) == all.take(j).filter(pred),
                self.aircraft@.skip(i as int) == all.skip(j),
                self.aircraft@.len() - i == all.len() - j,
                self.total_messages == old(self).total_messages,
                self.latest == clamped(now, old(self).latest),
                self.receiver_lat == old(self).receiver_lat,
                self.receiver_lon == old(self).receiver_lon,
                self.clock == old(self).clock,
                pred == (|a: AircraftState| is_current(a, now)),
            decreases self.aircraft@.len() - i,
        {
            proof {
                assert(all.take(j + 1).drop_last() =~= all.take(j));
                assert(self.aircraft@[i as int] == all[j]) by {
                    assert(self.aircraft@.skip(i as int)[0] == all.skip(j)[0]);
                }
                assert(all.take(j + 1).last() == all[j]);
                reveal_with_fuel(Seq::<_>::filter, 1);
            }
            let last = self.aircraft[i].last_message;
            let age = if now >= last { now - last } else { 0 };
            if age / NANOS_PER_SEC < AIRCRAFT_TIMEOUT_SECS {
                proof {
                    assert(self.aircraft@.take(i + 1) =~= self.aircraft@.take(i as int).push(self.aircraft@[i as int]));
                    assert(self.aircraft@.skip(i + 1) =~= self.aircraft@.skip(i as int).drop_first());
                    assert(all.skip(j + 1) =~= all.skip(j).drop_first());
                }
                i = i + 1;
            } else {
                let ghost before = self.aircraft@;
                self.aircraft.remove(i);
                proof {
                    assert(self.aircraft@.take(i as int) =~= before.take(i as int));
                    assert(self.aircraft@.skip(i as int) =~= before.skip(i as int).drop_first());
                    assert(all.skip(j + 1) =~= all.skip(j).drop_first());
                }
            }
            proof {
                j = j + 1;
            }
        }
        proof {
            assert(all.skip(j).len() == 0);
            assert(all.take(j) =~= all);
            assert(self.aircraft@.take(i as int) =~= self.aircraft@);
            assert forall|a: int, b: int| 0 <= a < b < self.aircraft@.len() implies self.aircraft@[a].hex@
                != self.aircraft@[b].hex@ by {
                lemma_filter_keeps_distinct(all, pred, a, b);
            }
            assert forall|a: int| 0 <= a < self.aircraft@.len() implies self.aircraft@[a].messages
                <= self.total_messages && self.aircraft@[a].messages >= 1 && self.aircraft@[a].last_message
                <= self.latest by {
                lemma_filter_member(all, pred, a);
            }
            lemma_total_filter(all, pred);
        }
    }

    /// Remove aircraft that haven't been seen recently.
    pub fn expire_stale(&mut self)
        requires
            old(self).wf(),
        ensures
            final(self).receiver_lat == old(self).receiver_lat,
            final(self).receiver_lon == old(self).receiver_lon,
            final(self).clock == old(self).clock,
            final(self).wf(),
            final(self).total_messages == old(self).total_messages,
            exists|now: u64|
                now >= old(self).latest && final(self).latest == now && final(self).aircraft@
                    == #[trigger] current_only(old(self).aircraft@, now),
    {
        let now = self.clock_reading();
        self.expire_stale_at(now);
    }

    /// Number of aircraft currently tracked.
    pub fn count(&self) -> (r: usize)
        ensures
            r == self.aircraft@.len(),
    {
        self.aircraft.len()
    }

    /// Number of aircraft with a valid position.
    pub fn count_with_position(&self) -> (r: usize)
        ensures
            r == self.aircraft@.filter(|a: AircraftState| has_position(a)).len(),
    {
        let ghost pred = |a: AircraftState| has_position(a);
        let mut n: usize = 0;
        let mut i: usize = 0;
        assert(self.aircraft@.take(0).filter(pred) =~= Seq::<AircraftState>::empty()) by {
            reveal_with_fuel(Seq::<_>::filter, 1);
        }
        while i < self.aircraft.len()
            invariant
                i <= self.aircraft@.len(),
                n == self.aircraft@.take(i as int).filter(pred).len(),
                n <= i,
                pred == (|a: AircraftState| has_position(a)),
            decreases self.aircraft@.len() - i,
        {
            proof {
                assert(self.aircraft@.take(i + 1).drop_last() =~= self.aircraft@.take(i as int));
                reveal_with_fuel(Seq::<_>::filter, 1);
            }
            if self.aircraft[i].lat.is_some() {
                n = n + 1;
            }
            i = i + 1;
        }
        assert(self.aircraft@.take(i as int) =~= self.aircraft@);
        n
    }
}

/// Each element of a filtered sequence is an element of the unfiltered one.
proof fn lemma_filter_member(s: Seq<AircraftState>, pred: spec_fn(AircraftState) -> bool, a: int)
    requires
        0 <= a < s.filter(pred).len(),
    ensures
        exists|k: int| 0 <= k < s.len() && s[k] == s.filter(pred)[a],
    decreases s.len(),
{
    reveal_with_fuel(Seq::<_>::filter, 1);
    let rest = s.drop_last().filter(pred);
    if a < rest.len() {
        lemma_filter_member(s.drop_last(), pred, a);
        let k = choose|k: int| 0 <= k < s.drop_last().len() && s.drop_last()[k] == rest[a];
        assert(s[k] == s.filter(pred)[a]);
    } else {
        assert(s[s.len() - 1] == s.filter(pred)[a]);
    }
}

/// Filtering keeps hex texts distinct.
proof fn lemma_filter_keeps_distinct(
    s: Seq<AircraftState>,
    pred: spec_fn(AircraftState) -> bool,
    a: int,
    b: int,
)
    requires
        forall|x: int, y: int| 0 <= x < y < s.len() ==> s[x].hex@ != s[y].hex@,
        0 <= a < b < s.filter(pred).len(),
    ensures
        s.filter(pred)[a].hex@ != s.filter(pred)[b].hex@,
    decreases s.len(),
{
    reveal_with_fuel(Seq::<_>::filter, 1);
    let rest = s.drop_last().filter(pred);
    if b < rest.len() {
        lemma_filter_keeps_distinct(s.drop_last(), pred, a, b);
    } else {
        lemma_filter_member(s.drop_last(), pred, a);
        let k = choose|k: int| 0 <= k < s.drop_last().len() && s.drop_last()[k] == rest[a];
        assert(s.filter(pred)[b] == s[s.len() - 1]);
        assert(s[k].hex@ != s[s.len() - 1].hex@);
    }
}

/// The total of a list with one more aircraft.
proof fn lemma_total_push(s: Seq<AircraftState>, a: AircraftState)
    ensures
        messages_total(s.push(a)) == messages_total(s) + a.messages,
{
    assert(s.push(a).drop_last() =~= s);
}

/// The total after one aircraft is replaced.
proof fn lemma_total_update(s: Seq<AircraftState>, i: int, a: AircraftState)
    requires
        0 <= i < s.len(),
    ensures
        messages_total(s.update(i, a)) == messages_total(s) - s[i].messages + a.messages,
    decreases s.len(),
{
    let u = s.update(i, a);
    if i == s.len() - 1 {
        assert(u.drop_last() =~= s.drop_last());
    } else {
        lemma_total_update(s.drop_last(), i, a);
        assert(u.drop_last() =~= s.drop_last().update(i, a));
    }
}

proof fn lemma_total_nonneg(s: Seq<AircraftState>)
    ensures
        messages_total(s) >= 0,
    decreases s.len(),
{
    if s.len() > 0 {
        lemma_total_nonneg(s.drop_last());
    }
}

/// Each aircraft's messages are part of the total.
proof fn lemma_total_member(s: Seq<AircraftState>, i: int)
    requires
        0 <= i < s.len(),
    ensures
        s[i].messages <= messages_total(s),
    decreases s.len(),
{
    lemma_total_nonneg(s.drop_last());
    if i < s.len() - 1 {
        lemma_total_member(s.drop_last(), i);
    }
}

/// Removing aircraft never raises the total.
proof fn lemma_total_filter(s: Seq<AircraftState>, pred: spec_fn(AircraftState) -> bool)
    ensures
        messages_total(s.filter(pred)) <= messages_total(s),
    decreases s.len(),
{
    reveal_with_fuel(Seq::<_>::filter, 1);
    if s.len() > 0 {
        lemma_total_filter(s.drop_last(), pred);
        if pred(s.last()) {
            lemma_total_push(s.drop_last().filter(pred), s.last());
        }
    }
}

/// Lists with the same message counts, aircraft by aircraft, have the same total.
proof fn lemma_total_same_messages(s: Seq<AircraftState>, u: Seq<AircraftState>)
    requires
        s.len() == u.len(),
        forall|k: int| 0 <= k < s.len() ==> s[k].messages == u[k].messages,
    ensures
        messages_total(s) == messages_total(u),
    decreases s.len(),
{
    if s.len() > 0 {
        lemma_total_same_messages(s.drop_last(), u.drop_last());
    }
}

// ───────────────────────────── Laws ─────────────────────────────

/// An aircraft first heard through a frame is registered in the country
/// whose address block holds the frame's address (TIS-B included).
pub proof fn lemma_new_aircraft_country(frame: DownlinkFrame, b: AircraftState, now: u64)
    requires
        frame_hex(frame) is Some,
        fresh(b, frame_hex(frame)->0, frame_address(frame), now),
    ensures
        country_matches(b, country_of_address(frame_address(frame))),
{
    let addr = frame_address(frame);
    let digits = hex_text(addr as nat, 6);
    lemma_hex_text_value(addr as nat, 6);
    lemma_lookup_hex_text(addr, 6);
    assert(strip_leading_spec(digits, '~') == digits);
    if frame is TisB {
        let t = seq!['~'] + digits;
        assert(t.drop_first() =~= digits);
        assert(strip_leading_spec(t, '~') == strip_leading_spec(digits, '~'));
    }
}

/// A frame never changes who an aircraft is: its hex text, address and
/// country stay as they were when it was first heard.
pub proof fn lemma_frame_keeps_identity(
    before: AircraftState,
    after: AircraftState,
    frame: DownlinkFrame,
    signal: Option<u8>,
    now: u64,
)
    requires
        frame_effect(before, after, frame, signal, now),
    ensures
        after.hex == before.hex,
        after.icao_raw == before.icao_raw,
        after.country == before.country,
        after.country_code == before.country_code,
{
}

/// Each message counts once: the aircraft's message count grows by one
/// and its last-message time becomes the time of the frame.
pub proof fn lemma_frame_counts_message(
    before: AircraftState,
    after: AircraftState,
    frame: DownlinkFrame,
    signal: Option<u8>,
    now: u64,
)
    requires
        frame_effect(before, after, frame, signal, now),
        !(frame is Other),
        before.messages < u64::MAX,
    ensures
        after.messages == before.messages + 1,
        after.last_message == now,
        after.seen == 0,
{
}

/// An aircraft just heard from is not expired before the timeout: after a
/// frame at `now`, it is still current at any time less than
/// `AIRCRAFT_TIMEOUT_SECS` later.
pub proof fn lemma_heard_aircraft_stays_current(
    before: AircraftState,
    after: AircraftState,
    frame: DownlinkFrame,
    signal: Option<u8>,
    now: u64,
    later: u64,
)
    requires
        frame_effect(before, after, frame, signal, now),
        !(frame is Other),
        before.messages < u64::MAX,
        now <= later,
        later - now < AIRCRAFT_TIMEOUT_SECS * NANOS_PER_SEC,
    ensures
        is_current(after, later),
{
    lemma_frame_counts_message(before, after, frame, signal, now);
}

/// A frame changes at most one aircraft: every aircraft tracked before is
/// still tracked under the same hex text, at most one new aircraft appears,
/// at most one aircraft changes, and a frame addressing no aircraft changes
/// nothing.
pub proof fn lemma_update_changes_one_aircraft(
    before: Seq<AircraftState>,
    after: Seq<AircraftState>,
    frame: DownlinkFrame,
    signal: Option<u8>,
    now: u64,
    r: Option<PositionRequest>,
)
    requires
        update_outcome(before, after, frame, signal, now, r),
    ensures
        before.len() <= after.len() <= before.len() + 1,
        forall|k: int| 0 <= k < before.len() ==> #[trigger] after[k].hex == before[k].hex,
        forall|j: int, k: int|
            0 <= j < before.len() && 0 <= k < before.len() && j != k && after[j] != before[j] ==> after[k]
                == before[k],
        frame is Other ==> after == before,
{
    if let Some(hex) = frame_hex(frame) {
        if let Some(i) = index_of(before, hex) {
            lemma_frame_keeps_identity(before[i], after[i], frame, signal, now);
        }
    }
}

/// The extended squitter message a frame carries, if any.
pub open spec fn squitter_of(frame: DownlinkFrame) -> Option<ExtendedSquitter> {
    match frame {
        DownlinkFrame::Adsb { me, .. } => Some(me),
        DownlinkFrame::TisB { me, .. } => Some(me),
        _ => None,
    }
}

/// The altitude field of a surveillance or Comm-B altitude reply, if the
/// frame is one.
pub open spec fn reply_altitude_of(frame: DownlinkFrame) -> Option<u16> {
    match frame {
        DownlinkFrame::SurveillanceAltitudeReply { altitude, .. } => Some(altitude),
        DownlinkFrame::ShortAirAirSurveillance { altitude, .. } => Some(altitude),
        DownlinkFrame::LongAirAir { altitude, .. } => Some(altitude),
        DownlinkFrame::CommBAltitudeReply { altitude, .. } => Some(altitude),
        _ => None,
    }
}

/// The identity code of a surveillance or Comm-B identity reply, if the
/// frame is one.
pub open spec fn reply_identity_of(frame: DownlinkFrame) -> Option<u32> {
    match frame {
        DownlinkFrame::SurveillanceIdentityReply { id, .. } => Some(id as u32),
        DownlinkFrame::CommBIdentityReply { id, .. } => Some(id),
        _ => None,
    }
}

/// A target state and status message sets the aircraft's navigational
/// accuracy category to the message's `nacp` and its source integrity
/// level to the message's `sil`.
pub proof fn lemma_target_state_sets_accuracy(
    before: AircraftState,
    after: AircraftState,
    frame: DownlinkFrame,
    signal: Option<u8>,
    now: u64,
    nacp: u8,
    sil: u8,
)
    requires
        frame_effect(before, after, frame, signal, now),
        squitter_of(frame) == Some(ExtendedSquitter::TargetStateAndStatus { nacp, sil }),
    ensures
        after.nac_p == Some(nacp),
        after.sil == Some(sil),
        after.version == before.version,
{
}

/// An operational status message sets the aircraft's ADS-B version,
/// navigational accuracy category and source integrity level to the
/// message's.
pub proof fn lemma_operation_status_sets_version(
    before: AircraftState,
    after: AircraftState,
    frame: DownlinkFrame,
    signal: Option<u8>,
    now: u64,
    version: u8,
    nacp: u8,
    sil: u8,
)
    requires
        frame_effect(before, after, frame, signal, now),
        squitter_of(frame) == Some(ExtendedSquitter::OperationStatus { version, nacp, sil }),
    ensures
        after.version == Some(version),
        after.nac_p == Some(nacp),
        after.sil == Some(sil),
{
}

/// An identification message sets the callsign to the message's
/// identification without surrounding whitespace, and the category to the
/// type coding's letter followed by the category digit.
pub proof fn lemma_identification_sets_callsign(
    before: AircraftState,
    after: AircraftState,
    frame: DownlinkFrame,
    signal: Option<u8>,
    now: u64,
    tc: TypeCoding,
    ca: u8,
    cn: String,
)
    requires
        frame_effect(before, after, frame, signal, now),
        squitter_of(frame) == Some(ExtendedSquitter::AircraftIdentification { tc, ca, cn }),
        ca < 10,
    ensures
        after.callsign matches Some(c) && c@ == trim_spec(cn@),
        after.category matches Some(k) && k@.len() == 2 && k@[1] == ((48 + ca) as char) && (tc == TypeCoding::A
            ==> k@[0] == 'A') && (tc == TypeCoding::B ==> k@[0] == 'B') && (tc == TypeCoding::C ==> k@[0] == 'C')
            && (tc == TypeCoding::D ==> k@[0] == 'D'),
{
    let k = after.category->0;
    assert(decimal_text(ca as nat) == seq![digit_char(ca as nat)]);
}

/// An airborne position message stores its CPR frame, received now, in the
/// slot of its format (the other slot is kept); a barometric one sets the
/// altitude to its feet when positive and to "ground" otherwise, a GNSS
/// one sets the geometric altitude when positive.
pub proof fn lemma_position_message_stores_cpr(
    before: AircraftState,
    after: AircraftState,
    frame: DownlinkFrame,
    signal: Option<u8>,
    now: u64,
    p: CprPosition,
)
    requires
        frame_effect(before, after, frame, signal, now),
        squitter_of(frame) == Some(ExtendedSquitter::AirbornePositionBaroAltitude(p)) || squitter_of(frame)
            == Some(ExtendedSquitter::AirbornePositionGnssAltitude(p)),
    ensures
        p.odd ==> after.cpr_odd == Some(CprFrame { position: p, received: now }) && after.cpr_even
            == before.cpr_even,
        !p.odd ==> after.cpr_even == Some(CprFrame { position: p, received: now }) && after.cpr_odd
            == before.cpr_odd,
        squitter_of(frame) == Some(ExtendedSquitter::AirbornePositionBaroAltitude(p)) ==> {
            &&& (p.alt is Some && p.alt->0 > 0 ==> after.alt_baro == Some(AltitudeValue::Feet(p.alt->0 as i32)))
            &&& (!(p.alt is Some && p.alt->0 > 0) ==> after.alt_baro == Some(AltitudeValue::Ground))
        },
        squitter_of(frame) == Some(ExtendedSquitter::AirbornePositionGnssAltitude(p)) ==> {
            &&& (p.alt is Some && p.alt->0 > 0 ==> after.alt_geom == Some(p.alt->0 as i32))
            &&& (!(p.alt is Some && p.alt->0 > 0) ==> after.alt_geom == before.alt_geom)
            &&& after.alt_baro == before.alt_baro
        },
{
}

/// A surface position message marks the aircraft on the ground.
pub proof fn lemma_surface_position_on_ground(
    before: AircraftState,
    after: AircraftState,
    frame: DownlinkFrame,
    signal: Option<u8>,
    now: u64,
)
    requires
        frame_effect(before, after, frame, signal, now),
        squitter_of(frame) == Some(ExtendedSquitter::SurfacePosition),
    ensures
        after.alt_baro == Some(AltitudeValue::Ground),
{
}

/// A velocity message sets ground speed, track and vertical rate from its
/// ground vector, and a non-zero airspeed as true airspeed (type 1) or
/// indicated airspeed (type 0); what it does not carry stays as it was.
pub proof fn lemma_velocity_sets_speeds(
    before: AircraftState,
    after: AircraftState,
    frame: DownlinkFrame,
    signal: Option<u8>,
    now: u64,
    ground: Option<GroundVector>,
    airspeed: Option<Airspeed>,
)
    requires
        frame_effect(before, after, frame, signal, now),
        squitter_of(frame) == Some(ExtendedSquitter::AirborneVelocity { ground, airspeed }),
    ensures
        ground is Some ==> after.gs == Some(ground->0.speed) && after.track == Some(ground->0.track)
            && after.baro_rate == Some(ground->0.vrate),
        ground is None ==> after.gs == before.gs && after.track == before.track && after.baro_rate
            == before.baro_rate,
        airspeed is Some && airspeed->0.airspeed > 0 && airspeed->0.airspeed_type != 0 ==> after.tas == Some(
            airspeed->0.airspeed,
        ) && after.ias == before.ias,
        airspeed is Some && airspeed->0.airspeed > 0 && airspeed->0.airspeed_type == 0 ==> after.ias == Some(
            airspeed->0.airspeed,
        ) && after.tas == before.tas,
        !(airspeed is Some && airspeed->0.airspeed > 0) ==> after.ias == before.ias && after.tas == before.tas,
{
}

/// An altitude reply sets the barometric altitude to its feet when it is
/// known (non-zero) and leaves it otherwise.
pub proof fn lemma_altitude_reply_sets_altitude(
    before: AircraftState,
    after: AircraftState,
    frame: DownlinkFrame,
    signal: Option<u8>,
    now: u64,
    altitude: u16,
)
    requires
        frame_effect(before, after, frame, signal, now),
        reply_altitude_of(frame) == Some(altitude),
    ensures
        altitude > 0 ==> after.alt_baro == Some(AltitudeValue::Feet(altitude as i32)),
        altitude == 0 ==> after.alt_baro == before.alt_baro,
{
}

/// An identity reply sets the squawk to hexadecimal text that reads back
/// as the reply's identity code.
pub proof fn lemma_identity_reply_sets_squawk(
    before: AircraftState,
    after: AircraftState,
    frame: DownlinkFrame,
    signal: Option<u8>,
    now: u64,
    id: u32,
)
    requires
        frame_effect(before, after, frame, signal, now),
        reply_identity_of(frame) == Some(id),
    ensures
        after.squawk matches Some(q) && hex_u32_value(q@) == Some(id),
{
    lemma_hex_text_parses(id, 4);
}

/// The signal level of an ADS-B frame is kept when it is non-zero, and
/// otherwise the last level stays.
pub proof fn lemma_adsb_signal_kept(
    before: AircraftState,
    after: AircraftState,
    icao: u32,
    me: ExtendedSquitter,
    signal: Option<u8>,
    now: u64,
)
    requires
        frame_effect(before, after, DownlinkFrame::Adsb { icao, me }, signal, now),
    ensures
        signal is Some && signal->0 > 0 ==> after.rssi == Some(signal->0),
        !(signal is Some && signal->0 > 0) ==> after.rssi == before.rssi,
{
}

/// A move counts towards distance and CO₂ exactly when the aircraft had a
/// previous position and the move is more than 10 m and less than 50 km;
/// it then adds its millimetres, and millimetres times the factor in tenths
/// of kg/km as tenths of milligrams of CO₂ (both saturating).
pub proof fn lemma_counted_move_bounds(a: AircraftState, lat: i32, lon: i32, dist: Option<u64>, now: u64)
    ensures
        counted_move(a, dist) <==> (a.prev_lat is Some && a.prev_lon is Some && dist is Some && 10_000
            < dist->0 < 50_000_000),
        counted_move(a, dist) && a.dist_mm + dist->0 <= u64::MAX ==> position_effect(
            a,
            lat,
            lon,
            dist,
            now,
        ).dist_mm == a.dist_mm + dist->0,
        counted_move(a, dist) ==> position_effect(a, lat, lon, dist, now).ef_used is Some,
        counted_move(a, dist) && a.co2_tenth_mg + dist->0 * position_effect(a, lat, lon, dist, now).ef_used->0
            <= u64::MAX ==> position_effect(a, lat, lon, dist, now).co2_tenth_mg == a.co2_tenth_mg + dist->0
            * position_effect(a, lat, lon, dist, now).ef_used->0,
{
    if counted_move(a, dist) {
        let (ef, src) = emission_factor_spec(opt_string_chars(a.type_code), None, opt_string_chars(a.category));
        assert(dist->0 * ef <= 50_000_000 * 65535) by (nonlinear_arith)
            requires
                dist->0 < 50_000_000,
                ef <= 65535,
        ;
    }
}

/// The hex text of a frame's aircraft reads back as the frame's address
/// (after the `~` of a TIS-B address), and has at least six digits.
pub proof fn lemma_frame_hex_reads_back(frame: DownlinkFrame)
    requires
        !(frame is Other),
    ensures
        frame is TisB ==> frame_hex(frame)->0[0] == '~' && hex_u32_value(frame_hex(frame)->0.drop_first())
            == Some(frame_address(frame)),
        !(frame is TisB) ==> hex_u32_value(frame_hex(frame)->0) == Some(frame_address(frame)),
{
    let addr = frame_address(frame);
    lemma_hex_text_parses(addr, 6);
    if frame is TisB {
        assert((seq!['~'] + hex_text(addr as nat, 6)).drop_first() =~= hex_text(addr as nat, 6));
    }
}

/// Every position within ±90° latitude and ±180° longitude is on the
/// globe, and no other.
pub proof fn lemma_on_globe_bounds(lat: i32, lon: i32)
    ensures
        position_on_globe(lat, lon) <==> (-90_000_000 <= lat <= 90_000_000 && -180_000_000 <= lon
            <= 180_000_000),
{
}

/// A recorded position becomes the aircraft's position and previous
/// position, stamped with the time of its request.
pub proof fn lemma_position_recorded(a: AircraftState, lat: i32, lon: i32, dist: Option<u64>, now: u64)
    ensures
        position_effect(a, lat, lon, dist, now).lat == Some(lat),
        position_effect(a, lat, lon, dist, now).lon == Some(lon),
        position_effect(a, lat, lon, dist, now).prev_lat == Some(lat),
        position_effect(a, lat, lon, dist, now).prev_lon == Some(lon),
        position_effect(a, lat, lon, dist, now).last_position == Some(now),
        position_effect(a, lat, lon, dist, now).seen_pos == 0,
        position_effect(a, lat, lon, dist, now).hex == a.hex,
        position_effect(a, lat, lon, dist, now).messages == a.messages,
        position_effect(a, lat, lon, dist, now).last_message == a.last_message,
{
}

/// Ageing measures `seen` from the last message and `seen_pos` from the
/// last position, each as the time elapsed until `now`.
pub proof fn lemma_ages_measured(s: Seq<AircraftState>, now: u64, k: int)
    requires
        0 <= k < s.len(),
    ensures
        s[k].last_message <= now ==> aged_all(s, now)[k].seen == now - s[k].last_message,
        s[k].last_position is Some && s[k].last_position->0 <= now ==> aged_all(s, now)[k].seen_pos == now
            - s[k].last_position->0,
        s[k].last_position is None ==> aged_all(s, now)[k].seen_pos == s[k].seen_pos,
        aged_all(s, now)[k].last_message == s[k].last_message,
        aged_all(s, now)[k].last_position == s[k].last_position,
        aged_all(s, now)[k].hex == s[k].hex,
        aged_all(s, now)[k].messages == s[k].messages,
        aged_all(s, now).len() == s.len(),
{
}

/// An aircraft is current until 300 s (in nanoseconds) have passed since
/// its last message.
pub proof fn lemma_current_until_timeout(a: AircraftState, now: u64)
    ensures
        is_current(a, now) <==> (now < a.last_message || now - a.last_message < 300_000_000_000),
{
}

/// A CPR pair is decoded only when both frames are less than 11 s old
/// (10 whole seconds or less), and then it is the stored pair.
pub proof fn lemma_cpr_pair_fresh(a: AircraftState, now: u64)
    ensures
        fresh_cpr_pair(a, now) is Some <==> (a.cpr_even matches Some(e) && a.cpr_odd matches Some(o) && (now
            < e.received || now - e.received < 11_000_000_000) && (now < o.received || now - o.received
            < 11_000_000_000)),
        fresh_cpr_pair(a, now) matches Some((e, o)) ==> e == a.cpr_even->0.position && o
            == a.cpr_odd->0.position,
{
}

/// A position update never decreases the distance flown nor the CO₂
/// emitted, and a counted move adds its distance and that distance times
/// the aircraft's emission factor (saturating at `u64::MAX`).
pub proof fn lemma_position_accumulates(a: AircraftState, lat: i32, lon: i32, dist: Option<u64>, now: u64)
    ensures
        position_effect(a, lat, lon, dist, now).dist_mm >= a.dist_mm,
        position_effect(a, lat, lon, dist, now).co2_tenth_mg >= a.co2_tenth_mg,
        counted_move(a, dist) ==> {
            let (ef, src) = emission_factor_spec(opt_string_chars(a.type_code), None, opt_string_chars(a.category));
            &&& position_effect(a, lat, lon, dist, now).dist_mm == sat_add(a.dist_mm, dist->0)
            &&& position_effect(a, lat, lon, dist, now).co2_tenth_mg == sat_add(a.co2_tenth_mg, (dist->0 * ef) as u64)
            &&& position_effect(a, lat, lon, dist, now).ef_used == Some(ef)
            &&& position_effect(a, lat, lon, dist, now).ef_source == Some(src)
        },
        !counted_move(a, dist) ==> {
            &&& position_effect(a, lat, lon, dist, now).dist_mm == a.dist_mm
            &&& position_effect(a, lat, lon, dist, now).co2_tenth_mg == a.co2_tenth_mg
        },
{
    let (ef, src) = emission_factor_spec(opt_string_chars(a.type_code), None, opt_string_chars(a.category));
    if let Some(d) = dist {
        assert(d * ef >= 0) by (nonlinear_arith);
    }
}

/// No more aircraft have a position than are tracked.
pub proof fn lemma_count_with_position_le_count(aircraft: Seq<AircraftState>)
    ensures
        aircraft.filter(|a: AircraftState| has_position(a)).len() <= aircraft.len(),
{
    aircraft.lemma_filter_len(|a: AircraftState| has_position(a));
}

/// Expiry keeps exactly the aircraft heard from within the timeout.
pub proof fn lemma_expiry_exact(aircraft: Seq<AircraftState>, now: u64)
    ensures
        forall|k: int| 0 <= k < current_only(aircraft, now).len() ==> is_current(
            #[trigger] current_only(aircraft, now)[k],
            now,
        ),
        forall|k: int| 0 <= k < aircraft.len() && is_current(aircraft[k], now) ==> #[trigger] current_only(
            aircraft,
            now,
        ).contains(aircraft[k]),
{
    broadcast use vstd::seq_lib::group_filter_ensures;
}

} // verus!

//! modes — the Mode S downlink messages that the tracker reads.
//!
//! These hold, as plain values, the fields of decoded Mode S frames that
//! the aircraft tracker uses. Speeds and angles are in tenths of their
//! unit (a ground speed of 451.3 kt is `4513`).

use vstd::prelude::*;

verus! {

/// Emitter category set of an identification message (its type code).
#[derive(Debug, Clone, Copy, PartialEq, Eq, Structural)]
pub enum TypeCoding {
    D,
    C,
    B,
    A,
}

/// Position part of an airborne position message: altitude and the raw
/// CPR-encoded latitude/longitude of one (even or odd) frame.
#[derive(Debug, Clone, Copy, PartialEq, Eq, Structural)]
pub struct CprPosition {
    /// Decoded altitude in feet, if any.
    pub alt: Option<u16>,
    /// Odd (`true`) or even (`false`) CPR format.
    pub odd: bool,
    /// 17-bit CPR latitude.
    pub lat_cpr: u32,
    /// 17-bit CPR longitude.
    pub lon_cpr: u32,
}

/// Ground track, ground speed and vertical rate of a velocity message.
#[derive(Debug, Clone, Copy, PartialEq, Eq, Structural)]
pub struct GroundVector {
    /// Track over ground, tenths of a degree.
    pub track: i32,
    /// Ground speed, tenths of a knot.
    pub speed: i32,
    /// Vertical rate, ft/min.
    pub vrate: i16,
}

/// Airspeed subtype of a velocity message.
#[derive(Debug, Clone, Copy, PartialEq, Eq, Structural)]
pub struct Airspeed {
    /// Airspeed in knots.
    pub airspeed: u16,
    /// 0 for indicated, 1 for true airspeed.
    pub airspeed_type: u8,
}

/// An extended squitter message (ADS-B "ME" field).
#[derive(Debug)]
pub enum ExtendedSquitter {
    /// Identification and category (type codes 1–4).
    AircraftIdentification { tc: TypeCoding, ca: u8, cn: String },
    /// Airborne position with barometric altitude (type codes 9–18).
    AirbornePositionBaroAltitude(CprPosition),
    /// Airborne position with GNSS altitude (type codes 20–22).
    AirbornePositionGnssAltitude(CprPosition),
    /// Surface position (type codes 5–8).
    SurfacePosition,
    /// Airborne velocity (type code 19): the ground vector when the
    /// message carries one, the airspeed when it is of airspeed subtype.
    AirborneVelocity { ground: Option<GroundVector>, airspeed: Option<Airspeed> },
    /// Aircraft status (type code 28).
    AircraftStatus,
    /// Target state and status (type code 29).
    TargetStateAndStatus { nacp: u8, sil: u8 },
    /// Operational status, airborne or surface (type code 31).
    OperationStatus { version: u8, nacp: u8, sil: u8 },
    /// Any other message.
    Other,
}

/// A Mode S downlink frame.
#[derive(Debug)]
pub enum DownlinkFrame {
    /// DF17, ADS-B extended squitter from a transponder.
    Adsb { icao: u32, me: ExtendedSquitter },
    /// DF18, extended squitter from a non-transponder source (TIS-B);
    /// `crc` is the address the frame's parity yields.
    TisB { crc: u32, me: ExtendedSquitter },
    /// DF11, all-call reply.
    AllCallReply { icao: u32 },
    /// DF4, surveillance altitude reply (altitude in feet, 0 if unknown).
    SurveillanceAltitudeReply { crc: u32, altitude: u16 },
    /// DF5, surveillance identity reply (identity code as decoded).
    SurveillanceIdentityReply { crc: u32, id: u16 },
    /// DF0, short air-air surveillance.
    ShortAirAirSurveillance { crc: u32, altitude: u16 },
    /// DF16, long air-air surveillance.
    LongAirAir { crc: u32, altitude: u16 },
    /// DF20, Comm-B altitude reply.
    CommBAltitudeReply { crc: u32, altitude: u16 },
    /// DF21, Comm-B identity reply.
    CommBIdentityReply { crc: u32, id: u32 },
    /// Any other downlink format.
    Other,
}

// ───────────────────────── Parsed frames, as parsed ─────────────────────────
//
// The fields of a frame as the Mode S parser (adsb_deku) hands them over,
// each of its types mirrored one for one. `to_downlink` turns them into the
// `DownlinkFrame` that the tracker reads.

/// CPR format flag of a position message.
#[derive(Debug, Clone, Copy, PartialEq, Eq, Structural)]
pub enum CprFormat {
    Even,
    Odd,
}

/// ADS-B version of an operational status message.
#[derive(Debug, Clone, Copy, PartialEq, Eq, Structural)]
pub enum AdsbVersion {
    /// DOC 9871, appendix A (version 0).
    AppendixA,
    /// DOC 9871, appendix B (version 1).
    AppendixB,
    /// DOC 9871, appendix C (version 2).
    AppendixC,
}

/// Altitude and CPR fields of an airborne position message.
#[derive(Debug, Clone, Copy, PartialEq, Eq, Structural)]
pub struct RawPosition {
    pub alt: Option<u16>,
    pub odd_flag: CprFormat,
    pub lat_cpr: u32,
    pub lon_cpr: u32,
}

/// Version and accuracy fields of an operational status message.
#[derive(Debug, Clone, Copy, PartialEq, Eq, Structural)]
pub struct RawOperation {
    pub version_number: AdsbVersion,
    pub navigational_accuracy_category: u8,
    pub source_integrity_level: u8,
}

/// Operational status: airborne, surface, or a reserved subtype.
#[derive(Debug, Clone, Copy, PartialEq, Eq, Structural)]
pub enum RawOperationStatus {
    Airborne(RawOperation),
    Surface(RawOperation),
    Reserved,
}

/// An extended squitter message as parsed.
#[derive(Debug)]
pub enum RawSquitter {
    AircraftIdentification { tc: TypeCoding, ca: u8, cn: String },
    AirbornePositionBaroAltitude(RawPosition),
    AirbornePositionGnssAltitude(RawPosition),
    SurfacePosition,
    /// `ground` is the velocity's ground vector when it has one (decoded
    /// in floating point, then held in tenths); `airspeed` the airspeed
    /// subtype's fields.
    AirborneVelocity { ground: Option<GroundVector>, airspeed: Option<Airspeed> },
    AircraftStatus,
    TargetStateAndStatusInformation { nacp: u8, sil: u8 },
    AircraftOperationStatus(RawOperationStatus),
    /// Any other message (no position, reserved, surface system status, ...).
    Other,
}

/// The downlink format of a frame as parsed, with the fields the tracker reads.
#[derive(Debug)]
pub enum RawDownlink {
    Adsb { icao: [u8; 3], me: RawSquitter },
    TisB { me: RawSquitter },
    AllCallReply { icao: [u8; 3] },
    SurveillanceAltitudeReply { ac: u16 },
    SurveillanceIdentityReply { id: u16 },
    ShortAirAirSurveillance { altitude: u16 },
    LongAirAir { altitude: u16 },
    CommBAltitudeReply { alt: u16 },
    CommBIdentityReply { id: u32 },
    /// Any other downlink format.
    Other,
}

/// A parsed Mode S frame: its downlink format and the address its parity
/// yields (`crc`).
#[derive(Debug)]
pub struct RawFrame {
    pub df: RawDownlink,
    pub crc: u32,
}

/// The 24-bit address held in three bytes, most significant first.
pub open spec fn address_spec(icao: [u8; 3]) -> u32 {
    (icao@[0] as int * 65536 + icao@[1] as int * 256 + icao@[2] as int) as u32
}

/// The version number of an ADS-B version.
pub open spec fn version_number_spec(v: AdsbVersion) -> u8 {
    match v {
        AdsbVersion::AppendixA => 0,
        AdsbVersion::AppendixB => 1,
        AdsbVersion::AppendixC => 2,
    }
}

/// The position part of a parsed position message.
pub open spec fn cpr_position_spec(p: RawPosition) -> CprPosition {
    CprPosition { alt: p.alt, odd: p.odd_flag == CprFormat::Odd, lat_cpr: p.lat_cpr, lon_cpr: p.lon_cpr }
}

/// The extended squitter the tracker reads from a parsed one.
pub open spec fn squitter_spec(me: RawSquitter) -> ExtendedSquitter {
    match me {
        RawSquitter::AircraftIdentification { tc, ca, cn } => ExtendedSquitter::AircraftIdentification { tc, ca, cn },
        RawSquitter::AirbornePositionBaroAltitude(p) => ExtendedSquitter::AirbornePositionBaroAltitude(
            cpr_position_spec(p),
        ),
        RawSquitter::AirbornePositionGnssAltitude(p) => ExtendedSquitter::AirbornePositionGnssAltitude(
            cpr_position_spec(p),
        ),
        RawSquitter::SurfacePosition => ExtendedSquitter::SurfacePosition,
        RawSquitter::AirborneVelocity { ground, airspeed } => ExtendedSquitter::AirborneVelocity { ground, airspeed },
        RawSquitter::AircraftStatus => ExtendedSquitter::AircraftStatus,
        RawSquitter::TargetStateAndStatusInformation { nacp, sil } => ExtendedSquitter::TargetStateAndStatus {
            nacp,
            sil,
        },
        RawSquitter::AircraftOperationStatus(RawOperationStatus::Airborne(o))
        | RawSquitter::AircraftOperationStatus(RawOperationStatus::Surface(o)) => ExtendedSquitter::OperationStatus {
            version: version_number_spec(o.version_number),
            nacp: o.navigational_accuracy_category,
            sil: o.source_integrity_level,
        },
        RawSquitter::AircraftOperationStatus(RawOperationStatus::Reserved) => ExtendedSquitter::Other,
        RawSquitter::Other => ExtendedSquitter::Other,
    }
}

/// The downlink frame the tracker reads from a parsed frame.
pub open spec fn to_downlink_spec(f: RawFrame) -> DownlinkFrame {
    match f.df {
        RawDownlink::Adsb { icao, me } => DownlinkFrame::Adsb { icao: address_spec(icao), me: squitter_spec(me) },
        RawDownlink::TisB { me } => DownlinkFrame::TisB { crc: f.crc, me: squitter_spec(me) },
        RawDownlink::AllCallReply { icao } => DownlinkFrame::AllCallReply { icao: address_spec(icao) },
        RawDownlink::SurveillanceAltitudeReply { ac } => DownlinkFrame::SurveillanceAltitudeReply {
            crc: f.crc,
            altitude: ac,
        },
        RawDownlink::SurveillanceIdentityReply { id } => DownlinkFrame::SurveillanceIdentityReply { crc: f.crc, id },
        RawDownlink::ShortAirAirSurveillance { altitude } => DownlinkFrame::ShortAirAirSurveillance {
            crc: f.crc,
            altitude,
        },
        RawDownlink::LongAirAir { altitude } => DownlinkFrame::LongAirAir { crc: f.crc, altitude },
        RawDownlink::CommBAltitudeReply { alt } => DownlinkFrame::CommBAltitudeReply { crc: f.crc, altitude: alt },
        RawDownlink::CommBIdentityReply { id } => DownlinkFrame::CommBIdentityReply { crc: f.crc, id },
        RawDownlink::Other => DownlinkFrame::Other,
    }
}

/// The 24-bit address held in three bytes.
pub fn address(icao: [u8; 3]) -> (r: u32)
    ensures
        r == address_spec(icao),
        r < 0x100_0000,
{
    (icao[0] as u32) * 65536 + (icao[1] as u32) * 256 + (icao[2] as u32)
}

fn cpr_position(p: RawPosition) -> (r: CprPosition)
    ensures
        r == cpr_position_spec(p),
{
    CprPosition {
        alt: p.alt,
        odd: match p.odd_flag {
            CprFormat::Odd => true,
            CprFormat::Even => false,
        },
        lat_cpr: p.lat_cpr,
        lon_cpr: p.lon_cpr,
    }
}

fn operation_status(o: RawOperation) -> (r: ExtendedSquitter)
    ensures
        r == (ExtendedSquitter::OperationStatus {
            version: version_number_spec(o.version_number),
            nacp: o.navigational_accuracy_category,
            sil: o.source_integrity_level,
        }),
{
    let version: u8 = match o.version_number {
        AdsbVersion::AppendixA => 0,
        AdsbVersion::AppendixB => 1,
        AdsbVersion::AppendixC => 2,
    };
    ExtendedSquitter::OperationStatus {
        version,
        nacp: o.navigational_accuracy_category,
        sil: o.source_integrity_level,
    }
}

/// The extended squitter the tracker reads from a parsed one.
pub fn to_squitter(me: RawSquitter) -> (r: ExtendedSquitter)
    ensures
        r == squitter_spec(me),
{
    match me {
        RawSquitter::AircraftIdentification { tc, ca, cn } => ExtendedSquitter::AircraftIdentification { tc, ca, cn },
        RawSquitter::AirbornePositionBaroAltitude(p) => ExtendedSquitter::AirbornePositionBaroAltitude(
            cpr_position(p),
        ),
        RawSquitter::AirbornePositionGnssAltitude(p) => ExtendedSquitter::AirbornePositionGnssAltitude(
            cpr_position(p),
        ),
        RawSquitter::SurfacePosition => ExtendedSquitter::SurfacePosition,
        RawSquitter::AirborneVelocity { ground, airspeed } => ExtendedSquitter::AirborneVelocity { ground, airspeed },
        RawSquitter::AircraftStatus => ExtendedSquitter::AircraftStatus,
        RawSquitter::TargetStateAndStatusInformation { nacp, sil } => ExtendedSquitter::TargetStateAndStatus {
            nacp,
            sil,
        },
        RawSquitter::AircraftOperationStatus(RawOperationStatus::Airborne(o)) => operation_status(o),
        RawSquitter::AircraftOperationStatus(RawOperationStatus::Surface(o)) => operation_status(o),
        RawSquitter::AircraftOperationStatus(RawOperationStatus::Reserved) => ExtendedSquitter::Other,
        RawSquitter::Other => ExtendedSquitter::Other,
    }
}

/// The downlink frame the tracker reads from a parsed frame: addresses
/// assembled from their bytes, surveillance replies addressed by the
/// parity address, and any format the tracker does not handle as `Other`.
pub fn to_downlink(f: RawFrame) -> (r: DownlinkFrame)
    ensures
        r == to_downlink_spec(f),
{
    let crc = f.crc;
    match f.df {
        RawDownlink::Adsb { icao, me } => DownlinkFrame::Adsb { icao: address(icao), me: to_squitter(me) },
        RawDownlink::TisB { me } => DownlinkFrame::TisB { crc, me: to_squitter(me) },
        RawDownlink::AllCallReply { icao } => DownlinkFrame::AllCallReply { icao: address(icao) },
        RawDownlink::SurveillanceAltitudeReply { ac } => DownlinkFrame::SurveillanceAltitudeReply {
            crc,
            altitude: ac,
        },
        RawDownlink::SurveillanceIdentityReply { id } => DownlinkFrame::SurveillanceIdentityReply { crc, id },
        RawDownlink::ShortAirAirSurveillance { altitude } => DownlinkFrame::ShortAirAirSurveillance {
            crc,
            altitude,
        },
        RawDownlink::LongAirAir { altitude } => DownlinkFrame::LongAirAir { crc, altitude },
        RawDownlink::CommBAltitudeReply { alt } => DownlinkFrame::CommBAltitudeReply { crc, altitude: alt },
        RawDownlink::CommBIdentityReply { id } => DownlinkFrame::CommBIdentityReply { crc, id },
        RawDownlink::Other => DownlinkFrame::Other,
    }
}

/// The three address bytes read back from the assembled address, most
/// significant first, and the address fits in 24 bits.
pub proof fn lemma_address_bytes(icao: [u8; 3])
    ensures
        address_spec(icao) < 0x100_0000,
        address_spec(icao) / 65536 == icao@[0],
        (address_spec(icao) / 256) % 256 == icao@[1],
        address_spec(icao) % 256 == icao@[2],
{
}

/// An operational status, airborne or surface alike, becomes an
/// `OperationStatus` with the number of its ADS-B version (appendix A 0,
/// B 1, C 2) and its accuracy and integrity fields; a reserved subtype
/// carries nothing.
pub proof fn lemma_operation_status_mapped(o: RawOperation)
    ensures
        ({
            let r = squitter_spec(RawSquitter::AircraftOperationStatus(RawOperationStatus::Airborne(o)));
            &&& r is OperationStatus
            &&& r->OperationStatus_nacp == o.navigational_accuracy_category
            &&& r->OperationStatus_sil == o.source_integrity_level
            &&& o.version_number == AdsbVersion::AppendixA ==> r->OperationStatus_version == 0
            &&& o.version_number == AdsbVersion::AppendixB ==> r->OperationStatus_version == 1
            &&& o.version_number == AdsbVersion::AppendixC ==> r->OperationStatus_version == 2
        }),
        squitter_spec(RawSquitter::AircraftOperationStatus(RawOperationStatus::Surface(o))) == squitter_spec(
            RawSquitter::AircraftOperationStatus(RawOperationStatus::Airborne(o)),
        ),
        squitter_spec(RawSquitter::AircraftOperationStatus(RawOperationStatus::Reserved))
            == ExtendedSquitter::Other,
{
}

/// The other messages keep their fields: identification as it is, target
/// state with `nacp` and `sil` in their places, positions with their
/// altitude, CPR fields and odd format flag, velocities as decoded.
pub proof fn lemma_squitter_fields_kept(
    tc: TypeCoding,
    ca: u8,
    cn: String,
    nacp: u8,
    sil: u8,
    p: RawPosition,
    ground: Option<GroundVector>,
    airspeed: Option<Airspeed>,
)
    ensures
        squitter_spec(RawSquitter::AircraftIdentification { tc, ca, cn }) == (ExtendedSquitter::AircraftIdentification { tc, ca, cn }),
        squitter_spec(RawSquitter::TargetStateAndStatusInformation { nacp, sil }) == (ExtendedSquitter::TargetStateAndStatus { nacp, sil }),
        squitter_spec(RawSquitter::AirbornePositionBaroAltitude(p)) == ExtendedSquitter::AirbornePositionBaroAltitude(
            CprPosition { alt: p.alt, odd: p.odd_flag == CprFormat::Odd, lat_cpr: p.lat_cpr, lon_cpr: p.lon_cpr },
        ),
        squitter_spec(RawSquitter::AirbornePositionGnssAltitude(p)) == ExtendedSquitter::AirbornePositionGnssAltitude(
            CprPosition { alt: p.alt, odd: p.odd_flag == CprFormat::Odd, lat_cpr: p.lat_cpr, lon_cpr: p.lon_cpr },
        ),
        squitter_spec(RawSquitter::AirborneVelocity { ground, airspeed }) == (ExtendedSquitter::AirborneVelocity { ground, airspeed }),
        squitter_spec(RawSquitter::SurfacePosition) == ExtendedSquitter::SurfacePosition,
        squitter_spec(RawSquitter::AircraftStatus) == ExtendedSquitter::AircraftStatus,
        squitter_spec(RawSquitter::Other) == ExtendedSquitter::Other,
{
}

/// Replies are addressed by the frame's parity address and keep their
/// altitude or identity field; ADS-B frames and all-call replies are
/// addressed by their announced address; TIS-B by the parity address;
/// other formats carry nothing.
pub proof fn lemma_downlink_addressing(crc: u32, icao: [u8; 3], x: u16, id: u32, me: RawSquitter)
    ensures
        to_downlink_spec(RawFrame { df: RawDownlink::SurveillanceAltitudeReply { ac: x }, crc })
            == (DownlinkFrame::SurveillanceAltitudeReply { crc, altitude: x }),
        to_downlink_spec(RawFrame { df: RawDownlink::ShortAirAirSurveillance { altitude: x }, crc })
            == (DownlinkFrame::ShortAirAirSurveillance { crc, altitude: x }),
        to_downlink_spec(RawFrame { df: RawDownlink::LongAirAir { altitude: x }, crc })
            == (DownlinkFrame::LongAirAir { crc, altitude: x }),
        to_downlink_spec(RawFrame { df: RawDownlink::CommBAltitudeReply { alt: x }, crc })
            == (DownlinkFrame::CommBAltitudeReply { crc, altitude: x }),
        to_downlink_spec(RawFrame { df: RawDownlink::SurveillanceIdentityReply { id: x }, crc })
            == (DownlinkFrame::SurveillanceIdentityReply { crc, id: x }),
        to_downlink_spec(RawFrame { df: RawDownlink::CommBIdentityReply { id }, crc })
            == (DownlinkFrame::CommBIdentityReply { crc, id }),
        to_downlink_spec(RawFrame { df: RawDownlink::AllCallReply { icao }, crc })
            == (DownlinkFrame::AllCallReply { icao: address_spec(icao) }),
        to_downlink_spec(RawFrame { df: RawDownlink::Adsb { icao, me }, crc })
            == (DownlinkFrame::Adsb { icao: address_spec(icao), me: squitter_spec(me) }),
        to_downlink_spec(RawFrame { df: RawDownlink::TisB { me }, crc })
            == (DownlinkFrame::TisB { crc, me: squitter_spec(me) }),
        to_downlink_spec(RawFrame { df: RawDownlink::Other, crc }) == DownlinkFrame::Other,
{
}

} // verus!

use rs1090::modes::{
    address, to_downlink, AdsbVersion, CprFormat, DownlinkFrame, ExtendedSquitter, RawDownlink, RawFrame,
    RawOperation, RawOperationStatus, RawPosition, RawSquitter, TypeCoding,
};

#[test]
fn address_from_bytes() {
    assert_eq!(address([0xa2, 0xc1, 0xbd]), 0xa2c1bd);
    assert_eq!(address([0x00, 0x0a, 0xbc]), 0x000abc);
    assert_eq!(address([0xff, 0xff, 0xff]), 0xffffff);
}

#[test]
fn identification_frame_maps_to_adsb() {
    // "8da61789200464b3cf6c207c7b06": DF17 from a61789, AFR3360, category A0
    let raw = RawFrame {
        df: RawDownlink::Adsb {
            icao: [0xa6, 0x17, 0x89],
            me: RawSquitter::AircraftIdentification { tc: TypeCoding::A, ca: 0, cn: "AFR3360".to_string() },
        },
        crc: 0,
    };
    match to_downlink(raw) {
        DownlinkFrame::Adsb { icao, me: ExtendedSquitter::AircraftIdentification { tc, ca, cn } } => {
            assert_eq!(icao, 0xa61789);
            assert_eq!(tc, TypeCoding::A);
            assert_eq!(ca, 0);
            assert_eq!(cn, "AFR3360");
        }
        other => panic!("unexpected {other:?}"),
    }
}

#[test]
fn position_frame_maps_cpr_format() {
    let raw = RawFrame {
        df: RawDownlink::TisB {
            me: RawSquitter::AirbornePositionBaroAltitude(RawPosition {
                alt: Some(23650),
                odd_flag: CprFormat::Odd,
                lat_cpr: 93000,
                lon_cpr: 51372,
            }),
        },
        crc: 0x123456,
    };
    match to_downlink(raw) {
        DownlinkFrame::TisB { crc, me: ExtendedSquitter::AirbornePositionBaroAltitude(p) } => {
            assert_eq!(crc, 0x123456);
            assert!(p.odd);
            assert_eq!(p.alt, Some(23650));
            assert_eq!((p.lat_cpr, p.lon_cpr), (93000, 51372));
        }
        other => panic!("unexpected {other:?}"),
    }
}

#[test]
fn replies_are_addressed_by_parity() {
    let raw = RawFrame { df: RawDownlink::CommBAltitudeReply { alt: 3500 }, crc: 0xabc };
    assert!(matches!(to_downlink(raw), DownlinkFrame::CommBAltitudeReply { crc: 0xabc, altitude: 3500 }));
    let raw = RawFrame { df: RawDownlink::SurveillanceIdentityReply { id: 0x7700 }, crc: 7 };
    assert!(matches!(to_downlink(raw), DownlinkFrame::SurveillanceIdentityReply { crc: 7, id: 0x7700 }));
    let raw = RawFrame { df: RawDownlink::AllCallReply { icao: [0x3c, 0x67, 0x52] }, crc: 1 };
    assert!(matches!(to_downlink(raw), DownlinkFrame::AllCallReply { icao: 0x3c6752 }));
    let raw = RawFrame { df: RawDownlink::Other, crc: 1 };
    assert!(matches!(to_downlink(raw), DownlinkFrame::Other));
}

#[test]
fn operation_status_versions() {
    for (v, n) in [(AdsbVersion::AppendixA, 0), (AdsbVersion::AppendixB, 1), (AdsbVersion::AppendixC, 2)] {
        let op = RawOperation { version_number: v, navigational_accuracy_category: 9, source_integrity_level: 3 };
        let raw = RawFrame {
            df: RawDownlink::Adsb {
                icao: [0, 0, 1],
                me: RawSquitter::AircraftOperationStatus(RawOperationStatus::Surface(op)),
            },
            crc: 0,
        };
        match to_downlink(raw) {
            DownlinkFrame::Adsb { me: ExtendedSquitter::OperationStatus { version, nacp, sil }, .. } => {
                assert_eq!((version, nacp, sil), (n, 9, 3));
            }
            other => panic!("unexpected {other:?}"),
        }
    }
    let raw = RawFrame {
        df: RawDownlink::Adsb { icao: [0, 0, 1], me: RawSquitter::AircraftOperationStatus(RawOperationStatus::Reserved) },
        crc: 0,
    };
    assert!(matches!(to_downlink(raw), DownlinkFrame::Adsb { me: ExtendedSquitter::Other, .. }));
}

use std::io::Write;

use wallet_pass::datetime::{DateTimeParts, PassDateTime};
use wallet_pass::pass::{PassError, PkPass, PkPassSubtype, PkTransitType, RECONSTRUCTION_OFFSET_SECONDS};

fn build_zip(entries: &[(&str, &[u8])]) -> Vec<u8> {
    let mut w = zip::ZipWriter::new(std::io::Cursor::new(Vec::new()));
    for (name, data) in entries {
        w.start_file(*name, zip::write::SimpleFileOptions::default())
            .unwrap();
        w.write_all(data).unwrap();
    }
    w.finish().unwrap().into_inner()
}

fn manifest() -> String {
    manifest_with(
        r#""teamIdentifier":"TEAM1","#,
        r#""messageEncoding":"iso-8859-1","#,
        r#"{"key":"Date","label":"Date","value":"15 Jun"},{"key":"boardingTime","label":"Boarding","value":"14:30"}"#,
    )
}

fn manifest_with(team_part: &str, encoding_part: &str, auxiliary: &str) -> String {
    let mut s = String::new();
    s.push_str(r#"{"serialNumber":"SN123","formatVersion":1,"passTypeIdentifier":"pass.example.flight","organizationName":"Example Air","#);
    s.push_str(team_part);
    s.push_str(r#""description":"Boarding pass","backgroundColor":"rgb(0,0,0)","foregroundColor":"rgb(255,255,255)","barcode":{"format":"PKBarcodeFormatAztec","message":"M1DOE","#);
    s.push_str(encoding_part);
    s.push_str(r#""ignored":0},"boardingPass":{"transitType":"PKTransitTypeAir","headerFields":[{"key":"seat","label":"Seat","value":"12A"},{"key":"flightNb","label":"Flight","value":"EX123"}],"primaryFields":[{"key":"boardPoint","label":"From","value":"SFO"},{"key":"offPoint","label":"To","value":"JFK"}],"secondaryFields":[{"key":"passenger","label":"Passenger","value":"DOE/JOHN"},{"key":"bookingClass","label":"Class","value":"Y"},{"key":"status","label":"Status","value":"OK"},{"key":"group","label":"Group","value":"3"}],"auxiliaryFields":["#);
    s.push_str(auxiliary);
    s.push_str(r#"],"backFields":[{"key":"ticket","label":"Ticket","value":"0123456789"},{"key":"recloc","label":"Ref","value":"ABC123"},{"key":"fqtv","label":"FF","value":"FF999"},{"key":"seq","label":"Seq","value":"25"},{"key":"departureTime","label":"Departure","value":"15:05"}]}}"#);
    s
}

fn pass_zip(manifest: &str) -> Vec<u8> {
    build_zip(&[("pass.json", manifest.as_bytes())])
}

#[test]
fn extracts_valid_pass() {
    let bytes = pass_zip(&manifest());
    let pass = PkPass::read(&bytes, 2024).unwrap();
    assert_eq!(pass.base.serial_number, "SN123");
    assert_eq!(pass.base.format_version, 1);
    assert_eq!(pass.base.pass_type_identifier, "pass.example.flight");
    assert_eq!(pass.base.organization_name, "Example Air");
    assert_eq!(pass.base.team_identifier, "TEAM1");
    assert_eq!(pass.base.description, "Boarding pass");
    assert_eq!(pass.base.background_color, "rgb(0,0,0)");
    assert_eq!(pass.base.foreground_color, "rgb(255,255,255)");
    assert_eq!(pass.barcode.format, "PKBarcodeFormatAztec");
    assert_eq!(pass.barcode.message, "M1DOE");
    assert_eq!(pass.barcode.encoding, "iso-8859-1");
    let PkPassSubtype::Flight(flight) = pass.subtype;
    assert!(matches!(flight.transit_type, PkTransitType::Air));
    assert_eq!(flight.year, 2024);
    assert_eq!(flight.seat().as_deref(), Some("12A"));
    assert_eq!(flight.flight_number().as_deref(), Some("EX123"));
    assert_eq!(flight.board_point().as_deref(), Some("SFO"));
    assert_eq!(flight.off_point().as_deref(), Some("JFK"));
    assert_eq!(flight.passenger().as_deref(), Some("DOE/JOHN"));
    assert_eq!(flight.booking_class().as_deref(), Some("Y"));
    assert_eq!(flight.status().as_deref(), Some("OK"));
    assert_eq!(flight.group().as_deref(), Some("3"));
    assert_eq!(flight.ticket().as_deref(), Some("0123456789"));
    assert_eq!(flight.recloc().as_deref(), Some("ABC123"));
    assert_eq!(flight.frequent_flyer().as_deref(), Some("FF999"));
    assert_eq!(flight.sequence().as_deref(), Some("25"));
    assert_eq!(flight.departure_time().as_deref(), Some("15:05"));
    assert_eq!(flight.date().as_deref(), Some("15 Jun"));
    assert_eq!(flight.boarding_time().as_deref(), Some("14:30"));
    assert_eq!(flight.details(), None);
    assert_eq!(flight.subsidiary_carrier(), None);
}

#[test]
fn extraction_is_deterministic() {
    let bytes = pass_zip(&manifest());
    let p1 = PkPass::read(&bytes, 2024).unwrap();
    let p2 = PkPass::read(&bytes, 2024).unwrap();
    assert_eq!(p1.base.serial_number, p2.base.serial_number);
    assert_eq!(p1.barcode.message, p2.barcode.message);
    let PkPassSubtype::Flight(f1) = p1.subtype;
    let PkPassSubtype::Flight(f2) = p2.subtype;
    assert_eq!(f1.seat(), f2.seat());
    assert_eq!(f1.date(), f2.date());
    assert_eq!(f1.parsed_boarding_datetime(), f2.parsed_boarding_datetime());
}

#[test]
fn missing_base_key_is_named_and_recoverable() {
    let broken = manifest_with(
        "",
        r#""messageEncoding":"iso-8859-1","#,
        r#"{"key":"Date","label":"Date","value":"15 Jun"}"#,
    );
    let err = PkPass::read(&pass_zip(&broken), 2024).unwrap_err();
    assert!(
        matches!(err, PassError::MissingKey { ref owner, ref key } if owner == "PkPassBase" && key == "teamIdentifier")
    );
    let fixed = manifest_with(
        r#""teamIdentifier":"TEAM1","#,
        r#""messageEncoding":"iso-8859-1","#,
        r#"{"key":"Date","label":"Date","value":"15 Jun"}"#,
    );
    assert!(PkPass::read(&pass_zip(&fixed), 2024).is_ok());
}

#[test]
fn wrong_json_type_counts_as_missing() {
    let broken = manifest().replace(r#""formatVersion":1"#, r#""formatVersion":"1""#);
    let err = PkPass::read(&pass_zip(&broken), 2024).unwrap_err();
    assert!(
        matches!(err, PassError::MissingKey { ref owner, ref key } if owner == "PkPassBase" && key == "formatVersion")
    );
}

#[test]
fn zero_signatures_is_no_subtype() {
    let broken = manifest().replace(r#""boardingPass""#, r#""somethingElse""#);
    let err = PkPass::read(&pass_zip(&broken), 2024).unwrap_err();
    assert!(matches!(err, PassError::NoSubtypeDetected));
    let broken2 = manifest().replace("PKTransitTypeAir", "PKTransitTypeTrain");
    let err2 = PkPass::read(&pass_zip(&broken2), 2024).unwrap_err();
    assert!(matches!(err2, PassError::NoSubtypeDetected));
}

#[test]
fn unknown_transit_type_is_refused() {
    let err = PkTransitType::from_str("PKTransitTypeTrain").unwrap_err();
    assert!(
        matches!(err, PassError::UnknownTransitType { ref value } if value == "PKTransitTypeTrain")
    );
    assert!(matches!(
        PkTransitType::from_str("PKTransitTypeAir"),
        Ok(PkTransitType::Air)
    ));
}

#[test]
fn boarding_datetime_reconstruction() {
    let bytes = pass_zip(&manifest());
    let pass = PkPass::read(&bytes, 2024).unwrap();
    let PkPassSubtype::Flight(flight) = pass.subtype;
    let boarding = flight.parsed_boarding_datetime().unwrap();
    assert_eq!(
        boarding,
        PassDateTime {
            parts: DateTimeParts { year: 2024, month: 6, day: 15, hour: 14, minute: 30 },
            offset_seconds: RECONSTRUCTION_OFFSET_SECONDS,
        }
    );
    assert_eq!(boarding.offset_seconds, -25200);
    let departure = flight.parsed_departure_datetime().unwrap();
    assert_eq!(
        departure.parts,
        DateTimeParts { year: 2024, month: 6, day: 15, hour: 15, minute: 5 }
    );
    let shifted = flight.boarding_datetime_with_offset(3600).unwrap();
    assert_eq!(shifted.parts, boarding.parts);
    assert_eq!(shifted.offset_seconds, 3600);
}

#[test]
fn absent_boarding_time_degrades_without_failing() {
    let m = manifest_with(
        r#""teamIdentifier":"TEAM1","#,
        r#""messageEncoding":"iso-8859-1","#,
        r#"{"key":"Date","label":"Date","value":"15 Jun"}"#,
    );
    let pass = PkPass::read(&pass_zip(&m), 2024).unwrap();
    assert_eq!(pass.base.serial_number, "SN123");
    assert_eq!(pass.barcode.message, "M1DOE");
    let PkPassSubtype::Flight(flight) = pass.subtype;
    assert_eq!(flight.parsed_boarding_datetime(), None);
    assert_eq!(flight.date().as_deref(), Some("15 Jun"));
    assert_eq!(flight.seat().as_deref(), Some("12A"));
    assert!(flight.parsed_departure_datetime().is_some());
}

#[test]
fn invalid_date_degrades_without_failing() {
    let m = manifest_with(
        r#""teamIdentifier":"TEAM1","#,
        r#""messageEncoding":"iso-8859-1","#,
        r#"{"key":"Date","label":"Date","value":"31 Feb"},{"key":"boardingTime","label":"Boarding","value":"14:30"}"#,
    );
    let pass = PkPass::read(&pass_zip(&m), 2024).unwrap();
    let PkPassSubtype::Flight(flight) = pass.subtype;
    assert_eq!(flight.parsed_boarding_datetime(), None);
}

#[test]
fn missing_message_encoding_fails_extraction() {
    let broken = manifest_with(
        r#""teamIdentifier":"TEAM1","#,
        "",
        r#"{"key":"Date","label":"Date","value":"15 Jun"}"#,
    );
    let err = PkPass::read(&pass_zip(&broken), 2024).unwrap_err();
    assert!(
        matches!(err, PassError::MissingKey { ref owner, ref key } if owner == "PkPassBarcode" && key == "messageEncoding")
    );
}

#[test]
fn empty_barcode_message_is_refused() {
    let broken = manifest().replace(r##""message":"M1DOE""##, r##""message":"""##);
    let err = PkPass::read(&pass_zip(&broken), 2024).unwrap_err();
    assert!(matches!(err, PassError::EmptyBarcodeMessage));
    let pass = PkPass::read(&pass_zip(&manifest()), 2024).unwrap();
    assert!(!pass.barcode.message.is_empty());
}

#[test]
fn missing_field_group_fails_extraction() {
    let broken = manifest().replace(r#""backFields""#, r#""rearFields""#);
    let err = PkPass::read(&pass_zip(&broken), 2024).unwrap_err();
    assert!(
        matches!(err, PassError::MissingKey { ref owner, ref key } if owner == "PkPassFlight" && key == "backFields")
    );
}

#[test]
fn bad_field_group_element_fails_extraction() {
    let broken = manifest().replace(
        r#"{"key":"ticket","label":"Ticket","value":"0123456789"}"#,
        r#"{"key":"ticket","label":"Ticket"}"#,
    );
    let err = PkPass::read(&pass_zip(&broken), 2024).unwrap_err();
    assert!(
        matches!(err, PassError::MissingKey { ref owner, ref key } if owner == "PkPassValue" && key == "value")
    );
    let broken2 = manifest().replace(
        r#"{"key":"ticket","label":"Ticket","value":"0123456789"}"#,
        "7",
    );
    let err2 = PkPass::read(&pass_zip(&broken2), 2024).unwrap_err();
    assert!(matches!(err2, PassError::NotAnObject { ref owner } if owner == "PkPassValue"));
}

#[test]
fn duplicate_key_first_occurrence_wins() {
    let m = manifest_with(
        r#""teamIdentifier":"TEAM1","#,
        r#""messageEncoding":"iso-8859-1","#,
        r#"{"key":"Date","label":"Date","value":"15 Jun"},{"key":"Date","label":"Date","value":"16 Jun"}"#,
    );
    let pass = PkPass::read(&pass_zip(&m), 2024).unwrap();
    let PkPassSubtype::Flight(flight) = pass.subtype;
    assert_eq!(flight.date().as_deref(), Some("15 Jun"));
}

#[test]
fn group_order_does_not_affect_lookups() {
    let reordered = r#"{"boardingPass":{"backFields":[{"key":"ticket","label":"Ticket","value":"0123456789"},{"key":"recloc","label":"Ref","value":"ABC123"},{"key":"fqtv","label":"FF","value":"FF999"},{"key":"seq","label":"Seq","value":"25"},{"key":"departureTime","label":"Departure","value":"15:05"}],"auxiliaryFields":[{"key":"Date","label":"Date","value":"15 Jun"},{"key":"boardingTime","label":"Boarding","value":"14:30"}],"secondaryFields":[{"key":"passenger","label":"Passenger","value":"DOE/JOHN"},{"key":"bookingClass","label":"Class","value":"Y"},{"key":"status","label":"Status","value":"OK"},{"key":"group","label":"Group","value":"3"}],"primaryFields":[{"key":"boardPoint","label":"From","value":"SFO"},{"key":"offPoint","label":"To","value":"JFK"}],"headerFields":[{"key":"seat","label":"Seat","value":"12A"},{"key":"flightNb","label":"Flight","value":"EX123"}],"transitType":"PKTransitTypeAir"},"serialNumber":"SN123","formatVersion":1,"passTypeIdentifier":"pass.example.flight","organizationName":"Example Air","teamIdentifier":"TEAM1","description":"Boarding pass","backgroundColor":"rgb(0,0,0)","foregroundColor":"rgb(255,255,255)","barcode":{"format":"PKBarcodeFormatAztec","message":"M1DOE","messageEncoding":"iso-8859-1"}}"#;
    let p1 = PkPass::read(&pass_zip(&manifest()), 2024).unwrap();
    let p2 = PkPass::read(&pass_zip(reordered), 2024).unwrap();
    let PkPassSubtype::Flight(f1) = p1.subtype;
    let PkPassSubtype::Flight(f2) = p2.subtype;
    assert_eq!(f1.seat(), f2.seat());
    assert_eq!(f1.board_point(), f2.board_point());
    assert_eq!(f1.passenger(), f2.passenger());
    assert_eq!(f1.date(), f2.date());
    assert_eq!(f1.ticket(), f2.ticket());
    assert_eq!(f1.parsed_boarding_datetime(), f2.parsed_boarding_datetime());
}

#[test]
fn missing_manifest_entry() {
    let bytes = build_zip(&[("logo.png", b"\x89PNG")]);
    let err = PkPass::read(&bytes, 2024).unwrap_err();
    assert!(matches!(err, PassError::MissingManifest));
}

#[test]
fn invalid_manifest_json() {
    let bytes = build_zip(&[("pass.json", b"{not json")]);
    let err = PkPass::read(&bytes, 2024).unwrap_err();
    assert!(matches!(err, PassError::InvalidJson));
}

#[test]
fn manifest_must_be_an_object() {
    let bytes = build_zip(&[("pass.json", b"[1,2,3]")]);
    let err = PkPass::read(&bytes, 2024).unwrap_err();
    assert!(matches!(err, PassError::NotAnObject { ref owner } if owner == "PkPass"));
}

#[test]
fn unreadable_container() {
    let bytes: Vec<u8> = b"this is not an archive".to_vec();
    let err = PkPass::read(&bytes, 2024).unwrap_err();
    assert!(matches!(err, PassError::ContainerUnreadable));
}

use ais_feed::codec::CodecError;
use ais_feed::decoder::{status_of, AisDecoder};
use ais_feed::msg21::{aton_status_of, parse_aton_status, GeneralHealth, LightStatus, RaconStatus};
use ais_feed::sentence::StatusError;

const ATON_LINE: &str = "!AIVDM,1,1,,B,E>kb9O9aS@7PUh10dh19@;0Tah2cWrfP:l?M`00003vP100,0*01";

fn line_with_payload(payload: &str) -> String {
    format!("!AIVDM,1,1,,A,{},0*00", payload)
}

fn page_seven_payload() -> String {
    format!("{}3a", "0".repeat(24))
}

#[test]
fn page_seven_byte_233_is_fully_interpreted() {
    let (racon, light, health) = parse_aton_status(0b1110_1001);
    assert_eq!(racon, Some(RaconStatus::NotMonitored));
    assert_eq!(light, Some(LightStatus::NoLightOrNotMonitored));
    assert_eq!(health, GeneralHealth::Alarm);
    assert_eq!(aton_status_of(233).page_id, 7);
}

#[test]
fn page_zero_byte_18_is_unknown() {
    assert_eq!(parse_aton_status(0b0001_0010), (None, None, GeneralHealth::Unknown));
    assert_eq!(aton_status_of(18).page_id, 0);
}

#[test]
fn every_page_seven_byte_is_defined_and_others_are_not() {
    for b in 0u16..256 {
        let b = b as u8;
        let (racon, light, health) = parse_aton_status(b);
        if b >> 5 == 7 {
            assert!(racon.is_some() && racon != Some(RaconStatus::Unknown));
            assert!(light.is_some() && light != Some(LightStatus::Unknown));
            assert_ne!(health, GeneralHealth::Unknown);
        } else {
            assert_eq!((racon, light, health), (None, None, GeneralHealth::Unknown));
        }
    }
}

#[test]
fn page_seven_sub_fields() {
    assert_eq!(
        parse_aton_status(0b1111_1110),
        (Some(RaconStatus::Test), Some(LightStatus::FailOrReducedRange), GeneralHealth::Good)
    );
    assert_eq!(
        parse_aton_status(0b1111_0010),
        (Some(RaconStatus::Operational), Some(LightStatus::On), GeneralHealth::Good)
    );
    assert_eq!(
        parse_aton_status(0b1110_0100),
        (Some(RaconStatus::NotFitted), Some(LightStatus::Off), GeneralHealth::Good)
    );
}

#[test]
fn codec_maps_alphabet_edges() {
    let d = AisDecoder::new();
    assert_eq!(d.payload_to_binary("0").unwrap(), vec![false; 6]);
    assert_eq!(d.payload_to_binary("W").unwrap(), vec![true, false, false, true, true, true]);
    assert_eq!(d.payload_to_binary("`").unwrap(), vec![true, false, true, false, false, false]);
    assert_eq!(d.payload_to_binary("w").unwrap(), vec![true; 6]);
    assert_eq!(d.payload_to_binary("").unwrap(), Vec::<bool>::new());
}

#[test]
fn codec_output_is_six_bits_per_character_and_round_trips() {
    let d = AisDecoder::new();
    let payload = "E>kb9O9aS@7PUh10dh19@;0Tah2cWrfP:l?M`00003vP100";
    let bits = d.payload_to_binary(payload).unwrap();
    assert_eq!(bits.len(), 6 * payload.len());
    let mut text = String::new();
    for group in bits.chunks(6) {
        let v = group.iter().fold(0u32, |acc, b| 2 * acc + *b as u32);
        let code = if v < 40 { v + 48 } else { v + 56 };
        text.push(char::from_u32(code).unwrap());
    }
    assert_eq!(text, payload);
}

#[test]
fn codec_rejects_characters_outside_the_alphabet() {
    let d = AisDecoder::new();
    assert_eq!(d.payload_to_binary("X"), Err(CodecError::InvalidCharacter));
    assert_eq!(d.payload_to_binary("_"), Err(CodecError::InvalidCharacter));
    assert_eq!(d.payload_to_binary("x"), Err(CodecError::InvalidCharacter));
    assert_eq!(d.payload_to_binary("00é"), Err(CodecError::InvalidCharacter));
}

#[test]
fn extraction_needs_six_fields() {
    let d = AisDecoder::new();
    assert_eq!(d.extract_aton_status(""), Err(StatusError::MalformedSentence));
    assert_eq!(d.extract_aton_status("!AIVDM,1,1,,A"), Err(StatusError::MalformedSentence));
    assert_eq!(
        d.extract_aton_status("!AIVDM,1,1,A,E>kb9O9aS@7PUh10dh19@;0Tah2cWrfP:l?M`00003vP100"),
        Err(StatusError::MalformedSentence)
    );
}

#[test]
fn extraction_rejects_empty_payload() {
    let d = AisDecoder::new();
    assert_eq!(d.extract_aton_status("!AIVDM,1,1,,A,,0*00"), Err(StatusError::EmptyPayload));
}

#[test]
fn extraction_reports_codec_failure() {
    let d = AisDecoder::new();
    assert_eq!(
        d.extract_aton_status(&line_with_payload("0000000000000000000000000~")),
        Err(StatusError::CodecFailure(CodecError::InvalidCharacter))
    );
}

#[test]
fn extraction_rejects_payload_under_156_bits() {
    let d = AisDecoder::new();
    let short = "0".repeat(25);
    assert_eq!(d.extract_aton_status(&line_with_payload(&short)), Err(StatusError::PayloadTooShort));
    assert_eq!(d.extract_aton_status(&line_with_payload("1")), Err(StatusError::PayloadTooShort));
}

#[test]
fn extraction_reads_the_last_eight_bits() {
    let d = AisDecoder::new();
    assert_eq!(d.extract_aton_status(&line_with_payload(&page_seven_payload())), Ok((233, 7)));
    assert_eq!(d.extract_aton_status(ATON_LINE), Ok((0, 0)));
    let longer = format!("{}Pw", "0".repeat(30));
    assert_eq!(d.extract_aton_status(&line_with_payload(&longer)), Ok((0b0011_1111, 1)));
}

#[test]
fn status_of_line_interprets_page_seven() {
    let s = status_of(&line_with_payload(&page_seven_payload())).unwrap();
    assert_eq!(s.page_id, 7);
    assert_eq!(s.racon_status, Some(RaconStatus::NotMonitored));
    assert_eq!(s.light_status, Some(LightStatus::NoLightOrNotMonitored));
    assert_eq!(s.health, GeneralHealth::Alarm);
}

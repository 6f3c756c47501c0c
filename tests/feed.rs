use ais::messages::AisMessage;
use ais_feed::config::AisConfig;
use ais_feed::decoder::{outcome_of, AisDecoder};
use ais_feed::parser::ParsedLine;
use ais_feed::sentence::StatusError;
use ais_feed::feed::{DisconnectReason, FeedAction, FeedConnection, ReadEvent};
use ais_feed::msg21::GeneralHealth;
use ais_feed::supervisor::{ConnectEvent, EndpointSupervisor, SupervisorAction};

const ATON_LINE: &str = "!AIVDM,1,1,,B,E>kb9O9aS@7PUh10dh19@;0Tah2cWrfP:l?M`00003vP100,0*01";
const BASE_STATION_LINE: &str = "!AIVDM,1,1,,A,403OtVAv6s5l1o?I``E`4I?02<34,0*21";
const FIRST_FRAGMENT: &str =
    "!AIVDM,2,1,1,B,53`soB8000010KSOW<0P4eDp4l6000000000000U0p<24t@P05H3S833CDP00000,0*78";
const SECOND_FRAGMENT: &str = "!AIVDM,2,2,1,B,0000000,2*26";

#[test]
fn aton_report_carries_status_from_its_line() {
    let mut d = AisDecoder::new();
    let outcome = d.process(ATON_LINE).unwrap().unwrap();
    assert!(matches!(outcome.message, AisMessage::AidToNavigationReport(_)));
    let status = outcome.aton_status.unwrap().unwrap();
    assert_eq!(status.page_id, 0);
    assert_eq!((status.racon_status, status.light_status), (None, None));
    assert_eq!(status.health, GeneralHealth::Unknown);
}

#[test]
fn other_kinds_carry_no_status() {
    let mut d = AisDecoder::new();
    let outcome = d.process(BASE_STATION_LINE).unwrap().unwrap();
    assert!(matches!(outcome.message, AisMessage::BaseStationReport(_)));
    assert!(outcome.aton_status.is_none());
}

#[test]
fn bad_checksum_is_a_parse_error() {
    let mut d = AisDecoder::new();
    assert!(d.process("!AIVDM,1,1,,A,403OtVAv6s5l1o?I``E`4I?02<34,0*22").is_err());
    assert!(d.process("not a sentence").is_err());
}

#[test]
fn fragments_complete_on_the_last_line() {
    let mut d = AisDecoder::new();
    assert!(d.process(FIRST_FRAGMENT).unwrap().is_none());
    let outcome = d.process(SECOND_FRAGMENT).unwrap().unwrap();
    assert!(matches!(outcome.message, AisMessage::StaticAndVoyageRelatedData(_)));
    assert!(outcome.aton_status.is_none());
}

#[test]
fn transport_events_end_the_connection() {
    let mut c = FeedConnection::new();
    assert!(matches!(
        c.on_read(ReadEvent::EndOfStream),
        FeedAction::Disconnect(DisconnectReason::EndOfStream)
    ));
    assert!(matches!(
        c.on_read(ReadEvent::ReadError),
        FeedAction::Disconnect(DisconnectReason::ReadError)
    ));
    assert!(matches!(
        c.on_read(ReadEvent::TimedOut),
        FeedAction::Disconnect(DisconnectReason::TimedOut)
    ));
}

#[test]
fn lines_are_forwarded_or_dropped_but_never_disconnect() {
    let mut c = FeedConnection::new();
    assert!(matches!(c.on_read(ReadEvent::Line("garbage".to_string())), FeedAction::Dropped(_)));
    assert!(matches!(c.on_read(ReadEvent::Line(FIRST_FRAGMENT.to_string())), FeedAction::ReadOn));
    assert!(matches!(c.on_read(ReadEvent::Line(SECOND_FRAGMENT.to_string())), FeedAction::Forward(_)));
}

#[test]
fn outcomes_follow_read_order() {
    let mut c = FeedConnection::new();
    let mut kinds = Vec::new();
    for line in [ATON_LINE, BASE_STATION_LINE, ATON_LINE] {
        if let FeedAction::Forward(o) = c.on_read(ReadEvent::Line(line.to_string())) {
            kinds.push(matches!(o.message, AisMessage::AidToNavigationReport(_)));
        }
    }
    assert_eq!(kinds, vec![true, false, true]);
}

#[test]
fn endpoint_given_up_after_budget_while_another_keeps_running() {
    let mut failing = EndpointSupervisor::new(2);
    let mut healthy = EndpointSupervisor::new(2);
    assert_eq!(failing.on_event(ConnectEvent::ConnectFailed), SupervisorAction::RetryAfterDelay);
    assert_eq!(healthy.on_event(ConnectEvent::Connected), SupervisorAction::RunConnection);
    assert_eq!(failing.on_event(ConnectEvent::ConnectFailed), SupervisorAction::RetryAfterDelay);
    assert_eq!(failing.on_event(ConnectEvent::ConnectFailed), SupervisorAction::GiveUp);
    assert!(failing.stopped);
    assert_eq!(failing.on_event(ConnectEvent::Connected), SupervisorAction::GiveUp);
    assert_eq!(healthy.on_event(ConnectEvent::ConnectionLost), SupervisorAction::RetryAfterDelay);
    assert_eq!(healthy.on_event(ConnectEvent::Connected), SupervisorAction::RunConnection);
    assert!(!healthy.stopped);
}

#[test]
fn success_resets_the_failure_streak() {
    let mut s = EndpointSupervisor::new(1);
    assert_eq!(s.on_event(ConnectEvent::ConnectFailed), SupervisorAction::RetryAfterDelay);
    assert_eq!(s.failures, 1);
    assert_eq!(s.on_event(ConnectEvent::Connected), SupervisorAction::RunConnection);
    assert_eq!(s.failures, 0);
    assert_eq!(s.on_event(ConnectEvent::ConnectionLost), SupervisorAction::RetryAfterDelay);
    assert_eq!(s.on_event(ConnectEvent::ConnectFailed), SupervisorAction::GiveUp);
}

#[test]
fn zero_budget_gives_up_at_first_failure() {
    let mut s = EndpointSupervisor::new(0);
    assert_eq!(s.on_event(ConnectEvent::ConnectFailed), SupervisorAction::GiveUp);
}

#[test]
fn default_config() {
    let c = AisConfig::default();
    assert_eq!(c.endpoints.len(), 4);
    assert_eq!(c.endpoints[0], "192.168.55.161:4712");
    assert_eq!(c.max_reconnect_attempts, 5);
    assert_eq!(c.reconnect_delay, std::time::Duration::from_secs(5));
    assert_eq!(c.read_timeout, std::time::Duration::from_secs(30));
    assert_eq!(c.channel_capacity, 100);
    let copy = c.clone();
    assert_eq!(copy.endpoints, c.endpoints);
}

fn parsed_message(line: &str) -> AisMessage {
    let mut parser = ais::AisParser::new();
    match parser.parse(line.as_bytes(), true).unwrap() {
        ais::AisFragments::Complete(sentence) => sentence.message.unwrap(),
        ais::AisFragments::Incomplete(_) => panic!("expected a complete sentence"),
    }
}

#[test]
fn outcome_of_attaches_status_only_to_aton_reports() {
    let page_seven = format!("!AIVDM,1,1,,A,{}3a,0*00", "0".repeat(24));
    let message = parsed_message(ATON_LINE);
    let with_status =
        outcome_of(ParsedLine::Complete { message, is_aton: true }, &page_seven).unwrap().unwrap();
    let status = with_status.aton_status.unwrap().unwrap();
    assert_eq!(status.page_id, 7);
    assert_eq!(status.health, GeneralHealth::Alarm);

    let message = parsed_message(BASE_STATION_LINE);
    let without =
        outcome_of(ParsedLine::Complete { message, is_aton: false }, &page_seven).unwrap().unwrap();
    assert!(without.aton_status.is_none());
    assert!(outcome_of(ParsedLine::NoMessage, &page_seven).unwrap().is_none());
}

#[test]
fn outcome_of_keeps_extraction_failure_as_reason() {
    let message = parsed_message(ATON_LINE);
    let o = outcome_of(ParsedLine::Complete { message, is_aton: true }, "!AIVDM,1,1,,A,,0*00")
        .unwrap()
        .unwrap();
    assert_eq!(o.aton_status.unwrap(), Err(StatusError::EmptyPayload));
}

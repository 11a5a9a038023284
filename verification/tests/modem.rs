use bahilizator::error::{DnsError, GsmError};
use bahilizator::gsm::at_channel::{
    extract_between_quotes, find_bytes, parse_error_code, parse_number_after_colon, AtInitStage,
    AtResponse, CmuxAtChannel, GsmAtClient, Urc,
};
use bahilizator::gsm::cmux::{
    compute_fcs, encode_cmux_frame, encode_dm, encode_msc_set, encode_sabm, encode_ua,
    parse_cmux_frame, CmuxDecoder, CmuxFrame, CmuxInitState, Dlci, SABM, UA, UIH,
};
use bahilizator::gsm::dns::{DnsAnswer, DnsCacheEntry, DnsResolver};
use bahilizator::gsm::mqtt::{keep_waiting_for_ack, BumpBuffer, MqttConfig};
use bahilizator::gsm::mqtt_topics::{
    accounting_topic, build_topic, errors_topic, event_topic, settings_topic, state_topic, TopicKind,
};
use bahilizator::gsm::ppp_channel::{wrap_ppp_for_cmux, PppChannel, PppState};
use bahilizator::gsm::sms::{
    cmd_cclk, cmd_cmgd, cmd_cmgf, cmd_cmgr, cmd_cmgs, cmd_cmux, cmd_cnmi, cmd_csmp, cmd_dial_ppp,
    cmd_echo_off, cmd_power_down, send_sms_text,
};
use bahilizator::gsm::{
    extract_phone_number, format_sms_cmd, gprs_check_outcome, gsm_check_status, init_sequence_outcome,
    init_sequence_step, power_on_step, sms_for_request, AtResponse as TaskResponse, GsmInitStage,
    GsmStatus, GsmStatusEvent, PowerOnStep,
};
use bahilizator::state::{MessageKind, VendingState};

#[test]
fn frames_on_the_wire() {
    assert_eq!(compute_fcs(&[0x03, 0x3F, 0x01]), 0x1C);
    assert_eq!(compute_fcs(&[0x03, 0x2F]), 0xE0);
    assert_eq!(encode_sabm(0), [0xF9, 0x03, SABM, 0x01, 0xE0, 0xF9]);
    assert_eq!(encode_ua(0), [0xF9, 0x03, UA, 0x01, 0x99, 0xF9]);
    assert_eq!(encode_cmux_frame(1, UIH, b"AT"), [0xF9, 0x07, 0xEF, 0x05, b'A', b'T', 0x05, 0xF9]);
    assert_eq!(encode_dm(2).len(), 6);
    assert_eq!(encode_msc_set(1, true), [0xFD, 0x07, 0x01, 0x0F]);
    assert_eq!(encode_msc_set(1, false), [0xFD, 0x07, 0x01, 0x0D]);
    let long = vec![0x55u8; 200];
    let f = encode_cmux_frame(2, UIH, &long);
    assert_eq!(f[3], (200 % 128 * 2) as u8);
    assert_eq!(f[4], 1);
    assert_eq!(f.len(), 1 + 2 + 2 + 200 + 1 + 1);
    assert_eq!(wrap_ppp_for_cmux(&[1, 2]), encode_cmux_frame(2, UIH, &[1, 2]));
}

#[test]
fn frames_parse_back() {
    let f = encode_cmux_frame(1, UIH, b"OK\r\n");
    let body = &f[1..f.len() - 1];
    let p = parse_cmux_frame(body).unwrap();
    assert_eq!((p.dlci, p.control, p.data.as_slice()), (1, UIH, &b"OK\r\n"[..]));
    assert!(parse_cmux_frame(&[0x07, 0xEF]).is_none());
    assert!(parse_cmux_frame(&[0x07, 0xEF, 0x09, b'a']).is_none());
    assert_eq!(Dlci::from_u8(2), Some(Dlci::PppData));
    assert_eq!(Dlci::from_u8(3), None);
}

#[test]
fn decoder_splits_a_byte_stream() {
    let mut d = CmuxDecoder::new();
    let mut stream = encode_cmux_frame(1, UIH, b"hello").to_vec();
    stream.extend_from_slice(&encode_ua(2));
    let frames = d.feed_slice(&stream);
    assert_eq!(frames.len(), 2);
    assert_eq!(frames[0].data, *b"hello");
    assert_eq!((frames[1].dlci, frames[1].control), (2, UA));
}

#[test]
fn multiplexer_start_up() {
    let mut st = CmuxInitState::new();
    assert_eq!(st.next_sabm(), Some(encode_sabm(0)));
    for dlci in 0..3u8 {
        let done = st.process_frame(&CmuxFrame { dlci, control: UA, data: heapless::Vec::new() });
        assert_eq!(done, dlci == 2);
    }
    assert_eq!(st.next_sabm(), None);
    assert_eq!(st.stage, 3);
    let mut again = CmuxInitState::new();
    let ua0 = CmuxFrame { dlci: 0, control: UA, data: heapless::Vec::new() };
    again.process_frame(&ua0);
    again.process_frame(&ua0);
    assert_eq!(again.next_sabm(), Some(encode_sabm(1)));
}

#[test]
fn at_replies() {
    let mut ch = CmuxAtChannel::new(1);
    ch.feed_rx_data(b"\r\nAT+CSQ\r\n");
    assert_eq!(ch.parse_response(), None);
    ch.feed_rx_data(b"OK\r\n");
    assert_eq!(ch.parse_response(), Some(AtResponse::Okay));
    assert_eq!(ch.parse_response(), None);
    ch.feed_rx_data(b"\r\n+CME ERROR: 10\r\n");
    assert_eq!(ch.parse_response(), Some(AtResponse::CmeError(10)));
    ch.feed_rx_data(b"+CMS ERROR:  500 \r\n");
    assert_eq!(ch.parse_response(), Some(AtResponse::CmsError(500)));
    ch.feed_rx_data(b"ERROR\r\n");
    assert_eq!(ch.parse_response(), Some(AtResponse::Error));
    ch.feed_rx_data(b"> ");
    assert_eq!(ch.parse_response(), Some(AtResponse::Prompt));
    ch.feed_rx_data(&[0xFF, b'O', b'K']);
    assert_eq!(ch.parse_response(), None);
    ch.clear();
    assert_eq!(ch.encode_at_cmd("AT"), encode_cmux_frame(1, UIH, b"AT"));
}

#[test]
fn receive_buffer_keeps_512_bytes() {
    let mut ch = CmuxAtChannel::new(1);
    ch.feed_rx_data(&[b'x'; 600]);
    ch.feed_rx_data(b"OK");
    assert_eq!(ch.parse_response(), None);
    ch.clear();
    ch.feed_rx_data(&[b'x'; 510]);
    ch.feed_rx_data(b"OK");
    assert_eq!(ch.parse_response(), Some(AtResponse::Okay));
}

#[test]
fn error_codes() {
    assert_eq!(parse_error_code(" 42 trailing"), 42);
    assert_eq!(parse_error_code("\u{a0}\t7"), 7);
    assert_eq!(parse_error_code("65535"), 65535);
    assert_eq!(parse_error_code("65536"), 0);
    assert_eq!(parse_error_code("abc"), 0);
    assert_eq!(parse_error_code(""), 0);
    assert_eq!(parse_number_after_colon(b"+CMGS: 17"), 17);
    assert_eq!(parse_number_after_colon(b"no colon"), 0);
    assert_eq!(find_bytes(b"abcabc", b"ca"), Some(2));
    assert_eq!(find_bytes(b"abc", b"x"), None);
}

#[test]
fn quoted_text() {
    assert_eq!(extract_between_quotes(b"+CMT: \"+37120000000\",\"\"", 0).map(|t| t.as_str().to_string()), Some("+37120000000".to_string()));
    assert_eq!(extract_between_quotes(b"\"only one", 0), None);
    assert_eq!(extract_between_quotes(b"\"012345678901234567890\"", 0).map(|t| t.as_str().to_string()), Some(String::new()));
}

#[test]
fn unsolicited_codes() {
    let mut ch = CmuxAtChannel::new(1);
    ch.feed_rx_data(b"+CMT: \"+37120000000\",\"24/01/01\"\nHello\r\r");
    match ch.parse_urc() {
        Some(Urc::IncomingSms { sender, text }) => {
            assert_eq!(sender, "+37120000000");
            assert_eq!(text, "Hello");
        }
        other => panic!("unexpected {:?}", other),
    }
    ch.feed_rx_data(b"  +CGEV: ME PDN ACT 1\r\n");
    match ch.parse_urc() {
        Some(Urc::GprsEvent(s)) => assert_eq!(s, "+CGEV: ME PDN ACT 1"),
        other => panic!("unexpected {:?}", other),
    }
    ch.feed_rx_data(b"Call Ready\r\n");
    assert!(matches!(ch.parse_urc(), Some(Urc::CallReady)));
    ch.feed_rx_data(b"UNDER-VOLTAGE POWER DOWN\r\n");
    assert!(matches!(ch.parse_urc(), Some(Urc::PowerDown)));
    ch.feed_rx_data(b"+CMGS: 23\r\n");
    assert!(matches!(ch.parse_urc(), Some(Urc::SmsSent(23))));
    ch.feed_rx_data(b"OVER-VOLTAGE WARNING\r\n");
    assert!(matches!(ch.parse_urc(), Some(Urc::VoltageWarning)));
    ch.feed_rx_data(b"RING\r\n");
    assert!(ch.parse_urc().is_none());
    assert_eq!(ch.parse_response(), None);
}

#[test]
fn failed_setup_command_is_repeated() {
    let mut c = GsmAtClient::new(CmuxAtChannel::new(1));
    assert_eq!(c.next_init_cmd(), Some("ATE0\r"));
    c.process_init_response(AtResponse::Error);
    assert_eq!(c.init_stage, AtInitStage::Idle);
    assert_eq!(c.next_init_cmd(), Some("ATE0\r"));
    c.process_init_response(AtResponse::Okay);
    assert_eq!(c.next_init_cmd(), Some("AT+CMGF=1\r"));
    c.process_init_response(AtResponse::CmeError(10));
    assert_eq!(c.next_init_cmd(), Some("AT+CMGF=1\r"));
}

#[test]
fn at_client_sequences() {
    let mut c = GsmAtClient::new(CmuxAtChannel::new(1));
    let mut cmds = Vec::new();
    while let Some(cmd) = c.next_init_cmd() {
        cmds.push(cmd);
    }
    assert_eq!(cmds, vec!["ATE0\r", "AT+CMGF=1\r", "AT+CNMI=2,2,0,0,0\r", "AT+CSMP=17,167,0,0\r", "AT+CCLK?\r"]);
    assert_eq!(c.init_stage, AtInitStage::Ready);
    c.process_init_response(AtResponse::Error);
    assert_eq!(c.init_stage, AtInitStage::Ready);
    assert_eq!(c.start_gprs_connect(), Some("AT+CGATT=1\r"));
    assert_eq!(c.next_gprs_cmd(), Some("AT+CSTT=\"internet\"\r"));
    assert_eq!(c.next_gprs_cmd(), Some("AT+CIICR\r"));
    assert_eq!(c.next_gprs_cmd(), Some("AT+CIFSR\r"));
    assert_eq!(c.next_gprs_cmd(), None);
    assert!(c.gprs_attached);
    assert_eq!(c.start_gprs_connect(), Some("AT+CGATT=1\r"));
    let frames = c.encode_sms_send("+371", "Hi");
    assert_eq!(frames.len(), 2);
    assert_eq!(frames[0], encode_cmux_frame(1, UIH, b"AT+CMGS=\"+371\"\r"));
    assert_eq!(frames[1], encode_cmux_frame(1, UIH, b"Hi\x1a"));
    let long_number = "1234567890123456789012345678901";
    let frames = c.encode_sms_send(long_number, "");
    assert_eq!(frames[0], encode_cmux_frame(1, UIH, format!("AT+CMGS=\"{}", long_number).as_bytes()));
}

#[test]
fn sms_commands() {
    assert_eq!(cmd_cmgf(1), "AT+CMGF=1\r");
    assert_eq!(cmd_cnmi(2, 2, 0, 0, 0), "AT+CNMI=2,2,0,0,0\r");
    assert_eq!(cmd_csmp(17, 167, 0, 0), "AT+CSMP=17,167,0,0\r");
    assert_eq!(cmd_cmgr(255), "AT+CMGR=255\r");
    assert_eq!(cmd_cmgd(3), "AT+CMGD=3\r");
    assert_eq!(cmd_cmgs("+37120000000"), "AT+CMGS=\"+37120000000\"\r");
    assert_eq!(cmd_cmgs("12345678901234567890123"), "AT+CMGS=\"12345678901234567890123");
    assert_eq!(cmd_cmgs("123456789012345678901234"), "AT+CMGS=\"");
    assert_eq!(format_sms_cmd("123456789012345678901"), "AT+CMGS=\"123456789012345678901\"\r");
    assert_eq!(cmd_echo_off(), "ATE0\r");
    assert_eq!(cmd_cclk(), "AT+CCLK?\r");
    assert_eq!(cmd_cmux(), "AT+CMUX=0,1,5,128,10,3,30,10,2\r");
    assert_eq!(cmd_power_down(), "AT+CPOWD=1\r");
    assert_eq!(cmd_dial_ppp(), "ATD*99***1#\r");
}

#[test]
fn sms_frames() {
    let ch = CmuxAtChannel::new(1);
    let (first, second) = send_sms_text(&ch, "+371", "Hi");
    assert_eq!(first, encode_cmux_frame(1, UIH, b"AT+CMGS=\"+371\"\r"));
    assert_eq!(second.unwrap(), encode_cmux_frame(1, UIH, b"Hi\x1a"));
    let text = "x".repeat(200);
    let (_, second) = send_sms_text(&ch, "+371", &text);
    assert_eq!(second.unwrap_err(), GsmError::UartError);
}

#[test]
fn topics() {
    assert_eq!(build_topic(7, TopicKind::State), "bahilizator/7/state");
    assert_eq!(settings_topic(-1), "bahilizator/-1/settings");
    assert_eq!(errors_topic(1), "bahilizator/1/errors");
    assert_eq!(event_topic(1), "bahilizator/1/event");
    assert_eq!(state_topic(1), "bahilizator/1/state");
    assert_eq!(accounting_topic(1), "bahilizator/1/accounting");
    assert_eq!(TopicKind::Errors.as_str(), "errors");
}

#[test]
fn ppp_link_state() {
    let mut p = PppChannel::new();
    assert_eq!(p.state(), PppState::Dead);
    p.set_establishing();
    assert!(!p.is_up());
    p.set_up();
    assert!(p.is_up());
    p.set_down();
    assert_eq!(p.state(), PppState::Dead);
}

#[test]
fn mqtt_settings_and_buffer() {
    let c = MqttConfig::new("broker.example.com", [10, 0, 0, 1], 5);
    assert_eq!(c.broker_host, "broker.example.com");
    assert_eq!(c.client_id(), "bahilizator_5");
    let long = "b".repeat(49);
    assert_eq!(MqttConfig::new(&long, [0; 4], 1).broker_host, "");
    let mut b = BumpBuffer::new();
    assert_eq!(b.provide_buffer(500), Some(0));
    assert_eq!(b.provide_buffer(12), Some(500));
    assert_eq!(b.provide_buffer(1), None);
    b.reset();
    assert_eq!(b.provide_buffer(512), Some(0));
    assert!(keep_waiting_for_ack(10, 20, false, false));
    assert!(!keep_waiting_for_ack(20, 20, false, false));
    assert!(!keep_waiting_for_ack(10, 20, true, false));
}

#[test]
fn name_cache() {
    let mut r = DnsResolver::new();
    assert_eq!(r.resolve_cached("broker", 0), None);
    assert_eq!(r.resolve_answer("broker", 1000, DnsAnswer::Ipv4([1, 2, 3, 4])), Ok([1, 2, 3, 4]));
    assert_eq!(r.lookup_cache_at("broker", 2000), Some([1, 2, 3, 4]));
    assert_eq!(r.lookup_cache_at("other", 2000), None);
    assert_eq!(r.lookup_cache_at("broker", 301_000), None);
    assert_eq!(r.resolve_answer("x", 5, DnsAnswer::NotIpv4), Err(DnsError::HostNotFound));
    assert_eq!(r.resolve_answer("x", 5, DnsAnswer::Failed), Err(DnsError::QueryFailed));
    r.update_cache_at("broker", [5, 6, 7, 8], 3000);
    assert_eq!(r.lookup_cache_at("broker", 3000), Some([5, 6, 7, 8]));
    r.update_cache_at("a", [1, 1, 1, 1], 3000);
    r.update_cache_at("b", [2, 2, 2, 2], 500);
    r.update_cache_at("c", [3, 3, 3, 3], 3000);
    r.update_cache_at("d", [4, 4, 4, 4], 3500);
    assert_eq!(r.lookup_cache_at("b", 3500), None);
    assert_eq!(r.lookup_cache_at("d", 3500), Some([4, 4, 4, 4]));
    r.clear_cache();
    assert_eq!(r.lookup_cache_at("d", 3500), None);
    assert_eq!(DnsResolver::resolve_or_fallback(Err(DnsError::QueryFailed), [9, 9, 9, 9]), [9, 9, 9, 9]);
    let mut e = DnsCacheEntry::empty();
    assert!(e.is_empty());
    assert!(e.is_expired_at(0));
    e.set_hostname(&"h".repeat(60));
    assert_eq!(e.hostname_len, 48);
    e.timestamp = 10;
    assert!(!e.is_expired_at(1000));
    assert!(e.is_expired_at(300_010));
}

#[test]
fn name_cache_on_the_clock() {
    let mut r = DnsResolver::new();
    assert_eq!(r.lookup_cache("broker"), None);
    r.update_cache("broker", [10, 0, 0, 1]);
    assert_eq!(r.lookup_cache("broker"), Some([10, 0, 0, 1]));
    assert_eq!(r.lookup_cache("other"), None);
    let e = DnsCacheEntry::default();
    assert!(e.is_empty());
    assert!(e.is_expired());
}

#[test]
fn modem_task_decisions() {
    assert!(gsm_check_status());
    assert_eq!(power_on_step(0, true), PowerOnStep::Done);
    assert_eq!(power_on_step(0, false), PowerOnStep::WaitSecs(4));
    assert_eq!(power_on_step(1, false), PowerOnStep::WaitSecs(2));
    assert_eq!(power_on_step(2, false), PowerOnStep::Failed);
    assert_eq!(init_sequence_step(0), Some((GsmInitStage::EchoOff, "ATE0\r")));
    assert_eq!(init_sequence_step(4), Some((GsmInitStage::Cclk, "AT+CCLK?\r")));
    assert_eq!(init_sequence_step(5), None);
    assert_eq!(init_sequence_outcome(Ok(TaskResponse::Okay)), Ok(()));
    assert_eq!(init_sequence_outcome(Ok(TaskResponse::Error)), Err(GsmError::NoResponse));
    assert_eq!(init_sequence_outcome(Err(GsmError::Timeout)), Err(GsmError::Timeout));
    let mut st = GsmStatus::default();
    assert!(!st.ready);
    assert!(gprs_check_outcome(&mut st, true, true));
    assert!(st.gprs_attached);
    assert!(!gprs_check_outcome(&mut st, true, false));
    assert!(!st.gprs_attached);
}

#[test]
fn phone_numbers_of_the_settings() {
    let mut s = VendingState::default();
    let mut raw = [0u8; 16];
    raw[..13].copy_from_slice(b"+371-2000 000");
    s.settings.phone_numbers[1][1] = raw;
    assert_eq!(extract_phone_number(&s, 3), "+3712000000");
    assert_eq!(extract_phone_number(&s, 0), "");
    assert_eq!(extract_phone_number(&s, 4), "");
    assert_eq!(sms_for_request(&s, 0, MessageKind::PowerUp), None);
    let (phone, text) = sms_for_request(&s, 3, MessageKind::PowerUp).unwrap();
    assert_eq!(phone, "+3712000000");
    assert_eq!(text, "BAH #0 UP");
}

#[test]
fn stored_host_names() {
    let mut e = DnsCacheEntry::default();
    e.set_hostname("broker");
    assert_eq!(e.hostname_str(), "broker");
    e.set_hostname(&"ж".repeat(30));
    assert_eq!(e.hostname_len, 48);
    assert_eq!(e.hostname_str(), "ж".repeat(24));
    e.set_hostname(&format!("a{}", "ж".repeat(30)));
    assert_eq!(e.hostname_str(), "");
}

#[test]
fn modem_status_follows_its_events() {
    let mut st = GsmStatus::default();
    st.apply(GsmStatusEvent::PoweringUp);
    assert_eq!(st.init_stage, GsmInitStage::WaitForReady);
    assert!(!st.ready);
    assert_eq!(st.gprs_check_due(100), (false, false));
    st.apply(GsmStatusEvent::StartedUp);
    assert!(st.ready && st.call_ready);
    assert_eq!(st.init_stage, GsmInitStage::Ready);
    assert_eq!(st.gprs_check_due(59), (false, false));
    assert_eq!(st.gprs_check_due(60), (true, true));
    st.gprs_attached = true;
    assert_eq!(st.gprs_check_due(60), (false, true));
    st.apply(GsmStatusEvent::SmsStarted);
    assert!(st.sending_sms && !st.sms_sent);
    st.apply(GsmStatusEvent::SmsFinished);
    assert!(!st.sending_sms && st.sms_sent);
    st.apply(GsmStatusEvent::PoweredDown);
    assert!(!st.ready && !st.call_ready && !st.gprs_attached);
    assert_eq!(st.init_stage, GsmInitStage::PowerOff);
    st.apply(GsmStatusEvent::PoweredOn);
    assert!(st.ready);
}

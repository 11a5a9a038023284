//! Modem side: multiplexer, AT commands, SMS, MQTT topics, name cache.

pub mod at_channel;
pub mod cmux;
pub mod dns;
pub mod mqtt;
pub mod mqtt_topics;
pub mod ppp_channel;
pub mod sms;

use vstd::prelude::*;
use vstd::utf8::is_ascii_chars;

use crate::error::GsmError;
use crate::fixed::{text160, text17, text17_of, text17_str, text32};
use crate::gsm::sms::{cmd_cmgs, cmgs_text};
use crate::state::{MessageKind, VendingState, PHONES_PER_LEVEL, PHONE_ACCESS_LEVELS};
use crate::text::{lemma_ascii_bytes, lemma_ascii_concat, push_char};

verus! {

/// Command to the modem task.
#[derive(Debug, Clone, Copy, PartialEq, Eq, Structural)]
pub enum GsmCommand {
    /// Send the message `kind` to the phone with index `phone_idx`.
    SendSms { phone_idx: u8, kind: MessageKind },
    /// Ask the modem for the time.
    GetTime,
    /// Check the packet data attachment.
    CheckGprs,
    /// Power the modem on.
    PowerOn,
    /// Power the modem down.
    PowerDown,
}

/// Stage of the modem start-up.
#[derive(Debug, Clone, Copy, PartialEq, Eq, Structural)]
pub enum GsmInitStage {
    PowerOff,
    PowerOn,
    WaitForReady,
    EchoOff,
    Cmgf,
    Cnmi,
    Csmp,
    Cclk,
    CmuxEnable,
    CmuxDlc0,
    CmuxDlc1,
    CmuxDlc2,
    Ready,
}

/// An SMS received.
#[derive(Debug, Clone)]
pub struct SmsEvent {
    /// Sender number.
    pub sender: heapless::String<17>,
    /// Text.
    pub message: heapless::String<160>,
}

/// What the modem task knows about the modem.
#[derive(Debug, Clone, Copy)]
pub struct GsmStatus {
    /// Set up and ready.
    pub ready: bool,
    /// `Call Ready` received.
    pub call_ready: bool,
    /// Packet data attached.
    pub gprs_attached: bool,
    /// Local address, when attached.
    pub ip_addr: Option<[u8; 4]>,
    /// Start-up stage.
    pub init_stage: GsmInitStage,
    /// Last `+CME ERROR` code.
    pub cme_error: u16,
    /// Last `+CMS ERROR` code.
    pub cms_error: u16,
    /// An SMS is being sent.
    pub sending_sms: bool,
    /// The last SMS was sent.
    pub sms_sent: bool,
    /// Reference of the last SMS sent.
    pub last_sms_id: u16,
}

impl GsmStatus {
    /// Nothing known: powered off, not ready, no errors.
    pub open spec fn is_initial(self) -> bool {
        &&& !self.ready
        &&& !self.call_ready
        &&& !self.gprs_attached
        &&& self.ip_addr is None
        &&& self.init_stage == GsmInitStage::PowerOff
        &&& self.cme_error == 0
        &&& self.cms_error == 0
        &&& !self.sending_sms
        &&& !self.sms_sent
        &&& self.last_sms_id == 0
    }
}

/// Something that changes what the modem task knows about the modem.
#[derive(Debug, Clone, Copy, PartialEq, Eq, Structural)]
pub enum GsmStatusEvent {
    /// The modem was powered and is starting up.
    PoweringUp,
    /// The start-up sequence and the multiplexer set-up succeeded.
    StartedUp,
    /// The modem was powered on again on request.
    PoweredOn,
    /// The modem was powered down.
    PoweredDown,
    /// An SMS is being handed to the modem.
    SmsStarted,
    /// The SMS was handed over.
    SmsFinished,
}

/// What the modem task knows after `event`.
pub open spec fn status_after(st: GsmStatus, event: GsmStatusEvent) -> GsmStatus {
    match event {
        GsmStatusEvent::PoweringUp => GsmStatus { init_stage: GsmInitStage::WaitForReady, ..st },
        GsmStatusEvent::StartedUp => GsmStatus {
            init_stage: GsmInitStage::Ready,
            ready: true,
            call_ready: true,
            ..st
        },
        GsmStatusEvent::PoweredOn => GsmStatus { ready: true, ..st },
        GsmStatusEvent::PoweredDown => GsmStatus {
            ready: false,
            call_ready: false,
            gprs_attached: false,
            init_stage: GsmInitStage::PowerOff,
            ..st
        },
        GsmStatusEvent::SmsStarted => GsmStatus { sending_sms: true, sms_sent: false, ..st },
        GsmStatusEvent::SmsFinished => GsmStatus { sending_sms: false, sms_sent: true, ..st },
    }
}

impl GsmStatus {
    /// Records `event` (see `status_after`).
    pub fn apply(&mut self, event: GsmStatusEvent)
        ensures
            *final(self) == status_after(*old(self), event),
    {
        match event {
            GsmStatusEvent::PoweringUp => {
                self.init_stage = GsmInitStage::WaitForReady;
            },
            GsmStatusEvent::StartedUp => {
                self.init_stage = GsmInitStage::Ready;
                self.ready = true;
                self.call_ready = true;
            },
            GsmStatusEvent::PoweredOn => {
                self.ready = true;
            },
            GsmStatusEvent::PoweredDown => {
                self.ready = false;
                self.call_ready = false;
                self.gprs_attached = false;
                self.init_stage = GsmInitStage::PowerOff;
            },
            GsmStatusEvent::SmsStarted => {
                self.sending_sms = true;
                self.sms_sent = false;
            },
            GsmStatusEvent::SmsFinished => {
                self.sending_sms = false;
                self.sms_sent = true;
            },
        }
    }

    /// The periodic packet-data check, `elapsed_s` seconds after the last
    /// one: once a ready modem's interval has passed the timer restarts
    /// (`r.1`), and the attachment is checked (`r.0`) when it is not
    /// attached.
    pub fn gprs_check_due(&self, elapsed_s: u64) -> (r: (bool, bool))
        ensures
            r.1 == (self.ready && elapsed_s >= GSM_GPRS_CHECK_INTERVAL_S),
            r.0 == (r.1 && !self.gprs_attached),
    {
        let due = self.ready && elapsed_s >= GSM_GPRS_CHECK_INTERVAL_S;
        (due && !self.gprs_attached, due)
    }
}

impl Default for GsmStatus {
    fn default() -> (r: GsmStatus)
        ensures
            r.is_initial(),
    {
        GsmStatus {
            ready: false,
            call_ready: false,
            gprs_attached: false,
            ip_addr: None,
            init_stage: GsmInitStage::PowerOff,
            cme_error: 0,
            cms_error: 0,
            sending_sms: false,
            sms_sent: false,
            last_sms_id: 0,
        }
    }
}

/// Time to wait for a reply, in ms.
pub const GSM_RESPONSE_TIMEOUT_MS: u64 = 5000;
/// Time to wait for `Call Ready`, in s.
pub const GSM_CALL_READY_TIMEOUT_S: u64 = 15;
/// Time allowed for the start-up, in s.
pub const GSM_INIT_TIMEOUT_S: u64 = 30;
/// Pause between commands, in ms.
pub const GSM_CMD_DELAY_MS: u64 = 200;
/// Time allowed to send an SMS, in s.
pub const GSM_SMS_TIMEOUT_S: u64 = 10;
/// Interval of the packet data check, in s.
pub const GSM_GPRS_CHECK_INTERVAL_S: u64 = 60;

/// Reply to a command sent by the modem task.
#[derive(Debug, Clone, Copy, PartialEq, Eq, Structural)]
pub enum AtResponse {
    Okay,
    Error,
    CmeError(u16),
    CmsError(u16),
    Prompt,
    Timeout,
}

/// The modem's status line. The pin is not wired yet: the modem counts as
/// powered.
pub fn gsm_check_status() -> (r: bool)
    ensures
        r,
{
    true
}

/// Next step of powering the modem on.
#[derive(Debug, Clone, Copy, PartialEq, Eq, Structural)]
pub enum PowerOnStep {
    /// The modem is on.
    Done,
    /// Wait this many seconds, then check the status line again.
    WaitSecs(u64),
    /// The modem does not respond.
    Failed,
}

/// Powering on, after check number `attempt` (0, 1, 2) of the status line
/// found it `on`: done when on; otherwise the power key pulse and a 4 s
/// wait after the first check, a 2 s wait after the second, failure after
/// the third.
pub fn power_on_step(attempt: u8, on: bool) -> (r: PowerOnStep)
    ensures
        on ==> r == PowerOnStep::Done,
        !on && attempt == 0 ==> r == PowerOnStep::WaitSecs(4),
        !on && attempt == 1 ==> r == PowerOnStep::WaitSecs(2),
        !on && attempt >= 2 ==> r == PowerOnStep::Failed,
{
    if on {
        PowerOnStep::Done
    } else if attempt == 0 {
        PowerOnStep::WaitSecs(4)
    } else if attempt == 1 {
        PowerOnStep::WaitSecs(2)
    } else {
        PowerOnStep::Failed
    }
}

/// The start-up commands in order with their stages: echo off, SMS text
/// mode, SMS indications, SMS parameters, clock query.
pub open spec fn init_sequence_spec(step: int) -> Option<(GsmInitStage, Seq<char>)> {
    if step == 0 {
        Some((GsmInitStage::EchoOff, "ATE0\r"@))
    } else if step == 1 {
        Some((GsmInitStage::Cmgf, "AT+CMGF=1\r"@))
    } else if step == 2 {
        Some((GsmInitStage::Cnmi, "AT+CNMI=2,2,0,0,0\r"@))
    } else if step == 3 {
        Some((GsmInitStage::Csmp, "AT+CSMP=17,167,0,0\r"@))
    } else if step == 4 {
        Some((GsmInitStage::Cclk, "AT+CCLK?\r"@))
    } else {
        None
    }
}

/// Start-up command number `step` with its stage (see
/// `init_sequence_spec`); none past the last.
pub fn init_sequence_step(step: usize) -> (r: Option<(GsmInitStage, &'static str)>)
    ensures
        match r {
            Some((st, cmd)) => init_sequence_spec(step as int) == Some((st, cmd@)),
            None => init_sequence_spec(step as int) is None,
        },
{
    if step == 0 {
        Some((GsmInitStage::EchoOff, "ATE0\r"))
    } else if step == 1 {
        Some((GsmInitStage::Cmgf, "AT+CMGF=1\r"))
    } else if step == 2 {
        Some((GsmInitStage::Cnmi, "AT+CNMI=2,2,0,0,0\r"))
    } else if step == 3 {
        Some((GsmInitStage::Csmp, "AT+CSMP=17,167,0,0\r"))
    } else if step == 4 {
        Some((GsmInitStage::Cclk, "AT+CCLK?\r"))
    } else {
        None
    }
}

/// The start-up after the reply to its first command (echo off): a failed
/// send fails it; a reply other than `OK` fails it as `NoResponse`; the
/// replies to the later commands do not matter.
pub fn init_sequence_outcome(first: Result<AtResponse, GsmError>) -> (r: Result<(), GsmError>)
    ensures
        r == match first {
            Err(e) => Err(e),
            Ok(AtResponse::Okay) => Ok(()),
            Ok(_) => Err(GsmError::NoResponse),
        },
{
    match first {
        Err(e) => Err(e),
        Ok(AtResponse::Okay) => Ok(()),
        Ok(_) => Err(GsmError::NoResponse),
    }
}

/// The packet data check after its replies: attached exactly when the
/// attach query and the address query both answered `OK` (the address
/// query is only asked after an `OK` to the first); the status records it.
pub fn gprs_check_outcome(status: &mut GsmStatus, attach_ok: bool, address_ok: bool) -> (r: bool)
    ensures
        r == (attach_ok && address_ok),
        *final(status) == (GsmStatus { gprs_attached: r, ..*old(status) }),
{
    if attach_ok && address_ok {
        status.gprs_attached = true;
        return true;
    }
    status.gprs_attached = false;
    false
}

/// The phone number stored at index `idx` (two phones per access level):
/// its digits and `+` signs up to the first zero byte; empty for an index
/// past the last phone.
pub open spec fn phone_number_chars(raw: Seq<u8>) -> Seq<char>
    decreases raw.len(),
{
    if raw.len() == 0 || raw[0] == 0 {
        seq![]
    } else if (48 <= raw[0] <= 57) || raw[0] == 43 {
        seq![raw[0] as char] + phone_number_chars(raw.drop_first())
    } else {
        phone_number_chars(raw.drop_first())
    }
}

/// The phone number of index `idx` in the settings (see
/// `phone_number_chars`).
pub open spec fn phone_number_spec(state: VendingState, idx: u8) -> Seq<char> {
    let level = idx / 2;
    let sub = idx % 2;
    if level < 2 {
        phone_number_chars(state.settings.phone_numbers[level as int][sub as int]@)
    } else {
        seq![]
    }
}

/// The phone number of index `idx` (see `phone_number_spec`).
pub fn extract_phone_number(state: &VendingState, idx: u8) -> (r: heapless::String<17>)
    ensures
        text17(r) == phone_number_spec(*state, idx),
{
    let mut result = String::new();
    let level = (idx as usize) / PHONES_PER_LEVEL;
    let sub = (idx as usize) % PHONES_PER_LEVEL;
    if level < PHONE_ACCESS_LEVELS && sub < PHONES_PER_LEVEL {
        let raw = state.settings.phone_numbers[level][sub];
        let mut i: usize = 0;
        assert(raw@.skip(0) =~= raw@);
        assert(result@ + phone_number_chars(raw@) =~= phone_number_chars(raw@));
        while i < 16 && raw[i] != 0
            invariant
                i <= 16,
                result@ + phone_number_chars(raw@.skip(i as int)) == phone_number_chars(raw@),
            decreases 16 - i,
        {
            let b = raw[i];
            assert(raw@.skip(i as int)[0] == b);
            assert(raw@.skip(i as int).drop_first() =~= raw@.skip(i + 1));
            if (b >= 48 && b <= 57) || b == 43 {
                let c = b as char;
                push_char(&mut result, c);
                assert(result@ + phone_number_chars(raw@.skip(i + 1)) =~= phone_number_chars(raw@));
            }
            i = i + 1;
        }
        proof {
            if i < 16 {
                assert(raw@.skip(i as int)[0] == 0);
            }
            assert(phone_number_chars(raw@.skip(i as int)) =~= Seq::<char>::empty());
            assert(result@ =~= phone_number_chars(raw@));
        }
    }
    proof {
        if level < 2 {
            lemma_phone_number_chars(state.settings.phone_numbers[level as int][sub as int]@);
        }
        lemma_ascii_bytes(phone_number_spec(*state, idx));
    }
    text17_of(result.as_str())
}

/// The number kept from stored bytes is ASCII and no longer than they are.
proof fn lemma_phone_number_chars(raw: Seq<u8>)
    ensures
        phone_number_chars(raw).len() <= raw.len(),
        is_ascii_chars(phone_number_chars(raw)),
    decreases raw.len(),
{
    if raw.len() > 0 && raw[0] != 0 {
        lemma_phone_number_chars(raw.drop_first());
        if (48 <= raw[0] <= 57) || raw[0] == 43 {
            lemma_ascii_concat(seq![raw[0] as char], phone_number_chars(raw.drop_first()));
        }
    }
}

/// Send-SMS command in a 32-byte buffer (see `cmgs_text`).
pub fn format_sms_cmd(phone: &str) -> (r: heapless::String<32>)
    ensures
        text32(r) == cmgs_text(phone@, 32),
{
    cmd_cmgs(phone)
}

/// What a send-SMS request becomes: the number of the phone and the text
/// of the report; nothing when no number is stored for that phone.
pub fn sms_for_request(state: &VendingState, phone_idx: u8, kind: MessageKind) -> (r: Option<
    (heapless::String<17>, heapless::String<160>),
>)
    requires
        kind == MessageKind::ReportPeriodAccounting ==> crate::report::profit_fits(
            state.data.period_accounting,
        ),
        kind == MessageKind::ReportOverallAccounting ==> crate::report::profit_fits(
            state.data.overall_accounting,
        ),
    ensures
        phone_number_spec(*state, phone_idx).len() == 0 ==> r is None,
        phone_number_spec(*state, phone_idx).len() > 0 ==> r is Some && text17((r->0).0)
            == phone_number_spec(*state, phone_idx) && text160((r->0).1) == crate::report::report_text(
            *state,
            kind,
        ),
{
    let phone = extract_phone_number(state, phone_idx);
    let number = text17_str(&phone);
    if number.as_bytes().len() == 0 {
        proof {
            if number@.len() > 0 {
                vstd::utf8::encode_utf8_first_scalar(number@);
            }
        }
        return None;
    }
    let text = crate::report::generate_report(state, kind);
    Some((phone, text))
}

} // verus!

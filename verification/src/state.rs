//! Machine state, settings and accounting records.

use vstd::prelude::*;

use crate::config::{COIN_CHANNEL_COUNT, HOPPER_COUNT};
use crate::error::Errors;
use crate::event::{EventEntry, EventInfo, EventKind, TransactionEntry};

verus! {

/// Money amount in the smallest currency unit.
pub type Cash = i32;
/// Item or coin count.
pub type Level = i32;
/// Wall-clock timestamp in seconds.
pub type Timestamp = u32;
/// Monotonic tick count.
pub type Ticks = u64;

/// Number of transactions kept in the persistent log.
pub const TRANSACTION_LOG_SIZE: usize = 5;
/// Number of events kept in the persistent log.
pub const EVENT_LOG_SIZE: usize = 20;
/// Bytes of a stored phone number.
pub const PHONE_NUMBER_LEN: usize = 16;
/// Length limit of an SMS text.
pub const SMS_BUF_SIZE: usize = 160;
/// Bytes of an iButton key.
pub const IBUTTON_LEN: usize = 8;
/// Number of phone access levels.
pub const PHONE_ACCESS_LEVELS: usize = 2;
/// Phones per access level.
pub const PHONES_PER_LEVEL: usize = 2;

/// Top-level phase of the vending cycle.
#[derive(Debug, Clone, Copy, PartialEq, Eq, Structural)]
pub enum AppState {
    AcceptCash,
    PayoutItems,
    PayoutReminder,
    ProcessResidual,
}

impl AppState {
    /// Numeric code of the phase as stored (0..=3).
    pub fn code(&self) -> (r: u8)
        ensures
            *self == AppState::AcceptCash ==> r == 0,
            *self == AppState::PayoutItems ==> r == 1,
            *self == AppState::PayoutReminder ==> r == 2,
            *self == AppState::ProcessResidual ==> r == 3,
    {
        match self {
            AppState::AcceptCash => 0,
            AppState::PayoutItems => 1,
            AppState::PayoutReminder => 2,
            AppState::ProcessResidual => 3,
        }
    }
}

/// User interface language.
#[derive(Debug, Clone, Copy, PartialEq, Eq, Structural)]
pub enum Language {
    Latvian,
    Russian,
}

impl Language {
    /// Numeric code: Latvian 0, Russian 1.
    pub fn code(&self) -> (r: i32)
        ensures
            *self == Language::Latvian ==> r == 0,
            *self == Language::Russian ==> r == 1,
    {
        match self {
            Language::Latvian => 0,
            Language::Russian => 1,
        }
    }
}

/// Currency of the machine.
#[derive(Debug, Clone, Copy, PartialEq, Eq, Structural)]
pub enum Currency {
    Eur,
}

/// Money and item counters.
#[derive(Debug, Clone, Copy)]
pub struct Accounting {
    pub cash_in: Cash,
    pub cash_out: Cash,
    pub items_out: Level,
    pub free_items_out: Level,
    pub coins_refill: [Level; HOPPER_COUNT],
    pub items_refill: Level,
}

impl Accounting {
    /// All counters zero.
    pub open spec fn is_zero(self) -> bool {
        &&& self.cash_in == 0
        &&& self.cash_out == 0
        &&& self.items_out == 0
        &&& self.free_items_out == 0
        &&& self.coins_refill@ == seq![0i32, 0i32]
        &&& self.items_refill == 0
    }

    /// All counters zero.
    pub fn zero() -> (r: Accounting)
        ensures
            r.is_zero(),
    {
        let r = Accounting {
            cash_in: 0,
            cash_out: 0,
            items_out: 0,
            free_items_out: 0,
            coins_refill: [0, 0],
            items_refill: 0,
        };
        assert(r.coins_refill@ =~= seq![0i32, 0i32]);
        r
    }
}

/// Coin acceptor settings: pulse mode and per-channel coin value and enable.
#[derive(Debug, Clone, Copy)]
pub struct CoinAcceptorSettings {
    pub pulse_mode: bool,
    pub coin_values: [Cash; COIN_CHANNEL_COUNT],
    pub coin_enable: [bool; COIN_CHANNEL_COUNT],
}

/// Hopper settings: coin value, capacity and warning level.
#[derive(Debug, Clone, Copy, PartialEq, Eq, Structural)]
pub struct HopperSettings {
    pub coin_value: Cash,
    pub coin_count: Level,
    pub warning_level: Level,
}

/// An iButton key.
pub type IbuttonKey = [u8; IBUTTON_LEN];

/// Machine configuration (kept in flash).
#[derive(Debug, Clone, Copy)]
pub struct Settings {
    pub version: u8,
    pub user_language: Language,
    pub currency: Currency,
    pub machine_id: Level,
    pub coin_acceptor: CoinAcceptorSettings,
    pub coin_hoppers: [HopperSettings; HOPPER_COUNT],
    pub item_dispenser: HopperSettings,
    pub keys: [[IbuttonKey; 2]; 3],
    pub phone_numbers: [[[u8; PHONE_NUMBER_LEN]; PHONES_PER_LEVEL]; PHONE_ACCESS_LEVELS],
    pub accounting_report_interval: Level,
    pub state_report_interval: Level,
    pub workday_start_hour: u8,
    pub workday_end_hour: u8,
    pub residual_timeout: u8,
    pub menu_exit_timeout: u8,
    pub cash_clear_timeout: u8,
    pub thanks_message_delay: u8,
    pub payout_message_delay: u8,
    pub options: u32,
    pub crc: u16,
}

/// Working state of the machine (kept in EEPROM).
#[derive(Debug, Clone, Copy)]
pub struct VendingStateData {
    pub version: u8,
    pub item_level: Level,
    pub coin_levels: [Level; HOPPER_COUNT],
    pub cash: Cash,
    pub coins_pending: [Level; HOPPER_COUNT],
    pub items_pending: Level,
    pub free_items_pending: Level,
    pub app_state: AppState,
    pub transactions: [TransactionEntry; TRANSACTION_LOG_SIZE],
    pub events: [EventEntry; EVENT_LOG_SIZE],
    pub overall_accounting: Accounting,
    pub period_accounting: Accounting,
    pub messages_pending: [[Errors; PHONES_PER_LEVEL]; PHONE_ACCESS_LEVELS],
    pub crc: u16,
}

/// Shared machine state: working data, settings and current faults.
#[derive(Debug, Clone, Copy)]
pub struct VendingState {
    pub data: VendingStateData,
    pub settings: Settings,
    pub errors: Errors,
}

impl HopperSettings {
    /// All zero.
    pub fn zero() -> (r: HopperSettings)
        ensures
            r.coin_value == 0,
            r.coin_count == 0,
            r.warning_level == 0,
    {
        HopperSettings { coin_value: 0, coin_count: 0, warning_level: 0 }
    }
}

impl Settings {
    /// Factory settings: every number zero, every flag off, first language.
    pub open spec fn is_factory(self) -> bool {
        &&& self.version == 0
        &&& self.user_language == Language::Latvian
        &&& self.machine_id == 0
        &&& !self.coin_acceptor.pulse_mode
        &&& (forall|i: int| 0 <= i < 6 ==> self.coin_acceptor.coin_values[i] == 0)
        &&& (forall|i: int| 0 <= i < 6 ==> !self.coin_acceptor.coin_enable[i])
        &&& (forall|i: int| 0 <= i < 2 ==> self.coin_hoppers[i].coin_value == 0)
        &&& self.item_dispenser.coin_value == 0
        &&& self.cash_clear_timeout == 0
        &&& self.crc == 0
    }
}

impl Default for Settings {
    fn default() -> (r: Settings)
        ensures
            r.is_factory(),
    {
        let h = HopperSettings::zero();
        Settings {
            version: 0,
            user_language: Language::Latvian,
            currency: Currency::Eur,
            machine_id: 0,
            coin_acceptor: CoinAcceptorSettings {
                pulse_mode: false,
                coin_values: [0, 0, 0, 0, 0, 0],
                coin_enable: [false, false, false, false, false, false],
            },
            coin_hoppers: [h, h],
            item_dispenser: h,
            keys: [[[0u8; 8]; 2]; 3],
            phone_numbers: [[[0u8; 16]; 2]; 2],
            accounting_report_interval: 0,
            state_report_interval: 0,
            workday_start_hour: 0,
            workday_end_hour: 0,
            residual_timeout: 0,
            menu_exit_timeout: 0,
            cash_clear_timeout: 0,
            thanks_message_delay: 0,
            payout_message_delay: 0,
            options: 0,
            crc: 0,
        }
    }
}

impl VendingStateData {
    /// Fresh working state: empty machine waiting for cash, empty logs.
    pub open spec fn is_fresh(self) -> bool {
        &&& self.version == 0
        &&& self.item_level == 0
        &&& self.coin_levels@ == seq![0i32, 0i32]
        &&& self.cash == 0
        &&& self.coins_pending@ == seq![0i32, 0i32]
        &&& self.items_pending == 0
        &&& self.free_items_pending == 0
        &&& self.app_state == AppState::AcceptCash
        &&& (forall|i: int| 0 <= i < 5 ==> self.transactions[i].is_empty())
        &&& (forall|i: int| 0 <= i < 20 ==> self.events[i].kind == EventKind::Empty)
        &&& self.overall_accounting.is_zero()
        &&& self.period_accounting.is_zero()
        &&& self.crc == 0
    }
}

impl Default for VendingStateData {
    fn default() -> (r: VendingStateData)
        ensures
            r.is_fresh(),
    {
        let t = TransactionEntry::empty();
        let e = EventEntry::empty();
        let none = Errors::empty();
        let r = VendingStateData {
            version: 0,
            item_level: 0,
            coin_levels: [0, 0],
            cash: 0,
            coins_pending: [0, 0],
            items_pending: 0,
            free_items_pending: 0,
            app_state: AppState::AcceptCash,
            transactions: [t, t, t, t, t],
            events: [e, e, e, e, e, e, e, e, e, e, e, e, e, e, e, e, e, e, e, e],
            overall_accounting: Accounting::zero(),
            period_accounting: Accounting::zero(),
            messages_pending: [[none, none], [none, none]],
            crc: 0,
        };
        assert(r.coin_levels@ =~= seq![0i32, 0i32]);
        assert(r.coins_pending@ =~= seq![0i32, 0i32]);
        r
    }
}

impl Default for VendingState {
    fn default() -> (r: VendingState)
        ensures
            r.data.is_fresh(),
            r.settings.is_factory(),
            r.errors.bits == 0,
    {
        VendingState {
            data: VendingStateData::default(),
            settings: Settings::default(),
            errors: Errors::empty(),
        }
    }
}

/// Why the persisted copy must be refreshed.
#[derive(Debug, Clone, Copy, PartialEq, Eq, Structural)]
pub enum PersistReason {
    StateChanged,
    SettingsChanged,
}

/// Kind of message sent to the operator.
#[derive(Debug, Clone, Copy, PartialEq, Eq, Structural)]
pub enum MessageKind {
    NoMessage,
    ResetKeys,
    ReportState,
    ReportPeriodAccounting,
    ReportOverallAccounting,
    Report,
    ReportErrors,
    CoinHopperWarningLevel,
    ItemDispenserWarningLevel,
    ReportIntrusion,
    ReportNoIntrusion,
    PowerUp,
    PowerDown,
    ResetErrors,
}

} // verus!

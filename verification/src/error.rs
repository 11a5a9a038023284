//! Error sets and error enums of the controller.

use vstd::prelude::*;

use crate::text::{hex_chars, push_hex, push_str};

verus! {

/// A set of machine faults, one bit per fault kind; the associated
/// constants are the single-fault masks.
#[derive(Debug, Clone, Copy, PartialEq, Eq, Structural)]
pub struct Errors {
    pub bits: u64,
}

impl Errors {
    pub const NONE: u64 = 0;
    pub const FIRMWARE: u64 = 0x1;
    pub const SETTINGS_VERSION: u64 = 0x2;
    pub const SETTINGS_CRC: u64 = 0x4;
    pub const STATE_VERSION: u64 = 0x8;
    pub const STATE_CRC: u64 = 0x10;
    pub const BATTERY_LOW: u64 = 0x20;
    pub const FLASH_CORRUPTED: u64 = 0x40;
    pub const NVRAM_CORRUPTED: u64 = 0x80;
    pub const GSM_MODULE: u64 = 0x100;
    pub const SIM_CARD: u64 = 0x200;
    pub const COIN_ACCEPTOR: u64 = 0x400;
    pub const ITEM_DISPENSER: u64 = 0x800;
    pub const COIN_HOPPER: u64 = 0x1000;
    pub const COIN_ACCEPTOR_OFF: u64 = 0x2000;
    pub const ITEM_DISPENSER_EMPTY: u64 = 0x4000;
    pub const COIN_HOPPER_EMPTY: u64 = 0x8000;
    pub const CANNOT_PAYOUT: u64 = 0x10000;
    pub const DOOR_OPENED: u64 = 0x20000;

    /// The empty set.
    pub fn empty() -> (r: Errors)
        ensures
            r.bits == 0,
    {
        Errors { bits: 0 }
    }

    /// The raw bit pattern.
    pub fn bits(&self) -> (r: u64)
        ensures
            r == self.bits,
    {
        self.bits
    }

    /// No fault is set.
    pub fn is_empty(&self) -> (r: bool)
        ensures
            r == (self.bits == 0),
    {
        self.bits == 0
    }

    /// Every fault of `mask` is set.
    pub fn contains(&self, mask: u64) -> (r: bool)
        ensures
            r == (self.bits & mask == mask),
    {
        self.bits & mask == mask
    }

    /// Adds the faults of `mask`.
    pub fn insert(&mut self, mask: u64)
        ensures
            final(self).bits == old(self).bits | mask,
    {
        self.bits = self.bits | mask;
    }

    /// Text form: `Errors(<bits in hex>)`.
    pub fn format(&self) -> (r: String)
        ensures
            r@ == "Errors("@ + hex_chars(self.bits as nat) + ")"@,
    {
        let mut s = String::new();
        push_str(&mut s, "Errors(");
        push_hex(&mut s, self.bits);
        push_str(&mut s, ")");
        assert(s@ =~= "Errors("@ + hex_chars(self.bits as nat) + ")"@);
        s
    }

    /// Removes the faults of `mask`.
    pub fn remove(&mut self, mask: u64)
        ensures
            final(self).bits == old(self).bits & !mask,
    {
        self.bits = self.bits & !mask;
    }
}

/// Fault reported by a dispenser through its error pulse code.
#[derive(Debug, Clone, Copy, PartialEq, Eq, Structural)]
pub enum DispenserError {
    NoFault,
    MotorCoil,
    OpticSensor,
    Jam,
    Unknown,
}

impl DispenserError {
    /// The fault of a pulse count: 0 none, 1 motor coil, 2 optic sensor,
    /// 3 jam, anything else unknown.
    pub open spec fn of_code(code: u8) -> DispenserError {
        if code == 0 {
            DispenserError::NoFault
        } else if code == 1 {
            DispenserError::MotorCoil
        } else if code == 2 {
            DispenserError::OpticSensor
        } else if code == 3 {
            DispenserError::Jam
        } else {
            DispenserError::Unknown
        }
    }

    /// Decodes a pulse count: 0 none, 1 motor coil, 2 optic sensor, 3 jam,
    /// anything else unknown.
    pub fn from_code(code: u8) -> (r: DispenserError)
        ensures
            r == DispenserError::of_code(code),
    {
        match code {
            0 => DispenserError::NoFault,
            1 => DispenserError::MotorCoil,
            2 => DispenserError::OpticSensor,
            3 => DispenserError::Jam,
            _ => DispenserError::Unknown,
        }
    }

    /// The numeric code of the fault (99 for an unknown fault).
    pub fn code(&self) -> (r: u8)
        ensures
            *self == DispenserError::NoFault ==> r == 0,
            *self == DispenserError::MotorCoil ==> r == 1,
            *self == DispenserError::OpticSensor ==> r == 2,
            *self == DispenserError::Jam ==> r == 3,
            *self == DispenserError::Unknown ==> r == 99,
    {
        match self {
            DispenserError::NoFault => 0,
            DispenserError::MotorCoil => 1,
            DispenserError::OpticSensor => 2,
            DispenserError::Jam => 3,
            DispenserError::Unknown => 99,
        }
    }
}

/// Persistent-state storage error.
#[derive(Debug, Clone, Copy, PartialEq, Eq, Structural)]
pub enum NvramError {
    WriteFailed,
    ReadFailed,
    CrcMismatch,
    I2cError,
}

/// Settings storage error.
#[derive(Debug, Clone, Copy, PartialEq, Eq, Structural)]
pub enum FlashError {
    EraseFailed,
    WriteFailed,
    ReadFailed,
    CrcMismatch,
    Locked,
}

/// Modem error.
#[derive(Debug, Clone, Copy, PartialEq, Eq, Structural)]
pub enum GsmError {
    Timeout,
    NoResponse,
    CmeError(u16),
    CmsError(u16),
    UartError,
    CmuxError,
    PppError,
}

/// PPP link error.
#[derive(Debug, Clone, Copy, PartialEq, Eq, Structural)]
pub enum PppError {
    LcpTimeout,
    PapAuthFailed,
    IpcpTimeout,
    NotConnected,
    WriteFailed,
}

/// MQTT publishing error.
#[derive(Debug, Clone, Copy, PartialEq, Eq, Structural)]
pub enum MqttError {
    TcpConnectFailed,
    BufferTooSmall,
    ConnectFailed,
    PublishFailed,
    SubscribeFailed,
    Disconnected,
}

/// Name resolution error.
#[derive(Debug, Clone, Copy, PartialEq, Eq, Structural)]
pub enum DnsError {
    HostNotFound,
    QueryFailed,
}

} // verus!

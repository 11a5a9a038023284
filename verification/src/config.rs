//! Board wiring and tunable constants.

use vstd::prelude::*;

verus! {

/// Board name.
pub const BOARD_NAME: &'static str = "LilyGo T-Call SIM800 IP5306";

/// I2C data pin.
pub const I2C_SDA_PIN: u8 = 21;
/// I2C clock pin.
pub const I2C_SCL_PIN: u8 = 22;
/// I2C bus frequency.
pub const I2C_FREQ_HZ: u32 = 100_000;

/// I2C address of the IP5306 power manager.
pub const IP5306_I2C_ADDR: u8 = 0x75;

/// I2C address of the PCF8574 LCD backpack.
pub const LCD_I2C_ADDR: u8 = 0x27;
/// LCD columns.
pub const LCD_COLS: u8 = 16;
/// LCD rows.
pub const LCD_ROWS: u8 = 2;

/// I2C address of the 24C08 EEPROM.
pub const EEPROM_I2C_ADDR: u8 = 0x50;
/// EEPROM page-write size in bytes.
pub const EEPROM_PAGE_SIZE: usize = 8;

/// Modem UART transmit pin.
pub const GSM_UART_TX_PIN: u8 = 26;
/// Modem UART receive pin.
pub const GSM_UART_RX_PIN: u8 = 27;
/// Modem UART baud rate.
pub const GSM_UART_BAUD: u32 = 115_200;
/// Modem PWRKEY pin.
pub const GSM_PWRKEY_PIN: u8 = 4;
/// Modem reset pin.
pub const GSM_RST_PIN: u8 = 5;
/// Modem power-enable pin.
pub const GSM_POWER_PIN: u8 = 23;

/// Number of coin acceptor channels.
pub const COIN_CHANNEL_COUNT: usize = 6;
/// Coin channel 1 pin.
pub const COIN_CH1_PIN: u8 = 12;
/// Coin channel 2 pin.
pub const COIN_CH2_PIN: u8 = 13;
/// Coin channel 3 pin.
pub const COIN_CH3_PIN: u8 = 14;
/// Coin channel 4 pin.
pub const COIN_CH4_PIN: u8 = 15;
/// Coin channel 5 pin.
pub const COIN_CH5_PIN: u8 = 16;
/// Coin channel 6 pin.
pub const COIN_CH6_PIN: u8 = 17;
/// Coin acceptor blocking pin.
pub const COIN_BLOCK_PIN: u8 = 33;

/// Number of hoppers (item dispenser and change hopper).
pub const HOPPER_COUNT: usize = 2;

/// Shortest valid hopper coin pulse, in milliseconds.
pub const COIN_PULSE_MIN_MS: u64 = 30;
/// Longest valid hopper coin pulse, in milliseconds.
pub const COIN_PULSE_MAX_MS: u64 = 300;
/// Pause that separates two error-code pulse trains, in milliseconds.
pub const PAUSE_BETWEEN_ERROR_CODES_MS: u64 = 400;

/// Hopper A motor enable pin.
pub const HOPPER_A_ENABLE_PIN: u8 = 18;
/// Hopper A sensor pin.
pub const HOPPER_A_SENSOR_PIN: u8 = 25;
/// Hopper B motor enable pin.
pub const HOPPER_B_ENABLE_PIN: u8 = 19;
/// Hopper B sensor pin.
pub const HOPPER_B_SENSOR_PIN: u8 = 34;

/// Button PREV pin.
pub const BTN_PREV_PIN: u8 = 35;
/// Button NEXT pin.
pub const BTN_NEXT_PIN: u8 = 36;
/// Button OK pin.
pub const BTN_OK_PIN: u8 = 39;
/// Button CANCEL pin.
pub const BTN_CANCEL_PIN: u8 = 2;

/// Door 1 sensor pin.
pub const DOOR_1_PIN: u8 = 32;
/// Door 2 sensor pin (not wired).
pub const DOOR_2_PIN: u8 = 255;
/// Number of wired door sensors.
pub const MAX_DOORS: usize = 1;

/// 1-Wire iButton pin.
pub const IBUTTON_PIN: u8 = 33;

/// Status LED pin.
pub const LED_PIN: u8 = 13;

/// Seconds the customer has to take the change.
pub const RESIDUAL_TIMEOUT_S: u8 = 15;
/// Seconds of inactivity after which the service menu closes.
pub const MENU_EXIT_TIMEOUT_S: u8 = 30;
/// Seconds after which unused inserted cash is cleared.
pub const CASH_CLEAR_TIMEOUT_S: u8 = 10;
/// Seconds the "thank you" message stays on screen.
pub const THANKS_MESSAGE_DELAY_S: u64 = 3;
/// Seconds the payout message stays on screen.
pub const PAYOUT_MESSAGE_DELAY_S: u64 = 2;
/// Debounce of state persistence, in seconds.
pub const STATE_PERSIST_DEBOUNCE_S: u64 = 5;

/// Firmware version.
pub const FIRMWARE_VERSION: u8 = 2;
/// Settings layout version.
pub const SETTINGS_VERSION: u8 = 1;
/// Persistent state layout version.
pub const STATE_VERSION: u8 = 1;

/// SRAM size of the controller in bytes.
pub const SRAM_SIZE: usize = 532480;
/// Flash size of the controller in bytes.
pub const FLASH_SIZE: usize = 4194304;

} // verus!

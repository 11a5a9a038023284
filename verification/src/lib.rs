//! Core logic of a coin-operated single-item vending machine controller.

pub mod buttons;
pub mod coin_acceptor;
pub mod config;
pub mod error;
pub mod event;
pub mod fixed;
pub mod flash;
pub mod gsm;
pub mod hopper;
pub mod ibutton;
pub mod menu;
pub mod nvram;
pub mod record;
pub mod report;
pub mod state;
pub mod text;
pub mod ui;
pub mod vending;

//! Packet data link state (PPP over multiplexer channel 2).
//!
//! The PPP protocol itself runs in the network stack; here is the link
//! state and the framing of PPP data for channel 2.

use vstd::prelude::*;

use crate::fixed::bytes300;
use crate::gsm::cmux::{encode_cmux_frame, encode_spec, UIH};

verus! {

/// Receive buffers of the PPP device.
pub const PPP_N_RX: usize = 4;
/// Transmit buffers of the PPP device.
pub const PPP_N_TX: usize = 4;
/// Sockets of the network stack.
pub const NET_SOCKET_COUNT: usize = 3;

/// State of the PPP link.
#[derive(Debug, Clone, Copy, PartialEq, Eq, Structural)]
pub enum PppState {
    /// No link.
    Dead,
    /// Negotiating.
    Establish,
    /// Link up with an address.
    Open,
}

/// The PPP link.
pub struct PppChannel {
    state: PppState,
}

impl View for PppChannel {
    type V = PppState;

    closed spec fn view(&self) -> PppState {
        self.state
    }
}

impl PppChannel {
    /// A link that is down.
    pub fn new() -> (r: PppChannel)
        ensures
            r@ == PppState::Dead,
    {
        PppChannel { state: PppState::Dead }
    }

    /// The link state.
    pub fn state(&self) -> (r: PppState)
        ensures
            r == self@,
    {
        self.state
    }

    /// The link is up.
    pub fn is_up(&self) -> (r: bool)
        ensures
            r == (self@ == PppState::Open),
    {
        match self.state {
            PppState::Open => true,
            _ => false,
        }
    }

    /// Negotiation started.
    pub fn set_establishing(&mut self)
        ensures
            final(self)@ == PppState::Establish,
    {
        self.state = PppState::Establish;
    }

    /// The link is up.
    pub fn set_up(&mut self)
        ensures
            final(self)@ == PppState::Open,
    {
        self.state = PppState::Open;
    }

    /// The link is down.
    pub fn set_down(&mut self)
        ensures
            final(self)@ == PppState::Dead,
    {
        self.state = PppState::Dead;
    }
}

impl Default for PppChannel {
    fn default() -> (r: PppChannel)
        ensures
            r@ == PppState::Dead,
    {
        PppChannel::new()
    }
}

/// PPP data framed for multiplexer channel 2.
pub fn wrap_ppp_for_cmux(ppp_data: &[u8]) -> (r: heapless::Vec<u8, 300>)
    ensures
        bytes300(r) == encode_spec(2, UIH, ppp_data@),
{
    encode_cmux_frame(2, UIH, ppp_data)
}

} // verus!

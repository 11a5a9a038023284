//! MQTT settings of the machine and the scratch buffer of the MQTT client.
//!
//! The MQTT sessions themselves (connect, publish, subscribe) run in the
//! application over TCP; here are the broker settings, the client
//! identifier and the bump allocator that hands the client its buffers.

use vstd::prelude::*;

use crate::fixed::{fitted, text32, text32_of, text48, text48_of};
use crate::text::{
    int_chars, lemma_ascii_bytes, lemma_ascii_concat, lemma_int_chars_ascii, lemma_int_chars_len,
    push_i32, push_str,
};

verus! {

/// TCP receive buffer, in bytes.
pub const TCP_RX_BUF_SIZE: usize = 1024;
/// TCP transmit buffer, in bytes.
pub const TCP_TX_BUF_SIZE: usize = 1024;
/// Bytes of the client's scratch buffer.
pub const MQTT_BUFFER_SIZE: usize = 512;
/// Broker port.
pub const MQTT_PORT: u16 = 1883;
/// Longest client identifier, in bytes.
pub const CLIENT_ID_LEN: usize = 32;
/// Longest broker host name, in bytes.
pub const BROKER_HOST_LEN: usize = 48;
/// Time to wait for a publish acknowledgement, in seconds.
pub const PUBACK_WAIT_SECS: u64 = 5;

/// Bump allocator over a 512-byte buffer: each request takes the next
/// bytes; `reset` frees them all.
pub struct BumpBuffer {
    cursor: usize,
}

impl View for BumpBuffer {
    type V = nat;

    /// Bytes handed out so far.
    closed spec fn view(&self) -> nat {
        self.cursor as nat
    }
}

impl BumpBuffer {
    #[verifier::type_invariant]
    spec fn wf(self) -> bool {
        self.cursor <= MQTT_BUFFER_SIZE
    }

    /// Nothing handed out.
    pub fn new() -> (r: BumpBuffer)
        ensures
            r@ == 0,
    {
        BumpBuffer { cursor: 0 }
    }

    /// Frees everything.
    pub fn reset(&mut self)
        ensures
            final(self)@ == 0,
    {
        self.cursor = 0;
    }

    /// Hands out `len` bytes: the range `start..start + len` of the buffer,
    /// or nothing when they do not fit.
    pub fn provide_buffer(&mut self, len: usize) -> (r: Option<usize>)
        ensures
            old(self)@ + len <= MQTT_BUFFER_SIZE ==> r == Some(old(self)@ as usize) && final(self)@
                == old(self)@ + len,
            old(self)@ + len > MQTT_BUFFER_SIZE ==> r is None && final(self)@ == old(self)@,
            final(self)@ <= MQTT_BUFFER_SIZE,
    {
        proof {
            use_type_invariant(&*self);
        }
        if len > MQTT_BUFFER_SIZE - self.cursor {
            return None;
        }
        let start = self.cursor;
        self.cursor = self.cursor + len;
        Some(start)
    }
}

impl Default for BumpBuffer {
    fn default() -> (r: BumpBuffer)
        ensures
            r@ == 0,
    {
        BumpBuffer::new()
    }
}

/// Broker settings of the machine.
pub struct MqttConfig {
    /// Broker host name.
    pub broker_host: heapless::String<48>,
    /// Broker address used when the name does not resolve.
    pub broker_fallback_ip: [u8; 4],
    /// Machine number, used in topics and the client identifier.
    pub machine_id: i32,
}

impl MqttConfig {
    /// Settings for `broker_host` (kept when it fits 48 bytes, otherwise
    /// empty), the fallback address and the machine number.
    pub fn new(broker_host: &str, broker_fallback_ip: [u8; 4], machine_id: i32) -> (r: MqttConfig)
        ensures
            text48(r.broker_host) == fitted(broker_host@, BROKER_HOST_LEN as int),
            r.broker_fallback_ip == broker_fallback_ip,
            r.machine_id == machine_id,
    {
        MqttConfig { broker_host: text48_of(broker_host), broker_fallback_ip, machine_id }
    }

    /// Client identifier: `bahilizator_<machine id>`.
    pub fn client_id(&self) -> (r: heapless::String<32>)
        ensures
            text32(r) == "bahilizator_"@ + int_chars(self.machine_id as int),
    {
        let mut id = String::new();
        push_str(&mut id, "bahilizator_");
        push_i32(&mut id, self.machine_id);
        assert(id@ =~= "bahilizator_"@ + int_chars(self.machine_id as int));
        proof {
            reveal_strlit("bahilizator_");
            lemma_int_chars_ascii(self.machine_id as int);
            lemma_int_chars_len(self.machine_id);
            lemma_ascii_concat("bahilizator_"@, int_chars(self.machine_id as int));
            lemma_ascii_bytes(id@);
        }
        text32_of(id.as_str())
    }
}

/// While waiting for the publish acknowledgement: keep waiting until it
/// arrives, the deadline passes or the client fails.
pub fn keep_waiting_for_ack(now_ms: u64, deadline_ms: u64, acknowledged: bool, failed: bool) -> (r:
    bool)
    ensures
        r == (now_ms < deadline_ms && !acknowledged && !failed),
{
    if now_ms >= deadline_ms {
        return false;
    }
    !acknowledged && !failed
}

} // verus!

//! MQTT topics of the machine: `bahilizator/<machine id>/<kind>`.
//!
//! - `settings`: settings from the server (subscribed);
//! - `errors`: faults, published at once;
//! - `event`: events, published in batches every 5 s;
//! - `state`: state, every 5 minutes;
//! - `accounting`: accounting, every hour.

use vstd::prelude::*;

use crate::fixed::{text64, text64_of};
use crate::text::{
    int_chars, lemma_ascii_bytes, lemma_ascii_concat, lemma_int_chars_ascii, lemma_int_chars_len,
    push_i32, push_str,
};

verus! {

/// Prefix of every topic.
pub const TOPIC_PREFIX: &'static str = "bahilizator";
/// Longest topic, in bytes.
pub const MAX_TOPIC_LEN: usize = 64;
/// State publication interval, in seconds.
pub const STATE_PUBLISH_INTERVAL_SECS: u64 = 300;
/// Accounting publication interval, in seconds.
pub const ACCOUNTING_PUBLISH_INTERVAL_SECS: u64 = 3600;
/// Event batch interval, in seconds.
pub const EVENT_BATCH_INTERVAL_SECS: u64 = 5;
/// MQTT keep-alive, in seconds.
pub const MQTT_KEEPALIVE_SECS: u16 = 60;
/// MQTT reconnect interval, in seconds.
pub const MQTT_RECONNECT_INTERVAL_SECS: u64 = 30;

/// Kind of topic.
#[derive(Debug, Clone, Copy, PartialEq, Eq, Structural)]
pub enum TopicKind {
    Settings,
    Errors,
    Event,
    State,
    Accounting,
}

/// Last part of the topic of `kind`.
pub open spec fn kind_text(kind: TopicKind) -> Seq<char> {
    match kind {
        TopicKind::Settings => "settings"@,
        TopicKind::Errors => "errors"@,
        TopicKind::Event => "event"@,
        TopicKind::State => "state"@,
        TopicKind::Accounting => "accounting"@,
    }
}

impl TopicKind {
    /// Last part of the topic.
    pub fn as_str(&self) -> (r: &'static str)
        ensures
            r@ == kind_text(*self),
    {
        match self {
            TopicKind::Settings => "settings",
            TopicKind::Errors => "errors",
            TopicKind::Event => "event",
            TopicKind::State => "state",
            TopicKind::Accounting => "accounting",
        }
    }
}

/// The topic `bahilizator/<machine_id>/<kind>`.
pub open spec fn topic_text(machine_id: i32, kind: TopicKind) -> Seq<char> {
    "bahilizator"@ + "/"@ + int_chars(machine_id as int) + "/"@ + kind_text(kind)
}

/// The topic of `kind` for machine `machine_id`.
pub fn build_topic(machine_id: i32, kind: TopicKind) -> (r: heapless::String<64>)
    ensures
        text64(r) == topic_text(machine_id, kind),
{
    let mut topic = String::new();
    push_str(&mut topic, TOPIC_PREFIX);
    push_str(&mut topic, "/");
    push_i32(&mut topic, machine_id);
    push_str(&mut topic, "/");
    push_str(&mut topic, kind.as_str());
    proof {
        reveal_strlit("bahilizator");
        reveal_strlit("/");
        reveal_strlit("settings");
        reveal_strlit("errors");
        reveal_strlit("event");
        reveal_strlit("state");
        reveal_strlit("accounting");
    }
    assert(topic@ =~= topic_text(machine_id, kind));
    proof {
        let id = int_chars(machine_id as int);
        lemma_int_chars_ascii(machine_id as int);
        lemma_int_chars_len(machine_id);
        lemma_ascii_concat("bahilizator"@, "/"@);
        lemma_ascii_concat("bahilizator"@ + "/"@, id);
        lemma_ascii_concat("bahilizator"@ + "/"@ + id, "/"@);
        lemma_ascii_concat("bahilizator"@ + "/"@ + id + "/"@, kind_text(kind));
        lemma_ascii_bytes(topic_text(machine_id, kind));
    }
    text64_of(topic.as_str())
}

/// Settings topic (subscribed).
pub fn settings_topic(machine_id: i32) -> (r: heapless::String<64>)
    ensures
        text64(r) == topic_text(machine_id, TopicKind::Settings),
{
    build_topic(machine_id, TopicKind::Settings)
}

/// Fault topic.
pub fn errors_topic(machine_id: i32) -> (r: heapless::String<64>)
    ensures
        text64(r) == topic_text(machine_id, TopicKind::Errors),
{
    build_topic(machine_id, TopicKind::Errors)
}

/// Event topic.
pub fn event_topic(machine_id: i32) -> (r: heapless::String<64>)
    ensures
        text64(r) == topic_text(machine_id, TopicKind::Event),
{
    build_topic(machine_id, TopicKind::Event)
}

/// State topic.
pub fn state_topic(machine_id: i32) -> (r: heapless::String<64>)
    ensures
        text64(r) == topic_text(machine_id, TopicKind::State),
{
    build_topic(machine_id, TopicKind::State)
}

/// Accounting topic.
pub fn accounting_topic(machine_id: i32) -> (r: heapless::String<64>)
    ensures
        text64(r) == topic_text(machine_id, TopicKind::Accounting),
{
    build_topic(machine_id, TopicKind::Accounting)
}

} // verus!

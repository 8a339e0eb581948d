//! The message and event types a broker bridge exchanges with the core.
//! The bridges themselves (the broker clients and their connections) live
//! outside the library and consume or produce these plain values.
use vstd::prelude::*;

use crate::Message;

verus! {

/// One published topic/payload pair.
#[derive(Debug, Clone, PartialEq, Eq)]
pub struct PublishMsg {
    topic: String,
    payload: String,
}

impl PublishMsg {
    /// A message carrying `payload` under `topic`.
    pub fn new(topic: String, payload: String) -> (m: PublishMsg)
        ensures
            m.topic() == topic,
            m.payload() == payload,
    {
        PublishMsg { topic, payload }
    }

    /// The topic the message was published under.
    pub closed spec fn topic(&self) -> String {
        self.topic
    }

    /// The payload carried.
    pub closed spec fn payload(&self) -> String {
        self.payload
    }

    /// The topic the message was published under.
    pub fn get_topic(&self) -> (t: &String)
        ensures
            *t == self.topic(),
    {
        &self.topic
    }

    /// The payload carried.
    pub fn get_payload(&self) -> (p: &String)
        ensures
            *p == self.payload(),
    {
        &self.payload
    }
}

/// What a broker connection reports back to the core.
#[derive(Debug, Clone, PartialEq, Eq)]
pub enum RedisEvent {
    Connected(),
    Disconnected(),
    Publish(String, String),
}

impl Message for RedisEvent {
    fn dup(&self) -> (r: Self)
        ensures
            r == *self,
    {
        match self {
            RedisEvent::Connected() => RedisEvent::Connected(),
            RedisEvent::Disconnected() => RedisEvent::Disconnected(),
            RedisEvent::Publish(topic, payload) => RedisEvent::Publish(
                topic.clone(),
                payload.clone(),
            ),
        }
    }
}

} // verus!

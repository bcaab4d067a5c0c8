//! The messages that travel over IPC channels.
use std::time::SystemTime;
use vstd::prelude::*;
use crate::clock::system_now;

verus! {

/// Control messages.
#[derive(Debug, Clone, Copy, PartialEq, Eq, Structural)]
pub enum ControlMessage {
    /// Connection request.
    Connect,
    /// Connection acknowledgement.
    ConnectAck,
    /// Disconnection.
    Disconnect,
    /// Heartbeat.
    Ping,
    /// Heartbeat answer.
    Pong,
}

/// A data message: a type name and its bytes.
#[derive(Debug, Clone, PartialEq, Eq)]
pub struct DataMessage {
    pub data_type: String,
    pub data: Vec<u8>,
}

/// An event message: an event name and its bytes.
#[derive(Debug, Clone, PartialEq, Eq)]
pub struct EventMessage {
    pub event_type: String,
    pub event_data: Vec<u8>,
}

/// What a message carries.
#[derive(Debug, Clone, PartialEq, Eq)]
pub enum MessageType {
    Control(ControlMessage),
    Data(DataMessage),
    Event(EventMessage),
}

/// What a message carries, with its text and bytes as sequences.
pub enum MessageKind {
    Control(ControlMessage),
    Data(Seq<char>, Seq<u8>),
    Event(Seq<char>, Seq<u8>),
}

impl View for MessageType {
    type V = MessageKind;

    open spec fn view(&self) -> MessageKind {
        match self {
            MessageType::Control(c) => MessageKind::Control(*c),
            MessageType::Data(d) => MessageKind::Data(d.data_type@, d.data@),
            MessageType::Event(e) => MessageKind::Event(e.event_type@, e.event_data@),
        }
    }
}

/// A message.
#[derive(Debug, Clone, PartialEq, Eq)]
pub struct Message {
    /// The message's identifier.
    pub id: u64,
    /// When the message was made.
    pub timestamp: SystemTime,
    /// What the message carries.
    pub msg_type: MessageType,
    /// How urgent the message is.
    pub priority: Priority,
}

/// How urgent a message is, from least to most.
#[derive(Debug, Clone, Copy, PartialEq, Eq, PartialOrd, Ord, Structural)]
pub enum Priority {
    Low,
    Medium,
    High,
    Critical,
}

impl Message {
    /// A control message stamped with the current time.
    pub fn new_control(id: u64, control_msg: ControlMessage, priority: Priority) -> (r: Self)
        ensures
            r.id == id,
            r.msg_type@ == MessageKind::Control(control_msg),
            r.priority == priority,
    {
        Message { id, timestamp: system_now(), msg_type: MessageType::Control(control_msg), priority }
    }

    /// A data message stamped with the current time.
    pub fn new_data(id: u64, data_type: String, data: Vec<u8>, priority: Priority) -> (r: Self)
        ensures
            r.id == id,
            r.msg_type@ == MessageKind::Data(data_type@, data@),
            r.priority == priority,
    {
        Message {
            id,
            timestamp: system_now(),
            msg_type: MessageType::Data(DataMessage { data_type, data }),
            priority,
        }
    }

    /// An event message stamped with the current time.
    pub fn new_event(id: u64, event_type: String, event_data: Vec<u8>, priority: Priority) -> (r:
        Self)
        ensures
            r.id == id,
            r.msg_type@ == MessageKind::Event(event_type@, event_data@),
            r.priority == priority,
    {
        Message {
            id,
            timestamp: system_now(),
            msg_type: MessageType::Event(EventMessage { event_type, event_data }),
            priority,
        }
    }
}

} // verus!

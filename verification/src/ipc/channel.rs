//! Channels that carry bytes from one sandbox to another, and the manager
//! that numbers them.
use std::collections::HashMap;
use tokio::sync::mpsc::{UnboundedReceiver, UnboundedSender};
use vstd::prelude::*;
use crate::sandbox::SandboxId;
use crate::text::{decimal, push_decimal};

verus! {

broadcast use vstd::std_specs::hash::group_hash_axioms;

/// The sending half of an unbounded queue.
#[verifier::external_type_specification]
#[verifier::external_body]
#[verifier::reject_recursive_types(T)]
pub struct ExUnboundedSender<T>(UnboundedSender<T>);

/// The receiving half of an unbounded queue.
#[verifier::external_type_specification]
#[verifier::external_body]
#[verifier::reject_recursive_types(T)]
pub struct ExUnboundedReceiver<T>(UnboundedReceiver<T>);

/// A fresh unbounded queue, as its sending and receiving halves.
///
/// Trusted: wraps `tokio::sync::mpsc::unbounded_channel`; the halves are
/// opaque and nothing is stated of them.
#[verifier::external_body]
pub(crate) fn unbounded_queue<T>() -> (UnboundedSender<T>, UnboundedReceiver<T>) {
    tokio::sync::mpsc::unbounded_channel()
}

/// Puts a value on a queue; on failure gives the error's text.
///
/// Trusted: wraps `UnboundedSender::send`, which tokio documents to fail
/// only when the receiving half has been closed or dropped; whether it has
/// is not known here, so only the failure's text is stated: tokio writes
/// its `SendError` as "channel closed".
#[verifier::external_body]
pub(crate) fn queue_send<T>(tx: &UnboundedSender<T>, value: T) -> (r: Result<(), String>)
    ensures
        r matches Err(e) ==> e@ == "channel closed"@,
{
    match tx.send(value) {
        Ok(()) => Ok(()),
        Err(e) => Err(e.to_string()),
    }
}

/// How a channel's identifier is written.
pub type ChannelId = u64;

/// Whether a channel carries messages.
#[derive(Debug, Clone, Copy, PartialEq, Eq, Structural)]
pub enum ChannelStatus {
    /// Not connected.
    Disconnected,
    /// Connected: messages go through.
    Connected,
    /// Closing.
    Closing,
}

/// A channel from one sandbox to another.
pub struct Channel {
    /// Where messages are put.
    pub sender: UnboundedSender<Vec<u8>>,
    /// Where messages are taken from.
    pub receiver: UnboundedReceiver<Vec<u8>>,
    /// The sending sandbox.
    pub from: SandboxId,
    /// The receiving sandbox.
    pub to: SandboxId,
    /// Whether the channel carries messages.
    pub status: ChannelStatus,
}

impl Channel {
    /// A connected channel from `from` to `to`.
    pub fn new(from: SandboxId, to: SandboxId) -> (r: Self)
        ensures
            r.from == from,
            r.to == to,
            r.status == ChannelStatus::Connected,
    {
        let (sender, receiver) = unbounded_queue();
        Channel { sender, receiver, from, to, status: ChannelStatus::Connected }
    }

    /// Fails unless the channel is connected.
    pub fn check_connected(&self) -> (r: Result<(), String>)
        ensures
            self.status == ChannelStatus::Connected <==> r is Ok,
            r matches Err(e) ==> e@ == "Channel is not connected"@,
    {
        if self.status != ChannelStatus::Connected {
            return Err(String::from_str("Channel is not connected"));
        }
        Ok(())
    }

    /// Puts a message on the channel; fails when the channel is not
    /// connected, and when the receiving half is gone.
    pub fn send_message(&self, msg: Vec<u8>) -> (r: Result<(), String>)
        ensures
            self.status != ChannelStatus::Connected ==> (r matches Err(e) && e@
                == "Channel is not connected"@),
            self.status == ChannelStatus::Connected ==> (r matches Err(e) ==> e@
                == "Failed to send message: channel closed"@),
    {
        self.check_connected()?;
        match queue_send(&self.sender, msg) {
            Ok(()) => Ok(()),
            Err(e) => {
                let r = String::from_str("Failed to send message: ").concat(e.as_str());
                proof {
                    reveal_strlit("Failed to send message: ");
                    reveal_strlit("channel closed");
                    reveal_strlit("Failed to send message: channel closed");
                    assert(r@ =~= "Failed to send message: channel closed"@);
                }
                Err(r)
            },
        }
    }

    /// Marks the channel as closing.
    pub fn close(&mut self)
        ensures
            final(self).status == ChannelStatus::Closing,
            final(self).from == old(self).from,
            final(self).to == old(self).to,
    {
        self.status = ChannelStatus::Closing;
    }
}

/// The channels by identifier, and the identifier the next one gets.
pub struct ChannelManager {
    /// The open channels.
    pub channels: HashMap<ChannelId, Channel>,
    /// The identifier of the next channel.
    pub next_channel_id: ChannelId,
    /// What the manager has handed to the channels' queues, in order, each
    /// with the channel it went to.
    pub sent: Ghost<Seq<(ChannelId, Seq<u8>)>>,
}

impl ChannelManager {
    /// What the manager has handed to the channels' queues, in order, each
    /// with the channel it went to.
    pub open spec fn sent(&self) -> Seq<(ChannelId, Seq<u8>)> {
        self.sent@
    }

    /// A manager without channels; the first channel gets identifier 0.
    pub fn new() -> (r: Self)
        ensures
            r.channels@ == Map::<ChannelId, Channel>::empty(),
            r.next_channel_id == 0,
            r.sent() == Seq::<(ChannelId, Seq<u8>)>::empty(),
    {
        ChannelManager { channels: HashMap::new(), next_channel_id: 0, sent: Ghost(Seq::empty()) }
    }

    /// Prepares the manager; there is nothing to prepare.
    pub fn init(&mut self) -> (r: Result<(), String>)
        ensures
            r is Ok,
            final(self).channels@ == old(self).channels@,
            final(self).next_channel_id == old(self).next_channel_id,
            final(self).sent() == old(self).sent(),
    {
        Ok(())
    }

    /// Opens a connected channel from `from` to `to` under the next
    /// identifier, which it returns.
    pub fn create_channel(&mut self, from: SandboxId, to: SandboxId) -> (r: Result<ChannelId, String>)
        requires
            old(self).next_channel_id < u64::MAX,
        ensures
            r == Ok::<ChannelId, String>(old(self).next_channel_id),
            final(self).next_channel_id == old(self).next_channel_id + 1,
            final(self).channels@.dom() == old(self).channels@.dom().insert(
                old(self).next_channel_id,
            ),
            final(self).channels@[old(self).next_channel_id].from == from,
            final(self).channels@[old(self).next_channel_id].to == to,
            final(self).channels@[old(self).next_channel_id].status == ChannelStatus::Connected,
            forall|k: ChannelId|
                k != old(self).next_channel_id && #[trigger] old(self).channels@.contains_key(k)
                    ==> final(self).channels@[k] == old(self).channels@[k],
            final(self).sent() == old(self).sent(),
    {
        let channel_id = self.next_channel_id;
        self.next_channel_id = self.next_channel_id + 1;
        let channel = Channel::new(from, to);
        self.channels.insert(channel_id, channel);
        Ok(channel_id)
    }

    /// Sends a message on a channel; fails when there is no such channel,
    /// and as [`Channel::send_message`] fails. A message the channel took is
    /// recorded after the ones handed over before it.
    pub fn send_message(&mut self, channel_id: ChannelId, msg: Vec<u8>) -> (r: Result<(), String>)
        ensures
            r is Ok ==> final(self).sent() == old(self).sent().push((channel_id, msg@)),
            r is Err ==> final(self).sent() == old(self).sent(),
            final(self).channels@ == old(self).channels@,
            final(self).next_channel_id == old(self).next_channel_id,
            !old(self).channels@.contains_key(channel_id) ==> (r matches Err(e) && e@ == not_found_error(
                channel_id,
            )),
            old(self).channels@.contains_key(channel_id) && old(self).channels@[channel_id].status
                != ChannelStatus::Connected ==> (r matches Err(e) && e@
                == "Channel is not connected"@),
    {
        let ghost bytes = msg@;
        let r = match self.channels.get(&channel_id) {
            Some(channel) => channel.send_message(msg),
            None => Err(channel_not_found(channel_id)),
        };
        if r.is_ok() {
            proof {
                self.sent@ = self.sent@.push((channel_id, bytes));
            }
        }
        r
    }

    /// Closes a channel and removes it; fails when there is no such channel.
    pub fn close_channel(&mut self, channel_id: ChannelId) -> (r: Result<(), String>)
        ensures
            old(self).channels@.contains_key(channel_id) <==> r is Ok,
            r matches Err(e) ==> e@ == not_found_error(channel_id),
            final(self).channels@ == old(self).channels@.remove(channel_id),
            final(self).next_channel_id == old(self).next_channel_id,
            final(self).sent() == old(self).sent(),
    {
        match self.channels.remove(&channel_id) {
            Some(mut channel) => {
                channel.close();
                Ok(())
            },
            None => Err(channel_not_found(channel_id)),
        }
    }
}

/// The error for a channel that does not exist: the channel's number, in
/// decimal, between "Channel " and " not found".
pub open spec fn not_found_error(channel_id: ChannelId) -> Seq<char> {
    "Channel "@ + decimal(channel_id as nat) + " not found"@
}

/// The error for a channel that does not exist.
fn channel_not_found(channel_id: ChannelId) -> (r: String)
    ensures
        r@ == not_found_error(channel_id),
{
    let mut digits = String::new();
    push_decimal(&mut digits, channel_id);
    let r = String::from_str("Channel ").concat(digits.as_str()).concat(" not found");
    assert(r@ == "Channel "@ + digits@ + " not found"@);
    r
}

} // verus!

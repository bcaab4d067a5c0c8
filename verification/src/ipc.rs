//! Inter-process communication: signed messages over named channels that
//! check capability tokens, and the sandbox-to-sandbox transport that
//! serializes and encrypts messages.
use std::sync::atomic::AtomicU64;
use std::sync::{Arc, Mutex};
use tokio::sync::mpsc::{UnboundedReceiver, UnboundedSender};
use ring::signature::{Ed25519KeyPair, KeyPair as RingKeyPair, UnparsedPublicKey, ED25519};
use vstd::prelude::*;
use vstd::utf8::encode_utf8;
use crate::clock::unix_now_secs;
use crate::ipc::base64::{b64_decode, b64_encode, decodable};
use crate::ipc::channel::{queue_send, unbounded_queue, ChannelId, ChannelManager, ChannelStatus};
use crate::ipc::message::Message;
use crate::ipc::security::{key_lookup, xor_with_key, SecurityManager};
use crate::ipc::serialization::{decode_message, encode_message};
use crate::lifecycle::{after_run, after_shutdown, LifecycleState};
use crate::sandbox::SandboxId;
use crate::security::{
    capability_valid, random_bytes_32, system_random, CapabilityToken, Permission,
    SecurityFramework,
};
use crate::text::{copy_string, str_equal};

pub mod base64;
pub mod channel;
mod counter;
pub mod message;
pub mod security;
pub mod serialization;

verus! {

/// A lock around a value.
#[verifier::external_type_specification]
#[verifier::external_body]
#[verifier::reject_recursive_types(T)]
pub struct ExMutex<T: ?Sized>(Mutex<T>);

/// A value behind a fresh lock.
///
/// Trusted: wraps `std::sync::Mutex::new`; the lock is opaque and nothing
/// is stated of it.
#[verifier::external_body]
fn new_lock<T>(value: T) -> Mutex<T> {
    Mutex::new(value)
}

/// Another handle to a shared value.
///
/// Trusted: wraps `Arc::clone`, which std documents as making another
/// pointer to the same allocation; so the new handle is the same value.
#[verifier::external_body]
fn share<T>(a: &Arc<T>) -> (r: Arc<T>)
    ensures
        r == *a,
{
    Arc::clone(a)
}

/// The Ed25519 public key of a 32-byte seed.
pub uninterp spec fn ed25519_public_key(seed: Seq<u8>) -> Seq<u8>;

/// The Ed25519 signature of a message under the key of a 32-byte seed.
pub uninterp spec fn ed25519_signature(seed: Seq<u8>, msg: Seq<u8>) -> Seq<u8>;

/// Whether Ed25519 verification accepts a signature of a message under a
/// public key.
pub uninterp spec fn ed25519_accepts(public_key: Seq<u8>, msg: Seq<u8>, sig: Seq<u8>) -> bool;

/// The public key of the key pair derived from `seed`.
///
/// Trusted: wraps `Ed25519KeyPair::from_seed_unchecked` and
/// `KeyPair::public_key` of ring. ring derives the key pair from the seed
/// alone, so the key is named by `ed25519_public_key`; it is 32 bytes long.
/// ring rejects only seeds that are not 32 bytes long, which a `[u8; 32]`
/// never is, so the error arm is not taken.
#[verifier::external_body]
fn derive_public_key(seed: &[u8; 32]) -> (r: Vec<u8>)
    ensures
        r@ == ed25519_public_key(seed@),
        r@.len() == 32,
{
    match Ed25519KeyPair::from_seed_unchecked(seed) {
        Ok(pair) => pair.public_key().as_ref().to_vec(),
        Err(_) => Vec::new(),
    }
}

/// Signs a message with the key pair derived from `seed`.
///
/// Trusted: wraps `Ed25519KeyPair::from_seed_unchecked` and
/// `Ed25519KeyPair::sign` of ring. Ed25519 signing is deterministic, so the
/// signature is named by `ed25519_signature` of the seed and the message; it
/// is 64 bytes long, and verification under the pair's public key accepts
/// it. ring rejects only seeds that are not 32 bytes long, which a
/// `[u8; 32]` never is, so the error arm is not taken.
#[verifier::external_body]
fn sign_bytes(seed: &[u8; 32], msg: &[u8]) -> (r: Vec<u8>)
    ensures
        r@ == ed25519_signature(seed@, msg@),
        r@.len() == 64,
        ed25519_accepts(ed25519_public_key(seed@), msg@, r@),
{
    match Ed25519KeyPair::from_seed_unchecked(seed) {
        Ok(pair) => pair.sign(msg).as_ref().to_vec(),
        Err(_) => Vec::new(),
    }
}

/// Whether a signature of a message verifies under a public key.
///
/// Trusted: wraps `UnparsedPublicKey::verify` of ring with the `ED25519`
/// algorithm. The answer is named by `ed25519_accepts`; ring's Ed25519
/// verifier reads exactly 64 signature bytes and a 32-byte key and refuses
/// anything else.
#[verifier::external_body]
fn verify_bytes(public_key: &[u8], msg: &[u8], sig: &[u8]) -> (r: bool)
    ensures
        r == ed25519_accepts(public_key@, msg@, sig@),
        sig@.len() != 64 ==> !r,
        public_key@.len() != 32 ==> !r,
{
    UnparsedPublicKey::new(&ED25519, public_key).verify(msg, sig).is_ok()
}

/// The kinds of IPC message.
#[derive(Debug, Clone, Copy, PartialEq, Eq, Structural)]
pub enum MessageType {
    /// A request.
    Request,
    /// An answer to a request.
    Response,
    /// A notification.
    Notification,
    /// An error report.
    Error,
}

/// An IPC message.
#[derive(Debug, Clone)]
pub struct IpcMessage {
    /// The message's identifier.
    pub id: String,
    /// Who sends it.
    pub sender: String,
    /// Who receives it.
    pub receiver: String,
    /// What kind of message it is.
    pub message_type: MessageType,
    /// What it carries.
    pub payload: Vec<u8>,
    /// The capability the sender presents, if any.
    pub capability_token: Option<CapabilityToken>,
    /// When it was sent, in seconds since the Unix epoch.
    pub timestamp: u64,
    /// The sender's signature, as base64 text.
    pub signature: Option<String>,
}

/// The message with its timestamp set to `now`.
pub open spec fn stamped(m: IpcMessage, now: u64) -> IpcMessage {
    IpcMessage { timestamp: now, ..m }
}

/// The message with `signature` attached as its signature.
pub open spec fn with_signature(m: IpcMessage, signature: String) -> IpcMessage {
    IpcMessage { signature: Some(signature), ..m }
}

/// What checking a message on a channel from `sender_id` to `receiver_id`
/// at second `now` gives: the sender and the receiver must be the
/// channel's, and a capability token, when one is presented, must let its
/// holder write to the receiver.
pub open spec fn validation(sender_id: Seq<char>, receiver_id: Seq<char>, m: IpcMessage, now: u64) -> Result<
    (),
    Seq<char>,
> {
    if m.sender@ != sender_id {
        Err("发送者不匹配: 期望 "@ + sender_id + ", 实际 "@ + m.sender@)
    } else if m.receiver@ != receiver_id {
        Err("接收者不匹配: 期望 "@ + receiver_id + ", 实际 "@ + m.receiver@)
    } else {
        match m.capability_token {
            Some(t) => if capability_valid(t@, m.receiver@, Permission::Write, now) {
                Ok(())
            } else {
                Err("能力令牌验证失败"@)
            },
            None => Ok(()),
        }
    }
}

/// An Ed25519 key pair, held as the seed it is derived from.
pub struct KeyPair {
    seed: [u8; 32],
}

impl KeyPair {
    /// The seed the pair is derived from.
    pub closed spec fn seed(&self) -> Seq<u8> {
        self.seed@
    }

    /// The key pair derived from `seed`.
    pub fn from_seed(seed: [u8; 32]) -> (r: Self)
        ensures
            r.seed() == seed@,
    {
        KeyPair { seed }
    }

    /// The pair's public key.
    pub fn public_key(&self) -> (r: Vec<u8>)
        ensures
            r@ == ed25519_public_key(self.seed()),
    {
        derive_public_key(&self.seed)
    }

    /// The pair's signature of a message.
    pub fn sign(&self, msg: &[u8]) -> (r: Vec<u8>)
        ensures
            r@ == ed25519_signature(self.seed(), msg@),
            r@.len() == 64,
            ed25519_accepts(ed25519_public_key(self.seed()), msg@, r@),
    {
        sign_bytes(&self.seed, msg)
    }
}

/// A signed channel from one party to another.
pub struct IpcChannel {
    id: String,
    sender_id: String,
    receiver_id: String,
    tx: UnboundedSender<IpcMessage>,
    rx: Arc<Mutex<UnboundedReceiver<IpcMessage>>>,
    security: Arc<SecurityFramework>,
    key_pair: Arc<KeyPair>,
    message_counter: Arc<AtomicU64>,
}

impl IpcChannel {
    /// The channel's identifier.
    pub closed spec fn id_view(&self) -> Seq<char> {
        self.id@
    }

    /// The sender the channel is for.
    pub closed spec fn sender_view(&self) -> Seq<char> {
        self.sender_id@
    }

    /// The receiver the channel is for.
    pub closed spec fn receiver_view(&self) -> Seq<char> {
        self.receiver_id@
    }

    /// The seed of the channel's key pair.
    pub closed spec fn seed(&self) -> Seq<u8> {
        self.key_pair.seed()
    }

    /// The security framework the channel checks tokens with.
    pub closed spec fn framework(&self) -> Arc<SecurityFramework> {
        self.security
    }

    /// The lock around the receiving half of the channel's queue.
    pub closed spec fn receive_queue(&self) -> Arc<Mutex<UnboundedReceiver<IpcMessage>>> {
        self.rx
    }

    /// A channel from `sender_id` to `receiver_id`, with its own queue,
    /// signing with `key_pair`.
    pub fn new(
        id: String,
        sender_id: String,
        receiver_id: String,
        security: Arc<SecurityFramework>,
        key_pair: Arc<KeyPair>,
    ) -> (r: Self)
        ensures
            r.id_view() == id@,
            r.sender_view() == sender_id@,
            r.receiver_view() == receiver_id@,
            r.seed() == key_pair.seed(),
            r.framework() == security,
    {
        let (tx, rx) = unbounded_queue();
        IpcChannel {
            id,
            sender_id,
            receiver_id,
            tx,
            rx: Arc::new(new_lock(rx)),
            security,
            key_pair,
            message_counter: Arc::new(counter::new_counter()),
        }
    }

    /// Checks a message at second `now`: it must come from the channel's
    /// sender, go to its receiver, and carry no token or one that lets its
    /// holder write to the receiver.
    pub fn validate_message_at(&self, message: &IpcMessage, now: u64) -> (r: Result<(), String>)
        ensures
            match validation(self.sender_view(), self.receiver_view(), *message, now) {
                Ok(()) => r is Ok,
                Err(e) => r matches Err(s) && s@ == e,
            },
    {
        if !str_equal(message.sender.as_str(), self.sender_id.as_str()) {
            return Err(
                String::from_str("发送者不匹配: 期望 ").concat(self.sender_id.as_str()).concat(
                    ", 实际 ",
                ).concat(message.sender.as_str()),
            );
        }
        if !str_equal(message.receiver.as_str(), self.receiver_id.as_str()) {
            return Err(
                String::from_str("接收者不匹配: 期望 ").concat(self.receiver_id.as_str()).concat(
                    ", 实际 ",
                ).concat(message.receiver.as_str()),
            );
        }
        if let Some(token) = &message.capability_token {
            if !self.security.verify_capability_at(
                token,
                message.receiver.as_str(),
                &Permission::Write,
                now,
            ) {
                return Err(String::from_str("能力令牌验证失败"));
            }
        }
        Ok(())
    }

    /// Checks a message now, by the system clock, as
    /// [`IpcChannel::validate_message_at`] does.
    pub fn validate_message(&self, message: &IpcMessage) -> (r: Result<(), String>)
        ensures
            exists|now: u64|
                match #[trigger] validation(self.sender_view(), self.receiver_view(), *message, now) {
                    Ok(()) => r is Ok,
                    Err(e) => r matches Err(s) && s@ == e,
                },
    {
        let now = unix_now_secs();
        self.validate_message_at(message, now)
    }

    /// The base64 text of the channel's signature of a message's bytes.
    pub fn sign_message(&self, message_bytes: &[u8]) -> (r: Result<String, String>)
        ensures
            r matches Ok(s) && s@ == b64_encode(ed25519_signature(self.seed(), message_bytes@)),
            r matches Ok(s) && decodable(encode_utf8(s@)) && ed25519_accepts(
                ed25519_public_key(self.seed()),
                message_bytes@,
                b64_decode(encode_utf8(s@)),
            ),
    {
        let signature = self.key_pair.sign(message_bytes);
        proof {
            base64::lemma_decode_encode(signature@);
        }
        Ok(base64::encode(signature.as_slice()))
    }

    /// Checks a message's signature against the message's bytes under the
    /// channel's public key; fails when there is no signature or it does not
    /// verify.
    pub fn verify_signature(&self, message: &IpcMessage, message_bytes: &[u8]) -> (r: Result<
        (),
        String,
    >)
        requires
            message.signature matches Some(sig) ==> decodable(encode_utf8(sig@)),
        ensures
            match message.signature {
                None => r matches Err(e) && e@ == "消息缺少签名"@,
                Some(sig) => {
                    &&& r is Ok <==> ed25519_accepts(
                        ed25519_public_key(self.seed()),
                        message_bytes@,
                        b64_decode(encode_utf8(sig@)),
                    )
                    &&& r matches Err(e) ==> e@ == "签名验证失败"@
                },
            },
    {
        let signature = match &message.signature {
            Some(sig) => sig,
            None => {
                return Err(String::from_str("消息缺少签名"));
            },
        };
        let signature_bytes = match base64::decode(signature.as_str()) {
            Ok(b) => b,
            Err(e) => {
                return Err(e);
            },
        };
        let public_key = self.key_pair.public_key();
        if !verify_bytes(public_key.as_slice(), message_bytes, signature_bytes.as_slice()) {
            return Err(String::from_str("签名验证失败"));
        }
        Ok(())
    }

    /// The first half of sending: checks the message at second `now` and
    /// stamps it with `now`.
    pub fn prepare_send(&self, message: IpcMessage, now: u64) -> (r: Result<IpcMessage, String>)
        ensures
            match validation(self.sender_view(), self.receiver_view(), message, now) {
                Ok(()) => r == Ok::<IpcMessage, String>(stamped(message, now)),
                Err(e) => r matches Err(s) && s@ == e,
            },
    {
        self.validate_message_at(&message, now)?;
        let mut message = message;
        message.timestamp = now;
        Ok(message)
    }

    /// The message with the channel's signature of `message_bytes`, as
    /// base64 text, attached; every other field is kept.
    pub fn signed(&self, message: IpcMessage, message_bytes: &[u8]) -> (r: IpcMessage)
        ensures
            r.signature matches Some(sig) && sig@ == b64_encode(
                ed25519_signature(self.seed(), message_bytes@),
            ) && r == with_signature(message, sig),
            r.signature matches Some(sig) && decodable(encode_utf8(sig@)) && ed25519_accepts(
                ed25519_public_key(self.seed()),
                message_bytes@,
                b64_decode(encode_utf8(sig@)),
            ),
    {
        let signature = self.sign_message(message_bytes).unwrap();
        let mut message = message;
        message.signature = Some(signature);
        message
    }

    /// The second half of sending: puts [`IpcChannel::signed`] of the
    /// message and its bytes on the queue and counts it; fails when the
    /// receiving half of the queue has been closed or dropped.
    pub fn complete_send(&self, message: IpcMessage, message_bytes: &[u8]) -> (r: Result<
        (),
        String,
    >)
        ensures
            r matches Err(e) ==> e@ == "发送消息失败: channel closed"@,
    {
        let message = self.signed(message, message_bytes);
        match queue_send(&self.tx, message) {
            Ok(()) => {},
            Err(e) => {
                let r = String::from_str("发送消息失败: ").concat(e.as_str());
                proof {
                    reveal_strlit("发送消息失败: ");
                    reveal_strlit("channel closed");
                    reveal_strlit("发送消息失败: channel closed");
                    assert(r@ =~= "发送消息失败: channel closed"@);
                }
                return Err(r);
            },
        }
        counter::count_one(&self.message_counter);
        Ok(())
    }

    /// Accepts a received message at second `now`: it must pass the checks
    /// of [`IpcChannel::validate_message_at`], and its signature must verify
    /// against its bytes.
    pub fn accept_received(&self, message: IpcMessage, message_bytes: &[u8], now: u64) -> (r:
        Result<IpcMessage, String>)
        requires
            message.signature matches Some(sig) ==> decodable(encode_utf8(sig@)),
        ensures
            match validation(self.sender_view(), self.receiver_view(), message, now) {
                Err(e) => r matches Err(s) && s@ == e,
                Ok(()) => match message.signature {
                    None => r matches Err(e) && e@ == "消息缺少签名"@,
                    Some(sig) => if ed25519_accepts(
                        ed25519_public_key(self.seed()),
                        message_bytes@,
                        b64_decode(encode_utf8(sig@)),
                    ) {
                        r == Ok::<IpcMessage, String>(message)
                    } else {
                        r matches Err(e) && e@ == "签名验证失败"@
                    },
                },
            },
    {
        self.validate_message_at(&message, now)?;
        self.verify_signature(&message, message_bytes)?;
        Ok(message)
    }

    /// The receiving half of the channel's queue.
    pub fn receiver(&self) -> (r: &Arc<Mutex<UnboundedReceiver<IpcMessage>>>)
        ensures
            *r == self.receive_queue(),
    {
        &self.rx
    }

    /// The channel's identifier.
    pub fn id(&self) -> (r: &str)
        ensures
            r@ == self.id_view(),
    {
        self.id.as_str()
    }

    /// The sender the channel is for.
    pub fn sender_id(&self) -> (r: &str)
        ensures
            r@ == self.sender_view(),
    {
        self.sender_id.as_str()
    }

    /// The receiver the channel is for.
    pub fn receiver_id(&self) -> (r: &str)
        ensures
            r@ == self.receiver_view(),
    {
        self.receiver_id.as_str()
    }
}

/// The identifiers of a list of channels.
pub open spec fn channel_ids(v: Seq<Arc<IpcChannel>>) -> Seq<Seq<char>> {
    v.map_values(|c: Arc<IpcChannel>| c.id_view())
}

/// The named channels, their shared security framework and the lifecycle.
pub struct IpcManager {
    channels: Vec<Arc<IpcChannel>>,
    security: Arc<SecurityFramework>,
    state: LifecycleState,
}

impl IpcManager {
    #[verifier::type_invariant]
    closed spec fn distinct_ids(self) -> bool {
        channel_ids(self.channels@).no_duplicates()
    }

    /// The channels, in the order they were created.
    pub closed spec fn channel_list(&self) -> Seq<Arc<IpcChannel>> {
        self.channels@
    }

    /// The identifiers of the channels, in the order they were created.
    pub open spec fn ids(&self) -> Seq<Seq<char>> {
        channel_ids(self.channel_list())
    }

    /// Where the manager stands in its lifecycle.
    pub closed spec fn lifecycle(&self) -> LifecycleState {
        self.state
    }

    /// The security framework the manager's channels check tokens with.
    pub closed spec fn framework(&self) -> Arc<SecurityFramework> {
        self.security
    }

    /// A freshly initialized manager without channels.
    pub fn new(security: Arc<SecurityFramework>) -> (r: Self)
        ensures
            r.ids().len() == 0,
            r.lifecycle() == LifecycleState::Initialized,
            r.framework() == security,
    {
        let r = IpcManager { channels: Vec::new(), security, state: LifecycleState::Initialized };
        assert(r.ids() =~= Seq::<Seq<char>>::empty());
        r
    }

    /// A key pair with a random seed; fails when no random bytes can be
    /// had.
    pub fn generate_key_pair() -> (r: Result<Arc<KeyPair>, String>)
        ensures
            r matches Err(e) ==> e@ == "生成随机种子失败: ring::error::Unspecified"@,
    {
        let rng = system_random();
        Self::key_pair_from(random_bytes_32(&rng))
    }

    /// The key pair derived from what the random source gave for a seed:
    /// with 32 bytes it is the pair of that seed; with nothing it is the
    /// error that the seed could not be had.
    pub fn key_pair_from(seed: Option<[u8; 32]>) -> (r: Result<Arc<KeyPair>, String>)
        ensures
            match seed {
                Some(s) => r matches Ok(k) && k.seed() == s@,
                None => r matches Err(e) && e@ == "生成随机种子失败: ring::error::Unspecified"@,
            },
    {
        match seed {
            Some(s) => Ok(Arc::new(KeyPair::from_seed(s))),
            None => Err(String::from_str("生成随机种子失败: ring::error::Unspecified")),
        }
    }

    /// Starts the manager; a request while not freshly initialized is
    /// ignored.
    pub fn run(&mut self)
        ensures
            final(self).lifecycle() == after_run(old(self).lifecycle()),
            final(self).channel_list() == old(self).channel_list(),
            final(self).framework() == old(self).framework(),
            old(self).lifecycle() != LifecycleState::Initialized ==> *final(self) == *old(self),
    {
        proof {
            use_type_invariant(&*self);
        }
        if self.state != LifecycleState::Initialized {
            return;
        }
        self.state = LifecycleState::Running;
    }

    /// Shuts the manager down, closing every channel; a request while
    /// already shut down is ignored.
    pub fn shutdown(&mut self)
        ensures
            final(self).lifecycle() == after_shutdown(old(self).lifecycle()),
            old(self).lifecycle() != LifecycleState::Shutdown ==> final(self).ids().len() == 0,
            old(self).lifecycle() == LifecycleState::Shutdown ==> *final(self) == *old(self),
            final(self).framework() == old(self).framework(),
    {
        proof {
            use_type_invariant(&*self);
        }
        if self.state == LifecycleState::Shutdown {
            return;
        }
        self.state = LifecycleState::ShuttingDown;
        self.channels = Vec::new();
        assert(self.ids() =~= Seq::<Seq<char>>::empty());
        self.state = LifecycleState::Shutdown;
    }

    /// Where the channel named `id` stands, if there is one.
    fn position_of(&self, id: &str) -> (r: Option<usize>)
        ensures
            match r {
                Some(i) => i < self.ids().len() && self.ids()[i as int] == id@,
                None => !self.ids().contains(id@),
            },
    {
        let n = self.channels.len();
        for i in 0..n
            invariant
                n == self.channels@.len(),
                forall|j: int| 0 <= j < i ==> self.ids()[j] != id@,
        {
            if str_equal(self.channels[i].id(), id) {
                return Some(i);
            }
        }
        None
    }

    /// Creates a channel named `id` from `sender_id` to `receiver_id`,
    /// signing with `key_pair`; fails when a channel of that name exists.
    pub fn create_channel(
        &mut self,
        id: String,
        sender_id: String,
        receiver_id: String,
        key_pair: Arc<KeyPair>,
    ) -> (r: Result<Arc<IpcChannel>, String>)
        ensures
            old(self).ids().contains(id@) <==> r is Err,
            r matches Err(e) ==> e@ == "IPC 通道 "@ + id@ + " 已存在"@ && final(self).channel_list()
                == old(self).channel_list(),
            r matches Ok(c) ==> {
                &&& final(self).channel_list() == old(self).channel_list().push(c)
                &&& c.id_view() == id@
                &&& c.sender_view() == sender_id@
                &&& c.receiver_view() == receiver_id@
                &&& c.seed() == key_pair.seed()
                &&& c.framework() == old(self).framework()
            },
            final(self).lifecycle() == old(self).lifecycle(),
    {
        proof {
            use_type_invariant(&*self);
        }
        let name = copy_string(&id);
        let channel = Arc::new(
            IpcChannel::new(id, sender_id, receiver_id, share(&self.security), key_pair),
        );
        match self.position_of(name.as_str()) {
            Some(_) => {
                Err(String::from_str("IPC 通道 ").concat(name.as_str()).concat(" 已存在"))
            },
            None => {
                let ghost before = self.ids();
                let mut channels = Vec::new();
                std::mem::swap(&mut channels, &mut self.channels);
                channels.push(share(&channel));
                assert(channels@ =~= old(self).channels@.push(channel));
                assert(channel_ids(channels@) =~= before.push(name@));
                assert(channel_ids(channels@).no_duplicates()) by {
                    let after = channel_ids(channels@);
                    assert forall|a: int, b: int|
                        0 <= a < after.len() && 0 <= b < after.len() && a != b implies after[a]
                        != after[b] by {
                        if a == before.len() {
                            assert(before[b] == after[b]);
                        } else if b == before.len() {
                            assert(before[a] == after[a]);
                        }
                    }
                }
                self.channels = channels;
                Ok(channel)
            },
        }
    }

    /// The channel named `id`, if there is one.
    pub fn get_channel(&self, id: &str) -> (r: Option<Arc<IpcChannel>>)
        ensures
            self.ids().contains(id@) <==> r is Some,
            r matches Some(c) ==> exists|i: int|
                0 <= i < self.channel_list().len() && #[trigger] self.channel_list()[i] == c
                    && c.id_view() == id@,
    {
        match self.position_of(id) {
            Some(i) => {
                let c = share(&self.channels[i]);
                assert(self.channel_list()[i as int] == c);
                Some(c)
            },
            None => None,
        }
    }

    /// Removes the channel named `id`; fails when there is none.
    pub fn remove_channel(&mut self, id: &str) -> (r: Result<(), String>)
        ensures
            old(self).ids().contains(id@) <==> r is Ok,
            r matches Err(e) ==> e@ == "IPC 通道 "@ + id@ + " 不存在"@,
            !final(self).ids().contains(id@),
            final(self).ids().len() == old(self).ids().len() - (if r is Ok {
                1int
            } else {
                0int
            }),
            forall|n: Seq<char>|
                n != id@ ==> (#[trigger] final(self).ids().contains(n) <==> old(
                    self,
                ).ids().contains(n)),
            final(self).lifecycle() == old(self).lifecycle(),
    {
        proof {
            use_type_invariant(&*self);
        }
        match self.position_of(id) {
            Some(i) => {
                let ghost before = self.ids();
                let mut channels = Vec::new();
                std::mem::swap(&mut channels, &mut self.channels);
                channels.remove(i);
                assert(channel_ids(channels@) =~= before.remove(i as int));
                assert(channel_ids(channels@).no_duplicates()) by {
                    let after = channel_ids(channels@);
                    assert forall|a: int, b: int|
                        0 <= a < after.len() && 0 <= b < after.len() && a != b implies after[a]
                        != after[b] by {
                        let a2 = if a < i { a } else { a + 1 };
                        let b2 = if b < i { b } else { b + 1 };
                        assert(after[a] == before[a2]);
                        assert(after[b] == before[b2]);
                    }
                }
                self.channels = channels;
                assert forall|n: Seq<char>| n != id@ implies (#[trigger] self.ids().contains(n)
                    <==> before.contains(n)) by {
                    if before.contains(n) {
                        let k = choose|k: int| 0 <= k < before.len() && before[k] == n;
                        assert(k != i);
                        if k < i {
                            assert(self.ids()[k] == n);
                        } else {
                            assert(self.ids()[k - 1] == n);
                        }
                    }
                }
                assert(!self.ids().contains(id@)) by {
                    if self.ids().contains(id@) {
                        let k = choose|k: int| 0 <= k < self.ids().len() && self.ids()[k] == id@;
                        if k < i {
                            assert(before[k] == id@);
                        } else {
                            assert(before[k + 1] == id@);
                        }
                    }
                }
                Ok(())
            },
            None => Err(String::from_str("IPC 通道 ").concat(id).concat(" 不存在")),
        }
    }
}

/// The bytes put on a channel for a message: its bytes, encrypted under the
/// default key.
pub open spec fn sealed(m: Message, key: Seq<u8>) -> Seq<u8> {
    xor_with_key(encode_message(m.id, m.msg_type@, m.priority), key)
}

/// The sandbox-to-sandbox transport: numbered channels and the key store
/// that encrypts what they carry.
pub struct IPCManager {
    /// The channels.
    pub channels: ChannelManager,
    /// The keys and the policy.
    pub security: SecurityManager,
}

impl IPCManager {
    /// A transport without channels or keys.
    pub fn new() -> (r: Self)
        ensures
            r.channels.channels@ == Map::<ChannelId, channel::Channel>::empty(),
            r.channels.next_channel_id == 0,
            r.channels.sent().len() == 0,
            r.security.keys().len() == 0,
    {
        IPCManager { channels: ChannelManager::new(), security: SecurityManager::new() }
    }

    /// Prepares the channels and stores the default key; this never fails.
    pub fn init(&mut self) -> (r: Result<(), String>)
        ensures
            r is Ok,
            final(self).channels.channels@ == old(self).channels.channels@,
            final(self).channels.next_channel_id == old(self).channels.next_channel_id,
            final(self).channels.sent() == old(self).channels.sent(),
            key_lookup(final(self).security.keys(), "default"@) == Some(
                security::default_key_bytes(),
            ),
            forall|n: Seq<char>|
                n != "default"@ ==> #[trigger] key_lookup(final(self).security.keys(), n)
                    == key_lookup(old(self).security.keys(), n),
    {
        self.channels.init()?;
        self.security.init()?;
        Ok(())
    }

    /// Opens a channel from `from` to `to`, as
    /// [`ChannelManager::create_channel`] does.
    pub fn create_channel(&mut self, from: SandboxId, to: SandboxId) -> (r: Result<ChannelId, String>)
        requires
            old(self).channels.next_channel_id < u64::MAX,
        ensures
            r == Ok::<ChannelId, String>(old(self).channels.next_channel_id),
            final(self).channels.next_channel_id == old(self).channels.next_channel_id + 1,
            final(self).channels.channels@.dom() == old(self).channels.channels@.dom().insert(
                old(self).channels.next_channel_id,
            ),
            final(self).channels.channels@[old(self).channels.next_channel_id].from == from,
            final(self).channels.channels@[old(self).channels.next_channel_id].to == to,
            final(self).channels.channels@[old(self).channels.next_channel_id].status
                == ChannelStatus::Connected,
            final(self).channels.sent() == old(self).channels.sent(),
            final(self).security.keys() == old(self).security.keys(),
    {
        self.channels.create_channel(from, to)
    }

    /// Serializes a message, encrypts it under the default key and sends it
    /// on a channel; fails when there is no default key, no such channel, or
    /// the channel does not take it. What the channel takes is the message's
    /// [`sealed`] bytes under the default key.
    pub fn send_message(&mut self, channel_id: ChannelId, msg: Message) -> (r: Result<(), String>)
        ensures
            r is Ok ==> (key_lookup(old(self).security.keys(), "default"@) matches Some(k)
                && final(self).channels.sent() == old(self).channels.sent().push(
                (channel_id, sealed(msg, k)),
            )),
            r is Err ==> final(self).channels.sent() == old(self).channels.sent(),
            final(self).channels.channels@ == old(self).channels.channels@,
            final(self).security.keys() == old(self).security.keys(),
            key_lookup(old(self).security.keys(), "default"@) is None ==> (r matches Err(e) && e@
                == "No encryption key found"@),
            key_lookup(old(self).security.keys(), "default"@) is Some
                && !old(self).channels.channels@.contains_key(channel_id) ==> (r matches Err(e)
                && e@ == channel::not_found_error(channel_id)),
            key_lookup(old(self).security.keys(), "default"@) is Some
                && old(self).channels.channels@.contains_key(channel_id)
                && old(self).channels.channels@[channel_id].status != ChannelStatus::Connected ==> (r matches Err(
                e,
            ) && e@ == "Channel is not connected"@),
    {
        let serialized_msg = serialization::serialize(&msg)?;
        let encrypted_msg = self.security.encrypt_message(serialized_msg)?;
        self.channels.send_message(channel_id, encrypted_msg)
    }

    /// Turns the bytes received on a channel back into a message: decrypts
    /// them under the default key and deserializes them.
    pub fn open_message(&self, encrypted_msg: Vec<u8>) -> (r: Result<Message, String>)
        requires
            key_lookup(self.security.keys(), "default"@) matches Some(k) ==> decode_message(
                xor_with_key(encrypted_msg@, k),
            ) is Some,
        ensures
            match key_lookup(self.security.keys(), "default"@) {
                None => r matches Err(e) && e@ == "No encryption key found"@,
                Some(k) => match decode_message(xor_with_key(encrypted_msg@, k)).unwrap() {
                    Ok((id, kind, p)) => r matches Ok(m) && m.id == id && m.msg_type@ == kind
                        && m.priority == p,
                    Err(e) => r matches Err(s) && s@ == e,
                },
            },
    {
        let serialized_msg = self.security.decrypt_message(encrypted_msg)?;
        serialization::deserialize(serialized_msg.as_slice())
    }
}

/// What a transport sends is what it receives: decrypting the sealed bytes
/// of a message under the same non-empty key and reading them back gives
/// the message's identifier, content and priority, provided every name and
/// byte string is short enough for its 32-bit length field.
pub proof fn lemma_open_sealed(m: Message, key: Seq<u8>)
    requires
        key.len() > 0,
        serialization::lengths_fit(m.msg_type@),
    ensures
        decode_message(xor_with_key(sealed(m, key), key)) == Some(
            Ok::<(u64, message::MessageKind, message::Priority), Seq<char>>(
                (m.id, m.msg_type@, m.priority),
            ),
        ),
{
    security::lemma_xor_roundtrip(encode_message(m.id, m.msg_type@, m.priority), key);
    serialization::lemma_deserialize_serialize(m.id, m.msg_type@, m.priority);
}

} // verus!

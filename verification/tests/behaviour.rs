use std::sync::atomic::{AtomicUsize, Ordering};
use std::sync::Arc;

use moda_core::architecture::{ArchitectureConfig, Component, CoreArchitecture};
use moda_core::ipc::base64;
use moda_core::ipc::channel::{Channel, ChannelManager, ChannelStatus};
use moda_core::ipc::message::{ControlMessage, Message, MessageType as Content, Priority};
use moda_core::ipc::serialization::{deserialize, is_readable, serialize};
use moda_core::ipc::{IPCManager, IpcChannel, IpcManager, IpcMessage, KeyPair, MessageType};
use moda_core::lifecycle::LifecycleState;
use moda_core::sandbox::{open_process_error, terminate_process_error};
use moda_core::sandbox::{Sandbox, SandboxConfig, SandboxManager, SandboxState};
use moda_core::security::{
    CapabilityManager, CapabilityToken, Permission, PolicyManager, PolicyRule, SecurityFramework,
    SecurityPolicy,
};
use moda_core::text::str_equal;

struct Counted {
    runs: Arc<AtomicUsize>,
    shutdowns: Arc<AtomicUsize>,
    init_ok: bool,
}

impl Component for Counted {
    fn name(&self) -> &'static str {
        "counted"
    }
    fn init(&self) -> Result<(), String> {
        if self.init_ok {
            Ok(())
        } else {
            Err("init failed".to_string())
        }
    }
    fn run(&self) -> Result<(), String> {
        self.runs.fetch_add(1, Ordering::SeqCst);
        Err("run reports a failure".to_string())
    }
    fn shutdown(&self) -> Result<(), String> {
        self.shutdowns.fetch_add(1, Ordering::SeqCst);
        Ok(())
    }
}

#[test]
fn core_lifecycle_runs_each_component_once() {
    let runs = Arc::new(AtomicUsize::new(0));
    let shutdowns = Arc::new(AtomicUsize::new(0));
    let mut core = CoreArchitecture::new();
    let good = Counted { runs: runs.clone(), shutdowns: shutdowns.clone(), init_ok: true };
    let bad = Counted { runs: runs.clone(), shutdowns: shutdowns.clone(), init_ok: false };
    assert!(core.add_component(Box::new(good)).is_ok());
    assert_eq!(core.add_component(Box::new(bad)), Err("init failed".to_string()));
    assert_eq!(core.components.len(), 1);
    core.run();
    core.run();
    assert_eq!(core.state, LifecycleState::Running);
    assert_eq!(runs.load(Ordering::SeqCst), 1);
    core.shutdown();
    core.shutdown();
    assert_eq!(core.state, LifecycleState::Shutdown);
    assert_eq!(shutdowns.load(Ordering::SeqCst), 1);
    core.run();
    assert_eq!(core.state, LifecycleState::Shutdown);
}

#[test]
fn architecture_config_defaults() {
    let c = ArchitectureConfig::default();
    assert!(c.debug_mode);
    assert!(c.performance_monitoring);
    assert_eq!(c.component_timeout_ms, 5000);
}

#[test]
fn base64_known_values() {
    assert_eq!(base64::encode(b"Man"), "TWFu");
    assert_eq!(base64::encode(b"Ma"), "TWE=");
    assert_eq!(base64::encode(&[0x4d]), "TQ==");
    assert_eq!(base64::encode(&[]), "");
    assert_eq!(base64::decode("TWFu"), Ok(b"Man".to_vec()));
    assert_eq!(base64::decode("TQ=="), Ok(vec![0x4d]));
    assert_eq!(base64::decode("TWE="), Ok(vec![0x4d, 0x61]));
    assert_eq!(base64::decode("TQAA"), Ok(vec![0x4d, 0, 0]));
    assert_eq!(base64::decode("TWE"), Ok(vec![0x4d, 0x61]));
    assert!(base64::is_decodable("TQ=="));
    assert!(!base64::is_decodable("T*=="));
}

#[test]
fn base64_roundtrip_for_every_length() {
    for n in 0u8..10 {
        let data: Vec<u8> = (0..n).map(|i| i.wrapping_mul(37).wrapping_add(5)).collect();
        let text = base64::encode(&data);
        assert_eq!(text.len(), 4 * ((data.len() + 2) / 3));
        let pads = (3 - data.len() % 3) % 3;
        assert_eq!(text.chars().rev().take_while(|&c| c == '=').count(), pads);
        assert_eq!(base64::decode(&text), Ok(data));
    }
    let signature_sized: Vec<u8> = (0u8..64).collect();
    let text = base64::encode(&signature_sized);
    assert_eq!(text.len(), 88);
    assert!(text.ends_with("=="));
    assert_eq!(base64::decode(&text), Ok(signature_sized));
}

#[test]
fn token_identifier_text() {
    let text = moda_core::security::base64::encode([0u8; 32]);
    assert_eq!(text, format!("{}=", "A".repeat(43)));
    let text = moda_core::security::base64::encode([0xffu8; 32]);
    assert_eq!(text, format!("{}8=", "/".repeat(42)));
}

#[test]
fn control_message_bytes() {
    let m = Message::new_control(0x0102, ControlMessage::Ping, Priority::High);
    let bytes = serialize(&m).unwrap();
    let mut expected = vec![0x02, 0x01, 0, 0, 0, 0, 0, 0];
    expected.extend_from_slice(&[0; 8]);
    expected.extend_from_slice(&[0, 3, 2]);
    assert_eq!(bytes, expected);
    let back = deserialize(&bytes).unwrap();
    assert_eq!(back.id, 0x0102);
    assert_eq!(back.msg_type, Content::Control(ControlMessage::Ping));
    assert_eq!(back.priority, Priority::High);
    assert_eq!(back.timestamp, std::time::SystemTime::UNIX_EPOCH);
}

#[test]
fn data_message_roundtrip() {
    let m = Message::new_data(7, "图像".to_string(), vec![9, 8], Priority::Low);
    let bytes = serialize(&m).unwrap();
    assert_eq!(bytes[16], 1);
    assert_eq!(&bytes[17..21], &[6, 0, 0, 0]);
    assert!(is_readable(&bytes));
    let back = deserialize(&bytes).unwrap();
    assert_eq!(back.id, 7);
    assert_eq!(back.msg_type, m.msg_type);
    assert_eq!(back.priority, Priority::Low);
    let e = Message::new_event(9, "click".to_string(), vec![], Priority::Critical);
    let back = deserialize(&serialize(&e).unwrap()).unwrap();
    assert_eq!(back.msg_type, e.msg_type);
    assert_eq!(back.priority, Priority::Critical);
}

#[test]
fn lossy_names_are_replaced() {
    let mut bytes = vec![1, 0, 0, 0, 0, 0, 0, 0];
    bytes.extend_from_slice(&[0; 8]);
    bytes.extend_from_slice(&[1, 1, 0, 0, 0, 0xff, 0, 0, 0, 0, 1]);
    let back = deserialize(&bytes).unwrap();
    match back.msg_type {
        Content::Data(d) => {
            assert_eq!(d.data_type, "\u{fffd}");
            assert!(d.data.is_empty());
        }
        _ => panic!("expected a data message"),
    }
    assert_eq!(back.priority, Priority::Medium);
}

#[test]
fn deserialize_errors() {
    assert_eq!(deserialize(&[0; 10]), Err("Invalid message length".to_string()));
    let mut b = vec![0u8; 17];
    b[16] = 3;
    assert_eq!(deserialize(&b), Err("Invalid message type".to_string()));
    let mut b = vec![0u8; 19];
    b[17] = 9;
    assert_eq!(deserialize(&b), Err("Invalid control message type".to_string()));
    let mut b = vec![0u8; 19];
    b[18] = 7;
    assert_eq!(deserialize(&b), Err("Invalid priority".to_string()));
    assert!(!is_readable(&[0u8; 16]));
    assert!(!is_readable(&[0u8; 18]));
    let mut b = vec![0u8; 21];
    b[16] = 1;
    b[17] = 200;
    assert!(!is_readable(&b));
}

#[test]
fn transport_encrypts_and_reads_back() {
    let mut ipc = IPCManager::new();
    let m = Message::new_data(5, "text".to_string(), vec![1, 2, 3], Priority::Medium);
    assert_eq!(
        ipc.security.encrypt_message(vec![1]),
        Err("No encryption key found".to_string())
    );
    assert_eq!(ipc.create_channel(1, 2), Ok(0));
    assert_eq!(
        ipc.send_message(0, m.clone()),
        Err("No encryption key found".to_string())
    );
    assert!(ipc.init().is_ok());
    assert_eq!(ipc.security.encrypt_message(vec![0x10, 0x00, 0xff]), Ok(vec![0x11, 0x02, 0xfc]));
    let plain: Vec<u8> = (0u8..40).collect();
    let sealed = ipc.security.encrypt_message(plain.clone()).unwrap();
    assert_ne!(sealed, plain);
    assert_eq!(sealed[16], 16 ^ 0x01);
    assert_eq!(ipc.security.decrypt_message(sealed), Ok(plain));
    assert_eq!(ipc.create_channel(3, 4), Ok(1));
    assert!(ipc.send_message(0, m.clone()).is_ok());
    assert!(ipc.send_message(9, m.clone()).is_err());
    let encrypted = ipc.security.encrypt_message(serialize(&m).unwrap()).unwrap();
    let back = ipc.open_message(encrypted).unwrap();
    assert_eq!(back.id, 5);
    assert_eq!(back.msg_type, m.msg_type);
    assert_eq!(back.priority, Priority::Medium);
}

#[test]
fn channel_manager_numbers_and_closes() {
    let mut cm = ChannelManager::new();
    assert!(cm.init().is_ok());
    assert_eq!(cm.create_channel(1, 2), Ok(0));
    assert_eq!(cm.create_channel(2, 1), Ok(1));
    assert_eq!(cm.channels[&1].from, 2);
    assert_eq!(cm.channels[&1].status, ChannelStatus::Connected);
    assert!(cm.send_message(0, vec![1]).is_ok());
    assert_eq!(cm.send_message(5, vec![1]), Err("Channel 5 not found".to_string()));
    assert!(cm.close_channel(0).is_ok());
    assert_eq!(cm.close_channel(0), Err("Channel 0 not found".to_string()));
    let ch = cm.channels.get_mut(&1).unwrap();
    ch.close();
    assert_eq!(ch.status, ChannelStatus::Closing);
    assert_eq!(ch.send_message(vec![1]), Err("Channel is not connected".to_string()));
}

#[test]
fn sandbox_start_pause_resume_terminate() {
    let config = SandboxConfig::builder().name("sb").process_name("prog").build();
    let mut s = Sandbox::new(config);
    assert!(s.begin_start().is_ok());
    assert!(s.complete_start(Ok(42)).is_ok());
    assert_eq!(s.state(), SandboxState::Running);
    assert_eq!(s.pid(), Some(42));
    assert_eq!(s.begin_start(), Err("沙箱 sb 已处于 Running 状态，无法启动".to_string()));
    assert_eq!(s.resume(), Err("沙箱 sb 未处于暂停状态，无法恢复".to_string()));
    assert!(s.pause().is_ok());
    assert_eq!(s.state(), SandboxState::Paused);
    assert_eq!(s.pause(), Err("沙箱 sb 未处于运行状态，无法暂停".to_string()));
    assert!(s.resume().is_ok());
    assert_eq!(s.state(), SandboxState::Running);
    assert_eq!(s.terminate(Err("denied".to_string())), Err("denied".to_string()));
    assert_eq!(s.state(), SandboxState::Running);
    assert_eq!(s.pid(), Some(42));
    assert!(s.terminate(Ok(())).is_ok());
    assert_eq!(s.state(), SandboxState::Terminated);
    assert_eq!(s.pid(), None);
}

#[test]
fn sandbox_spawn_failure_crashes() {
    let mut s = Sandbox::new(SandboxConfig::default());
    assert_eq!(
        s.complete_start(Err("not found".to_string())),
        Err("启动沙箱进程失败: not found".to_string())
    );
    assert_eq!(s.state(), SandboxState::Crashed);
    assert_eq!(
        s.complete_start(Ok(1)),
        Err("沙箱 default 已处于 Crashed 状态，无法启动".to_string())
    );
    assert_eq!(s.pid(), None);
}

#[test]
fn sandbox_manager_shutdown_names_processes() {
    let mut manager = SandboxManager::new();
    manager.run();
    let first = manager.create_sandbox(SandboxConfig::builder().name("a").build()).unwrap();
    assert_eq!(first.state(), SandboxState::Created);
    let mut running = Sandbox::new(SandboxConfig::builder().name("b").build());
    running.complete_start(Ok(77)).unwrap();
    manager.sandboxes.push(running);
    assert_eq!(manager.get_sandbox("b").unwrap().pid(), Some(77));
    assert_eq!(manager.shutdown(), vec![77]);
    assert_eq!(manager.state, LifecycleState::Shutdown);
    assert!(manager.sandboxes.is_empty());
    assert!(manager.shutdown().is_empty());
    manager.run();
    assert_eq!(manager.state, LifecycleState::Shutdown);
}

#[test]
fn sandbox_builder_and_defaults() {
    let c = SandboxConfig::default();
    assert_eq!(c.name, "default");
    assert_eq!(c.process_name, "");
    assert_eq!(c.resource_limits.max_cpu_percent, None);
    let c = SandboxConfig::builder()
        .args(&["-a", "-b"])
        .arg("-c")
        .cwd("/tmp")
        .env("K", "V")
        .max_file_descriptors(64)
        .max_processes(3)
        .build();
    assert_eq!(c.args, vec!["-a", "-b", "-c"]);
    assert_eq!(c.cwd, Some("/tmp".to_string()));
    assert_eq!(c.env, vec![("K".to_string(), "V".to_string())]);
    assert_eq!(c.resource_limits.max_file_descriptors, Some(64));
    assert_eq!(c.resource_limits.max_processes, Some(3));
    assert_eq!(c.resource_limits.max_memory_mb, Some(1024));
    let copy = Sandbox::new(c).duplicate();
    assert_eq!(copy.config.args, vec!["-a", "-b", "-c"]);
}

fn token(resource: &str, permissions: Vec<Permission>, expires_at: u64) -> CapabilityToken {
    CapabilityToken {
        id: "t".to_string(),
        resource: resource.to_string(),
        permissions,
        expires_at,
        issuer: "i".to_string(),
        subject: "s".to_string(),
    }
}

#[test]
fn token_issued_at_a_time() {
    let mut cm = CapabilityManager::new();
    let t = cm.issue_token_at("/r", vec![Permission::Read], "me", [1u8; 32], 1000);
    assert_eq!(t.expires_at, 4600);
    assert_eq!(t.id, moda_core::security::base64::encode([1u8; 32]));
    assert_eq!(t.issuer, "moda-security-framework");
    assert_eq!(cm.issued_tokens.len(), 1);
    assert_eq!(cm.issued_tokens[0].id, t.id);
    let f = SecurityFramework::new();
    assert!(f.verify_capability_at(&t, "/r", &Permission::Read, 4600));
    assert!(!f.verify_capability_at(&t, "/r", &Permission::Read, 4601));
    assert!(!f.verify_capability_at(&t, "/other", &Permission::Read, 100));
    let all = token("/r", vec![Permission::All], 10);
    assert!(f.verify_capability_at(&all, "/r", &Permission::Delete, 10));
    assert!(!f.verify_capability(&token("/r", vec![Permission::Read], 0), "/r", &Permission::Read));
}

#[test]
fn revoke_keeps_other_tokens() {
    let mut cm = CapabilityManager::new();
    let a = cm.issue_token_at("/a", vec![], "x", [1u8; 32], 0);
    let b = cm.issue_token_at("/b", vec![], "x", [2u8; 32], 0);
    assert!(cm.revoke_token(&a.id));
    assert_eq!(cm.issued_tokens.len(), 1);
    assert_eq!(cm.issued_tokens[0].id, b.id);
    assert!(!cm.revoke_token(&a.id));
    assert_eq!(cm.issued_tokens.len(), 1);
}

#[test]
fn framework_run_and_shutdown() {
    let mut f = SecurityFramework::new();
    assert_eq!(f.policy_manager.policy, SecurityPolicy::DefaultDeny);
    f.run();
    assert_eq!(f.state, LifecycleState::Running);
    assert_eq!(f.policy_manager.policy, SecurityPolicy::CapabilityBased);
    f.capability_manager.issue_token("/r", vec![Permission::Read], "me").unwrap();
    f.shutdown();
    assert_eq!(f.state, LifecycleState::Shutdown);
    assert!(f.capability_manager.issued_tokens.is_empty());
    f.run();
    assert_eq!(f.state, LifecycleState::Shutdown);
}

#[test]
fn policy_decisions() {
    let mut pm = PolicyManager::new();
    assert!(!pm.check_policy("/a", &Permission::Read));
    pm.add_policy_rule(PolicyRule {
        resource_pattern: "/a".to_string(),
        allowed_permissions: vec![Permission::Read],
        condition: None,
    });
    assert!(pm.check_policy("/a", &Permission::Read));
    assert!(!pm.check_policy("/a", &Permission::Write));
    assert!(!pm.check_policy("/b", &Permission::Read));
    pm.policy = SecurityPolicy::DefaultAllow;
    assert!(!pm.check_policy("/a", &Permission::Write));
    assert!(pm.check_policy("/a", &Permission::Read));
    assert!(pm.check_policy("/b", &Permission::Delete));
    pm.policy = SecurityPolicy::CapabilityBased;
    assert!(pm.check_policy("/a", &Permission::Write));
}

#[test]
fn policy_capability_checks() {
    let t = token("/r", vec![Permission::Read], 0);
    assert_eq!(SecurityPolicy::new(), SecurityPolicy::DefaultDeny);
    assert!(SecurityPolicy::DefaultDeny.verify_capability(&t, "read"));
    assert!(!SecurityPolicy::DefaultDeny.verify_capability(&t, "write"));
    assert!(!SecurityPolicy::CapabilityBased.verify_capability(&t, "bogus"));
    assert!(SecurityPolicy::DefaultAllow.verify_capability(&t, "bogus"));
    let all = token("/r", vec![Permission::All], 0);
    assert!(SecurityPolicy::CapabilityBased.verify_capability(&all, "delete"));
    let mut ipc = IPCManager::new();
    assert!(ipc.security.verify_capability(&t, "read"));
    ipc.security.add_policy(SecurityPolicy::DefaultAllow);
    assert!(ipc.security.verify_capability(&t, "write"));
}

#[test]
fn str_equal_compares_text() {
    assert!(str_equal("abc", "abc"));
    assert!(!str_equal("abc", "abd"));
    assert!(!str_equal("ab", "abc"));
}

fn message(sender: &str, receiver: &str, token: Option<CapabilityToken>) -> IpcMessage {
    IpcMessage {
        id: "m".to_string(),
        sender: sender.to_string(),
        receiver: receiver.to_string(),
        message_type: MessageType::Notification,
        payload: vec![1],
        capability_token: token,
        timestamp: 0,
        signature: None,
    }
}

fn channel(seed: [u8; 32]) -> IpcChannel {
    IpcChannel::new(
        "c".to_string(),
        "alice".to_string(),
        "bob".to_string(),
        Arc::new(SecurityFramework::new()),
        Arc::new(KeyPair::from_seed(seed)),
    )
}

#[test]
fn key_pair_signs() {
    let pair = KeyPair::from_seed([7u8; 32]);
    let public = pair.public_key();
    assert_eq!(public.len(), 32);
    assert_ne!(public, vec![7u8; 32]);
    let sig = pair.sign(b"hello");
    assert_eq!(sig.len(), 64);
    assert_eq!(sig, KeyPair::from_seed([7u8; 32]).sign(b"hello"));
    assert_ne!(sig, pair.sign(b"hellp"));
}

#[test]
fn channel_validates_messages() {
    let ch = channel([3u8; 32]);
    assert!(ch.validate_message_at(&message("alice", "bob", None), 0).is_ok());
    assert_eq!(
        ch.validate_message_at(&message("eve", "bob", None), 0),
        Err("发送者不匹配: 期望 alice, 实际 eve".to_string())
    );
    assert_eq!(
        ch.validate_message_at(&message("alice", "carol", None), 0),
        Err("接收者不匹配: 期望 bob, 实际 carol".to_string())
    );
    let good = token("bob", vec![Permission::Write], 100);
    assert!(ch.validate_message_at(&message("alice", "bob", Some(good.clone())), 100).is_ok());
    assert_eq!(
        ch.validate_message_at(&message("alice", "bob", Some(good)), 101),
        Err("能力令牌验证失败".to_string())
    );
    let read_only = token("bob", vec![Permission::Read], u64::MAX);
    assert!(ch.validate_message(&message("alice", "bob", Some(read_only))).is_err());
}

#[test]
fn channel_sends_and_checks_signatures() {
    let ch = channel([3u8; 32]);
    let stamped = ch.prepare_send(message("alice", "bob", None), 1234).unwrap();
    assert_eq!(stamped.timestamp, 1234);
    assert!(ch.prepare_send(message("eve", "bob", None), 1).is_err());
    let sig = ch.sign_message(b"payload").unwrap();
    assert_eq!(sig.len(), 88);
    assert!(ch.complete_send(stamped, b"payload").is_ok());
    let unsigned = message("alice", "bob", None);
    assert_eq!(
        ch.verify_signature(&unsigned, b"payload"),
        Err("消息缺少签名".to_string())
    );
    let mut signed = message("alice", "bob", None);
    signed.signature = Some(sig);
    let accepted = ch.accept_received(signed.clone(), b"payload", 0).unwrap();
    assert_eq!(accepted.signature, signed.signature);
    assert_eq!(accepted.id, signed.id);
    assert_eq!(
        ch.accept_received(signed.clone(), b"payloaf", 0).err(),
        Some("签名验证失败".to_string())
    );
    signed.sender = "eve".to_string();
    assert_eq!(
        ch.accept_received(signed, b"payload", 0).err(),
        Some("发送者不匹配: 期望 alice, 实际 eve".to_string())
    );
}

#[test]
fn ipc_manager_names_channels() {
    let mut ipc = IpcManager::new(Arc::new(SecurityFramework::new()));
    let pair = Arc::new(KeyPair::from_seed([1u8; 32]));
    let c = ipc
        .create_channel("c".to_string(), "a".to_string(), "b".to_string(), pair.clone())
        .unwrap();
    assert_eq!(c.id(), "c");
    assert_eq!(
        ipc.create_channel("c".to_string(), "x".to_string(), "y".to_string(), pair.clone())
            .err(),
        Some("IPC 通道 c 已存在".to_string())
    );
    ipc.create_channel("d".to_string(), "x".to_string(), "y".to_string(), pair).unwrap();
    assert_eq!(ipc.get_channel("d").unwrap().sender_id(), "x");
    assert_eq!(ipc.get_channel("c").unwrap().sender_id(), "a");
    assert_eq!(ipc.remove_channel("z"), Err("IPC 通道 z 不存在".to_string()));
    assert!(ipc.remove_channel("c").is_ok());
    assert!(ipc.get_channel("c").is_none());
    assert!(ipc.get_channel("d").is_some());
    ipc.run();
    ipc.shutdown();
    assert!(ipc.get_channel("d").is_none());
}

#[test]
fn message_clone_keeps_timestamp() {
    let m = Message::new_control(1, ControlMessage::Connect, Priority::Low);
    let c = m.clone();
    assert_eq!(c, m);
}

#[test]
fn send_after_the_receiving_half_is_gone_says_the_channel_closed() {
    let mut channel = Channel::new(1, 2);
    let (tx, rx) = tokio::sync::mpsc::unbounded_channel::<Vec<u8>>();
    drop(rx);
    channel.sender = tx;
    assert_eq!(
        channel.send_message(vec![1, 2, 3]),
        Err("Failed to send message: channel closed".to_string())
    );
}

#[test]
fn token_from_given_bytes_and_clock() {
    let mut cm = CapabilityManager::new();
    assert_eq!(
        cm.issue_token_from("/r", vec![Permission::Read], "me", None, 0).err(),
        Some("no random bytes for a token identifier".to_string())
    );
    assert_eq!(
        cm.issue_token_from("/r", vec![Permission::Read], "me", Some([2u8; 32]), u64::MAX - 3599)
            .err(),
        Some("system clock beyond the range of token expiry".to_string())
    );
    assert!(cm.issued_tokens.is_empty());
    let t = cm
        .issue_token_from("/r", vec![Permission::Read], "me", Some([2u8; 32]), u64::MAX - 3600)
        .unwrap();
    assert_eq!(t.expires_at, u64::MAX);
    assert_eq!(t.id, moda_core::security::base64::encode([2u8; 32]));
    assert_eq!(t.subject, "me");
    assert_eq!(cm.issued_tokens.len(), 1);
    assert_eq!(cm.issued_tokens[0].id, t.id);
}

#[test]
fn signed_message_carries_the_channel_signature() {
    let ch = channel([3u8; 32]);
    let m = message("alice", "bob", None);
    let s = ch.signed(m.clone(), b"payload");
    assert_eq!(s.signature, Some(ch.sign_message(b"payload").unwrap()));
    assert_ne!(s.signature, Some(ch.sign_message(b"other").unwrap()));
    assert_eq!(s.id, m.id);
    assert_eq!(s.sender, m.sender);
    assert_eq!(s.receiver, m.receiver);
    assert_eq!(s.payload, m.payload);
    assert_eq!(s.timestamp, m.timestamp);
}

#[test]
fn sandbox_has_a_process_exactly_while_active() {
    let active = |s: &Sandbox| matches!(s.state(), SandboxState::Running | SandboxState::Paused);
    let mut s = Sandbox::new(SandboxConfig::builder().name("p").build());
    assert_eq!(s.pid().is_some(), active(&s));
    s.complete_start(Ok(41)).unwrap();
    assert_eq!(s.pid(), Some(41));
    assert!(s.complete_start(Ok(42)).is_err());
    assert_eq!(s.pid(), Some(41));
    s.pause().unwrap();
    assert_eq!(s.pid().is_some(), active(&s));
    assert!(s.terminate(Err("denied".to_string())).is_err());
    assert_eq!(s.pid(), Some(41));
    assert_eq!(s.state(), SandboxState::Paused);
    s.terminate(Ok(())).unwrap();
    assert_eq!(s.pid(), None);
    assert_eq!(s.pid().is_some(), active(&s));
}

#[test]
fn ipc_manager_second_shutdown_changes_nothing() {
    let mut ipc = IpcManager::new(Arc::new(SecurityFramework::new()));
    let pair = Arc::new(KeyPair::from_seed([1u8; 32]));
    ipc.create_channel("c".to_string(), "a".to_string(), "b".to_string(), pair).unwrap();
    ipc.run();
    ipc.shutdown();
    ipc.shutdown();
    assert!(ipc.get_channel("c").is_none());
    ipc.run();
    assert!(ipc.get_channel("c").is_none());
}

#[test]
fn key_pair_from_drawn_seed() {
    let k = IpcManager::key_pair_from(Some([4u8; 32])).unwrap();
    assert_eq!(k.public_key(), KeyPair::from_seed([4u8; 32]).public_key());
    assert_eq!(
        IpcManager::key_pair_from(None).err(),
        Some("生成随机种子失败: ring::error::Unspecified".to_string())
    );
}

#[test]
fn clock_reading_before_the_epoch_is_the_epoch() {
    assert_eq!(moda_core::clock::seconds_or_epoch(Some(1234)), 1234);
    assert_eq!(moda_core::clock::seconds_or_epoch(None), 0);
}

#[test]
fn process_error_texts() {
    assert_eq!(open_process_error(5), "无法获取进程终止权限");
    assert_eq!(open_process_error(87), "无效的进程 ID");
    assert_eq!(open_process_error(1450), "打开进程失败，错误代码: 1450");
    assert_eq!(open_process_error(-7), "打开进程失败，错误代码: -7");
    assert_eq!(terminate_process_error(0), "终止进程失败，错误代码: 0");
    assert_eq!(terminate_process_error(i32::MIN), "终止进程失败，错误代码: -2147483648");
}

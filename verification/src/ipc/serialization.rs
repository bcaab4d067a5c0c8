//! The byte format of messages.
//!
//! A message is written as its identifier (8 bytes, little endian), 8 zero
//! bytes in place of its timestamp, a tag byte (0 control, 1 data, 2 event)
//! with what the kind carries, and a priority byte (0 low to 3 critical).
//! A control message carries one code byte; a data or event message carries
//! the length of its name (4 bytes, little endian), the name's UTF-8 bytes,
//! the length of its bytes (4 bytes) and the bytes. The timestamp is not
//! read back: a decoded message is stamped with the Unix epoch.
use vstd::prelude::*;
use vstd::bytes::{spec_u32_from_le_bytes, spec_u32_to_le_bytes, spec_u64_from_le_bytes, spec_u64_to_le_bytes};
use vstd::utf8::{decode_utf8, encode_utf8, valid_utf8};
use crate::clock::unix_epoch;
use crate::ipc::message::{ControlMessage, DataMessage, EventMessage, Message, MessageKind, MessageType, Priority};
use crate::text::append_bytes;

verus! {

/// The characters that `String::from_utf8_lossy` reads from bytes that are
/// not valid UTF-8, with replacement characters in place of the invalid
/// sequences.
pub uninterp spec fn utf8_with_replacements(bytes: Seq<u8>) -> Seq<char>;

/// The characters that `String::from_utf8_lossy` reads from bytes: valid
/// UTF-8 is decoded as it stands.
pub open spec fn lossy_utf8(bytes: Seq<u8>) -> Seq<char> {
    if valid_utf8(bytes) {
        decode_utf8(bytes)
    } else {
        utf8_with_replacements(bytes)
    }
}

/// Reads bytes as text, replacing what is not UTF-8.
///
/// Trusted: wraps `String::from_utf8_lossy` and `to_string`. std documents
/// that valid UTF-8 is read as it stands, without replacement; what comes
/// of other bytes is named by `utf8_with_replacements`.
#[verifier::external_body]
fn lossy_text(bytes: &[u8]) -> (r: String)
    ensures
        r@ == (if valid_utf8(bytes@) {
            decode_utf8(bytes@)
        } else {
            utf8_with_replacements(bytes@)
        }),
{
    String::from_utf8_lossy(bytes).to_string()
}

/// The code byte of a control message.
pub open spec fn control_code(c: ControlMessage) -> u8 {
    match c {
        ControlMessage::Connect => 0,
        ControlMessage::ConnectAck => 1,
        ControlMessage::Disconnect => 2,
        ControlMessage::Ping => 3,
        ControlMessage::Pong => 4,
    }
}

/// The control message of a code byte, if the byte is one.
pub open spec fn control_of(b: u8) -> Option<ControlMessage> {
    if b == 0 {
        Some(ControlMessage::Connect)
    } else if b == 1 {
        Some(ControlMessage::ConnectAck)
    } else if b == 2 {
        Some(ControlMessage::Disconnect)
    } else if b == 3 {
        Some(ControlMessage::Ping)
    } else if b == 4 {
        Some(ControlMessage::Pong)
    } else {
        None
    }
}

/// The byte of a priority.
pub open spec fn priority_code(p: Priority) -> u8 {
    match p {
        Priority::Low => 0,
        Priority::Medium => 1,
        Priority::High => 2,
        Priority::Critical => 3,
    }
}

/// The priority of a byte, if the byte is one.
pub open spec fn priority_of(b: u8) -> Option<Priority> {
    if b == 0 {
        Some(Priority::Low)
    } else if b == 1 {
        Some(Priority::Medium)
    } else if b == 2 {
        Some(Priority::High)
    } else if b == 3 {
        Some(Priority::Critical)
    } else {
        None
    }
}

/// A name and its bytes, each preceded by its length; a length is written in
/// 32 bits and keeps only the low 32 bits of a longer one.
pub open spec fn encode_section(name: Seq<char>, body: Seq<u8>) -> Seq<u8> {
    spec_u32_to_le_bytes(encode_utf8(name).len() as u32) + encode_utf8(name) + spec_u32_to_le_bytes(
        body.len() as u32,
    ) + body
}

/// The bytes of what a message carries, tag first.
pub open spec fn encode_kind(k: MessageKind) -> Seq<u8> {
    match k {
        MessageKind::Control(c) => seq![0u8, control_code(c)],
        MessageKind::Data(t, b) => seq![1u8] + encode_section(t, b),
        MessageKind::Event(t, b) => seq![2u8] + encode_section(t, b),
    }
}

/// The bytes of a message with the given identifier, content and priority.
pub open spec fn encode_message(id: u64, k: MessageKind, p: Priority) -> Seq<u8> {
    spec_u64_to_le_bytes(id) + Seq::new(8, |i: int| 0u8) + encode_kind(k) + seq![priority_code(p)]
}

/// The name, the bytes and the next offset of a section that starts at
/// `off`; `None` when a length or a part reaches past the end of `s`.
pub open spec fn read_section(s: Seq<u8>, off: int) -> Option<(Seq<char>, Seq<u8>, int)> {
    if off + 4 > s.len() {
        None
    } else {
        let l1 = spec_u32_from_le_bytes(s.subrange(off, off + 4)) as int;
        let o1 = off + 4;
        if o1 + l1 > s.len() {
            None
        } else {
            let o2 = o1 + l1;
            if o2 + 4 > s.len() {
                None
            } else {
                let l2 = spec_u32_from_le_bytes(s.subrange(o2, o2 + 4)) as int;
                let o3 = o2 + 4;
                if o3 + l2 > s.len() {
                    None
                } else {
                    Some((lossy_utf8(s.subrange(o1, o2)), s.subrange(o3, o3 + l2), o3 + l2))
                }
            }
        }
    }
}

/// The outcome once the content ends at `off`: the priority byte there
/// decides; `None` when there is no byte there.
pub open spec fn finish_decode(s: Seq<u8>, off: int, id: u64, k: MessageKind) -> Option<
    Result<(u64, MessageKind, Priority), Seq<char>>,
> {
    if off >= s.len() {
        None
    } else {
        match priority_of(s[off]) {
            Some(p) => Some(Ok((id, k, p))),
            None => Some(Err("Invalid priority"@)),
        }
    }
}

/// What decoding `s` gives: the identifier, content and priority of the
/// message, or the text of the error; `None` when decoding reads past the
/// end of `s`.
pub open spec fn decode_message(s: Seq<u8>) -> Option<Result<(u64, MessageKind, Priority), Seq<char>>> {
    if s.len() < 11 {
        Some(Err("Invalid message length"@))
    } else if s.len() <= 16 {
        None
    } else {
        let id = spec_u64_from_le_bytes(s.subrange(0, 8));
        let tag = s[16];
        if tag == 0 {
            if s.len() <= 17 {
                None
            } else {
                match control_of(s[17]) {
                    Some(c) => finish_decode(s, 18, id, MessageKind::Control(c)),
                    None => Some(Err("Invalid control message type"@)),
                }
            }
        } else if tag == 1 {
            match read_section(s, 17) {
                Some((t, b, o)) => finish_decode(s, o, id, MessageKind::Data(t, b)),
                None => None,
            }
        } else if tag == 2 {
            match read_section(s, 17) {
                Some((t, b, o)) => finish_decode(s, o, id, MessageKind::Event(t, b)),
                None => None,
            }
        } else {
            Some(Err("Invalid message type"@))
        }
    }
}

/// Appends a name and its bytes, each preceded by its length.
fn append_section(out: &mut Vec<u8>, name: &str, body: &[u8])
    ensures
        final(out)@ == old(out)@ + encode_section(name@, body@),
{
    let nb = name.as_bytes();
    let l1 = vstd::bytes::u32_to_le_bytes(nb.len() as u32);
    append_bytes(out, l1.as_slice());
    append_bytes(out, nb);
    let l2 = vstd::bytes::u32_to_le_bytes(body.len() as u32);
    append_bytes(out, l2.as_slice());
    append_bytes(out, body);
    assert(final(out)@ =~= old(out)@ + encode_section(name@, body@));
}

/// Writes a message in the byte format; this never fails.
pub fn serialize(msg: &Message) -> (r: Result<Vec<u8>, String>)
    ensures
        r matches Ok(v) && v@ == encode_message(msg.id, msg.msg_type@, msg.priority),
{
    let mut out: Vec<u8> = Vec::new();
    let idb = vstd::bytes::u64_to_le_bytes(msg.id);
    append_bytes(&mut out, idb.as_slice());
    let zeros: [u8; 8] = [0u8; 8];
    append_bytes(&mut out, zeros.as_slice());
    assert(zeros@ =~= Seq::new(8, |i: int| 0u8));
    let ghost head = out@;
    match &msg.msg_type {
        MessageType::Control(c) => {
            out.push(0u8);
            let code: u8 = match c {
                ControlMessage::Connect => 0,
                ControlMessage::ConnectAck => 1,
                ControlMessage::Disconnect => 2,
                ControlMessage::Ping => 3,
                ControlMessage::Pong => 4,
            };
            out.push(code);
        },
        MessageType::Data(d) => {
            out.push(1u8);
            append_section(&mut out, d.data_type.as_str(), d.data.as_slice());
        },
        MessageType::Event(e) => {
            out.push(2u8);
            append_section(&mut out, e.event_type.as_str(), e.event_data.as_slice());
        },
    }
    assert(out@ =~= head + encode_kind(msg.msg_type@));
    let pcode: u8 = match msg.priority {
        Priority::Low => 0,
        Priority::Medium => 1,
        Priority::High => 2,
        Priority::Critical => 3,
    };
    out.push(pcode);
    assert(out@ =~= encode_message(msg.id, msg.msg_type@, msg.priority));
    Ok(out)
}

/// Reads the section that starts at `off`.
fn take_section(data: &[u8], off: usize) -> (r: (String, Vec<u8>, usize))
    requires
        read_section(data@, off as int) is Some,
    ensures
        read_section(data@, off as int) == Some((r.0@, r.1@, r.2 as int)),
{
    assert(data@.len() == data.len());
    let l1 = vstd::bytes::u32_from_le_bytes(vstd::slice::slice_subrange(data, off, off + 4)) as usize;
    let o1 = off + 4;
    let o2 = o1 + l1;
    let name = lossy_text(vstd::slice::slice_subrange(data, o1, o2));
    let l2 = vstd::bytes::u32_from_le_bytes(vstd::slice::slice_subrange(data, o2, o2 + 4)) as usize;
    let o3 = o2 + 4;
    let body = vstd::slice::slice_to_vec(vstd::slice::slice_subrange(data, o3, o3 + l2));
    (name, body, o3 + l2)
}

/// Whether a section fits at `off`.
fn section_fits(data: &[u8], off: usize) -> (r: bool)
    ensures
        r == (read_section(data@, off as int) is Some),
{
    assert(data@.len() == data.len());
    let n = data.len();
    if off > n || n - off < 4 {
        return false;
    }
    let l1 = vstd::bytes::u32_from_le_bytes(vstd::slice::slice_subrange(data, off, off + 4)) as usize;
    let o1 = off + 4;
    if l1 > n - o1 {
        return false;
    }
    let o2 = o1 + l1;
    if n - o2 < 4 {
        return false;
    }
    let l2 = vstd::bytes::u32_from_le_bytes(vstd::slice::slice_subrange(data, o2, o2 + 4)) as usize;
    let o3 = o2 + 4;
    l2 <= n - o3
}

/// Whether [`deserialize`] reads within `data`: it is what its requirement
/// asks, and what a caller checks first.
pub fn is_readable(data: &[u8]) -> (r: bool)
    ensures
        r == (decode_message(data@) is Some),
{
    let n = data.len();
    if n < 11 {
        return true;
    }
    if n <= 16 {
        return false;
    }
    let tag = data[16];
    if tag == 0 {
        if n <= 17 {
            return false;
        }
        let code = data[17];
        if code > 4 {
            return true;
        }
        n > 18
    } else if tag == 1 || tag == 2 {
        if !section_fits(data, 17) {
            return false;
        }
        let (_, _, o) = take_section(data, 17);
        o < n
    } else {
        true
    }
}

/// Reads a message from the byte format.
///
/// The caller rules out input that the reader would run past the end of
/// (`decode_message` gives `None` for it); everything else gives either
/// the message, stamped with the Unix epoch, or one of the errors
/// "Invalid message length", "Invalid control message type",
/// "Invalid message type" and "Invalid priority".
pub fn deserialize(data: &[u8]) -> (r: Result<Message, String>)
    requires
        decode_message(data@) is Some,
    ensures
        match decode_message(data@).unwrap() {
            Ok((id, k, p)) => r matches Ok(m) && m.id == id && m.msg_type@ == k && m.priority == p,
            Err(e) => r matches Err(s) && s@ == e,
        },
{
    if data.len() < 11 {
        return Err(String::from_str("Invalid message length"));
    }
    let id = vstd::bytes::u64_from_le_bytes(vstd::slice::slice_subrange(data, 0, 8));
    let tag = data[16];
    let offset: usize;
    let msg_type: MessageType;
    if tag == 0 {
        let c = match data[17] {
            0 => ControlMessage::Connect,
            1 => ControlMessage::ConnectAck,
            2 => ControlMessage::Disconnect,
            3 => ControlMessage::Ping,
            4 => ControlMessage::Pong,
            _ => {
                return Err(String::from_str("Invalid control message type"));
            },
        };
        offset = 18;
        msg_type = MessageType::Control(c);
    } else if tag == 1 {
        let (data_type, body, o) = take_section(data, 17);
        offset = o;
        msg_type = MessageType::Data(DataMessage { data_type, data: body });
    } else if tag == 2 {
        let (event_type, body, o) = take_section(data, 17);
        offset = o;
        msg_type = MessageType::Event(EventMessage { event_type, event_data: body });
    } else {
        return Err(String::from_str("Invalid message type"));
    }
    let priority = match data[offset] {
        0 => Priority::Low,
        1 => Priority::Medium,
        2 => Priority::High,
        3 => Priority::Critical,
        _ => {
            return Err(String::from_str("Invalid priority"));
        },
    };
    Ok(Message { id, timestamp: unix_epoch(), msg_type, priority })
}

/// Whether every name and byte string of a content has a length that its
/// 32-bit length field holds.
pub open spec fn lengths_fit(k: MessageKind) -> bool {
    match k {
        MessageKind::Control(_) => true,
        MessageKind::Data(t, b) => encode_utf8(t).len() <= u32::MAX && b.len() <= u32::MAX,
        MessageKind::Event(t, b) => encode_utf8(t).len() <= u32::MAX && b.len() <= u32::MAX,
    }
}

/// A section written after `pre` is read back from where `pre` ends.
proof fn lemma_read_written_section(pre: Seq<u8>, t: Seq<char>, b: Seq<u8>, post: Seq<u8>)
    requires
        encode_utf8(t).len() <= u32::MAX,
        b.len() <= u32::MAX,
    ensures
        read_section(pre + encode_section(t, b) + post, pre.len() as int) == Some(
            (t, b, (pre.len() + encode_section(t, b).len()) as int),
        ),
{
    vstd::bytes::lemma_auto_spec_u32_to_from_le_bytes();
    vstd::utf8::encode_utf8_valid_utf8(t);
    vstd::utf8::encode_utf8_decode_utf8(t);
    let e = encode_utf8(t);
    let l1b = spec_u32_to_le_bytes(e.len() as u32);
    let l2b = spec_u32_to_le_bytes(b.len() as u32);
    let s = pre + encode_section(t, b) + post;
    let off = pre.len() as int;
    assert(s.subrange(off, off + 4) =~= l1b);
    let o1 = off + 4;
    let o2 = o1 + e.len();
    assert(s.subrange(o1, o2) =~= e);
    assert(s.subrange(o2, o2 + 4) =~= l2b);
    let o3 = o2 + 4;
    assert(s.subrange(o3, o3 + b.len()) =~= b);
}

/// Reading back what `serialize` wrote gives the identifier, the content
/// and the priority, provided every name and byte string is short enough
/// for its 32-bit length field.
pub proof fn lemma_deserialize_serialize(id: u64, k: MessageKind, p: Priority)
    requires
        lengths_fit(k),
    ensures
        decode_message(encode_message(id, k, p)) == Some(
            Ok::<(u64, MessageKind, Priority), Seq<char>>((id, k, p)),
        ),
{
    vstd::bytes::lemma_auto_spec_u64_to_from_le_bytes();
    let idb = spec_u64_to_le_bytes(id);
    let zeros = Seq::new(8, |i: int| 0u8);
    let pre = idb + zeros;
    let s = encode_message(id, k, p);
    assert(s.subrange(0, 8) =~= idb);
    match k {
        MessageKind::Control(c) => {
            assert(s =~= pre + seq![0u8, control_code(c)] + seq![priority_code(p)]);
            assert(s[16] == 0);
            assert(s[17] == control_code(c));
            assert(s[18] == priority_code(p));
        },
        MessageKind::Data(t, b) => {
            let pre1 = pre + seq![1u8];
            assert(s =~= pre1 + encode_section(t, b) + seq![priority_code(p)]);
            lemma_read_written_section(pre1, t, b, seq![priority_code(p)]);
            assert(s[16] == 1);
            assert(s[(pre1.len() + encode_section(t, b).len()) as int] == priority_code(p));
        },
        MessageKind::Event(t, b) => {
            let pre1 = pre + seq![2u8];
            assert(s =~= pre1 + encode_section(t, b) + seq![priority_code(p)]);
            lemma_read_written_section(pre1, t, b, seq![priority_code(p)]);
            assert(s[16] == 2);
            assert(s[(pre1.len() + encode_section(t, b).len()) as int] == priority_code(p));
        },
    }
}

} // verus!

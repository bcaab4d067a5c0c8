//! Protection of the bytes that travel between sandboxes: a named key store,
//! a repeating-key XOR cipher under the key named "default", and the policy
//! that capability checks go by.
use vstd::prelude::*;
use crate::security::{policy_admits, CapabilityToken, SecurityPolicy};
use crate::text::str_equal;

verus! {

/// The key stored under `name`: the first entry with that name.
pub open spec fn key_lookup(entries: Seq<(Seq<char>, Seq<u8>)>, name: Seq<char>) -> Option<Seq<u8>>
    decreases entries.len(),
{
    if entries.len() == 0 {
        None
    } else if entries[0].0 == name {
        Some(entries[0].1)
    } else {
        key_lookup(entries.drop_first(), name)
    }
}

/// The entries of a key store with their names and keys as sequences.
pub open spec fn entry_views(v: Seq<(String, Vec<u8>)>) -> Seq<(Seq<char>, Seq<u8>)> {
    v.map_values(|e: (String, Vec<u8>)| (e.0@, e.1@))
}

/// Each byte combined by exclusive or with the key byte at the same place
/// of the key repeated; nothing comes of an empty key.
pub open spec fn xor_with_key(msg: Seq<u8>, key: Seq<u8>) -> Seq<u8> {
    if key.len() == 0 {
        Seq::empty()
    } else {
        Seq::new(msg.len(), |i: int| msg[i] ^ key[i % key.len() as int])
    }
}

/// The built-in default key.
pub open spec fn default_key_bytes() -> Seq<u8> {
    seq![
        0x01u8, 0x02, 0x03, 0x04, 0x05, 0x06, 0x07, 0x08, 0x09, 0x10, 0x11, 0x12, 0x13, 0x14, 0x15,
        0x16,
    ]
}

/// Looking up a name after an entry is added at the end.
proof fn lemma_lookup_push(entries: Seq<(Seq<char>, Seq<u8>)>, x: (Seq<char>, Seq<u8>), n: Seq<char>)
    ensures
        key_lookup(entries.push(x), n) == (if key_lookup(entries, n) is Some {
            key_lookup(entries, n)
        } else if x.0 == n {
            Some(x.1)
        } else {
            None::<Seq<u8>>
        }),
    decreases entries.len(),
{
    if entries.len() > 0 {
        assert(entries.push(x).drop_first() =~= entries.drop_first().push(x));
        lemma_lookup_push(entries.drop_first(), x, n);
    } else {
        assert(entries.push(x).drop_first() =~= Seq::<(Seq<char>, Seq<u8>)>::empty());
        reveal_with_fuel(key_lookup, 2);
    }
}

/// Looking up a name after the entry at `i` is replaced by one with the same
/// name, when `i` is the first entry with that name.
proof fn lemma_lookup_update(
    entries: Seq<(Seq<char>, Seq<u8>)>,
    i: int,
    x: (Seq<char>, Seq<u8>),
    n: Seq<char>,
)
    requires
        0 <= i < entries.len(),
        entries[i].0 == x.0,
        forall|j: int| 0 <= j < i ==> entries[j].0 != x.0,
    ensures
        key_lookup(entries.update(i, x), n) == (if n == x.0 {
            Some(x.1)
        } else {
            key_lookup(entries, n)
        }),
    decreases i,
{
    if i > 0 {
        assert(entries.update(i, x).drop_first() =~= entries.drop_first().update(i - 1, x));
        lemma_lookup_update(entries.drop_first(), i - 1, x, n);
    } else {
        assert(entries.update(i, x).drop_first() =~= entries.drop_first());
    }
}

/// Protects messages and decides capability checks.
pub struct SecurityManager {
    /// Keys by name; the first entry of a name counts.
    encryption_keys: Vec<(String, Vec<u8>)>,
    /// The policy that capability checks go by.
    policy: SecurityPolicy,
}

impl SecurityManager {
    /// The stored keys.
    pub closed spec fn keys(&self) -> Seq<(Seq<char>, Seq<u8>)> {
        entry_views(self.encryption_keys@)
    }

    /// The policy in force.
    pub closed spec fn policy(&self) -> SecurityPolicy {
        self.policy
    }

    /// A manager without keys under the default-deny policy.
    pub fn new() -> (r: Self)
        ensures
            r.keys().len() == 0,
            r.policy() == SecurityPolicy::DefaultDeny,
    {
        SecurityManager { encryption_keys: Vec::new(), policy: SecurityPolicy::new() }
    }

    /// Stores the built-in key under "default"; this never fails.
    pub fn init(&mut self) -> (r: Result<(), String>)
        ensures
            r is Ok,
            forall|n: Seq<char>|
                #[trigger] key_lookup(final(self).keys(), n) == (if n == "default"@ {
                    Some(default_key_bytes())
                } else {
                    key_lookup(old(self).keys(), n)
                }),
            final(self).policy() == old(self).policy(),
    {
        let key = Self::generate_default_key();
        self.insert_key(String::from_str("default"), key);
        Ok(())
    }

    /// Stores `key` under `name`, in place of a key of that name.
    fn insert_key(&mut self, name: String, key: Vec<u8>)
        ensures
            forall|n: Seq<char>|
                #[trigger] key_lookup(final(self).keys(), n) == (if n == name@ {
                    Some(key@)
                } else {
                    key_lookup(old(self).keys(), n)
                }),
            final(self).policy() == old(self).policy(),
    {
        let ghost old_entries = self.keys();
        let found = self.position_of(name.as_str());
        let ghost x = (name@, key@);
        if let Some(i) = found {
            self.encryption_keys.set(i, (name, key));
            assert(entry_views(self.encryption_keys@) =~= old_entries.update(i as int, x));
            assert forall|m: Seq<char>| #[trigger] key_lookup(self.keys(), m) == (if m == x.0 {
                Some(x.1)
            } else {
                key_lookup(old_entries, m)
            }) by {
                lemma_lookup_update(old_entries, i as int, x, m);
            }
        } else {
            self.encryption_keys.push((name, key));
            assert(entry_views(self.encryption_keys@) =~= old_entries.push(x));
            assert forall|m: Seq<char>| #[trigger] key_lookup(self.keys(), m) == (if m == x.0 {
                Some(x.1)
            } else {
                key_lookup(old_entries, m)
            }) by {
                lemma_lookup_push(old_entries, x, m);
                if m == x.0 {
                    lemma_lookup_absent(old_entries, m);
                }
            }
        }
    }

    /// The key stored under `name`.
    fn find_key(&self, name: &str) -> (r: Option<&Vec<u8>>)
        ensures
            match key_lookup(self.keys(), name@) {
                Some(k) => r matches Some(v) && v@ == k,
                None => r is None,
            },
    {
        match self.position_of(name) {
            Some(i) => {
                proof {
                    lemma_lookup_first(self.keys(), i as int);
                }
                Some(&self.encryption_keys[i].1)
            },
            None => {
                proof {
                    lemma_lookup_absent(self.keys(), name@);
                }
                None
            },
        }
    }

    /// Where the first entry named `name` stands.
    fn position_of(&self, name: &str) -> (r: Option<usize>)
        ensures
            match r {
                Some(i) => i < self.keys().len() && self.keys()[i as int].0 == name@ && forall|j: int|
                    0 <= j < i ==> self.keys()[j].0 != name@,
                None => forall|j: int| 0 <= j < self.keys().len() ==> self.keys()[j].0 != name@,
            },
    {
        let n = self.encryption_keys.len();
        for i in 0..n
            invariant
                n == self.keys().len(),
                forall|j: int| 0 <= j < i ==> self.keys()[j].0 != name@,
        {
            if str_equal(self.encryption_keys[i].0.as_str(), name) {
                return Some(i);
            }
        }
        None
    }

    /// The built-in default key.
    fn generate_default_key() -> (r: Vec<u8>)
        ensures
            r@ == default_key_bytes(),
    {
        let r = vec![
            0x01u8, 0x02, 0x03, 0x04, 0x05, 0x06, 0x07, 0x08, 0x09, 0x10, 0x11, 0x12, 0x13, 0x14,
            0x15, 0x16,
        ];
        assert(r@ =~= default_key_bytes());
        r
    }

    /// Encrypts a message with the key stored under "default"; fails when
    /// there is none.
    pub fn encrypt_message(&self, msg: Vec<u8>) -> (r: Result<Vec<u8>, String>)
        ensures
            match key_lookup(self.keys(), "default"@) {
                Some(k) => r matches Ok(v) && v@ == xor_with_key(msg@, k),
                None => r matches Err(e) && e@ == "No encryption key found"@,
            },
    {
        match self.find_key("default") {
            Some(key) => Ok(xor_bytes(&msg, key)),
            None => Err(String::from_str("No encryption key found")),
        }
    }

    /// Decrypts a message with the key stored under "default"; fails when
    /// there is none.
    pub fn decrypt_message(&self, encrypted_msg: Vec<u8>) -> (r: Result<Vec<u8>, String>)
        ensures
            match key_lookup(self.keys(), "default"@) {
                Some(k) => r matches Ok(v) && v@ == xor_with_key(encrypted_msg@, k),
                None => r matches Err(e) && e@ == "No encryption key found"@,
            },
    {
        match self.find_key("default") {
            Some(key) => Ok(xor_bytes(&encrypted_msg, key)),
            None => Err(String::from_str("No encryption key found")),
        }
    }

    /// Whether the policy in force lets the holder of `token` perform
    /// `operation`.
    pub fn verify_capability(&self, token: &CapabilityToken, operation: &str) -> (r: bool)
        ensures
            r == policy_admits(self.policy(), token@, operation@),
    {
        self.policy.verify_capability(token, operation)
    }

    /// Puts `policy` in force.
    pub fn add_policy(&mut self, policy: SecurityPolicy)
        ensures
            final(self).policy() == policy,
            final(self).keys() == old(self).keys(),
    {
        self.policy = policy;
    }
}

/// A name that no entry has is not found.
proof fn lemma_lookup_absent(entries: Seq<(Seq<char>, Seq<u8>)>, n: Seq<char>)
    requires
        forall|j: int| 0 <= j < entries.len() ==> entries[j].0 != n,
    ensures
        key_lookup(entries, n) is None,
    decreases entries.len(),
{
    if entries.len() > 0 {
        lemma_lookup_absent(entries.drop_first(), n);
    }
}

/// The first entry with a name is the one found.
proof fn lemma_lookup_first(entries: Seq<(Seq<char>, Seq<u8>)>, i: int)
    requires
        0 <= i < entries.len(),
        forall|j: int| 0 <= j < i ==> entries[j].0 != entries[i].0,
    ensures
        key_lookup(entries, entries[i].0) == Some(entries[i].1),
    decreases i,
{
    if i > 0 {
        lemma_lookup_first(entries.drop_first(), i - 1);
    }
}

/// Combines each byte with the key repeated.
fn xor_bytes(msg: &Vec<u8>, key: &Vec<u8>) -> (r: Vec<u8>)
    ensures
        r@ == xor_with_key(msg@, key@),
{
    let mut out: Vec<u8> = Vec::new();
    let kl = key.len();
    if kl == 0 {
        assert(out@ =~= xor_with_key(msg@, key@));
        return out;
    }
    let n = msg.len();
    for i in 0..n
        invariant
            n == msg@.len(),
            kl == key@.len(),
            kl > 0,
            out@.len() == i,
            forall|j: int| 0 <= j < i ==> #[trigger] out@[j] == msg@[j] ^ key@[j % kl as int],
    {
        out.push(msg[i] ^ key[i % kl]);
    }
    assert(out@ =~= xor_with_key(msg@, key@));
    out
}

/// Decrypting with the key that encrypted gives the message back.
pub proof fn lemma_xor_roundtrip(msg: Seq<u8>, key: Seq<u8>)
    requires
        key.len() > 0,
    ensures
        xor_with_key(xor_with_key(msg, key), key) == msg,
{
    let once = xor_with_key(msg, key);
    let twice = xor_with_key(once, key);
    assert forall|i: int| 0 <= i < msg.len() implies twice[i] == msg[i] by {
        let a = msg[i];
        let b = key[i % key.len() as int];
        assert((a ^ b) ^ b == a) by (bit_vector);
    }
    assert(twice =~= msg);
}

} // verus!

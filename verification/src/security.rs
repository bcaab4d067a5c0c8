//! The security framework: capability tokens that grant permissions on a
//! resource for a limited time, and policies that decide access.
use ring::rand::{SecureRandom, SystemRandom};
use vstd::prelude::*;
use crate::clock::unix_now_secs;
use crate::lifecycle::{after_run, after_shutdown, LifecycleState};
use crate::text::{copy_string, str_equal};
use crate::security::random::RandomSource;

pub mod base64;
pub mod random;

verus! {

/// A source of cryptographically secure random bytes.
#[verifier::external_type_specification]
#[verifier::external_body]
pub struct ExSystemRandom(SystemRandom);

/// The system's secure random number generator.
///
/// Trusted: wraps `ring::rand::SystemRandom::new`, which holds no state;
/// nothing is stated of it.
#[verifier::external_body]
pub(crate) fn system_random() -> SystemRandom {
    SystemRandom::new()
}

/// Thirty-two random bytes, or `None` when the generator reports a failure.
///
/// Trusted: wraps `SecureRandom::fill` of `ring::rand::SystemRandom` on a
/// 32-byte buffer; the bytes are random, so nothing is stated of them.
#[verifier::external_body]
pub(crate) fn random_bytes_32(rng: &SystemRandom) -> Option<[u8; 32]> {
    let mut bytes = [0u8; 32];
    match rng.fill(&mut bytes) {
        Ok(()) => Some(bytes),
        Err(_) => None,
    }
}

/// A kind of access.
#[derive(Debug, Clone, Copy, PartialEq, Eq, Structural)]
pub enum Permission {
    Read,
    Write,
    Execute,
    Delete,
    Create,
    /// Every kind of access.
    All,
}

/// Whether a list of permissions grants `p`: it holds `p` or `All`.
pub open spec fn grants(perms: Seq<Permission>, p: Permission) -> bool {
    perms.contains(p) || perms.contains(Permission::All)
}

/// A capability token: permission for a subject to act on one resource
/// until a point in time.
#[derive(Debug, Clone)]
pub struct CapabilityToken {
    /// The token's identifier.
    pub id: String,
    /// The resource the token is for.
    pub resource: String,
    /// What the token allows.
    pub permissions: Vec<Permission>,
    /// The last second (since the Unix epoch) at which the token is valid.
    pub expires_at: u64,
    /// Who issued the token.
    pub issuer: String,
    /// Who holds the token.
    pub subject: String,
}

/// A capability token with its text and permissions as sequences.
pub struct TokenView {
    pub id: Seq<char>,
    pub resource: Seq<char>,
    pub permissions: Seq<Permission>,
    pub expires_at: u64,
    pub issuer: Seq<char>,
    pub subject: Seq<char>,
}

impl View for CapabilityToken {
    type V = TokenView;

    open spec fn view(&self) -> TokenView {
        TokenView {
            id: self.id@,
            resource: self.resource@,
            permissions: self.permissions@,
            expires_at: self.expires_at,
            issuer: self.issuer@,
            subject: self.subject@,
        }
    }
}

/// Whether a token lets its holder act on `resource` with `p` at second
/// `now`: it has not expired, it is for exactly that resource, and it
/// grants the permission.
pub open spec fn capability_valid(t: TokenView, resource: Seq<char>, p: Permission, now: u64) -> bool {
    &&& !(t.expires_at < now)
    &&& t.resource == resource
    &&& grants(t.permissions, p)
}

/// The views of a list of tokens.
pub open spec fn token_views(v: Seq<CapabilityToken>) -> Seq<TokenView> {
    v.map_values(|t: CapabilityToken| t@)
}

/// The tokens that remain when those with identifier `id` are revoked.
pub open spec fn without_id(tokens: Seq<TokenView>, id: Seq<char>) -> Seq<TokenView> {
    tokens.filter(|t: TokenView| t.id != id)
}

/// Whether a token with identifier `id` is among `tokens`.
pub open spec fn has_id(tokens: Seq<TokenView>, id: Seq<char>) -> bool {
    exists|i: int| 0 <= i < tokens.len() && #[trigger] tokens[i].id == id
}

/// Whether a list of permissions holds `p`.
pub fn contains_permission(perms: &Vec<Permission>, p: Permission) -> (r: bool)
    ensures
        r == perms@.contains(p),
{
    let n = perms.len();
    for i in 0..n
        invariant
            n == perms@.len(),
            forall|j: int| 0 <= j < i ==> perms@[j] != p,
    {
        if perms[i] == p {
            assert(perms@[i as int] == p);
            return true;
        }
    }
    false
}

/// A copy of a list of permissions.
fn copy_permissions(perms: &Vec<Permission>) -> (r: Vec<Permission>)
    ensures
        r@ == perms@,
{
    let mut r: Vec<Permission> = Vec::new();
    let n = perms.len();
    for i in 0..n
        invariant
            n == perms@.len(),
            r@ == perms@.take(i as int),
    {
        r.push(perms[i]);
        assert(perms@.take(i + 1) =~= perms@.take(i as int).push(perms@[i as int]));
    }
    assert(perms@.take(n as int) =~= perms@);
    r
}

/// A copy of a token.
pub fn copy_token(t: &CapabilityToken) -> (r: CapabilityToken)
    ensures
        r@ == t@,
{
    CapabilityToken {
        id: copy_string(&t.id),
        resource: copy_string(&t.resource),
        permissions: copy_permissions(&t.permissions),
        expires_at: t.expires_at,
        issuer: copy_string(&t.issuer),
        subject: copy_string(&t.subject),
    }
}

/// How long an issued token stays valid, in seconds.
pub const TOKEN_LIFETIME_SECS: u64 = 3600;

/// Issues tokens and keeps those it has issued.
pub struct CapabilityManager {
    /// The tokens issued and not revoked, oldest first.
    pub issued_tokens: Vec<CapabilityToken>,
    /// Where token identifiers come from.
    pub rng: RandomSource,
}

impl CapabilityManager {
    /// A manager that has issued nothing.
    pub fn new() -> (r: Self)
        ensures
            r.issued_tokens@.len() == 0,
            r.rng.draws().len() == 0,
    {
        CapabilityManager { issued_tokens: Vec::new(), rng: RandomSource::new() }
    }

    /// Issues a token for `subject` on `resource`, with `id_bytes` as the
    /// identifier's bytes, valid for an hour from second `now`, and keeps a
    /// copy of it.
    pub fn issue_token_at(
        &mut self,
        resource: &str,
        permissions: Vec<Permission>,
        subject: &str,
        id_bytes: [u8; 32],
        now: u64,
    ) -> (r: CapabilityToken)
        requires
            now <= u64::MAX - TOKEN_LIFETIME_SECS,
        ensures
            r@.id == crate::ipc::base64::b64_encode(id_bytes@),
            r@.resource == resource@,
            r@.permissions == permissions@,
            r@.expires_at == now + TOKEN_LIFETIME_SECS,
            r@.issuer == "moda-security-framework"@,
            r@.subject == subject@,
            token_views(final(self).issued_tokens@) == token_views(old(self).issued_tokens@).push(
                r@,
            ),
            final(self).rng == old(self).rng,
    {
        let id = base64::encode(id_bytes);
        let token = CapabilityToken {
            id,
            resource: resource.to_owned(),
            permissions,
            expires_at: now + TOKEN_LIFETIME_SECS,
            issuer: String::from_str("moda-security-framework"),
            subject: subject.to_owned(),
        };
        let kept = copy_token(&token);
        self.issued_tokens.push(kept);
        assert(token_views(self.issued_tokens@) =~= token_views(old(self).issued_tokens@).push(
            token@,
        ));
        token
    }

    /// Issues a token for `subject` on `resource`, valid for an hour from
    /// now, with 32 random bytes as its identifier, and keeps a copy of it.
    /// Fails when no random bytes can be had or the clock is beyond the
    /// range of an expiry time.
    pub fn issue_token(&mut self, resource: &str, permissions: Vec<Permission>, subject: &str) -> (r:
        Result<CapabilityToken, String>)
        ensures
            r matches Ok(t) ==> {
                &&& t@.resource == resource@
                &&& t@.permissions == permissions@
                &&& t@.expires_at >= TOKEN_LIFETIME_SECS
                &&& t@.issuer == "moda-security-framework"@
                &&& t@.subject == subject@
                &&& t@.id.len() == 44
                &&& token_views(final(self).issued_tokens@) == token_views(
                    old(self).issued_tokens@,
                ).push(t@)
            },
            r is Err ==> final(self).issued_tokens@ == old(self).issued_tokens@,
            r matches Err(e) ==> e@ == "no random bytes for a token identifier"@ || e@
                == "system clock beyond the range of token expiry"@,
            final(self).rng.draws().len() == old(self).rng.draws().len() + 1,
            final(self).rng.draws().drop_last() == old(self).rng.draws(),
            final(self).rng.draws().last() is None ==> (r matches Err(e) && e@
                == "no random bytes for a token identifier"@),
            final(self).rng.draws().last() matches Some(b) ==> (r matches Ok(t) ==> t@.id
                == crate::ipc::base64::b64_encode(b)),
    {
        let id_bytes = self.rng.draw_32();
        let now = unix_now_secs();
        let r = self.issue_token_from(resource, permissions, subject, id_bytes, now);
        assert(crate::ipc::base64::group_count(32) == 11);
        r
    }

    /// Issues a token as [`CapabilityManager::issue_token_at`] does, from
    /// what the random source gave for the identifier (`None` when it gave
    /// nothing) and the clock's second `now`. Fails, keeping the tokens as
    /// they are, when there are no identifier bytes or when an hour past
    /// `now` does not fit in a `u64`.
    pub fn issue_token_from(
        &mut self,
        resource: &str,
        permissions: Vec<Permission>,
        subject: &str,
        id_bytes: Option<[u8; 32]>,
        now: u64,
    ) -> (r: Result<CapabilityToken, String>)
        ensures
            id_bytes is None ==> (r matches Err(e) && e@
                == "no random bytes for a token identifier"@),
            id_bytes is Some && now > u64::MAX - TOKEN_LIFETIME_SECS ==> (r matches Err(e) && e@
                == "system clock beyond the range of token expiry"@),
            r is Err ==> final(self).issued_tokens@ == old(self).issued_tokens@,
            final(self).rng == old(self).rng,
            id_bytes matches Some(b) ==> (now <= u64::MAX - TOKEN_LIFETIME_SECS ==> (r matches Ok(t)
                && {
                &&& t@.id == crate::ipc::base64::b64_encode(b@)
                &&& t@.resource == resource@
                &&& t@.permissions == permissions@
                &&& t@.expires_at == now + TOKEN_LIFETIME_SECS
                &&& t@.issuer == "moda-security-framework"@
                &&& t@.subject == subject@
                &&& token_views(final(self).issued_tokens@) == token_views(
                    old(self).issued_tokens@,
                ).push(t@)
            })),
    {
        let b = match id_bytes {
            Some(b) => b,
            None => {
                return Err(String::from_str("no random bytes for a token identifier"));
            },
        };
        if now > u64::MAX - TOKEN_LIFETIME_SECS {
            return Err(String::from_str("system clock beyond the range of token expiry"));
        }
        Ok(self.issue_token_at(resource, permissions, subject, b, now))
    }

    /// Revokes every kept token with identifier `token_id`; answers whether
    /// there was one.
    pub fn revoke_token(&mut self, token_id: &str) -> (r: bool)
        ensures
            token_views(final(self).issued_tokens@) == without_id(
                token_views(old(self).issued_tokens@),
                token_id@,
            ),
            r == has_id(token_views(old(self).issued_tokens@), token_id@),
    {
        let ghost old_views = token_views(self.issued_tokens@);
        let ghost pred = |t: TokenView| t.id != token_id@;
        let mut kept: Vec<CapabilityToken> = Vec::new();
        let mut removed = false;
        let n = self.issued_tokens.len();
        for i in 0..n
            invariant
                n == self.issued_tokens@.len(),
                old_views == token_views(self.issued_tokens@),
                pred == (|t: TokenView| t.id != token_id@),
                token_views(kept@) == old_views.take(i as int).filter(pred),
                removed == has_id(old_views.take(i as int), token_id@),
        {
            reveal_with_fuel(Seq::<_>::filter, 1);
            let ghost before = kept@;
            assert(old_views.take(i + 1).drop_last() =~= old_views.take(i as int));
            if str_equal(self.issued_tokens[i].id.as_str(), token_id) {
                removed = true;
                assert(old_views.take(i + 1)[i as int].id == token_id@);
            } else {
                let t = copy_token(&self.issued_tokens[i]);
                kept.push(t);
                assert(token_views(kept@) =~= token_views(before).push(old_views[i as int]));
            }
            assert(removed == has_id(old_views.take(i + 1), token_id@)) by {
                if has_id(old_views.take(i + 1), token_id@) && !has_id(
                    old_views.take(i as int),
                    token_id@,
                ) {
                    let w = choose|w: int|
                        0 <= w < i + 1 && #[trigger] old_views.take(i + 1)[w].id == token_id@;
                    assert(w == i);
                }
                if has_id(old_views.take(i as int), token_id@) {
                    let w = choose|w: int|
                        0 <= w < i && #[trigger] old_views.take(i as int)[w].id == token_id@;
                    assert(old_views.take(i + 1)[w].id == token_id@);
                }
            }
        }
        assert(old_views.take(n as int) =~= old_views);
        self.issued_tokens = kept;
        removed
    }
}

/// How access is decided when no capability token is consulted.
#[derive(Debug, Clone, Copy, PartialEq, Eq, Structural)]
pub enum SecurityPolicy {
    /// Deny unless a rule allows.
    DefaultDeny,
    /// Allow unless a rule denies.
    DefaultAllow,
    /// Leave the decision to capability tokens.
    CapabilityBased,
}

/// The permission that an operation name stands for: the lower-case name of
/// a permission.
pub open spec fn permission_named(op: Seq<char>) -> Option<Permission> {
    if op == "read"@ {
        Some(Permission::Read)
    } else if op == "write"@ {
        Some(Permission::Write)
    } else if op == "execute"@ {
        Some(Permission::Execute)
    } else if op == "delete"@ {
        Some(Permission::Delete)
    } else if op == "create"@ {
        Some(Permission::Create)
    } else if op == "all"@ {
        Some(Permission::All)
    } else {
        None
    }
}

/// Whether a policy lets the holder of a token perform an operation: a
/// default-allow policy lets anything through; the others ask that the
/// token grant the permission that the operation names.
pub open spec fn policy_admits(policy: SecurityPolicy, t: TokenView, op: Seq<char>) -> bool {
    match policy {
        SecurityPolicy::DefaultAllow => true,
        _ => match permission_named(op) {
            Some(p) => grants(t.permissions, p),
            None => false,
        },
    }
}

/// The permission that an operation name stands for.
fn parse_permission(op: &str) -> (r: Option<Permission>)
    ensures
        r == permission_named(op@),
{
    if str_equal(op, "read") {
        Some(Permission::Read)
    } else if str_equal(op, "write") {
        Some(Permission::Write)
    } else if str_equal(op, "execute") {
        Some(Permission::Execute)
    } else if str_equal(op, "delete") {
        Some(Permission::Delete)
    } else if str_equal(op, "create") {
        Some(Permission::Create)
    } else if str_equal(op, "all") {
        Some(Permission::All)
    } else {
        None
    }
}

/// Whether a list of permissions grants `p`.
fn grants_permission(perms: &Vec<Permission>, p: Permission) -> (r: bool)
    ensures
        r == grants(perms@, p),
{
    contains_permission(perms, p) || contains_permission(perms, Permission::All)
}

impl SecurityPolicy {
    /// The default policy: deny unless allowed.
    pub fn new() -> (r: Self)
        ensures
            r == SecurityPolicy::DefaultDeny,
    {
        SecurityPolicy::DefaultDeny
    }

    /// Whether this policy lets the holder of `token` perform `operation`.
    pub fn verify_capability(&self, token: &CapabilityToken, operation: &str) -> (r: bool)
        ensures
            r == policy_admits(*self, token@, operation@),
    {
        match self {
            SecurityPolicy::DefaultAllow => true,
            _ => match parse_permission(operation) {
                Some(p) => grants_permission(&token.permissions, p),
                None => false,
            },
        }
    }
}

/// A rule of a policy: the permissions allowed on a resource.
pub struct PolicyRule {
    /// The resource the rule is about.
    pub resource_pattern: String,
    /// What the rule allows there.
    pub allowed_permissions: Vec<Permission>,
    /// A further condition, kept with the rule.
    pub condition: Option<String>,
}

/// Whether rule `r` is about `resource` and allows `p` there.
pub open spec fn rule_allows(r: PolicyRule, resource: Seq<char>, p: Permission) -> bool {
    r.resource_pattern@ == resource && r.allowed_permissions@.contains(p)
}

/// Whether rule `r` is about `resource` and does not allow `p` there.
pub open spec fn rule_denies(r: PolicyRule, resource: Seq<char>, p: Permission) -> bool {
    r.resource_pattern@ == resource && !r.allowed_permissions@.contains(p)
}

/// What a policy with its rules decides for `p` on `resource`: under
/// default-deny some rule must allow it, under default-allow no rule may
/// deny it, and a capability-based policy leaves it to the tokens.
pub open spec fn policy_decision(
    policy: SecurityPolicy,
    rules: Seq<PolicyRule>,
    resource: Seq<char>,
    p: Permission,
) -> bool {
    match policy {
        SecurityPolicy::DefaultDeny => exists|i: int|
            0 <= i < rules.len() && rule_allows(#[trigger] rules[i], resource, p),
        SecurityPolicy::DefaultAllow => !exists|i: int|
            0 <= i < rules.len() && rule_denies(#[trigger] rules[i], resource, p),
        SecurityPolicy::CapabilityBased => true,
    }
}

/// The policy in force and its rules.
pub struct PolicyManager {
    /// The policy in force.
    pub policy: SecurityPolicy,
    /// The rules, in the order they were added.
    pub rules: Vec<PolicyRule>,
}

impl PolicyManager {
    /// A default-deny manager without rules.
    pub fn new() -> (r: Self)
        ensures
            r.policy == SecurityPolicy::DefaultDeny,
            r.rules@.len() == 0,
    {
        PolicyManager { policy: SecurityPolicy::DefaultDeny, rules: Vec::new() }
    }

    /// Adds a rule after the others.
    pub fn add_policy_rule(&mut self, rule: PolicyRule)
        ensures
            final(self).rules@ == old(self).rules@.push(rule),
            final(self).policy == old(self).policy,
    {
        self.rules.push(rule);
    }

    /// Whether the policy in force allows `permission` on `resource`.
    pub fn check_policy(&self, resource: &str, permission: &Permission) -> (r: bool)
        ensures
            r == policy_decision(self.policy, self.rules@, resource@, *permission),
    {
        match self.policy {
            SecurityPolicy::DefaultDeny => {
                let n = self.rules.len();
                for i in 0..n
                    invariant
                        n == self.rules@.len(),
                        self.policy == SecurityPolicy::DefaultDeny,
                        forall|j: int|
                            0 <= j < i ==> !rule_allows(#[trigger] self.rules@[j], resource@, *permission),
                {
                    if self.match_resource(self.rules[i].resource_pattern.as_str(), resource)
                        && contains_permission(&self.rules[i].allowed_permissions, *permission) {
                        assert(rule_allows(self.rules@[i as int], resource@, *permission));
                        return true;
                    }
                }
                false
            },
            SecurityPolicy::DefaultAllow => {
                let n = self.rules.len();
                for i in 0..n
                    invariant
                        n == self.rules@.len(),
                        self.policy == SecurityPolicy::DefaultAllow,
                        forall|j: int|
                            0 <= j < i ==> !rule_denies(#[trigger] self.rules@[j], resource@, *permission),
                {
                    if self.match_resource(self.rules[i].resource_pattern.as_str(), resource)
                        && !contains_permission(&self.rules[i].allowed_permissions, *permission) {
                        assert(rule_denies(self.rules@[i as int], resource@, *permission));
                        return false;
                    }
                }
                true
            },
            SecurityPolicy::CapabilityBased => true,
        }
    }

    /// Whether a rule's resource pattern matches a resource: they must be
    /// the same text.
    fn match_resource(&self, pattern: &str, resource: &str) -> (r: bool)
        ensures
            r == (pattern@ == resource@),
    {
        str_equal(pattern, resource)
    }
}

/// The security framework: its tokens, its policy and its lifecycle.
pub struct SecurityFramework {
    /// The issuer and keeper of tokens.
    pub capability_manager: CapabilityManager,
    /// The policy in force and its rules.
    pub policy_manager: PolicyManager,
    /// Where the framework stands in its lifecycle.
    pub state: LifecycleState,
}

impl SecurityFramework {
    /// A freshly initialized framework: no tokens, default-deny, no rules.
    pub fn new() -> (r: Self)
        ensures
            r.state == LifecycleState::Initialized,
            r.capability_manager.issued_tokens@.len() == 0,
            r.policy_manager.policy == SecurityPolicy::DefaultDeny,
            r.policy_manager.rules@.len() == 0,
    {
        SecurityFramework {
            capability_manager: CapabilityManager::new(),
            policy_manager: PolicyManager::new(),
            state: LifecycleState::Initialized,
        }
    }

    /// Starts the framework, which puts capability-based access control in
    /// force; a request while not freshly initialized is ignored.
    pub fn run(&mut self)
        ensures
            final(self).state == after_run(old(self).state),
            old(self).state == LifecycleState::Initialized ==> final(self).policy_manager.policy
                == SecurityPolicy::CapabilityBased,
            old(self).state != LifecycleState::Initialized ==> final(self).policy_manager.policy
                == old(self).policy_manager.policy,
            final(self).policy_manager.rules@ == old(self).policy_manager.rules@,
            final(self).capability_manager.issued_tokens@ == old(
                self,
            ).capability_manager.issued_tokens@,
    {
        if self.state != LifecycleState::Initialized {
            return;
        }
        self.state = LifecycleState::Running;
        self.policy_manager.policy = SecurityPolicy::CapabilityBased;
    }

    /// Shuts the framework down, dropping every issued token; a request
    /// while already shut down is ignored.
    pub fn shutdown(&mut self)
        ensures
            final(self).state == after_shutdown(old(self).state),
            old(self).state != LifecycleState::Shutdown
                ==> final(self).capability_manager.issued_tokens@.len() == 0,
            old(self).state == LifecycleState::Shutdown
                ==> final(self).capability_manager.issued_tokens@ == old(
                self,
            ).capability_manager.issued_tokens@,
            final(self).policy_manager.policy == old(self).policy_manager.policy,
            final(self).policy_manager.rules@ == old(self).policy_manager.rules@,
    {
        if self.state == LifecycleState::Shutdown {
            return;
        }
        self.state = LifecycleState::ShuttingDown;
        self.capability_manager.issued_tokens.clear();
        self.state = LifecycleState::Shutdown;
    }

    /// Whether `token` lets its holder act on `resource` with `permission`
    /// at second `now`.
    pub fn verify_capability_at(
        &self,
        token: &CapabilityToken,
        resource: &str,
        permission: &Permission,
        now: u64,
    ) -> (r: bool)
        ensures
            r == capability_valid(token@, resource@, *permission, now),
    {
        if token.expires_at < now {
            return false;
        }
        if !self.match_resource(token.resource.as_str(), resource) {
            return false;
        }
        if !self.has_permission(token, permission) {
            return false;
        }
        true
    }

    /// Whether `token` lets its holder act on `resource` with `permission`
    /// now, by the system clock.
    pub fn verify_capability(&self, token: &CapabilityToken, resource: &str, permission: &Permission) -> (r:
        bool)
        ensures
            r ==> token@.resource == resource@ && grants(token@.permissions, *permission),
            token@.resource == resource@ && grants(token@.permissions, *permission)
                && token.expires_at == u64::MAX ==> r,
            exists|now: u64| r == capability_valid(token@, resource@, *permission, now),
    {
        let now = unix_now_secs();
        self.verify_capability_at(token, resource, permission, now)
    }

    /// Whether a token's resource matches a resource: they must be the same
    /// text.
    fn match_resource(&self, pattern: &str, resource: &str) -> (r: bool)
        ensures
            r == (pattern@ == resource@),
    {
        str_equal(pattern, resource)
    }

    /// Whether a token grants a permission.
    fn has_permission(&self, token: &CapabilityToken, permission: &Permission) -> (r: bool)
        ensures
            r == grants(token.permissions@, *permission),
    {
        grants_permission(&token.permissions, *permission)
    }
}

/// Filtering keeps a sequence whose elements all pass.
proof fn lemma_filter_keeps_all(s: Seq<TokenView>, pred: spec_fn(TokenView) -> bool)
    requires
        forall|i: int| 0 <= i < s.len() ==> pred(#[trigger] s[i]),
    ensures
        s.filter(pred) == s,
    decreases s.len(),
{
    reveal(Seq::filter);
    if s.len() > 0 {
        lemma_filter_keeps_all(s.drop_last(), pred);
        assert(s.drop_last().push(s.last()) =~= s);
    }
}

/// After the tokens with an identifier are revoked none is left, so
/// revoking them again finds nothing and changes nothing; tokens with other
/// identifiers stay.
pub proof fn lemma_revoke(tokens: Seq<TokenView>, id: Seq<char>)
    ensures
        !has_id(without_id(tokens, id), id),
        without_id(without_id(tokens, id), id) == without_id(tokens, id),
        forall|t: TokenView| t.id != id ==> (tokens.contains(t) <==> #[trigger] without_id(
            tokens,
            id,
        ).contains(t)),
{
    broadcast use vstd::seq_lib::group_filter_ensures;

    let pred = |t: TokenView| t.id != id;
    let kept = tokens.filter(pred);
    assert forall|i: int| 0 <= i < kept.len() implies pred(#[trigger] kept[i]) by {
        tokens.lemma_filter_pred(pred, i);
    }
    lemma_filter_keeps_all(kept, pred);
    assert forall|t: TokenView| t.id != id implies (tokens.contains(t) <==> #[trigger] kept.contains(
        t,
    )) by {
        if tokens.contains(t) {
            let i = choose|i: int| 0 <= i < tokens.len() && tokens[i] == t;
            tokens.lemma_filter_contains(pred, i);
        }
        if kept.contains(t) {
            tokens.lemma_filter_contains_rev(pred, t);
        }
    }
}

/// A token just issued is among those kept, and revoking its identifier
/// removes it.
pub proof fn lemma_issue_then_revoke(tokens: Seq<TokenView>, t: TokenView)
    ensures
        has_id(tokens.push(t), t.id),
        !has_id(without_id(tokens.push(t), t.id), t.id),
{
    assert(tokens.push(t)[tokens.len() as int].id == t.id);
    lemma_revoke(tokens.push(t), t.id);
}

/// Tokens whose identifiers are the text of different random draws have
/// different identifiers, since the text of bytes decodes back to them; so
/// revoking one of them keeps the other.
pub proof fn lemma_distinct_draws_keep_tokens_apart(
    tokens: Seq<TokenView>,
    a: TokenView,
    b: TokenView,
    drawn_a: Seq<u8>,
    drawn_b: Seq<u8>,
)
    requires
        a.id == crate::ipc::base64::b64_encode(drawn_a),
        b.id == crate::ipc::base64::b64_encode(drawn_b),
        drawn_a != drawn_b,
        tokens.contains(b),
    ensures
        a.id != b.id,
        without_id(tokens, a.id).contains(b),
{
    crate::ipc::base64::lemma_decode_encode(drawn_a);
    crate::ipc::base64::lemma_decode_encode(drawn_b);
    lemma_revoke(tokens, a.id);
}

/// A token issued at second `now` lets its holder act on its resource with
/// any permission it grants through second `now + 3600`, and not after.
pub proof fn lemma_issued_token_lifetime(t: TokenView, now: u64, at: u64, p: Permission)
    requires
        now <= u64::MAX - TOKEN_LIFETIME_SECS,
        t.expires_at == now + TOKEN_LIFETIME_SECS,
        grants(t.permissions, p),
    ensures
        capability_valid(t, t.resource, p, at) <==> at <= now + TOKEN_LIFETIME_SECS,
{
}

/// Under default-deny, nothing is allowed without rules, and a rule that
/// allows a permission on a resource makes the policy allow it.
pub proof fn lemma_default_deny(rules: Seq<PolicyRule>, rule: PolicyRule, resource: Seq<char>, p: Permission)
    ensures
        !policy_decision(SecurityPolicy::DefaultDeny, Seq::empty(), resource, p),
        rule_allows(rule, resource, p) ==> policy_decision(
            SecurityPolicy::DefaultDeny,
            rules.push(rule),
            resource,
            p,
        ),
{
    if rule_allows(rule, resource, p) {
        assert(rules.push(rule)[rules.len() as int] == rule);
    }
}

/// Under default-allow, everything is allowed without rules, and a rule on
/// a resource that leaves a permission out makes the policy deny it.
pub proof fn lemma_default_allow(rules: Seq<PolicyRule>, rule: PolicyRule, resource: Seq<char>, p: Permission)
    ensures
        policy_decision(SecurityPolicy::DefaultAllow, Seq::empty(), resource, p),
        rule_denies(rule, resource, p) ==> !policy_decision(
            SecurityPolicy::DefaultAllow,
            rules.push(rule),
            resource,
            p,
        ),
{
    if rule_denies(rule, resource, p) {
        assert(rules.push(rule)[rules.len() as int] == rule);
    }
}

} // verus!

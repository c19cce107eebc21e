//! From the headers of a request to its security context.
//!
//! A credential is taken from the request in this order:
//! 1. the `Authorization: Bearer <token>` header;
//! 2. the `X-API-Key` header;
//! 3. a legacy token from the query parameters;
//! 4. none (anonymous in permissive mode).
use crate::auth::api_key::{
    accepts, knows_id, secret_hash, ApiKeyProvider, ApiKeyStore, KeyStoreMap,
};
use crate::auth::provider::{first_acceptance, first_refusal, AuthChain, AuthProvider, Outcome};
use crate::auth::{ClientIdentity, Credential};
use crate::authz::context::SecurityContext;
use crate::authz::policy::{
    permitted, AccessPolicy, CustomGrants, Permission, ResourceType, Role,
};
use crate::client_events::{AuthToken, ClientId};
use crate::text::{ascii_chars, ascii_text};
use std::sync::Arc;
use vstd::prelude::*;

verus! {

/// HTTP status of a request that is not allowed.
pub const STATUS_FORBIDDEN: u16 = 403;

// ---------------------------------------------------------------------------
// Credentials
// ---------------------------------------------------------------------------

/// A byte that may stand in a header read as text: visible ASCII or a tab.
pub open spec fn header_char(b: u8) -> bool {
    32 <= b < 127 || b == 9
}

/// A header that can be read as text.
pub open spec fn readable_header(h: Seq<u8>) -> bool {
    forall|i: int| 0 <= i < h.len() ==> header_char(#[trigger] h[i])
}

/// White space in a header.
pub open spec fn blank(b: u8) -> bool {
    b == 32 || b == 9
}

/// What a bearer token is introduced by: `Bearer` and a space.
pub open spec fn bearer_prefix() -> Seq<u8> {
    seq![66u8, 101, 97, 114, 101, 114, 32]
}

/// Some bytes without white space at either end.
pub open spec fn trimmed(s: Seq<u8>) -> Seq<u8>
    decreases s.len(),
{
    if s.len() > 0 && blank(s[0]) {
        trimmed(s.subrange(1, s.len() as int))
    } else if s.len() > 0 && blank(s.last()) {
        trimmed(s.drop_last())
    } else {
        s
    }
}

/// The token of an `Authorization` header, if it is one of a bearer.
pub open spec fn bearer_token(h: Option<&[u8]>) -> Option<Seq<char>> {
    if h is Some && readable_header(h->0@) && bearer_prefix().is_prefix_of(h->0@) {
        Some(ascii_chars(trimmed(h->0@.subrange(7, h->0@.len() as int))))
    } else {
        None
    }
}

/// The key of an `X-API-Key` header, if it can be read.
pub open spec fn header_key(h: Option<&[u8]>) -> Option<Seq<char>> {
    if h is Some && readable_header(h->0@) {
        Some(ascii_chars(h->0@))
    } else {
        None
    }
}

fn is_readable(h: &[u8]) -> (b: bool)
    ensures
        b == readable_header(h@),
{
    let mut i: usize = 0;
    while i < h.len()
        invariant
            i <= h@.len(),
            forall|j: int| 0 <= j < i ==> header_char(#[trigger] h@[j]),
        decreases h@.len() - i,
    {
        if !((32 <= h[i] && h[i] < 127) || h[i] == 9) {
            return false;
        }
        i += 1;
    }
    true
}

fn starts_with_bearer(h: &[u8]) -> (b: bool)
    ensures
        b == bearer_prefix().is_prefix_of(h@),
{
    if h.len() < 7 {
        return false;
    }
    let b = h[0] == 66 && h[1] == 101 && h[2] == 97 && h[3] == 114 && h[4] == 101 && h[5] == 114
        && h[6] == 32;
    proof {
        let p = h@.subrange(0, 7);
        if b {
            assert(p =~= bearer_prefix());
        } else if bearer_prefix().is_prefix_of(h@) {
            assert(p =~= bearer_prefix());
            assert(p[0] == h@[0] && p[1] == h@[1] && p[2] == h@[2] && p[3] == h@[3] && p[4] == h@[4]
                && p[5] == h@[5] && p[6] == h@[6]);
        }
    }
    b
}

/// Where the text between white space starts and ends.
fn trim(h: &[u8], start: usize) -> (r: (usize, usize))
    requires
        start <= h@.len(),
    ensures
        start <= r.0 <= r.1 <= h@.len(),
        h@.subrange(r.0 as int, r.1 as int) == trimmed(h@.subrange(start as int, h@.len() as int)),
{
    let ghost whole = trimmed(h@.subrange(start as int, h@.len() as int));
    let mut from: usize = start;
    while from < h.len() && (h[from] == 32 || h[from] == 9)
        invariant
            start <= from <= h@.len(),
            trimmed(h@.subrange(from as int, h@.len() as int)) == whole,
        decreases h@.len() - from,
    {
        let ghost s = h@.subrange(from as int, h@.len() as int);
        assert(s.subrange(1, s.len() as int) =~= h@.subrange(from + 1, h@.len() as int));
        from += 1;
    }
    let mut to: usize = h.len();
    while to > from && (h[to - 1] == 32 || h[to - 1] == 9)
        invariant
            from <= to <= h@.len(),
            from < h@.len() ==> !blank(h@[from as int]),
            trimmed(h@.subrange(from as int, to as int)) == whole,
        decreases to,
    {
        let ghost s = h@.subrange(from as int, to as int);
        assert(s.drop_last() =~= h@.subrange(from as int, to - 1));
        to -= 1;
    }
    proof {
        let s = h@.subrange(from as int, to as int);
        assert(trimmed(s) == s);
    }
    (from, to)
}

/// What a legacy token is introduced by in a query: `authToken=`.
pub open spec fn token_prefix() -> Seq<u8> {
    seq![97u8, 117, 116, 104, 84, 111, 107, 101, 110, 61]
}

/// A piece of a query: what lies between ampersands.
pub open spec fn is_piece(query: Seq<u8>, from: int, to: int) -> bool {
    &&& 0 <= from <= to <= query.len()
    &&& from == 0 || query[from - 1] == 38
    &&& to == query.len() || query[to] == 38
    &&& forall|i: int| from <= i < to ==> #[trigger] query[i] != 38
}

/// A piece of a query that holds a legacy token.
pub open spec fn is_token_piece(query: Seq<u8>, from: int, to: int) -> bool {
    is_piece(query, from, to) && token_prefix().is_prefix_of(query.subrange(from, to))
}

/// Whether a piece of a query holds a legacy token.
fn holds_token(query: &[u8], from: usize, to: usize) -> (b: bool)
    requires
        from <= to <= query@.len(),
    ensures
        b == token_prefix().is_prefix_of(query@.subrange(from as int, to as int)),
{
    if to - from < 10 {
        return false;
    }
    let b = query[from] == 97 && query[from + 1] == 117 && query[from + 2] == 116 && query[from
        + 3] == 104 && query[from + 4] == 84 && query[from + 5] == 111 && query[from + 6] == 107
        && query[from + 7] == 101 && query[from + 8] == 110 && query[from + 9] == 61;
    proof {
        let s = query@.subrange(from as int, to as int);
        let p = s.subrange(0, 10);
        assert(p[0] == query@[from as int] && p[1] == query@[from + 1] && p[2] == query@[from + 2]
            && p[3] == query@[from + 3] && p[4] == query@[from + 4] && p[5] == query@[from + 5]
            && p[6] == query@[from + 6] && p[7] == query@[from + 7] && p[8] == query@[from + 8]
            && p[9] == query@[from + 9]);
        if b {
            assert(p =~= token_prefix());
        } else if token_prefix().is_prefix_of(s) {
            assert(p =~= token_prefix());
        }
    }
    b
}

/// The legacy token of a query: what the first piece that starts with `authToken=`
/// holds behind that, if there is such a piece.
pub fn legacy_token(query: &[u8]) -> (t: Option<AuthToken>)
    ensures
        match t {
            Some(token) => exists|from: int, to: int|
                {
                    &&& #[trigger] is_token_piece(query@, from, to)
                    &&& token.token@ == ascii_chars(query@.subrange(from + 10, to))
                    &&& forall|f: int, u: int| #[trigger] is_token_piece(query@, f, u) ==> from <= f
                },
            None => forall|f: int, u: int| !(#[trigger] is_token_piece(query@, f, u)),
        },
{
    let mut from: usize = 0;
    let mut to: usize = 0;
    loop
        invariant
            from <= to <= query@.len(),
            from == 0 || query@[from - 1] == 38,
            forall|i: int| from <= i < to ==> #[trigger] query@[i] != 38,
            forall|f: int, u: int| #[trigger] is_token_piece(query@, f, u) ==> from <= f,
        decreases query@.len() - to,
    {
        if to < query.len() && query[to] != 38 {
            to += 1;
            continue;
        }
        assert(is_piece(query@, from as int, to as int));
        if holds_token(query, from, to) {
            assert(is_token_piece(query@, from as int, to as int));
            assert(to - from >= 10) by {
                assert(token_prefix().len() == 10);
            }
            return Some(AuthToken { token: ascii_text(query, from + 10, to) });
        }
        assert forall|f: int, u: int| #[trigger] is_token_piece(query@, f, u) implies to < f by {
            if f <= to {
                if from < f {
                    assert(query@[f - 1] != 38);
                }
                assert(f == from);
                if u < to {
                    assert(query@[u] != 38);
                } else if to < u {
                    assert(query@[to as int] != 38);
                }
                assert(u == to);
            }
        }
        if to == query.len() {
            return None;
        }
        from = to + 1;
        to = from;
    }
}

/// The credential that stands for a request with a bearer token, a key and a legacy
/// token, each where there is one.
pub open spec fn presents(
    bearer: Option<Seq<char>>,
    key: Option<Seq<char>>,
    legacy: Option<AuthToken>,
    c: Credential,
) -> bool {
    match c {
        Credential::BearerToken(t) => bearer == Some(t@),
        Credential::ApiKey(k) => bearer is None && key == Some(k@),
        Credential::LegacyToken(t) => bearer is None && key is None && legacy == Some(t),
        Credential::Absent => bearer is None && key is None && legacy is None,
    }
}

/// The credential of a request, from its `Authorization` and `X-API-Key` headers,
/// if it has them, and a legacy token from its query, if there is one.
pub fn extract_credential(
    authorization: Option<&[u8]>,
    api_key: Option<&[u8]>,
    legacy_token: Option<AuthToken>,
) -> (c: Credential)
    ensures
        match bearer_token(authorization) {
            Some(token) => c is BearerToken && c->BearerToken_0@ == token,
            None => match header_key(api_key) {
                Some(key) => c is ApiKey && c->ApiKey_0@ == key,
                None => match legacy_token {
                    Some(token) => c == Credential::LegacyToken(token),
                    None => c is Absent,
                },
            },
        },
        presents(bearer_token(authorization), header_key(api_key), legacy_token, c),
{
    if let Some(h) = authorization {
        if is_readable(h) && starts_with_bearer(h) {
            assert(h@.len() >= 7) by {
                assert(bearer_prefix().len() == 7);
            }
            let (from, to) = trim(h, 7);
            return Credential::BearerToken(ascii_text(h, from, to));
        }
    }
    if let Some(h) = api_key {
        if is_readable(h) {
            assert(h@.subrange(0, h@.len() as int) =~= h@);
            return Credential::ApiKey(ascii_text(h, 0, h.len()));
        }
    }
    match legacy_token {
        Some(token) => Credential::LegacyToken(token),
        None => Credential::Absent,
    }
}

// ---------------------------------------------------------------------------
// Security state
// ---------------------------------------------------------------------------

/// What a server knows of its clients' keys and of what roles allow.
#[derive(Debug)]
pub struct SecurityState {
    pub auth_chain: AuthChain<ApiKeyProvider>,
    pub policy: Arc<AccessPolicy>,
}

/// The roles of an identity: those of its key, if it has one that is known;
/// otherwise it is a user.
pub open spec fn has_roles(keys: KeyStoreMap, identity: ClientIdentity, roles: Seq<Role>) -> bool {
    match identity {
        ClientIdentity::ApiKey { key_id, name } => if knows_id(keys, key_id@) {
            exists|h: Seq<u8>| #[trigger]
                keys.dom().contains(h) && keys[h].key_id@ == key_id@ && keys[h].roles@ == roles
        } else {
            roles == seq![Role::User]
        },
        _ => roles == seq![Role::User],
    }
}

impl SecurityState {
    /// One provider of API keys.
    pub open spec fn wf(&self) -> bool {
        &&& self.auth_chain.providers@.len() == 1
        &&& self.auth_chain.wf()
        &&& self.policy.wf()
    }

    /// The API keys.
    pub open spec fn keys(&self) -> KeyStoreMap {
        self.auth_chain.providers@[0].store@
    }

    /// The context is that of a client that shows a credential: its identity and
    /// roles, or an anonymous one without roles where it is refused.
    pub open spec fn authenticated(
        &self,
        credential: Credential,
        client_id: ClientId,
        c: SecurityContext,
    ) -> bool {
        &&& c.client_id == client_id
        &&& c.policy == self.policy
        &&& match self.auth_chain.says(credential, client_id) {
            Outcome::Accepted(identity) => {
                &&& c.identity == identity
                &&& has_roles(self.keys(), identity, c.roles@)
            },
            _ => {
                &&& c.identity == ClientIdentity::Anonymous(client_id)
                &&& c.roles@.len() == 0
            },
        }
    }

    /// A state with API keys, which lets anonymous clients in where permissive.
    pub fn new(permissive: bool, api_key_store: ApiKeyStore) -> (s: Self)
        requires
            api_key_store.wf(),
        ensures
            s.wf(),
            s.keys() == api_key_store@,
            s.auth_chain.permissive == permissive,
            s.policy@ == CustomGrants::empty(),
    {
        let mut providers: Vec<ApiKeyProvider> = Vec::new();
        providers.push(ApiKeyProvider::new(api_key_store));
        SecurityState {
            auth_chain: AuthChain::new(providers, permissive),
            policy: Arc::new(AccessPolicy::new()),
        }
    }

    /// A state without keys that lets everybody in.
    pub fn permissive() -> (s: Self)
        ensures
            s.wf(),
            s.keys() == KeyStoreMap::empty(),
            s.auth_chain.permissive,
            s.policy@ == CustomGrants::empty(),
    {
        Self::new(true, ApiKeyStore::new())
    }

    /// The API keys.
    pub fn api_key_store(&self) -> (s: &ApiKeyStore)
        requires
            self.wf(),
        ensures
            s@ == self.keys(),
            s.wf(),
    {
        proof {
            assert(self.auth_chain.providers@[0].ready());
        }
        &self.auth_chain.providers[0].store
    }

    /// The API keys, to be created and revoked while the server runs.
    pub fn api_key_store_mut(&mut self) -> (s: &mut ApiKeyStore)
        requires
            old(self).wf(),
        ensures
            s.wf(),
            s@ == old(self).keys(),
            final(s).wf() ==> final(self).wf(),
            final(self).keys() == final(s)@,
            final(self).auth_chain.permissive == old(self).auth_chain.permissive,
            final(self).policy == old(self).policy,
    {
        proof {
            assert(self.auth_chain.providers@[0].ready());
        }
        let provider = &mut self.auth_chain.providers[0];
        &mut provider.store
    }

    /// The policy.
    pub fn policy(&self) -> (p: &AccessPolicy)
        ensures
            *p == *self.policy,
    {
        &self.policy
    }

    /// Puts another policy in force. Contexts that there are keep the one they were made
    /// under; `has_permission` asks the one in force of them too.
    pub fn set_policy(&mut self, policy: AccessPolicy)
        requires
            old(self).wf(),
            policy.wf(),
        ensures
            final(self).wf(),
            *final(self).policy == policy,
            final(self).auth_chain == old(self).auth_chain,
    {
        self.policy = Arc::new(policy);
    }

    /// Whether the policy in force allows the roles of a context a permission on a
    /// kind of resource, whichever policy was in force when the context was made.
    pub fn has_permission(
        &self,
        ctx: &SecurityContext,
        resource: ResourceType,
        permission: Permission,
    ) -> (b: bool)
        requires
            self.wf(),
        ensures
            b == permitted(self.policy@, ctx.roles@, resource, permission),
    {
        self.policy.check(ctx.roles.as_slice(), resource, permission)
    }

    /// The context of a client that shows a credential: its identity and roles,
    /// or an anonymous one without roles where it is refused.
    pub fn authenticate(&self, credential: &Credential, client_id: ClientId) -> (c: SecurityContext)
        requires
            self.wf(),
        ensures
            c.wf(),
            self.authenticated(*credential, client_id, c),
    {
        match self.auth_chain.authenticate(credential, client_id) {
            Ok(identity) => {
                let roles = self.resolve_roles(&identity);
                SecurityContext { identity, client_id, roles, policy: Arc::clone(&self.policy) }
            },
            Err(_) => SecurityContext {
                identity: ClientIdentity::Anonymous(client_id),
                client_id,
                roles: Vec::new(),
                policy: Arc::clone(&self.policy),
            },
        }
    }

    /// The roles of an identity.
    pub fn resolve_roles(&self, identity: &ClientIdentity) -> (roles: Vec<Role>)
        requires
            self.wf(),
        ensures
            has_roles(self.keys(), *identity, roles@),
    {
        let user: Vec<Role> = vec![Role::User];
        assert(user@ =~= seq![Role::User]);
        match identity {
            ClientIdentity::ApiKey { key_id, name } => {
                match self.api_key_store().roles_of(key_id.as_str()) {
                    Some(roles) => roles,
                    None => user,
                }
            },
            _ => user,
        }
    }
}

/// The context of a request: that of its credential where the server has a
/// security state, and that of an anonymous user otherwise.
pub fn security_middleware(
    security_state: Option<&SecurityState>,
    credential: &Credential,
    client_id: ClientId,
) -> (c: SecurityContext)
    requires
        security_state is Some ==> security_state->0.wf(),
    ensures
        c.wf(),
        match security_state {
            Some(state) => state.authenticated(*credential, client_id, c),
            None => {
                &&& c.client_id == client_id
                &&& c.identity == ClientIdentity::Anonymous(client_id)
                &&& c.roles@ == seq![Role::User]
                &&& c.policy@ == CustomGrants::empty()
            },
        },
{
    match security_state {
        Some(state) => state.authenticate(credential, client_id),
        None => SecurityContext::permissive(client_id),
    }
}

/// The status with which a client that has some roles is turned away where an
/// administrator is needed, `None` where it may go on.
pub open spec fn refusal(roles: Seq<Role>) -> Option<u16> {
    if roles.contains(Role::Admin) {
        None
    } else {
        Some(STATUS_FORBIDDEN)
    }
}

/// The status and text with which a request that needs an administrator is
/// answered, `None` where it may go on.
pub fn require_admin(ctx: &SecurityContext) -> (r: Option<(u16, &'static str)>)
    ensures
        r is None <==> ctx.roles@.contains(Role::Admin),
        r is Some ==> (r->0).0 == STATUS_FORBIDDEN && (r->0).1@ == "Admin access required"@,
        r is None <==> refusal(ctx.roles@) is None,
        r is Some ==> refusal(ctx.roles@) == Some((r->0).0),
{
    if ctx.is_admin() {
        None
    } else {
        Some((STATUS_FORBIDDEN, "Admin access required"))
    }
}

/// A server that is not permissive gives a client whose credential is missing or
/// not accepted no permission at all.
pub proof fn strict_state_denies_strangers(
    state: SecurityState,
    credential: Credential,
    client_id: ClientId,
    c: SecurityContext,
    resource: ResourceType,
    permission: Permission,
)
    requires
        state.wf(),
        !state.auth_chain.permissive,
        !(credential is ApiKey) || !accepts(state.keys(), credential->ApiKey_0@),
        state.authenticated(credential, client_id, c),
    ensures
        c.identity == ClientIdentity::Anonymous(client_id),
        !c.allows(resource, permission),
{
    reveal_with_fuel(first_acceptance, 3);
    reveal_with_fuel(first_refusal, 3);
}

/// A permissive server takes a client without credential for an anonymous user.
pub proof fn permissive_state_admits_strangers(
    state: SecurityState,
    client_id: ClientId,
    c: SecurityContext,
)
    requires
        state.auth_chain.permissive,
        state.authenticated(Credential::Absent, client_id, c),
    ensures
        c.identity == ClientIdentity::Anonymous(client_id),
        c.roles@ == seq![Role::User],
{
}

/// The holder of an enabled key is known by it, and has the roles of a key of its
/// id, whatever the mode.
pub proof fn key_holder_is_known(
    state: SecurityState,
    secret: String,
    client_id: ClientId,
    c: SecurityContext,
)
    requires
        state.wf(),
        accepts(state.keys(), secret@),
        state.authenticated(Credential::ApiKey(secret), client_id, c),
    ensures
        ({
            let key = state.keys()[secret_hash(secret@)];
            &&& c.identity == ClientIdentity::ApiKey { key_id: key.key_id, name: key.name }
            &&& exists|h: Seq<u8>| #[trigger]
                state.keys().dom().contains(h) && state.keys()[h].key_id@ == key.key_id@
                    && state.keys()[h].roles@ == c.roles@
        }),
{
    reveal_with_fuel(first_acceptance, 3);
    reveal_with_fuel(first_refusal, 3);
    let key = state.keys()[secret_hash(secret@)];
    assert(knows_id(state.keys(), key.key_id@)) by {
        assert(state.keys().dom().contains(secret_hash(secret@)));
    }
}

// ---------------------------------------------------------------------------
// What headers mean
// ---------------------------------------------------------------------------

/// A bearer token is introduced by the word and a space, a legacy token by its name and
/// an equals sign.
pub proof fn prefixes_spell_their_words()
    ensures
        ascii_chars(bearer_prefix()) == "Bearer "@,
        ascii_chars(token_prefix()) == "authToken="@,
{
    reveal_strlit("Bearer ");
    reveal_strlit("authToken=");
    assert(ascii_chars(bearer_prefix()) =~= "Bearer "@);
    assert(ascii_chars(token_prefix()) =~= "authToken="@);
}

proof fn lemma_trimmed(s: Seq<u8>) -> (r: (int, int))
    ensures
        0 <= r.0 <= r.1 <= s.len(),
        trimmed(s) == s.subrange(r.0, r.1),
        forall|i: int| 0 <= i < r.0 ==> blank(#[trigger] s[i]),
        forall|i: int| r.1 <= i < s.len() ==> blank(#[trigger] s[i]),
        r.0 < r.1 ==> !blank(s[r.0]) && !blank(s[r.1 - 1]),
    decreases s.len(),
{
    if s.len() > 0 && blank(s[0]) {
        let t = s.subrange(1, s.len() as int);
        let r = lemma_trimmed(t);
        assert(t.subrange(r.0, r.1) =~= s.subrange(r.0 + 1, r.1 + 1));
        assert forall|i: int| 0 <= i < r.0 + 1 implies blank(#[trigger] s[i]) by {
            if i > 0 {
                assert(t[i - 1] == s[i]);
            }
        }
        assert forall|i: int| r.1 + 1 <= i < s.len() implies blank(#[trigger] s[i]) by {
            assert(t[i - 1] == s[i]);
        }
        (r.0 + 1, r.1 + 1)
    } else if s.len() > 0 && blank(s.last()) {
        let t = s.drop_last();
        let r = lemma_trimmed(t);
        assert(t.subrange(r.0, r.1) =~= s.subrange(r.0, r.1));
        assert forall|i: int| 0 <= i < r.0 implies blank(#[trigger] s[i]) by {
            assert(t[i] == s[i]);
        }
        assert forall|i: int| r.1 <= i < s.len() implies blank(#[trigger] s[i]) by {
            if i < t.len() {
                assert(t[i] == s[i]);
            }
        }
        r
    } else {
        assert(s.subrange(0, s.len() as int) =~= s);
        (0, s.len() as int)
    }
}

/// What is trimmed off is spaces and tabs at either end, all of them and nothing else.
pub proof fn trimming_takes_off_white_space(s: Seq<u8>)
    ensures
        exists|a: int, b: int|
            {
                &&& 0 <= a <= b <= s.len()
                &&& trimmed(s) == #[trigger] s.subrange(a, b)
                &&& forall|i: int|
                    0 <= i < s.len() && !(a <= i < b) ==> #[trigger] s[i] == 32 || s[i] == 9
                &&& a < b ==> s[a] != 32 && s[a] != 9 && s[b - 1] != 32 && s[b - 1] != 9
            },
{
    let r = lemma_trimmed(s);
    assert(trimmed(s) == s.subrange(r.0, r.1));
}

/// A header is read as text where it holds visible characters, spaces and tabs only.
pub proof fn unreadable_headers_hold_control_characters(h: Seq<u8>, i: int)
    requires
        0 <= i < h.len(),
    ensures
        h[i] < 32 && h[i] != 9 ==> !readable_header(h),
        h[i] >= 127 ==> !readable_header(h),
        (forall|j: int| 0 <= j < h.len() ==> 32 <= #[trigger] h[j] < 127 || h[j] == 9)
            ==> readable_header(h),
{
    assert(readable_header(h) ==> header_char(h[i]));
}

/// The token that a client puts behind the word is the one that is read, where it can be
/// read and neither begins nor ends with white space; without the word there is none.
pub proof fn bearer_tokens_are_read_back(header: &[u8], token: Seq<u8>)
    requires
        readable_header(token),
        token.len() > 0 ==> !blank(token[0]) && !blank(token.last()),
    ensures
        header@ == bearer_prefix() + token ==> bearer_token(Some(header)) == Some(
            ascii_chars(token),
        ),
        !bearer_prefix().is_prefix_of(header@) ==> bearer_token(Some(header)) is None,
        !readable_header(header@) ==> bearer_token(Some(header)) is None,
        bearer_token(None) is None,
        header@ == token ==> header_key(Some(header)) == Some(ascii_chars(token)),
        header_key(None) is None,
{
    if header@ == bearer_prefix() + token {
        let h = header@;
        assert(bearer_prefix().len() == 7);
        assert(h.subrange(0, 7) =~= bearer_prefix());
        assert(h.subrange(7, h.len() as int) =~= token);
        assert(trimmed(token) == token);
        assert forall|i: int| 0 <= i < h.len() implies header_char(#[trigger] h[i]) by {
            if i >= 7 {
                assert(token[i - 7] == h[i]);
            } else {
                assert(bearer_prefix()[i] == h[i]);
            }
        }
    }
}

/// An identity without a known key is a user; one with a known key has the roles of a
/// key of its id, and no others.
pub proof fn roles_come_from_keys(
    keys: KeyStoreMap,
    identity: ClientIdentity,
    roles: Seq<Role>,
    h: Seq<u8>,
)
    requires
        has_roles(keys, identity, roles),
    ensures
        identity is Anonymous ==> roles == seq![Role::User],
        identity is Bearer ==> roles == seq![Role::User],
        identity is ApiKey && !knows_id(keys, identity->key_id@) ==> roles == seq![Role::User],
        identity is ApiKey && keys.dom().contains(h) && keys[h].key_id@ == identity->key_id@ && (
        forall|g: Seq<u8>| #[trigger]
            keys.dom().contains(g) && keys[g].key_id@ == identity->key_id@ ==> g == h) ==> roles
            == keys[h].roles@,
{
}

/// A piece of a query ends where the next ampersand or the query does, and a token piece
/// is one that begins with the name of the token.
pub proof fn pieces_lie_between_ampersands(query: Seq<u8>, from: int, to: int)
    requires
        is_token_piece(query, from, to),
    ensures
        0 <= from && from + 10 <= to <= query.len(),
        from == 0 || query[from - 1] == '&' as u8,
        to == query.len() || query[to] == '&' as u8,
        forall|i: int| from <= i < to ==> #[trigger] query[i] != '&' as u8,
        ascii_chars(query.subrange(from, from + 10)) == "authToken="@,
{
    let piece = query.subrange(from, to);
    assert(token_prefix().len() == 10);
    assert(query.subrange(from, from + 10) =~= piece.subrange(0, 10));
    prefixes_spell_their_words();
}

/// A bearer token counts before a key, and a key before a legacy token; there is no
/// credential only where there is none of them, and what counts is told unchanged.
pub proof fn credentials_are_taken_in_order(
    bearer: Option<Seq<char>>,
    key: Option<Seq<char>>,
    legacy: Option<AuthToken>,
    c: Credential,
)
    requires
        presents(bearer, key, legacy, c),
    ensures
        c is BearerToken <==> bearer is Some,
        c is ApiKey <==> bearer is None && key is Some,
        c is LegacyToken <==> bearer is None && key is None && legacy is Some,
        c is Absent <==> bearer is None && key is None && legacy is None,
        bearer is Some ==> c->BearerToken_0@ == bearer->0,
        bearer is None && key is Some ==> c->ApiKey_0@ == key->0,
        c is LegacyToken ==> c->LegacyToken_0 == legacy->0,
{
}

/// An administrator goes on, whatever else they are; nobody else does, and a client
/// without a role least of all.
pub proof fn administrators_go_on(roles: Seq<Role>, role: Role)
    ensures
        refusal(roles.push(Role::Admin)) is None,
        refusal(roles) is None ==> refusal(roles.push(role)) is None,
        refusal(roles) is Some && role != Role::Admin ==> refusal(roles.push(role)) == Some(403u16),
        refusal(Seq::empty()) == Some(403u16),
{
    assert(roles.push(Role::Admin)[roles.len() as int] == Role::Admin);
    if roles.contains(Role::Admin) {
        let i = choose|i: int| 0 <= i < roles.len() && roles[i] == Role::Admin;
        assert(roles.push(role)[i] == Role::Admin);
    }
    if roles.push(role).contains(Role::Admin) && role != Role::Admin {
        let i = choose|i: int| 0 <= i <= roles.len() && roles.push(role)[i] == Role::Admin;
        assert(roles[i] == Role::Admin);
    }
}

} // verus!

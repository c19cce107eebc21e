//! API keys: secrets that stand for a named principal with roles. Only the
//! SHA-256 hash of a secret is kept.
use crate::auth::provider::{AuthError, AuthProvider, AuthResult, Outcome};
use crate::auth::{ClientIdentity, Credential};
use crate::authz::policy::{duplicate_roles, Role};
use crate::linear_map::{
    bytes_eq, lemma_entries_contains, lemma_entries_len, lemma_entries_value, lemma_set_value,
    KeyEq, LinearMap,
};
use crate::random::random_bytes;
use sha2::{Digest, Sha256};
use vstd::prelude::*;
use vstd::utf8::encode_utf8;

verus! {

/// What `bs58::encode` makes of some bytes.
pub uninterp spec fn bs58_text(bytes: Seq<u8>) -> Seq<char>;

/// `bs58::encode`: the bytes in base 58, a function of them.
#[verifier::external_body]
fn bs58_encode(bytes: &[u8]) -> (s: String)
    ensures
        s@ == bs58_text(bytes@),
{
    bs58::encode(bytes).into_string()
}

/// What `Sha256::digest` makes of some bytes.
pub uninterp spec fn sha256_digest(bytes: Seq<u8>) -> Seq<u8>;

/// `Sha256::digest`: the 32 bytes of the digest, a function of the input.
#[verifier::external_body]
fn sha256(bytes: &[u8]) -> (digest: [u8; 32])
    ensures
        digest@ == sha256_digest(bytes@),
{
    Sha256::digest(bytes).into()
}

/// The hash under which a secret is kept.
pub open spec fn secret_hash(secret: Seq<char>) -> Seq<u8> {
    sha256_digest(encode_utf8(secret))
}

/// The hash of a secret, as a key.
#[derive(Clone, Copy, Debug)]
pub struct KeyHash {
    pub bytes: [u8; 32],
}

impl View for KeyHash {
    type V = Seq<u8>;

    open spec fn view(&self) -> Seq<u8> {
        self.bytes@
    }
}

impl KeyEq for KeyHash {
    fn key_eq(&self, other: &Self) -> (same: bool) {
        bytes_eq(&self.bytes, &other.bytes)
    }
}

/// An API key.
#[derive(Debug)]
pub struct ApiKey {
    /// The name of the key itself, which is no secret.
    pub key_id: String,
    /// The name of its holder.
    pub name: String,
    /// The hash of its secret.
    pub key_hash: [u8; 32],
    pub roles: Vec<Role>,
    pub enabled: bool,
}

/// What there is to know of a key.
pub struct ApiKeyView {
    pub key_id: Seq<char>,
    pub name: Seq<char>,
    pub key_hash: Seq<u8>,
    pub roles: Seq<Role>,
    pub enabled: bool,
}

impl View for ApiKey {
    type V = ApiKeyView;

    open spec fn view(&self) -> ApiKeyView {
        ApiKeyView {
            key_id: self.key_id@,
            name: self.name@,
            key_hash: self.key_hash@,
            roles: self.roles@,
            enabled: self.enabled,
        }
    }
}

/// A key that is enabled, made from random bytes.
pub open spec fn key_from(
    name: Seq<char>,
    roles: Seq<Role>,
    secret_bytes: Seq<u8>,
    id_bytes: Seq<u8>,
) -> ApiKeyView {
    ApiKeyView {
        key_id: bs58_text(id_bytes),
        name,
        key_hash: secret_hash(bs58_text(secret_bytes)),
        roles,
        enabled: true,
    }
}

impl ApiKey {
    /// The key for a holder made from some bytes, and its secret.
    pub fn from_random(name: String, roles: Vec<Role>, secret_bytes: [u8; 32], id_bytes: [u8; 8]) -> (r:
        (Self, String))
        ensures
            r.0@ == key_from(name@, roles@, secret_bytes@, id_bytes@),
            r.0.name == name,
            r.1@ == bs58_text(secret_bytes@),
    {
        let secret = bs58_encode(&secret_bytes);
        let key_hash = sha256(secret.as_str().as_bytes());
        let key_id = bs58_encode(&id_bytes);
        (ApiKey { key_id, name, key_hash, roles, enabled: true }, secret)
    }

    /// A fresh key for a holder, and its secret, which is kept nowhere.
    pub fn generate(name: String, roles: Vec<Role>) -> (r: (Self, String))
        ensures
            r.0.name == name,
            r.0@.name == name@,
            r.0@.roles == roles@,
            r.0.enabled,
            r.0@.key_hash == secret_hash(r.1@),
            exists|secret_bytes: Seq<u8>, id_bytes: Seq<u8>| #[trigger]
                key_from(name@, roles@, secret_bytes, id_bytes) == r.0@ && r.1@ == bs58_text(
                    secret_bytes,
                ) && secret_bytes.len() == 32 && id_bytes.len() == 8,
    {
        Self::from_random(name, roles, random_bytes::<32>(), random_bytes::<8>())
    }

    /// Whether a secret is the one of this key.
    pub fn verify(&self, secret: &str) -> (b: bool)
        ensures
            b == (secret_hash(secret@) == self.key_hash@),
    {
        let hash = sha256(secret.as_bytes());
        constant_time_eq(&hash, &self.key_hash)
    }

    /// The same key once more.
    pub fn duplicate(&self) -> (k: Self)
        ensures
            k@ == self@,
            k.key_id == self.key_id,
            k.name == self.name,
    {
        ApiKey {
            key_id: self.key_id.clone(),
            name: self.name.clone(),
            key_hash: self.key_hash,
            roles: duplicate_roles(&self.roles),
            enabled: self.enabled,
        }
    }
}

proof fn lemma_no_difference(r: u8, x: u8, y: u8)
    ensures
        (r | (x ^ y)) == 0 <==> r == 0 && x == y,
{
    assert((r | (x ^ y)) == 0 <==> r == 0 && x == y) by (bit_vector);
}

/// Whether two byte strings are the same, found out in a time that depends on
/// their lengths only.
pub fn constant_time_eq(a: &[u8], b: &[u8]) -> (same: bool)
    ensures
        same == (a@ == b@),
{
    if a.len() != b.len() {
        return false;
    }
    let mut result: u8 = 0;
    let mut i: usize = 0;
    while i < a.len()
        invariant
            i <= a@.len(),
            a@.len() == b@.len(),
            result == 0 <==> forall|j: int| 0 <= j < i ==> #[trigger] a@[j] == b@[j],
        decreases a@.len() - i,
    {
        let x: u8 = a[i];
        let y: u8 = b[i];
        proof {
            lemma_no_difference(result, x, y);
        }
        result = result | (x ^ y);
        i += 1;
    }
    assert(result == 0 ==> a@ =~= b@);
    result == 0
}

/// Keys by the hash of their secret.
pub type KeyStoreMap = Map<Seq<u8>, ApiKey>;

/// The key of a secret is there and enabled.
pub open spec fn accepts(keys: KeyStoreMap, secret: Seq<char>) -> bool {
    keys.dom().contains(secret_hash(secret)) && keys[secret_hash(secret)].enabled
}

/// A key, disabled.
pub open spec fn disabled(k: ApiKey) -> ApiKey {
    ApiKey { enabled: false, ..k }
}

/// One of the keys has the id.
pub open spec fn knows_id(keys: KeyStoreMap, key_id: Seq<char>) -> bool {
    exists|h: Seq<u8>| #[trigger] keys.dom().contains(h) && keys[h].key_id@ == key_id
}

/// A key of the id was disabled, where there is one.
pub open spec fn revoked(before: KeyStoreMap, after: KeyStoreMap, key_id: Seq<char>) -> bool {
    if knows_id(before, key_id) {
        exists|h: Seq<u8>|
            {
                &&& #[trigger] before.dom().contains(h)
                &&& before[h].key_id@ == key_id
                &&& after == before.insert(h, disabled(before[h]))
            }
    } else {
        after == before
    }
}

/// The API keys of a node.
#[derive(Debug)]
pub struct ApiKeyStore {
    pub keys: LinearMap<KeyHash, ApiKey>,
}

impl View for ApiKeyStore {
    type V = KeyStoreMap;

    open spec fn view(&self) -> KeyStoreMap {
        self.keys@
    }
}

impl Default for ApiKeyStore {
    fn default() -> (s: Self)
        ensures
            s.wf(),
            s@ == KeyStoreMap::empty(),
    {
        Self::new()
    }
}

impl ApiKeyStore {
    /// Each key stands under the hash of its secret.
    pub open spec fn wf(&self) -> bool {
        &&& self.keys.wf()
        &&& forall|h: Seq<u8>| #[trigger]
            self@.dom().contains(h) ==> self@[h].key_hash@ == h
    }

    /// No keys.
    pub fn new() -> (s: Self)
        ensures
            s.wf(),
            s@ == KeyStoreMap::empty(),
    {
        ApiKeyStore { keys: LinearMap::new() }
    }

    /// Keeps a key.
    pub fn register(&mut self, key: ApiKey)
        requires
            old(self).wf(),
        ensures
            final(self).wf(),
            final(self)@ == old(self)@.insert(key.key_hash@, key),
    {
        self.keys.insert(KeyHash { bytes: key.key_hash }, key);
        assert forall|h: Seq<u8>| #[trigger] self@.dom().contains(h) implies self@[h].key_hash@
            == h by {
            if h != key.key_hash@ {
                assert(old(self)@.dom().contains(h));
            }
        }
    }

    /// Makes and keeps a fresh key for a holder, and gives its secret away.
    pub fn create_key(&mut self, name: String, roles: Vec<Role>) -> (r: (ApiKey, String))
        requires
            old(self).wf(),
        ensures
            final(self).wf(),
            r.0@.name == name@,
            r.0@.roles == roles@,
            r.0.enabled,
            r.0@.key_hash == secret_hash(r.1@),
            final(self)@.dom() == old(self)@.dom().insert(secret_hash(r.1@)),
            final(self)@[secret_hash(r.1@)]@ == r.0@,
            forall|h: Seq<u8>|
                h != secret_hash(r.1@) && #[trigger] old(self)@.dom().contains(h) ==> final(self)@[h] == old(self)@[h],
            accepts(final(self)@, r.1@),
    {
        let (key, secret) = ApiKey::generate(name, roles);
        let copy = key.duplicate();
        self.register(key);
        (copy, secret)
    }

    /// The key of a secret, if it is there and enabled.
    pub fn verify(&self, secret: &str) -> (r: Option<ApiKey>)
        requires
            self.wf(),
        ensures
            r is Some <==> accepts(self@, secret@),
            r is Some ==> {
                &&& r->0@ == self@[secret_hash(secret@)]@
                &&& r->0.key_id == self@[secret_hash(secret@)].key_id
                &&& r->0.name == self@[secret_hash(secret@)].name
            },
    {
        let hash = KeyHash { bytes: sha256(secret.as_bytes()) };
        match self.keys.get(&hash) {
            Some(key) => if key.enabled {
                Some(key.duplicate())
            } else {
                None
            },
            None => None,
        }
    }

    /// Where the first key of an id stands, if there is one.
    fn position_of(&self, key_id: &str) -> (r: Option<usize>)
        ensures
            match r {
                Some(i) => {
                    &&& i < self.keys.entries@.len()
                    &&& self.keys.entries@[i as int].1.key_id@ == key_id@
                    &&& forall|j: int|
                        0 <= j < i ==> (#[trigger] self.keys.entries@[j]).1.key_id@ != key_id@
                },
                None => forall|j: int|
                    0 <= j < self.keys.entries@.len() ==> (
                    #[trigger] self.keys.entries@[j]).1.key_id@ != key_id@,
            },
    {
        let wanted = key_id.to_owned();
        let mut i: usize = 0;
        while i < self.keys.entries.len()
            invariant
                i <= self.keys.entries@.len(),
                wanted@ == key_id@,
                forall|j: int|
                    0 <= j < i ==> (#[trigger] self.keys.entries@[j]).1.key_id@ != key_id@,
            decreases self.keys.entries@.len() - i,
        {
            if self.keys.entries[i].1.key_id == wanted {
                return Some(i);
            }
            i += 1;
        }
        None
    }

    /// Disables a key by its id. Tells whether there is one.
    pub fn revoke(&mut self, key_id: &str) -> (found: bool)
        requires
            old(self).wf(),
        ensures
            final(self).wf(),
            found == knows_id(old(self)@, key_id@),
            revoked(old(self)@, final(self)@, key_id@),
    {
        match self.position_of(key_id) {
            Some(i) => {
                let ghost h = self.keys.entries@[i as int].0@;
                let ghost before = self.keys.entries@;
                proof {
                    lemma_entries_value(before, i as int);
                    lemma_set_value(before, i as int);
                    assert(old(self)@.dom().contains(h));
                }
                let e = &mut self.keys.entries[i];
                e.1.enabled = false;
                proof {
                    assert(self.keys.entries@ == before.update(
                        i as int,
                        (before[i as int].0, disabled(before[i as int].1)),
                    ));
                    assert(self@ == old(self)@.insert(h, disabled(old(self)@[h])));
                }
                true
            },
            None => {
                proof {
                    let s = self.keys.entries@;
                    assert forall|h: Seq<u8>| #[trigger] self@.dom().contains(h) implies self@[h].key_id@
                        != key_id@ by {
                        lemma_entries_contains(s, h);
                        let j = choose|j: int| 0 <= j < s.len() && #[trigger] s[j].0@ == h;
                        lemma_entries_value(s, j);
                    }
                }
                false
            },
        }
    }

    /// The roles of the first key of an id, if there is one.
    pub fn roles_of(&self, key_id: &str) -> (r: Option<Vec<Role>>)
        requires
            self.wf(),
        ensures
            r is Some <==> knows_id(self@, key_id@),
            r is Some ==> exists|h: Seq<u8>| #[trigger]
                self@.dom().contains(h) && self@[h].key_id@ == key_id@ && self@[h].roles@ == r->0@,
    {
        match self.position_of(key_id) {
            Some(i) => {
                proof {
                    lemma_entries_value(self.keys.entries@, i as int);
                    assert(self@.dom().contains(self.keys.entries@[i as int].0@));
                }
                Some(duplicate_roles(&self.keys.entries[i].1.roles))
            },
            None => {
                proof {
                    let s = self.keys.entries@;
                    assert forall|h: Seq<u8>| #[trigger] self@.dom().contains(h) implies self@[h].key_id@
                        != key_id@ by {
                        lemma_entries_contains(s, h);
                        let j = choose|j: int| 0 <= j < s.len() && #[trigger] s[j].0@ == h;
                        lemma_entries_value(s, j);
                    }
                }
                None
            },
        }
    }

    /// All keys.
    pub fn list_keys(&self) -> (keys: Vec<ApiKey>)
        requires
            self.wf(),
        ensures
            keys@.len() == self@.dom().len(),
            forall|i: int|
                0 <= i < keys@.len() ==> {
                    &&& self@.dom().contains((#[trigger] keys@[i])@.key_hash)
                    &&& self@[keys@[i]@.key_hash]@ == keys@[i]@
                },
            forall|h: Seq<u8>| #[trigger]
                self@.dom().contains(h) ==> exists|i: int|
                    0 <= i < keys@.len() && (#[trigger] keys@[i])@.key_hash == h,
    {
        let mut keys: Vec<ApiKey> = Vec::new();
        let mut i: usize = 0;
        while i < self.keys.entries.len()
            invariant
                i <= self.keys.entries@.len(),
                keys@.len() == i,
                forall|j: int|
                    0 <= j < i ==> (#[trigger] keys@[j])@ == self.keys.entries@[j].1@,
            decreases self.keys.entries@.len() - i,
        {
            keys.push(self.keys.entries[i].1.duplicate());
            i += 1;
        }
        proof {
            let s = self.keys.entries@;
            lemma_entries_len(s);
            assert forall|j: int| 0 <= j < keys@.len() implies {
                &&& self@.dom().contains((#[trigger] keys@[j])@.key_hash)
                &&& self@[keys@[j]@.key_hash]@ == keys@[j]@
            } by {
                lemma_entries_value(s, j);
                assert(self@.dom().contains(s[j].0@));
            }
            assert forall|h: Seq<u8>| #[trigger] self@.dom().contains(h) implies exists|j: int|
                0 <= j < keys@.len() && (#[trigger] keys@[j])@.key_hash == h by {
                lemma_entries_contains(s, h);
                let j = choose|j: int| 0 <= j < s.len() && #[trigger] s[j].0@ == h;
                lemma_entries_value(s, j);
                assert(keys@[j]@.key_hash == h);
            }
        }
        keys
    }
}

/// A key that was created is accepted by its secret until its id is revoked, and
/// not after that, where no other key has its id; secrets with another hash are
/// not affected.
pub proof fn created_key_lives_until_revoked(
    keys: KeyStoreMap,
    key: ApiKey,
    secret: Seq<char>,
    after: KeyStoreMap,
    other: Seq<char>,
)
    requires
        key.enabled,
        key.key_hash@ == secret_hash(secret),
        !knows_id(keys.remove(secret_hash(secret)), key.key_id@),
        revoked(keys.insert(secret_hash(secret), key), after, key.key_id@),
    ensures
        ({
            let created = keys.insert(secret_hash(secret), key);
            &&& accepts(created, secret)
            &&& !accepts(after, secret)
            &&& secret_hash(other) != secret_hash(secret) ==> {
                &&& accepts(created, other) == accepts(keys, other)
                &&& accepts(after, other) == accepts(keys, other)
            }
        }),
{
    let hash = secret_hash(secret);
    let created = keys.insert(hash, key);
    assert(created.dom().contains(hash) && created[hash].key_id@ == key.key_id@);
    assert forall|h: Seq<u8>| #[trigger]
        created.dom().contains(h) && created[h].key_id@ == key.key_id@ implies h == hash by {
        if h != hash {
            assert(keys.remove(hash).dom().contains(h));
        }
    }
}

/// Authenticates API keys.
#[derive(Debug)]
pub struct ApiKeyProvider {
    pub store: ApiKeyStore,
}

impl ApiKeyProvider {
    /// A provider for the keys of a store.
    pub fn new(store: ApiKeyStore) -> (p: Self)
        ensures
            p.store == store,
    {
        ApiKeyProvider { store }
    }
}

impl AuthProvider for ApiKeyProvider {
    open spec fn ready(&self) -> bool {
        self.store.wf()
    }

    open spec fn handles(&self, credential: Credential) -> bool {
        credential is ApiKey
    }

    open spec fn outcome(&self, credential: Credential) -> Outcome {
        match credential {
            Credential::ApiKey(secret) => if accepts(self.store@, secret@) {
                let key = self.store@[secret_hash(secret@)];
                Outcome::Accepted(ClientIdentity::ApiKey { key_id: key.key_id, name: key.name })
            } else {
                Outcome::InvalidCredentials("invalid API key"@)
            },
            _ => Outcome::NoCredentials,
        }
    }

    fn supports(&self, credential: &Credential) -> (b: bool) {
        match credential {
            Credential::ApiKey(_) => true,
            _ => false,
        }
    }

    fn authenticate(&self, credential: &Credential) -> (r: AuthResult) {
        match credential {
            Credential::ApiKey(secret) => match self.store.verify(secret.as_str()) {
                Some(key) => Ok(ClientIdentity::ApiKey { key_id: key.key_id, name: key.name }),
                None => Err(
                    AuthError::InvalidCredentials { reason: "invalid API key".to_owned() },
                ),
            },
            _ => Err(AuthError::NoCredentials),
        }
    }
}

/// A store without keys accepts nothing, a disabled key is not accepted, and a key is
/// accepted by its own secret.
pub proof fn only_enabled_keys_are_accepted(keys: KeyStoreMap, key: ApiKey, secret: Seq<char>)
    requires
        key.key_hash@ == secret_hash(secret),
    ensures
        !accepts(KeyStoreMap::empty(), secret),
        accepts(keys.insert(key.key_hash@, key), secret) <==> key.enabled,
        !accepts(keys.insert(key.key_hash@, disabled(key)), secret),
        !keys.dom().contains(secret_hash(secret)) ==> !accepts(keys, secret),
{
}

/// A disabled key is the same key: its name, id, hash and roles stay.
pub proof fn disabling_changes_nothing_else(k: ApiKey)
    ensures
        !disabled(k).enabled,
        disabled(k).key_id == k.key_id,
        disabled(k).name == k.name,
        disabled(k).key_hash == k.key_hash,
        disabled(k).roles == k.roles,
{
}

/// Revoking never lets anybody in, keeps every key with its roles, and does nothing where
/// no key has the id.
pub proof fn revoking_only_shuts_out(
    before: KeyStoreMap,
    after: KeyStoreMap,
    key_id: Seq<char>,
    secret: Seq<char>,
    h: Seq<u8>,
)
    requires
        revoked(before, after, key_id),
    ensures
        accepts(after, secret) ==> accepts(before, secret),
        after.dom() =~= before.dom(),
        before.dom().contains(h) ==> after[h].roles == before[h].roles && after[h].key_id
            == before[h].key_id && after[h].name == before[h].name,
        before.dom().contains(h) && before[h].key_id@ != key_id ==> after[h] == before[h],
        !knows_id(before, key_id) ==> after == before,
        knows_id(before, key_id) ==> exists|g: Seq<u8>| #[trigger]
            after.dom().contains(g) && after[g].key_id@ == key_id && !after[g].enabled,
{
    if knows_id(before, key_id) {
        let g = choose|g: Seq<u8>|
            {
                &&& #[trigger] before.dom().contains(g)
                &&& before[g].key_id@ == key_id
                &&& after == before.insert(g, disabled(before[g]))
            };
        assert(after.dom().contains(g));
    }
}

/// A key that was made from random bytes opens with the secret made from the same bytes,
/// belongs to its holder with its roles, and is enabled.
pub proof fn fresh_keys_open_with_their_secret(
    keys: KeyStoreMap,
    key: ApiKey,
    name: Seq<char>,
    roles: Seq<Role>,
    secret_bytes: Seq<u8>,
    id_bytes: Seq<u8>,
)
    requires
        key@ == key_from(name, roles, secret_bytes, id_bytes),
    ensures
        accepts(keys.insert(key.key_hash@, key), bs58_text(secret_bytes)),
        key.name@ == name,
        key.roles@ == roles,
        key.key_id@ == bs58_text(id_bytes),
        key.enabled,
{
}

/// The provider of API keys deals with API keys only: it takes the holder of an enabled
/// key for who the key says, refuses any other key, and has nothing to say of other
/// credentials.
pub proof fn provider_knows_key_holders(p: ApiKeyProvider, secret: String, other: Credential)
    requires
        !(other is ApiKey),
    ensures
        p.handles(Credential::ApiKey(secret)),
        !p.handles(other),
        p.outcome(other) is NoCredentials,
        p.outcome(Credential::ApiKey(secret)) is Accepted <==> p.store@.dom().contains(
            secret_hash(secret@),
        ) && p.store@[secret_hash(secret@)].enabled,
        !(p.outcome(Credential::ApiKey(secret)) is Accepted) ==> p.outcome(
            Credential::ApiKey(secret),
        ) is InvalidCredentials,
        p.outcome(Credential::ApiKey(secret)) is Accepted ==> {
            let who = p.outcome(Credential::ApiKey(secret))->Accepted_0;
            &&& who is ApiKey
            &&& who->key_id == p.store@[secret_hash(secret@)].key_id
            &&& who->name == p.store@[secret_hash(secret@)].name
        },
{
}

/// An id is known exactly as long as a key has it: an added key makes its id known, and
/// no other; in an empty store no id is known.
pub proof fn ids_are_known_by_their_keys(
    keys: KeyStoreMap,
    h: Seq<u8>,
    key: ApiKey,
    key_id: Seq<char>,
)
    requires
        !keys.dom().contains(h),
    ensures
        knows_id(keys.insert(h, key), key.key_id@),
        key_id != key.key_id@ ==> (knows_id(keys.insert(h, key), key_id) <==> knows_id(
            keys,
            key_id,
        )),
        !knows_id(KeyStoreMap::empty(), key_id),
{
    let more = keys.insert(h, key);
    assert(more.dom().contains(h) && more[h].key_id@ == key.key_id@);
    if key_id != key.key_id@ {
        if knows_id(more, key_id) {
            let g = choose|g: Seq<u8>| #[trigger]
                more.dom().contains(g) && more[g].key_id@ == key_id;
            assert(keys.dom().contains(g) && keys[g].key_id@ == key_id);
        }
        if knows_id(keys, key_id) {
            let g = choose|g: Seq<u8>| #[trigger]
                keys.dom().contains(g) && keys[g].key_id@ == key_id;
            assert(more.dom().contains(g) && more[g].key_id@ == key_id);
        }
    }
}

} // verus!

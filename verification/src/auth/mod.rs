//! Authentication: credentials, the identities they stand for, and the providers
//! that tell one from the other.
pub mod api_key;
pub mod middleware;
pub mod provider;

use crate::client_events::{AuthToken, ClientId};
use crate::text::{decimal, decimal_is_injective, join, push_decimal};
use vstd::prelude::*;

verus! {

/// Who a client is.
#[derive(Debug, PartialEq, Eq, Hash)]
pub enum ClientIdentity {
    /// The client did not say.
    Anonymous(ClientId),
    /// The holder of an API key.
    ApiKey { key_id: String, name: String },
    /// The subject of a bearer token.
    Bearer { subject: String, issuer: String },
}

impl ClientIdentity {
    /// The identity as text.
    pub open spec fn text(&self) -> Seq<char> {
        match self {
            ClientIdentity::Anonymous(id) => "anon:"@ + decimal(id.id as nat),
            ClientIdentity::ApiKey { key_id, name } => "apikey:"@ + name@,
            ClientIdentity::Bearer { subject, issuer } => "bearer:"@ + subject@,
        }
    }

    /// Whether the client did not say who it is.
    pub fn is_anonymous(&self) -> (b: bool)
        ensures
            b == (self is Anonymous),
    {
        match self {
            ClientIdentity::Anonymous(_) => true,
            _ => false,
        }
    }

    /// The identity as text.
    pub fn label(&self) -> (s: String)
        ensures
            s@ == self.text(),
    {
        match self {
            ClientIdentity::Anonymous(id) => {
                let mut s = "anon:".to_owned();
                push_decimal(&mut s, id.id as u64);
                s
            },
            ClientIdentity::ApiKey { key_id, name } => join("apikey:", name.as_str()),
            ClientIdentity::Bearer { subject, issuer } => join("bearer:", subject.as_str()),
        }
    }
}

/// What a client shows to say who it is.
#[derive(Debug, PartialEq, Eq)]
pub enum Credential {
    /// A token of the legacy protocol.
    LegacyToken(AuthToken),
    ApiKey(String),
    BearerToken(String),
    /// Nothing.
    Absent,
}

/// Labels tell kinds of clients apart, and clients of one kind by their number, the name
/// of their key or their subject.
pub proof fn labels_tell_clients_apart(a: ClientIdentity, b: ClientIdentity)
    requires
        a.text() == b.text(),
    ensures
        a is Anonymous <==> b is Anonymous,
        a is ApiKey <==> b is ApiKey,
        a is Bearer <==> b is Bearer,
        a is Anonymous ==> a->Anonymous_0 == b->Anonymous_0,
        a is ApiKey ==> a->name@ == b->name@,
        a is Bearer ==> a->subject@ == b->subject@,
{
    reveal_strlit("anon:");
    reveal_strlit("apikey:");
    reveal_strlit("bearer:");
    assert(a is Anonymous ==> a.text()[0] == 'a' && a.text()[1] == 'n');
    assert(a is ApiKey ==> a.text()[0] == 'a' && a.text()[1] == 'p');
    assert(a is Bearer ==> a.text()[0] == 'b');
    assert(b is Anonymous ==> b.text()[0] == 'a' && b.text()[1] == 'n');
    assert(b is ApiKey ==> b.text()[0] == 'a' && b.text()[1] == 'p');
    assert(b is Bearer ==> b.text()[0] == 'b');
    if a is Anonymous {
        let n = a->Anonymous_0.id as nat;
        let m = b->Anonymous_0.id as nat;
        assert(a.text().subrange(5, a.text().len() as int) =~= decimal(n));
        assert(b.text().subrange(5, b.text().len() as int) =~= decimal(m));
        decimal_is_injective(n, m);
    } else if a is ApiKey {
        assert(a.text().subrange(7, a.text().len() as int) =~= a->name@);
        assert(b.text().subrange(7, b.text().len() as int) =~= b->name@);
    } else {
        assert(a.text().subrange(7, a.text().len() as int) =~= a->subject@);
        assert(b.text().subrange(7, b.text().len() as int) =~= b->subject@);
    }
}

/// A label says of what kind a client is.
pub proof fn labels_say_the_kind(a: ClientIdentity)
    ensures
        a is Anonymous ==> "anon:"@.is_prefix_of(a.text()),
        a is ApiKey ==> "apikey:"@.is_prefix_of(a.text()),
        a is Bearer ==> "bearer:"@.is_prefix_of(a.text()),
{
    match a {
        ClientIdentity::Anonymous(id) => {
            assert(a.text().subrange(0, "anon:"@.len() as int) =~= "anon:"@);
        },
        ClientIdentity::ApiKey { key_id, name } => {
            assert(a.text().subrange(0, "apikey:"@.len() as int) =~= "apikey:"@);
        },
        ClientIdentity::Bearer { subject, issuer } => {
            assert(a.text().subrange(0, "bearer:"@.len() as int) =~= "bearer:"@);
        },
    }
}

} // verus!

//! Providers that authenticate credentials, and the chain that asks them.
use crate::auth::{ClientIdentity, Credential};
use crate::client_events::ClientId;
use crate::text::join;
use vstd::prelude::*;

verus! {

/// Why authentication failed.
#[derive(Debug)]
pub enum AuthError {
    NoCredentials,
    InvalidCredentials { reason: String },
    Expired,
    ProviderUnavailable { reason: String },
}

/// What authentication comes to.
pub type AuthResult = Result<ClientIdentity, AuthError>;

/// What authentication comes to, with reasons as text.
pub enum Outcome {
    Accepted(ClientIdentity),
    NoCredentials,
    InvalidCredentials(Seq<char>),
    Expired,
    ProviderUnavailable(Seq<char>),
}

/// The outcome of a result.
pub open spec fn outcome_of(r: AuthResult) -> Outcome {
    match r {
        Ok(identity) => Outcome::Accepted(identity),
        Err(AuthError::NoCredentials) => Outcome::NoCredentials,
        Err(AuthError::InvalidCredentials { reason }) => Outcome::InvalidCredentials(reason@),
        Err(AuthError::Expired) => Outcome::Expired,
        Err(AuthError::ProviderUnavailable { reason }) => Outcome::ProviderUnavailable(reason@),
    }
}

impl AuthError {
    /// What the error says.
    pub open spec fn text(&self) -> Seq<char> {
        match self {
            AuthError::NoCredentials => "no credentials provided"@,
            AuthError::InvalidCredentials { reason } => "invalid credentials: "@ + reason@,
            AuthError::Expired => "expired credentials"@,
            AuthError::ProviderUnavailable { reason } =>
                "authentication provider unavailable: "@ + reason@,
        }
    }

    /// What the error says.
    pub fn message(&self) -> (s: String)
        ensures
            s@ == self.text(),
    {
        match self {
            AuthError::NoCredentials => "no credentials provided".to_owned(),
            AuthError::InvalidCredentials { reason } => join(
                "invalid credentials: ",
                reason.as_str(),
            ),
            AuthError::Expired => "expired credentials".to_owned(),
            AuthError::ProviderUnavailable { reason } => join(
                "authentication provider unavailable: ",
                reason.as_str(),
            ),
        }
    }
}

/// Authenticates credentials of some kinds.
pub trait AuthProvider {
    /// The provider can be asked.
    spec fn ready(&self) -> bool;

    /// The provider can handle the kind of credential.
    spec fn handles(&self, credential: Credential) -> bool;

    /// What the provider says of a credential.
    spec fn outcome(&self, credential: Credential) -> Outcome;

    /// Whether the provider can handle the kind of credential.
    fn supports(&self, credential: &Credential) -> (b: bool)
        ensures
            b == self.handles(*credential),
    ;

    /// Who shows the credential.
    fn authenticate(&self, credential: &Credential) -> (r: AuthResult)
        requires
            self.ready(),
        ensures
            outcome_of(r) == self.outcome(*credential),
    ;
}

/// A provider of one kind or of another, so that a chain can hold both.
#[derive(Debug)]
pub enum EitherProvider<A, B> {
    First(A),
    Second(B),
}

impl<A: AuthProvider, B: AuthProvider> AuthProvider for EitherProvider<A, B> {
    open spec fn ready(&self) -> bool {
        match self {
            EitherProvider::First(a) => a.ready(),
            EitherProvider::Second(b) => b.ready(),
        }
    }

    open spec fn handles(&self, credential: Credential) -> bool {
        match self {
            EitherProvider::First(a) => a.handles(credential),
            EitherProvider::Second(b) => b.handles(credential),
        }
    }

    open spec fn outcome(&self, credential: Credential) -> Outcome {
        match self {
            EitherProvider::First(a) => a.outcome(credential),
            EitherProvider::Second(b) => b.outcome(credential),
        }
    }

    fn supports(&self, credential: &Credential) -> (b: bool) {
        match self {
            EitherProvider::First(a) => a.supports(credential),
            EitherProvider::Second(b) => b.supports(credential),
        }
    }

    fn authenticate(&self, credential: &Credential) -> (r: AuthResult) {
        match self {
            EitherProvider::First(a) => a.authenticate(credential),
            EitherProvider::Second(b) => b.authenticate(credential),
        }
    }
}

/// The outcome of the first provider, from one on, that handles a credential and
/// accepts it, if there is one.
pub open spec fn first_acceptance<P: AuthProvider>(
    providers: Seq<P>,
    from: int,
    credential: Credential,
) -> Option<Outcome>
    decreases providers.len() - from,
{
    if from < 0 || from >= providers.len() {
        None
    } else if providers[from].handles(credential) && providers[from].outcome(
        credential,
    ) is Accepted {
        Some(providers[from].outcome(credential))
    } else {
        first_acceptance(providers, from + 1, credential)
    }
}

/// The outcome of the first provider, from one on, that handles a credential and
/// refuses it, if there is one. To say that there are no credentials is not to
/// refuse.
pub open spec fn first_refusal<P: AuthProvider>(
    providers: Seq<P>,
    from: int,
    credential: Credential,
) -> Option<Outcome>
    decreases providers.len() - from,
{
    if from < 0 || from >= providers.len() {
        None
    } else if providers[from].handles(credential) && !(providers[from].outcome(
        credential,
    ) is Accepted) && !(providers[from].outcome(credential) is NoCredentials) {
        Some(providers[from].outcome(credential))
    } else {
        first_refusal(providers, from + 1, credential)
    }
}

/// What a chain of providers says of a credential: the first that accepts it
/// decides; where none does, the first that refuses it; where none does that
/// either, the client stays anonymous in permissive mode and is refused otherwise.
pub open spec fn chain_outcome<P: AuthProvider>(
    providers: Seq<P>,
    permissive: bool,
    credential: Credential,
    client_id: ClientId,
) -> Outcome {
    match first_acceptance(providers, 0, credential) {
        Some(accepted) => accepted,
        None => match first_refusal(providers, 0, credential) {
            Some(refused) => refused,
            None => if permissive {
                Outcome::Accepted(ClientIdentity::Anonymous(client_id))
            } else {
                Outcome::InvalidCredentials("no provider accepted the credential"@)
            },
        },
    }
}

/// Asks providers in turn.
#[derive(Debug)]
pub struct AuthChain<P> {
    pub providers: Vec<P>,
    /// Whether clients need not say who they are.
    pub permissive: bool,
}

impl<P: AuthProvider> AuthChain<P> {
    /// Every provider can be asked.
    pub open spec fn wf(&self) -> bool {
        forall|i: int| 0 <= i < self.providers@.len() ==> (#[trigger] self.providers@[i]).ready()
    }

    /// What the chain says of a credential.
    pub open spec fn says(&self, credential: Credential, client_id: ClientId) -> Outcome {
        if credential is Absent {
            if self.permissive {
                Outcome::Accepted(ClientIdentity::Anonymous(client_id))
            } else {
                Outcome::NoCredentials
            }
        } else {
            chain_outcome(self.providers@, self.permissive, credential, client_id)
        }
    }

    /// A chain of providers.
    pub fn new(providers: Vec<P>, permissive: bool) -> (c: Self)
        ensures
            c.providers == providers,
            c.permissive == permissive,
    {
        AuthChain { providers, permissive }
    }

    /// Who shows the credential: providers are asked in turn until one accepts it or
    /// all have been asked.
    pub fn authenticate(&self, credential: &Credential, client_id: ClientId) -> (r: AuthResult)
        requires
            self.wf(),
        ensures
            outcome_of(r) == self.says(*credential, client_id),
    {
        if let Credential::Absent = credential {
            return if self.permissive {
                Ok(ClientIdentity::Anonymous(client_id))
            } else {
                Err(AuthError::NoCredentials)
            };
        }
        let mut refusal: Option<AuthError> = None;
        let mut i: usize = 0;
        while i < self.providers.len()
            invariant
                self.wf(),
                i <= self.providers@.len(),
                !(credential is Absent),
                first_acceptance(self.providers@, 0, *credential) == first_acceptance(
                    self.providers@,
                    i as int,
                    *credential,
                ),
                first_refusal(self.providers@, 0, *credential) == (match refusal {
                    Some(e) => Some(outcome_of(Err(e))),
                    None => first_refusal(self.providers@, i as int, *credential),
                }),
                refusal is Some ==> !(refusal->0 is NoCredentials),
            decreases self.providers@.len() - i,
        {
            assert(self.providers@[i as int].ready());
            if self.providers[i].supports(credential) {
                match self.providers[i].authenticate(credential) {
                    Ok(identity) => {
                        return Ok(identity);
                    },
                    Err(AuthError::NoCredentials) => {},
                    Err(e) => {
                        if refusal.is_none() {
                            refusal = Some(e);
                        }
                    },
                }
            }
            i += 1;
        }
        match refusal {
            Some(e) => Err(e),
            None => if self.permissive {
                Ok(ClientIdentity::Anonymous(client_id))
            } else {
                Err(
                    AuthError::InvalidCredentials {
                        reason: "no provider accepted the credential".to_owned(),
                    },
                )
            },
        }
    }
}

/// The first provider that accepts a credential decides, whatever those before it
/// say.
pub proof fn first_success_is_returned<P: AuthProvider>(
    chain: AuthChain<P>,
    credential: Credential,
    client_id: ClientId,
    i: int,
)
    requires
        !(credential is Absent),
        0 <= i < chain.providers@.len(),
        chain.providers@[i].handles(credential),
        chain.providers@[i].outcome(credential) is Accepted,
        forall|j: int|
            0 <= j < i ==> !((#[trigger] chain.providers@[j]).handles(credential)
                && chain.providers@[j].outcome(credential) is Accepted),
    ensures
        chain.says(credential, client_id) == chain.providers@[i].outcome(credential),
{
    lemma_acceptance_at(chain.providers@, 0, i, credential);
}

proof fn lemma_acceptance_at<P: AuthProvider>(
    providers: Seq<P>,
    from: int,
    i: int,
    credential: Credential,
)
    requires
        0 <= from <= i < providers.len(),
        providers[i].handles(credential) && providers[i].outcome(credential) is Accepted,
        forall|j: int|
            from <= j < i ==> !((#[trigger] providers[j]).handles(credential)
                && providers[j].outcome(credential) is Accepted),
    ensures
        first_acceptance(providers, from, credential) == Some(providers[i].outcome(credential)),
    decreases i - from,
{
    if from < i {
        lemma_acceptance_at(providers, from + 1, i, credential);
    }
}

/// A chain that is not permissive never lets an unknown client through as
/// anonymous, unless a provider says so.
pub proof fn strict_chain_knows_its_clients<P: AuthProvider>(
    chain: AuthChain<P>,
    credential: Credential,
    client_id: ClientId,
)
    requires
        !chain.permissive,
        chain.says(credential, client_id) is Accepted,
    ensures
        exists|i: int|
            0 <= i < chain.providers@.len() && (#[trigger] chain.providers@[i]).handles(credential)
                && chain.providers@[i].outcome(credential) == chain.says(credential, client_id),
{
    lemma_accepted_by_some(chain.providers@, 0, credential);
    lemma_refusal_does_not_accept(chain.providers@, 0, credential);
}

proof fn lemma_accepted_by_some<P: AuthProvider>(
    providers: Seq<P>,
    from: int,
    credential: Credential,
)
    requires
        0 <= from <= providers.len(),
    ensures
        first_acceptance(providers, from, credential) is Some ==> exists|i: int|
            0 <= i < providers.len() && (#[trigger] providers[i]).handles(credential)
                && Some(providers[i].outcome(credential)) == first_acceptance(
                providers,
                from,
                credential,
            ),
    decreases providers.len() - from,
{
    if from < providers.len() {
        lemma_accepted_by_some(providers, from + 1, credential);
    }
}

proof fn lemma_refusal_does_not_accept<P: AuthProvider>(
    providers: Seq<P>,
    from: int,
    credential: Credential,
)
    requires
        0 <= from <= providers.len(),
    ensures
        first_refusal(providers, from, credential) is Some ==> !(first_refusal(
            providers,
            from,
            credential,
        )->0 is Accepted),
    decreases providers.len() - from,
{
    if from < providers.len() {
        lemma_refusal_does_not_accept(providers, from + 1, credential);
    }
}

/// A provider of either kind is what it holds.
pub proof fn either_provider_is_the_one_it_holds<A: AuthProvider, B: AuthProvider>(
    a: A,
    b: B,
    c: Credential,
)
    ensures
        EitherProvider::<A, B>::First(a).outcome(c) == a.outcome(c),
        EitherProvider::<A, B>::First(a).handles(c) == a.handles(c),
        EitherProvider::<A, B>::Second(b).outcome(c) == b.outcome(c),
        EitherProvider::<A, B>::Second(b).handles(c) == b.handles(c),
{
}

proof fn lemma_refusal_at<P: AuthProvider>(
    providers: Seq<P>,
    from: int,
    i: int,
    credential: Credential,
)
    requires
        0 <= from <= i < providers.len(),
        providers[i].handles(credential),
        !(providers[i].outcome(credential) is Accepted),
        !(providers[i].outcome(credential) is NoCredentials),
        forall|j: int|
            from <= j < i ==> !(#[trigger] providers[j]).handles(credential)
                || providers[j].outcome(credential) is Accepted
                || providers[j].outcome(credential) is NoCredentials,
    ensures
        first_refusal(providers, from, credential) == Some(providers[i].outcome(credential)),
    decreases i - from,
{
    if from < i {
        assert(!providers[from].handles(credential) || providers[from].outcome(
            credential,
        ) is Accepted || providers[from].outcome(credential) is NoCredentials);
        lemma_refusal_at(providers, from + 1, i, credential);
    }
}

proof fn lemma_nobody_accepts<P: AuthProvider>(providers: Seq<P>, from: int, credential: Credential)
    requires
        0 <= from <= providers.len(),
        forall|j: int|
            0 <= j < providers.len() && (#[trigger] providers[j]).handles(credential)
                ==> !(providers[j].outcome(credential) is Accepted),
    ensures
        first_acceptance(providers, from, credential) is None,
    decreases providers.len() - from,
{
    if from < providers.len() {
        lemma_nobody_accepts(providers, from + 1, credential);
    }
}

proof fn lemma_nobody_refuses<P: AuthProvider>(providers: Seq<P>, from: int, credential: Credential)
    requires
        0 <= from <= providers.len(),
        forall|j: int|
            0 <= j < providers.len() && (#[trigger] providers[j]).handles(credential)
                ==> providers[j].outcome(credential) is Accepted || providers[j].outcome(
                credential,
            ) is NoCredentials,
    ensures
        first_refusal(providers, from, credential) is None,
    decreases providers.len() - from,
{
    if from < providers.len() {
        assert(providers[from].handles(credential) ==> providers[from].outcome(
            credential,
        ) is Accepted || providers[from].outcome(credential) is NoCredentials);
        lemma_nobody_refuses(providers, from + 1, credential);
    }
}

/// Where no provider accepts a credential, the first that refuses it decides, in
/// permissive mode too: a wrong credential does not make a client anonymous.
pub proof fn first_refusal_is_returned<P: AuthProvider>(
    chain: AuthChain<P>,
    credential: Credential,
    client_id: ClientId,
    i: int,
)
    requires
        !(credential is Absent),
        0 <= i < chain.providers@.len(),
        chain.providers@[i].handles(credential),
        !(chain.providers@[i].outcome(credential) is NoCredentials),
        forall|j: int|
            0 <= j < chain.providers@.len() && (#[trigger] chain.providers@[j]).handles(credential)
                ==> !(chain.providers@[j].outcome(credential) is Accepted),
        forall|j: int|
            0 <= j < i ==> !(#[trigger] chain.providers@[j]).handles(credential)
                || chain.providers@[j].outcome(credential) is NoCredentials,
    ensures
        chain.says(credential, client_id) == chain.providers@[i].outcome(credential),
        !(chain.says(credential, client_id) is Accepted),
{
    lemma_nobody_accepts(chain.providers@, 0, credential);
    lemma_refusal_at(chain.providers@, 0, i, credential);
}

/// A credential that no provider knows makes a client anonymous in permissive mode and
/// is refused otherwise, and so is none at all.
pub proof fn unknown_credentials<P: AuthProvider>(
    chain: AuthChain<P>,
    credential: Credential,
    client_id: ClientId,
)
    requires
        credential is Absent || forall|j: int|
            0 <= j < chain.providers@.len() ==> !(#[trigger] chain.providers@[j]).handles(
                credential,
            ),
    ensures
        chain.permissive ==> chain.says(credential, client_id) == Outcome::Accepted(
            ClientIdentity::Anonymous(client_id),
        ),
        !chain.permissive ==> !(chain.says(credential, client_id) is Accepted),
        !chain.permissive && credential is Absent ==> chain.says(
            credential,
            client_id,
        ) is NoCredentials,
        !chain.permissive && !(credential is Absent) ==> chain.says(
            credential,
            client_id,
        ) is InvalidCredentials,
{
    if !(credential is Absent) {
        lemma_nobody_accepts(chain.providers@, 0, credential);
        lemma_nobody_refuses(chain.providers@, 0, credential);
    }
}

/// A result and its outcome say the same.
pub proof fn outcomes_are_results(r: AuthResult)
    ensures
        outcome_of(r) is Accepted <==> r is Ok,
        r is Ok ==> outcome_of(r)->Accepted_0 == r->Ok_0,
        r is Err ==> (outcome_of(r) is NoCredentials <==> r->Err_0 is NoCredentials),
        r is Err ==> (outcome_of(r) is Expired <==> r->Err_0 is Expired),
        r is Err ==> (outcome_of(r) is InvalidCredentials <==> r->Err_0 is InvalidCredentials),
        r is Err ==> (outcome_of(r) is ProviderUnavailable <==> r->Err_0 is ProviderUnavailable),
{
}

} // verus!

//! The security context that travels with a request.
use crate::auth::ClientIdentity;
use crate::authz::policy::{permitted, AccessPolicy, CustomGrants, Permission, ResourceType, Role};
use crate::client_events::ClientId;
use std::sync::Arc;
use vstd::prelude::*;

verus! {

/// Who makes a request, and what it may do.
#[derive(Debug)]
pub struct SecurityContext {
    pub identity: ClientIdentity,
    pub client_id: ClientId,
    pub roles: Vec<Role>,
    pub policy: Arc<AccessPolicy>,
}

/// The words for some roles, separated by commas.
pub open spec fn roles_text(roles: Seq<Role>) -> Seq<char>
    decreases roles.len(),
{
    if roles.len() == 0 {
        Seq::empty()
    } else if roles.len() == 1 {
        roles[0].text()
    } else {
        roles_text(roles.drop_last()) + ", "@ + roles.last().text()
    }
}

/// Why a request was denied.
#[derive(Debug)]
pub struct AccessDenied {
    pub identity: String,
    pub resource: ResourceType,
    pub permission: Permission,
    pub roles: String,
}

impl AccessDenied {
    /// What the error says.
    pub open spec fn text(&self) -> Seq<char> {
        "access denied: "@ + self.identity@ + " lacks "@ + self.permission.text() + " on "@
            + self.resource.text() + " (roles: ["@ + self.roles@ + "])"@
    }

    /// What the error says.
    pub fn message(&self) -> (s: String)
        ensures
            s@ == self.text(),
    {
        let mut s = "access denied: ".to_owned();
        s.append(self.identity.as_str());
        s.append(" lacks ");
        s.append(self.permission.display());
        s.append(" on ");
        s.append(self.resource.display());
        s.append(" (roles: [");
        s.append(self.roles.as_str());
        s.append("])");
        s
    }
}

impl SecurityContext {
    pub open spec fn wf(&self) -> bool {
        self.policy.wf()
    }

    /// What the context allows.
    pub open spec fn allows(&self, resource: ResourceType, permission: Permission) -> bool {
        permitted(self.policy@, self.roles@, resource, permission)
    }

    /// The context as text.
    pub open spec fn text(&self) -> Seq<char> {
        "SecurityContext("@ + self.identity.text() + ", roles=["@ + roles_text(self.roles@) + "])"@
    }

    /// The context of a client with roles under a policy.
    pub fn new(
        identity: ClientIdentity,
        client_id: ClientId,
        roles: Vec<Role>,
        policy: AccessPolicy,
    ) -> (c: Self)
        requires
            policy.wf(),
        ensures
            c.wf(),
            c.identity == identity,
            c.client_id == client_id,
            c.roles == roles,
            *c.policy == policy,
    {
        SecurityContext { identity, client_id, roles, policy: Arc::new(policy) }
    }

    /// The context of a client that did not say who it is: it is a user.
    pub fn permissive(client_id: ClientId) -> (c: Self)
        ensures
            c.wf(),
            c.identity == ClientIdentity::Anonymous(client_id),
            c.client_id == client_id,
            c.roles@ == seq![Role::User],
            c.policy@ == CustomGrants::empty(),
    {
        let roles: Vec<Role> = vec![Role::User];
        assert(roles@ =~= seq![Role::User]);
        SecurityContext {
            identity: ClientIdentity::Anonymous(client_id),
            client_id,
            roles,
            policy: Arc::new(AccessPolicy::new()),
        }
    }

    /// Whether the context allows a permission on a kind of resource.
    pub fn has_permission(&self, resource: ResourceType, permission: Permission) -> (b: bool)
        requires
            self.wf(),
        ensures
            b == self.allows(resource, permission),
    {
        self.policy.check(self.roles.as_slice(), resource, permission)
    }

    /// Whether the client is an administrator.
    pub fn is_admin(&self) -> (b: bool)
        ensures
            b == self.roles@.contains(Role::Admin),
    {
        let mut i: usize = 0;
        while i < self.roles.len()
            invariant
                i <= self.roles@.len(),
                forall|j: int| 0 <= j < i ==> #[trigger] self.roles@[j] != Role::Admin,
            decreases self.roles@.len() - i,
        {
            if let Role::Admin = &self.roles[i] {
                assert(self.roles@[i as int] == Role::Admin);
                return true;
            }
            i += 1;
        }
        false
    }

    /// The policy.
    pub fn policy(&self) -> (p: &AccessPolicy)
        ensures
            *p == *self.policy,
    {
        &self.policy
    }

    /// The words for the roles, separated by commas.
    pub fn roles_display(&self) -> (s: String)
        ensures
            s@ == roles_text(self.roles@),
    {
        let mut s = String::new();
        let mut i: usize = 0;
        assert(self.roles@.subrange(0, 0) =~= Seq::<Role>::empty());
        while i < self.roles.len()
            invariant
                i <= self.roles@.len(),
                s@ == roles_text(self.roles@.subrange(0, i as int)),
            decreases self.roles@.len() - i,
        {
            let word = self.roles[i].display();
            if i > 0 {
                s.append(", ");
            }
            s.append(word.as_str());
            i += 1;
            proof {
                let p = self.roles@.subrange(0, i as int);
                assert(p.drop_last() =~= self.roles@.subrange(0, i - 1));
                assert(p.last() == self.roles@[i - 1]);
                if i == 1 {
                    assert(p[0] == self.roles@[0]);
                    assert(s@ =~= roles_text(p));
                }
            }
        }
        assert(self.roles@.subrange(0, i as int) =~= self.roles@);
        s
    }

    /// The context as text.
    pub fn display(&self) -> (s: String)
        ensures
            s@ == self.text(),
    {
        let mut s = "SecurityContext(".to_owned();
        s.append(self.identity.label().as_str());
        s.append(", roles=[");
        s.append(self.roles_display().as_str());
        s.append("])");
        s
    }

    /// Like `has_permission`, with an error that says who lacks what.
    pub fn require_permission(&self, resource: ResourceType, permission: Permission) -> (r: Result<
        (),
        AccessDenied,
    >)
        requires
            self.wf(),
        ensures
            r is Ok <==> self.allows(resource, permission),
            r is Err ==> {
                &&& r->Err_0.identity@ == self.identity.text()
                &&& r->Err_0.resource == resource
                &&& r->Err_0.permission == permission
                &&& r->Err_0.roles@ == roles_text(self.roles@)
            },
    {
        if self.has_permission(resource, permission) {
            Ok(())
        } else {
            Err(
                AccessDenied {
                    identity: self.identity.label(),
                    resource,
                    permission,
                    roles: self.roles_display(),
                },
            )
        }
    }
}

/// A client that did not say who it is may use contracts, and may not
/// administrate.
pub proof fn permissive_context_is_a_user(c: SecurityContext, resource: ResourceType)
    requires
        c.roles@ == seq![Role::User],
    ensures
        c.allows(ResourceType::Contract, Permission::Read),
        c.allows(ResourceType::Contract, Permission::Write),
        !c.allows(resource, Permission::Admin),
{
    let g = crate::authz::policy::grants_of(c.policy@, c.roles@[0]);
    assert(g.contains((ResourceType::Contract, Permission::Read)));
    assert(g.contains((ResourceType::Contract, Permission::Write)));
    assert(c.roles@[0] == Role::User);
}

/// Roles are told in their order, separated by commas.
pub proof fn roles_are_told_in_order(roles: Seq<Role>, last: Role)
    ensures
        roles_text(Seq::empty()) == Seq::<char>::empty(),
        roles.len() == 0 ==> roles_text(roles.push(last)) == last.text(),
        roles.len() > 0 ==> roles_text(roles.push(last)) == roles_text(roles) + ", "@
            + last.text(),
{
    assert(roles.push(last).drop_last() =~= roles);
    assert(roles.push(last).last() == last);
}

/// A context allows what its policy allows its roles, whoever the client is.
pub proof fn contexts_allow_by_their_roles(
    a: SecurityContext,
    b: SecurityContext,
    resource: ResourceType,
    permission: Permission,
)
    requires
        a.roles@ == b.roles@,
        a.policy@ == b.policy@,
    ensures
        a.allows(resource, permission) == b.allows(resource, permission),
        a.roles@.len() == 0 ==> !a.allows(resource, permission),
        a.roles@.contains(Role::Admin) ==> a.allows(resource, permission),
{
    if a.roles@.contains(Role::Admin) {
        crate::authz::policy::admin_may_do_everything(a.policy@, a.roles@, resource, permission);
    }
}

} // verus!

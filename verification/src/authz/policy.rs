//! Roles, permissions, and the policy that resolves one to the other.
use crate::linear_map::LinearMap;
use crate::text::join;
use vstd::prelude::*;

verus! {

/// What can be done with a resource.
#[derive(Clone, Copy, Debug, PartialEq, Eq, Hash, Structural)]
pub enum Permission {
    Read,
    Write,
    Execute,
    Subscribe,
    Publish,
    Admin,
}

impl Permission {
    /// The word for a permission.
    pub open spec fn text(self) -> Seq<char> {
        match self {
            Permission::Read => "read"@,
            Permission::Write => "write"@,
            Permission::Execute => "execute"@,
            Permission::Subscribe => "subscribe"@,
            Permission::Publish => "publish"@,
            Permission::Admin => "admin"@,
        }
    }

    /// The word for a permission.
    pub fn display(&self) -> (s: &'static str)
        ensures
            s@ == self.text(),
    {
        match self {
            Permission::Read => "read",
            Permission::Write => "write",
            Permission::Execute => "execute",
            Permission::Subscribe => "subscribe",
            Permission::Publish => "publish",
            Permission::Admin => "admin",
        }
    }
}

/// What can be protected.
#[derive(Clone, Copy, Debug, PartialEq, Eq, Hash, Structural)]
pub enum ResourceType {
    Contract,
    Delegate,
    Network,
    Admin,
}

impl ResourceType {
    /// The word for a kind of resource.
    pub open spec fn text(self) -> Seq<char> {
        match self {
            ResourceType::Contract => "contract"@,
            ResourceType::Delegate => "delegate"@,
            ResourceType::Network => "network"@,
            ResourceType::Admin => "admin"@,
        }
    }

    /// The word for a kind of resource.
    pub fn display(&self) -> (s: &'static str)
        ensures
            s@ == self.text(),
    {
        match self {
            ResourceType::Contract => "contract",
            ResourceType::Delegate => "delegate",
            ResourceType::Network => "network",
            ResourceType::Admin => "admin",
        }
    }
}

/// A role.
#[derive(Debug, PartialEq, Eq, Hash)]
pub enum Role {
    /// Everything is allowed.
    Admin,
    /// Contracts and delegates can be read, written, executed, subscribed to and
    /// published on.
    User,
    /// Contracts can be read and subscribed to.
    ReadOnly,
    /// What the policy says of the name.
    Custom(String),
}

impl Role {
    /// The word for a role.
    pub open spec fn text(self) -> Seq<char> {
        match self {
            Role::Admin => "admin"@,
            Role::User => "user"@,
            Role::ReadOnly => "read-only"@,
            Role::Custom(name) => "custom:"@ + name@,
        }
    }

    /// The word for a role.
    pub fn display(&self) -> (s: String)
        ensures
            s@ == self.text(),
    {
        match self {
            Role::Admin => "admin".to_owned(),
            Role::User => "user".to_owned(),
            Role::ReadOnly => "read-only".to_owned(),
            Role::Custom(name) => join("custom:", name.as_str()),
        }
    }

    /// The same role once more.
    pub fn duplicate(&self) -> (r: Self)
        ensures
            r == *self,
    {
        match self {
            Role::Admin => Role::Admin,
            Role::User => Role::User,
            Role::ReadOnly => Role::ReadOnly,
            Role::Custom(name) => Role::Custom(name.clone()),
        }
    }
}

/// The same roles once more.
pub fn duplicate_roles(roles: &Vec<Role>) -> (r: Vec<Role>)
    ensures
        r@ == roles@,
{
    let mut r: Vec<Role> = Vec::new();
    let mut i: usize = 0;
    while i < roles.len()
        invariant
            i <= roles@.len(),
            r@ == roles@.subrange(0, i as int),
        decreases roles@.len() - i,
    {
        r.push(roles[i].duplicate());
        i += 1;
        assert(r@ =~= roles@.subrange(0, i as int));
    }
    assert(r@ =~= roles@);
    r
}

/// A permission on a kind of resource.
pub type Grant = (ResourceType, Permission);

/// What a role allows.
#[derive(Debug)]
pub struct RolePermissions {
    pub grants: Vec<(ResourceType, Permission)>,
}

impl View for RolePermissions {
    type V = Set<Grant>;

    open spec fn view(&self) -> Set<Grant> {
        self.grants@.to_set()
    }
}

impl RolePermissions {
    /// No grant occurs twice.
    pub open spec fn wf(&self) -> bool {
        self.grants@.no_duplicates()
    }

    /// The given grants, each once.
    pub fn new(grants: Vec<(ResourceType, Permission)>) -> (p: Self)
        ensures
            p.wf(),
            p@ == grants@.to_set(),
    {
        let mut p = RolePermissions { grants: Vec::new() };
        let mut i: usize = 0;
        assert(p@ =~= grants@.subrange(0, 0).to_set());
        while i < grants.len()
            invariant
                i <= grants@.len(),
                p.wf(),
                p@ == grants@.subrange(0, i as int).to_set(),
            decreases grants@.len() - i,
        {
            let g: (ResourceType, Permission) = grants[i];
            let ghost before = p.grants@;
            if !p.allows(g.0, g.1) {
                p.grants.push(g);
                proof {
                    lemma_to_set_push(before, g);
                }
            }
            proof {
                let s = grants@.subrange(0, i as int);
                lemma_to_set_push(s, g);
                assert(s.push(g) =~= grants@.subrange(0, i + 1));
                assert(p@ =~= grants@.subrange(0, i + 1).to_set());
            }
            i += 1;
        }
        assert(grants@.subrange(0, i as int) =~= grants@);
        p
    }

    /// Whether a permission on a kind of resource is granted.
    pub fn allows(&self, resource: ResourceType, permission: Permission) -> (b: bool)
        ensures
            b == self@.contains((resource, permission)),
    {
        let mut i: usize = 0;
        while i < self.grants.len()
            invariant
                i <= self.grants@.len(),
                forall|j: int| 0 <= j < i ==> #[trigger] self.grants@[j] != (resource, permission),
            decreases self.grants@.len() - i,
        {
            let g: (ResourceType, Permission) = self.grants[i];
            if g.0 == resource && g.1 == permission {
                assert(self.grants@[i as int] == (resource, permission));
                return true;
            }
            i += 1;
        }
        false
    }

    /// The same grants once more.
    pub fn duplicate(&self) -> (p: Self)
        ensures
            p.grants@ == self.grants@,
            p@ == self@,
    {
        let mut grants: Vec<(ResourceType, Permission)> = Vec::new();
        let mut i: usize = 0;
        while i < self.grants.len()
            invariant
                i <= self.grants@.len(),
                grants@ == self.grants@.subrange(0, i as int),
            decreases self.grants@.len() - i,
        {
            grants.push(self.grants[i]);
            i += 1;
            assert(grants@ =~= self.grants@.subrange(0, i as int));
        }
        assert(grants@ =~= self.grants@);
        RolePermissions { grants }
    }
}

proof fn lemma_to_set_push(s: Seq<Grant>, g: Grant)
    ensures
        s.push(g).to_set() == s.to_set().insert(g),
{
    assert forall|x: Grant| s.push(g).to_set().contains(x) <==> s.to_set().insert(g).contains(x) by {
        if s.push(g).contains(x) {
            let i = choose|i: int| 0 <= i < s.push(g).len() && s.push(g)[i] == x;
            if i < s.len() {
                assert(s[i] == x);
            }
        }
        if s.contains(x) {
            let i = choose|i: int| 0 <= i < s.len() && s[i] == x;
            assert(s.push(g)[i] == x);
        }
        assert(s.push(g)[s.len() as int] == g);
    }
    assert(s.push(g).to_set() =~= s.to_set().insert(g));
}

/// What an administrator may do: everything.
pub open spec fn admin_grants() -> Set<Grant> {
    Set::full()
}

/// What a user may do.
pub open spec fn user_grants() -> Set<Grant> {
    set![
        (ResourceType::Contract, Permission::Read),
        (ResourceType::Contract, Permission::Write),
        (ResourceType::Contract, Permission::Execute),
        (ResourceType::Contract, Permission::Subscribe),
        (ResourceType::Contract, Permission::Publish),
        (ResourceType::Delegate, Permission::Read),
        (ResourceType::Delegate, Permission::Write),
        (ResourceType::Delegate, Permission::Execute),
        (ResourceType::Delegate, Permission::Subscribe),
        (ResourceType::Delegate, Permission::Publish),
        (ResourceType::Network, Permission::Read),
    ]
}

/// What a reader may do.
pub open spec fn readonly_grants() -> Set<Grant> {
    set![
        (ResourceType::Contract, Permission::Read),
        (ResourceType::Contract, Permission::Subscribe),
        (ResourceType::Delegate, Permission::Read),
        (ResourceType::Network, Permission::Read),
    ]
}

fn default_admin_permissions() -> (p: RolePermissions)
    ensures
        p.wf(),
        p@ == admin_grants(),
{
    let grants: Vec<(ResourceType, Permission)> = vec![
        (ResourceType::Contract, Permission::Read),
        (ResourceType::Contract, Permission::Write),
        (ResourceType::Contract, Permission::Execute),
        (ResourceType::Contract, Permission::Subscribe),
        (ResourceType::Contract, Permission::Publish),
        (ResourceType::Contract, Permission::Admin),
        (ResourceType::Delegate, Permission::Read),
        (ResourceType::Delegate, Permission::Write),
        (ResourceType::Delegate, Permission::Execute),
        (ResourceType::Delegate, Permission::Subscribe),
        (ResourceType::Delegate, Permission::Publish),
        (ResourceType::Delegate, Permission::Admin),
        (ResourceType::Network, Permission::Read),
        (ResourceType::Network, Permission::Write),
        (ResourceType::Network, Permission::Execute),
        (ResourceType::Network, Permission::Subscribe),
        (ResourceType::Network, Permission::Publish),
        (ResourceType::Network, Permission::Admin),
        (ResourceType::Admin, Permission::Read),
        (ResourceType::Admin, Permission::Write),
        (ResourceType::Admin, Permission::Execute),
        (ResourceType::Admin, Permission::Subscribe),
        (ResourceType::Admin, Permission::Publish),
        (ResourceType::Admin, Permission::Admin),
    ];
    let ghost s = grants@;
    let p = RolePermissions::new(grants);
    proof {
        assert forall|g: Grant| #[trigger] s.to_set().contains(g) by {
            let r: int = match g.0 {
                ResourceType::Contract => 0,
                ResourceType::Delegate => 1,
                ResourceType::Network => 2,
                ResourceType::Admin => 3,
            };
            let q: int = match g.1 {
                Permission::Read => 0,
                Permission::Write => 1,
                Permission::Execute => 2,
                Permission::Subscribe => 3,
                Permission::Publish => 4,
                Permission::Admin => 5,
            };
            assert(s[6 * r + q] == g);
        }
        assert(p@ =~= admin_grants());
    }
    p
}

fn default_user_permissions() -> (p: RolePermissions)
    ensures
        p.wf(),
        p@ == user_grants(),
{
    let grants: Vec<(ResourceType, Permission)> = vec![
        (ResourceType::Contract, Permission::Read),
        (ResourceType::Contract, Permission::Write),
        (ResourceType::Contract, Permission::Execute),
        (ResourceType::Contract, Permission::Subscribe),
        (ResourceType::Contract, Permission::Publish),
        (ResourceType::Delegate, Permission::Read),
        (ResourceType::Delegate, Permission::Write),
        (ResourceType::Delegate, Permission::Execute),
        (ResourceType::Delegate, Permission::Subscribe),
        (ResourceType::Delegate, Permission::Publish),
        (ResourceType::Network, Permission::Read),
    ];
    let ghost s = grants@;
    let p = RolePermissions::new(grants);
    proof {
        assert forall|g: Grant| #[trigger] s.to_set().contains(g) <==> user_grants().contains(g) by {
            if user_grants().contains(g) {
                assert(g == s[0] || g == s[1] || g == s[2] || g == s[3] || g == s[4] || g == s[5]
                    || g == s[6] || g == s[7] || g == s[8] || g == s[9] || g == s[10]);
            }
        }
        assert(p@ =~= user_grants());
    }
    p
}

fn default_readonly_permissions() -> (p: RolePermissions)
    ensures
        p.wf(),
        p@ == readonly_grants(),
{
    let grants: Vec<(ResourceType, Permission)> = vec![
        (ResourceType::Contract, Permission::Read),
        (ResourceType::Contract, Permission::Subscribe),
        (ResourceType::Delegate, Permission::Read),
        (ResourceType::Network, Permission::Read),
    ];
    let ghost s = grants@;
    let p = RolePermissions::new(grants);
    proof {
        assert forall|g: Grant| #[trigger] s.to_set().contains(g) <==> readonly_grants().contains(
            g,
        ) by {
            if readonly_grants().contains(g) {
                assert(g == s[0] || g == s[1] || g == s[2] || g == s[3]);
            }
        }
        assert(p@ =~= readonly_grants());
    }
    p
}

/// What custom roles allow, by name.
pub type CustomGrants = Map<Seq<char>, Set<Grant>>;

/// What a role allows: a custom role that nobody registered allows what a reader
/// may do.
pub open spec fn grants_of(custom: CustomGrants, role: Role) -> Set<Grant> {
    match role {
        Role::Admin => admin_grants(),
        Role::User => user_grants(),
        Role::ReadOnly => readonly_grants(),
        Role::Custom(name) => if custom.dom().contains(name@) {
            custom[name@]
        } else {
            readonly_grants()
        },
    }
}

/// One of some roles allows a permission on a kind of resource.
pub open spec fn permitted(
    custom: CustomGrants,
    roles: Seq<Role>,
    resource: ResourceType,
    permission: Permission,
) -> bool {
    exists|i: int|
        0 <= i < roles.len() && grants_of(custom, #[trigger] roles[i]).contains(
            (resource, permission),
        )
}

/// Resolves roles to permissions. Custom roles can be registered; the others are
/// fixed.
#[derive(Debug)]
pub struct AccessPolicy {
    pub custom_roles: LinearMap<String, RolePermissions>,
}

impl View for AccessPolicy {
    type V = CustomGrants;

    open spec fn view(&self) -> CustomGrants {
        self.custom_roles@.map_values(|p: RolePermissions| p@)
    }
}

impl Default for AccessPolicy {
    fn default() -> (p: Self)
        ensures
            p.wf(),
            p@ == CustomGrants::empty(),
    {
        Self::new()
    }
}

impl AccessPolicy {
    pub open spec fn wf(&self) -> bool {
        self.custom_roles.wf()
    }

    /// No custom roles.
    pub fn new() -> (p: Self)
        ensures
            p.wf(),
            p@ == CustomGrants::empty(),
    {
        let p = AccessPolicy { custom_roles: LinearMap::new() };
        assert(p@ =~= CustomGrants::empty());
        p
    }

    /// What a role allows.
    pub fn permissions_for(&self, role: &Role) -> (p: RolePermissions)
        requires
            self.wf(),
        ensures
            p@ == grants_of(self@, *role),
    {
        match role {
            Role::Admin => default_admin_permissions(),
            Role::User => default_user_permissions(),
            Role::ReadOnly => default_readonly_permissions(),
            Role::Custom(name) => match self.custom_roles.get(name) {
                Some(p) => p.duplicate(),
                None => default_readonly_permissions(),
            },
        }
    }

    /// Registers what a custom role allows, in place of what it allowed before.
    pub fn register_custom_role(&mut self, name: String, grants: Vec<(ResourceType, Permission)>)
        requires
            old(self).wf(),
        ensures
            final(self).wf(),
            final(self)@ == old(self)@.insert(name@, grants@.to_set()),
    {
        self.custom_roles.insert(name, RolePermissions::new(grants));
        assert(self@ =~= old(self)@.insert(name@, grants@.to_set()));
    }

    /// Whether one of some roles allows a permission on a kind of resource.
    pub fn check(&self, roles: &[Role], resource: ResourceType, permission: Permission) -> (b: bool)
        requires
            self.wf(),
        ensures
            b == permitted(self@, roles@, resource, permission),
    {
        let mut i: usize = 0;
        while i < roles.len()
            invariant
                self.wf(),
                i <= roles@.len(),
                forall|j: int|
                    0 <= j < i ==> !grants_of(self@, #[trigger] roles@[j]).contains(
                        (resource, permission),
                    ),
            decreases roles@.len() - i,
        {
            if self.permissions_for(&roles[i]).allows(resource, permission) {
                return true;
            }
            i += 1;
        }
        false
    }
}

/// An administrator may do everything.
pub proof fn admin_may_do_everything(
    custom: CustomGrants,
    roles: Seq<Role>,
    resource: ResourceType,
    permission: Permission,
)
    requires
        roles.contains(Role::Admin),
    ensures
        permitted(custom, roles, resource, permission),
{
    let i = choose|i: int| 0 <= i < roles.len() && roles[i] == Role::Admin;
    assert(grants_of(custom, roles[i]).contains((resource, permission)));
}

/// Neither users nor readers may administrate or touch administrative resources, and
/// readers may not write or publish.
pub proof fn built_in_roles_are_limited(
    custom: CustomGrants,
    resource: ResourceType,
    permission: Permission,
)
    ensures
        !grants_of(custom, Role::User).contains((resource, Permission::Admin)),
        !grants_of(custom, Role::User).contains((ResourceType::Admin, permission)),
        !grants_of(custom, Role::ReadOnly).contains((resource, Permission::Admin)),
        !grants_of(custom, Role::ReadOnly).contains((resource, Permission::Write)),
        !grants_of(custom, Role::ReadOnly).contains((resource, Permission::Publish)),
        !grants_of(custom, Role::ReadOnly).contains((ResourceType::Admin, permission)),
{
}

/// A user may do everything but administrate with contracts and delegates.
pub proof fn users_use_contracts_and_delegates(
    custom: CustomGrants,
    resource: ResourceType,
    permission: Permission,
)
    requires
        resource == ResourceType::Contract || resource == ResourceType::Delegate,
        permission != Permission::Admin,
    ensures
        grants_of(custom, Role::User).contains((resource, permission)),
{
}

/// Whatever a reader may do a user may do.
pub proof fn readers_are_users(custom: CustomGrants)
    ensures
        grants_of(custom, Role::ReadOnly).subset_of(grants_of(custom, Role::User)),
        grants_of(custom, Role::User).subset_of(grants_of(custom, Role::Admin)),
{
}

/// Several roles allow what any of them allows, and nothing else; none allow
/// nothing.
pub proof fn roles_unite(
    custom: CustomGrants,
    a: Seq<Role>,
    b: Seq<Role>,
    resource: ResourceType,
    permission: Permission,
)
    ensures
        permitted(custom, a + b, resource, permission) <==> permitted(
            custom,
            a,
            resource,
            permission,
        ) || permitted(custom, b, resource, permission),
        !permitted(custom, Seq::empty(), resource, permission),
{
    let all = a + b;
    let g = (resource, permission);
    if permitted(custom, all, resource, permission) {
        let i = choose|i: int|
            0 <= i < all.len() && grants_of(custom, #[trigger] all[i]).contains(g);
        if i < a.len() {
            assert(grants_of(custom, a[i]).contains(g));
        } else {
            assert(grants_of(custom, b[i - a.len()]).contains(g));
        }
    }
    if permitted(custom, a, resource, permission) {
        let i = choose|i: int| 0 <= i < a.len() && grants_of(custom, #[trigger] a[i]).contains(g);
        assert(grants_of(custom, all[i]).contains(g));
    }
    if permitted(custom, b, resource, permission) {
        let i = choose|i: int| 0 <= i < b.len() && grants_of(custom, #[trigger] b[i]).contains(g);
        assert(grants_of(custom, all[i + a.len()]).contains(g));
    }
}

/// Registering a custom role changes nothing for the others.
pub proof fn custom_role_is_local(
    custom: CustomGrants,
    name: Seq<char>,
    grants: Set<Grant>,
    role: Role,
)
    requires
        !(role is Custom) || role->Custom_0@ != name,
    ensures
        grants_of(custom.insert(name, grants), role) == grants_of(custom, role),
{
}

/// Whoever has only the role of a reader, or custom roles that nobody registered, may
/// read contracts, delegates and the network and subscribe to contracts, and nothing
/// else; without a role nothing at all.
pub proof fn readers_read(
    custom: CustomGrants,
    roles: Seq<Role>,
    resource: ResourceType,
    permission: Permission,
)
    requires
        forall|i: int|
            0 <= i < roles.len() ==> (#[trigger] roles[i]) is ReadOnly || (roles[i] is Custom
                && !custom.dom().contains(roles[i]->Custom_0@)),
    ensures
        permitted(custom, roles, resource, permission) <==> roles.len() > 0 && (
        permission is Read && !(resource is Admin) || permission is Subscribe
            && resource is Contract),
        permission is Execute ==> !permitted(custom, roles, resource, permission),
        permission is Write ==> !permitted(custom, roles, resource, permission),
        permission is Publish ==> !permitted(custom, roles, resource, permission),
        permission is Admin ==> !permitted(custom, roles, resource, permission),
{
    if roles.len() > 0 && (permission is Read && !(resource is Admin) || permission is Subscribe
        && resource is Contract) {
        assert(grants_of(custom, roles[0]).contains((resource, permission)));
    }
}

/// Whoever has only the role of a user may do everything but administrate with
/// contracts and delegates, may read the network, and nothing else.
pub proof fn users_use(
    custom: CustomGrants,
    roles: Seq<Role>,
    resource: ResourceType,
    permission: Permission,
)
    requires
        roles.len() > 0,
        forall|i: int| 0 <= i < roles.len() ==> (#[trigger] roles[i]) is User,
    ensures
        permitted(custom, roles, resource, permission) <==> (resource is Contract
            || resource is Delegate) && !(permission is Admin) || resource is Network
            && permission is Read,
{
    if (resource is Contract || resource is Delegate) && !(permission is Admin)
        || resource is Network && permission is Read {
        assert(grants_of(custom, roles[0]).contains((resource, permission)));
    }
}

/// Only administrators, and custom roles that were granted it, may administrate or
/// touch administrative resources.
pub proof fn only_administrators_administrate(
    custom: CustomGrants,
    roles: Seq<Role>,
    resource: ResourceType,
    permission: Permission,
)
    requires
        permission is Admin || resource is Admin,
        forall|i: int|
            0 <= i < roles.len() ==> (#[trigger] roles[i]) is User || roles[i] is ReadOnly,
    ensures
        !permitted(custom, roles, resource, permission),
{
}

/// A custom role allows what was last registered for its name, and nothing else.
pub proof fn custom_roles_allow_what_was_registered(
    custom: CustomGrants,
    name: String,
    grants: Seq<Grant>,
    resource: ResourceType,
    permission: Permission,
)
    ensures
        permitted(
            custom.insert(name@, grants.to_set()),
            seq![Role::Custom(name)],
            resource,
            permission,
        ) <==> grants.contains((resource, permission)),
{
    let roles = seq![Role::Custom(name)];
    let after = custom.insert(name@, grants.to_set());
    assert(grants_of(after, roles[0]) == grants.to_set());
}

/// Words tell permissions, resources and roles apart, and each is the word of its own.
pub proof fn words_are_their_own(p: Permission, r: ResourceType, role: Role)
    ensures
        p.text() == "read"@ <==> p is Read,
        p.text() == "write"@ <==> p is Write,
        p.text() == "execute"@ <==> p is Execute,
        p.text() == "subscribe"@ <==> p is Subscribe,
        p.text() == "publish"@ <==> p is Publish,
        p.text() == "admin"@ <==> p is Admin,
        r.text() == "contract"@ <==> r is Contract,
        r.text() == "delegate"@ <==> r is Delegate,
        r.text() == "network"@ <==> r is Network,
        r.text() == "admin"@ <==> r is Admin,
        role.text() == "admin"@ <==> role is Admin,
        role.text() == "user"@ <==> role is User,
        role.text() == "read-only"@ <==> role is ReadOnly,
        role is Custom ==> role.text() == "custom:"@ + role->Custom_0@,
{
    reveal_strlit("read");
    reveal_strlit("write");
    reveal_strlit("execute");
    reveal_strlit("subscribe");
    reveal_strlit("publish");
    reveal_strlit("admin");
    reveal_strlit("contract");
    reveal_strlit("delegate");
    reveal_strlit("network");
    reveal_strlit("user");
    reveal_strlit("read-only");
    reveal_strlit("custom:");
    assert("write"@[0] == 'w' && "read"@[0] == 'r' && "execute"@[0] == 'e');
    assert("subscribe"@[0] == 's' && "publish"@[0] == 'p' && "admin"@[0] == 'a');
    assert("contract"@[0] == 'c' && "delegate"@[0] == 'd' && "network"@[0] == 'n');
    assert("user"@[0] == 'u' && "read-only"@[0] == 'r' && "custom:"@[0] == 'c');
    if role is Custom {
        assert(role.text()[0] == 'c');
    }
}

} // verus!

use freenet_core::auth::ClientIdentity;
use freenet_core::authz::context::SecurityContext;
use freenet_core::authz::policy::{AccessPolicy, Permission, ResourceType, Role};
use freenet_core::client_events::ClientId;

#[test]
fn test_permissive_context_allows_user_operations() {
    let ctx = SecurityContext::permissive(ClientId::first());
    assert!(ctx.has_permission(ResourceType::Contract, Permission::Read));
    assert!(ctx.has_permission(ResourceType::Contract, Permission::Write));
    assert!(!ctx.has_permission(ResourceType::Admin, Permission::Admin));
}

#[test]
fn test_admin_context() {
    let ctx = SecurityContext::new(
        ClientIdentity::ApiKey { key_id: "k1".into(), name: "admin-key".into() },
        ClientId::first(),
        vec![Role::Admin],
        AccessPolicy::new(),
    );
    assert!(ctx.is_admin());
    assert!(ctx.has_permission(ResourceType::Admin, Permission::Admin));
    assert!(ctx.has_permission(ResourceType::Contract, Permission::Write));
}

#[test]
fn test_require_permission_denied() {
    let ctx = SecurityContext::new(
        ClientIdentity::Anonymous(ClientId::first()),
        ClientId::first(),
        vec![Role::ReadOnly],
        AccessPolicy::new(),
    );
    let result = ctx.require_permission(ResourceType::Contract, Permission::Write);
    assert!(result.is_err());
    let err = result.unwrap_err();
    assert_eq!(err.resource, ResourceType::Contract);
    assert_eq!(err.permission, Permission::Write);
}

#[test]
fn test_security_context_display() {
    let ctx = SecurityContext::permissive(ClientId::first());
    let display = ctx.display();
    assert!(display.contains("SecurityContext"));
    assert!(display.contains("user"));
}

#[test]
fn test_admin_has_all_permissions() {
    let policy = AccessPolicy::new();
    assert!(policy.check(&[Role::Admin], ResourceType::Contract, Permission::Write));
    assert!(policy.check(&[Role::Admin], ResourceType::Admin, Permission::Admin));
    assert!(policy.check(&[Role::Admin], ResourceType::Network, Permission::Read));
}

#[test]
fn test_user_cannot_admin() {
    let policy = AccessPolicy::new();
    assert!(!policy.check(&[Role::User], ResourceType::Admin, Permission::Admin));
    assert!(policy.check(&[Role::User], ResourceType::Contract, Permission::Write));
}

#[test]
fn test_readonly_cannot_write() {
    let policy = AccessPolicy::new();
    assert!(!policy.check(&[Role::ReadOnly], ResourceType::Contract, Permission::Write));
    assert!(policy.check(&[Role::ReadOnly], ResourceType::Contract, Permission::Read));
    assert!(policy.check(&[Role::ReadOnly], ResourceType::Contract, Permission::Subscribe));
}

#[test]
fn test_custom_role() {
    let mut policy = AccessPolicy::new();
    policy.register_custom_role(
        "publisher".into(),
        vec![
            (ResourceType::Contract, Permission::Read),
            (ResourceType::Contract, Permission::Publish),
        ],
    );

    assert!(policy.check(
        &[Role::Custom("publisher".into())],
        ResourceType::Contract,
        Permission::Publish
    ));
    assert!(!policy.check(
        &[Role::Custom("publisher".into())],
        ResourceType::Contract,
        Permission::Write
    ));
}

#[test]
fn test_unknown_custom_role_defaults_to_readonly() {
    let policy = AccessPolicy::new();
    // Unknown custom role should default to read-only
    assert!(policy.check(
        &[Role::Custom("nonexistent".into())],
        ResourceType::Contract,
        Permission::Read
    ));
    assert!(!policy.check(
        &[Role::Custom("nonexistent".into())],
        ResourceType::Contract,
        Permission::Write
    ));
}

#[test]
fn test_multiple_roles_union() {
    let mut policy = AccessPolicy::new();
    // ReadOnly + custom publisher should get union of both
    policy.register_custom_role(
        "publisher".into(),
        vec![(ResourceType::Contract, Permission::Publish)],
    );

    let roles = [Role::ReadOnly, Role::Custom("publisher".into())];
    assert!(policy.check(&roles, ResourceType::Contract, Permission::Read));
    assert!(policy.check(&roles, ResourceType::Contract, Permission::Publish));
    assert!(!policy.check(&roles, ResourceType::Contract, Permission::Write));
}

#[test]
fn every_grant_of_every_built_in_role() {
    let policy = AccessPolicy::default();
    let permissions = [
        Permission::Read,
        Permission::Write,
        Permission::Execute,
        Permission::Subscribe,
        Permission::Publish,
        Permission::Admin,
    ];
    let resources = [
        ResourceType::Contract,
        ResourceType::Delegate,
        ResourceType::Network,
        ResourceType::Admin,
    ];
    let mut counts = [0, 0, 0];
    for r in resources {
        for p in permissions {
            for (i, role) in [Role::Admin, Role::User, Role::ReadOnly].iter().enumerate() {
                if policy.permissions_for(role).allows(r, p) {
                    counts[i] += 1;
                }
            }
        }
    }
    assert_eq!(counts, [24, 11, 4]);
}

#[test]
fn users_have_contracts_and_delegates() {
    let policy = AccessPolicy::new();
    for r in [ResourceType::Contract, ResourceType::Delegate] {
        for p in [
            Permission::Read,
            Permission::Write,
            Permission::Execute,
            Permission::Subscribe,
            Permission::Publish,
        ] {
            assert!(policy.check(&[Role::User], r, p));
        }
        assert!(!policy.check(&[Role::User], r, Permission::Admin));
    }
    assert!(!policy.check(&[Role::User], ResourceType::Admin, Permission::Read));
}

#[test]
fn registering_again_replaces_and_leaves_others() {
    let mut policy = AccessPolicy::new();
    let role = || [Role::Custom("x".into())];
    let other = || [Role::Custom("y".into())];
    policy.register_custom_role("x".into(), vec![(ResourceType::Admin, Permission::Read)]);
    assert!(policy.check(&role(), ResourceType::Admin, Permission::Read));
    policy.register_custom_role("x".into(), vec![]);
    assert!(!policy.check(&role(), ResourceType::Admin, Permission::Read));
    assert!(!policy.check(&role(), ResourceType::Contract, Permission::Read));
    assert!(policy.check(&other(), ResourceType::Contract, Permission::Read));
}

#[test]
fn no_roles_allow_nothing() {
    let policy = AccessPolicy::new();
    assert!(!policy.check(&[], ResourceType::Contract, Permission::Read));
}

#[test]
fn denial_says_who_lacks_what() {
    let ctx = SecurityContext::new(
        ClientIdentity::ApiKey { key_id: "k".into(), name: "bob".into() },
        ClientId::first(),
        vec![Role::ReadOnly, Role::Custom("auditor".into())],
        AccessPolicy::new(),
    );
    assert_eq!(
        ctx.display(),
        "SecurityContext(apikey:bob, roles=[read-only, custom:auditor])"
    );
    let err = ctx.require_permission(ResourceType::Network, Permission::Execute).unwrap_err();
    assert_eq!(
        err.message(),
        "access denied: apikey:bob lacks execute on network (roles: [read-only, custom:auditor])"
    );
    assert!(ctx.require_permission(ResourceType::Network, Permission::Read).is_ok());
}

#[test]
fn words_for_permissions_and_resources() {
    assert_eq!(Permission::Read.display(), "read");
    assert_eq!(Permission::Write.display(), "write");
    assert_eq!(Permission::Subscribe.display(), "subscribe");
    assert_eq!(Permission::Publish.display(), "publish");
    assert_eq!(Permission::Admin.display(), "admin");
    assert_eq!(ResourceType::Contract.display(), "contract");
    assert_eq!(ResourceType::Delegate.display(), "delegate");
    assert_eq!(ResourceType::Admin.display(), "admin");
    assert_eq!(Role::Admin.display(), "admin");
    assert_eq!(Role::User.display(), "user");
}

//! Registry engine behaviour: approval and revocation of system managers
//! and organizations.

use sys_man_registry::{augment_metadata, Error, Pallet, Role, Status, SysManAccount};

fn str2vec(s: &str) -> Vec<u8> {
    s.as_bytes().to_vec()
}

fn generate_test_account(
    role: Role,
    level: Option<u8>,
    parent: Option<u64>,
    children: Option<Vec<u64>>,
) -> SysManAccount {
    let root_authority = SysManAccount {
        role,
        status: Status::Active,
        level,
        parent,
        children,
        metadata: str2vec(
            r#"
			{
				"description": "Root authority",
        	}"#,
        ),
    };

    root_authority
}

#[test]
fn approve_sys_man_should_work() {
    let mut p = Pallet::new();
    let id = 1u64;
    let root_authority = generate_test_account(Role::SysMan, Some(0), None, None);

    // init genesis config
    p.sys_man.insert(id, root_authority);

    let metadata = str2vec(
        r#"
		{
			"description": "Root authority",
			"name": "new_sys_man",
			"email": "new_sys_man@gmail.com"
		}"#,
    );

    assert!(p.approve_sys_man(1, 2u64, metadata.clone()).is_ok());

    let _ = p.approve_sys_man(1, 2u64, metadata.clone());

    let new_sys_man = p.sys_man.get(2).unwrap();

    assert_eq!(new_sys_man.role, Role::SysMan);
    assert_eq!(new_sys_man.status, Status::Active);
    assert_eq!(new_sys_man.level, Some(1));
    assert_eq!(new_sys_man.metadata, metadata.clone());
}

#[test]
fn approve_sys_man_should_fails() {
    // already_exists
    {
        let mut p = Pallet::new();
        let id = 1u64;
        let root_authority = generate_test_account(Role::SysMan, Some(0), None, None);

        // init genesis config
        p.sys_man.insert(id, root_authority);

        let metadata = str2vec(
            r#"
		{
			"description": "Root authority",
			"name": "new_sys_man",
			"email": "new_sys_man@gmail.com"
		}"#,
        );

        assert!(matches!(
            p.approve_sys_man(1, 1u64, metadata.clone()),
            Err(Error::AlreadyRegistered)
        ));
    }

    // no authorization
    {
        let mut p = Pallet::new();
        let id = 1u64;
        let mut root_authority = generate_test_account(Role::SysMan, Some(0), None, None);

        root_authority.role = Role::User;
        // init genesis config
        p.sys_man.insert(id, root_authority);

        let metadata = str2vec(
            r#"
		{
			"description": "Root authority",
			"name": "new_sys_man",
			"email": "new_sys_man@gmail.com"
		}"#,
        );

        assert!(matches!(
            p.approve_sys_man(1, 2u64, metadata.clone()),
            Err(Error::NoValidAuthorization)
        ));
    }
}

#[test]
fn revole_sys_man_should_work() {
    let mut p = Pallet::new();
    let authority_id = 0u64;

    let revoke_target_id = 1u64;

    let authority = generate_test_account(Role::SysMan, Some(0), None, Some(vec![1u64]));

    let revoke_target = generate_test_account(Role::SysMan, Some(1), Some(0), None);

    p.sys_man.insert(authority_id, authority);

    p.sys_man.insert(revoke_target_id, revoke_target);

    let description = "violate management rules";

    assert!(p.revoke_sys_man(0, 1u64, description).is_ok());

    let _ = p.revoke_sys_man(0, 1u64, description);

    assert_eq!(false, p.sys_man.contains_key(revoke_target_id));

    assert_eq!(true, p.sys_man_revoked.contains_key(revoke_target_id));
}

#[test]
fn revoke_sys_man_should_fail() {
    // not exist
    {
        let mut p = Pallet::new();
        let authority_id = 0u64;

        let revoke_target_id = 1u64;

        let authority = generate_test_account(Role::SysMan, Some(0), None, Some(vec![1u64]));

        let revoke_target = generate_test_account(Role::SysMan, Some(1), Some(0), None);

        p.sys_man.insert(authority_id, authority);

        p.sys_man.insert(revoke_target_id, revoke_target);

        let description = "violate management rules";

        assert!(matches!(
            p.revoke_sys_man(0, 2u64, description),
            Err(Error::SysManNotExist)
        ));
    }

    // no authorization
    {
        let mut p = Pallet::new();
        let authority_id = 0u64;

        let revoke_target_id = 1u64;

        let authority = generate_test_account(Role::SysMan, Some(2), None, Some(vec![1u64]));

        let revoke_target = generate_test_account(Role::SysMan, Some(1), Some(0), None);

        p.sys_man.insert(authority_id, authority);

        p.sys_man.insert(revoke_target_id, revoke_target);

        let description = "violate management rules";

        assert!(matches!(
            p.revoke_sys_man(0, 1u64, description),
            Err(Error::NoValidAuthorization)
        ));
    }

    // already revoked
    {
        let mut p = Pallet::new();
        let authority_id = 0u64;

        let revoked_target_id = 1u64;

        let authority = generate_test_account(Role::SysMan, Some(0), None, Some(vec![1u64]));

        let revoked_target = generate_test_account(Role::SysMan, Some(1), Some(0), None);

        p.sys_man.insert(authority_id, authority);

        p.sys_man.insert(revoked_target_id, revoked_target.clone());

        p.sys_man_revoked.insert(revoked_target_id, revoked_target);

        let description = "violate management rules";

        assert!(matches!(
            p.revoke_sys_man(0, 1u64, description),
            Err(Error::AlreadyRevoked)
        ));
    }
}

#[test]
fn approve_org_should_work() {
    let mut p = Pallet::new();
    let id = 1u64;
    let authority = generate_test_account(Role::SysMan, Some(0), None, None);

    // init genesis config
    p.sys_man.insert(id, authority);

    let metadata = str2vec(
        r#"
		{
			"description": "Organization",
			"name": "test_organization",
			"email": "test_organization@gmail.com",
			"address": "Hanoi, Vietnam",
			"phone": "0987654321"
		}"#,
    );

    assert!(p.approve_org(1, 1u64, metadata.clone()).is_ok());

    let _ = p.approve_org(1, 1u64, metadata.clone());

    let new_org = p.org.get(1).unwrap();

    assert_eq!(new_org.role, Role::Organization);
    assert_eq!(new_org.status, Status::Active);
    assert_eq!(new_org.level, None);
    assert_eq!(new_org.metadata, metadata.clone());
}

#[test]
fn approve_org_should_fails() {
    // no authorization
    {
        let mut p = Pallet::new();
        let metadata = str2vec(
            r#"
		{
			"description": "Organization",
			"name": "test_organization",
			"email": "test_organization@gmail.com",
			"address": "Hanoi, Vietnam",
			"phone": "0987654321"
		}"#,
        );

        assert!(matches!(
            p.approve_org(1, 1u64, metadata.clone()),
            Err(Error::SysManNotExist)
        ));
    }

    // organization already approved
    {
        let mut p = Pallet::new();
        let id = 1u64;
        let authority = generate_test_account(Role::SysMan, Some(0), None, None);

        let org = generate_test_account(Role::Organization, Some(0), None, None);

        // init genesis config
        p.sys_man.insert(id, authority);

        p.org.insert(id, org);

        let metadata = str2vec(
            r#"
		{
			"description": "Organization",
			"name": "test_organization",
			"email": "test_organization@gmail.com",
			"address": "Hanoi, Vietnam",
			"phone": "0987654321"
		}"#,
        );

        assert!(matches!(
            p.approve_org(1, id, metadata.clone()),
            Err(Error::AlreadyRegistered)
        ));
    }

    // organization already revoked
    {
        let mut p = Pallet::new();
        let id = 1u64;
        let authority = generate_test_account(Role::SysMan, Some(0), None, None);

        let org = generate_test_account(Role::Organization, Some(0), None, None);

        // init genesis config
        p.sys_man.insert(id, authority);

        p.org_revoked.insert(id, org);

        let metadata = str2vec(
            r#"
		{
			"description": "Organization",
			"name": "test_organization",
			"email": "test_organization@gmail.com",
			"address": "Hanoi, Vietnam",
			"phone": "0987654321"
		}"#,
        );

        assert!(matches!(
            p.approve_org(1, id, metadata.clone()),
            Err(Error::AlreadyRevoked)
        ));
    }
}

#[test]
fn revoke_org_should_work() {
    let mut p = Pallet::new();
    let id = 1u64;
    let authority = generate_test_account(Role::SysMan, Some(0), None, None);

    let mut org = generate_test_account(Role::Organization, None, None, None);

    // init genesis config
    p.sys_man.insert(id, authority);

    p.org.insert(id, org.clone());

    let description = "organization remover";

    assert!(p.revoke_org(id, id, description).is_ok());

    let _ = p.revoke_org(id, id, description);

    org.metadata = augment_metadata(&org.metadata, "revoke_description", description);

    assert_eq!(org, *p.org_revoked.get(id).unwrap());

    assert_eq!(false, p.org.contains_key(id));
}

#[test]
fn revoke_org_should_fail() {
    // revoke org not exist
    {
        let mut p = Pallet::new();
        let id = 1u64;
        let authority = generate_test_account(Role::SysMan, Some(0), None, None);

        // init genesis config
        p.sys_man.insert(id, authority);

        let description = "organization remover";

        assert!(matches!(
            p.revoke_org(id, id, description),
            Err(Error::RevokedOrgNotExist)
        ));
    }

    // revokeOrg already revoked
    {
        let mut p = Pallet::new();
        let id = 1u64;
        let authority = generate_test_account(Role::SysMan, Some(0), None, None);

        let org = generate_test_account(Role::Organization, None, None, None);

        // init genesis config
        p.sys_man.insert(id, authority);

        p.org.insert(id, org.clone());

        p.org_revoked.insert(id, org);

        let description = "organization remover";

        assert!(matches!(
            p.revoke_org(id, id, description),
            Err(Error::AlreadyRevoked)
        ));
    }
}

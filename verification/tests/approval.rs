use token_authority::account::AccountId;
use token_authority::approval::{ApprovalError, Authority};

fn admin_id() -> AccountId {
    AccountId::new([1; 32])
}

fn other_id() -> AccountId {
    AccountId::new([2; 32])
}

fn new_admin_id() -> AccountId {
    AccountId::new([3; 32])
}

#[test]
fn new_authority_is_active() {
    let auth = Authority::new(admin_id());
    assert!(!auth.is_renounced());
    assert_eq!(auth.admin(), Some(admin_id()));
}

#[test]
fn renounced_authority() {
    let auth = Authority::renounced();
    assert!(auth.is_renounced());
    assert_eq!(auth.admin(), None);
}

#[test]
fn gate_succeeds_for_admin() {
    let auth = Authority::new(admin_id());
    assert_eq!(auth.authorize(admin_id()), Ok(()));
    auth.gate(admin_id());
}

#[test]
fn rotate_succeeds() {
    let mut auth = Authority::new(admin_id());
    auth.rotate(admin_id(), new_admin_id());
    assert_eq!(auth.admin(), Some(new_admin_id()));
}

#[test]
fn revoke_succeeds() {
    let mut auth = Authority::new(admin_id());
    auth.revoke(admin_id());
    assert!(auth.is_renounced());
}

#[test]
fn rotate_then_old_admin_rejected() {
    let mut auth = Authority::new(admin_id());
    auth.rotate(admin_id(), new_admin_id());
    let result = auth.authorize(admin_id());
    assert!(result.is_err());
}

#[test]
fn rotate_then_new_admin_accepted() {
    let mut auth = Authority::new(admin_id());
    auth.rotate(admin_id(), new_admin_id());
    assert_eq!(auth.authorize(new_admin_id()), Ok(()));
    auth.gate(new_admin_id());
}

#[test]
fn authority_roundtrip() {
    let admin = AccountId::new([42; 32]);
    let auth = Authority::new(AccountId::new(admin.into_value()));
    assert_eq!(auth.admin(), Some(AccountId::new(admin.into_value())));
    assert!(!auth.is_renounced());
}

#[test]
fn authorize_refuses_wrong_signer_as_unauthorized() {
    let auth = Authority::new(admin_id());
    assert_eq!(auth.authorize(other_id()), Err(ApprovalError::Unauthorized));
}

#[test]
fn authorize_refuses_everyone_once_renounced() {
    let auth = Authority::renounced();
    assert_eq!(auth.authorize(admin_id()), Err(ApprovalError::Renounced));
    assert_eq!(auth.authorize(other_id()), Err(ApprovalError::Renounced));
}

#[test]
fn revoked_authority_refuses_former_admin() {
    let mut auth = Authority::new(admin_id());
    auth.revoke(admin_id());
    assert_eq!(auth.authorize(admin_id()), Err(ApprovalError::Renounced));
    assert_eq!(auth, Authority::renounced());
}

#[test]
fn rotation_to_self_keeps_admin() {
    let mut auth = Authority::new(admin_id());
    auth.rotate(admin_id(), admin_id());
    assert_eq!(auth, Authority::new(admin_id()));
    assert_eq!(auth.authorize(admin_id()), Ok(()));
}

#[test]
fn approval_error_messages() {
    assert_eq!(
        ApprovalError::Unauthorized.message(),
        "Unauthorized: signer is not the current authority"
    );
    assert_eq!(
        ApprovalError::Renounced.message(),
        "Renounced: authority has been permanently revoked"
    );
}

#[test]
fn account_ids_compare_by_every_byte() {
    let mut bytes = [7u8; 32];
    let a = AccountId::new(bytes);
    bytes[31] = 8;
    let b = AccountId::new(bytes);
    assert!(!a.same_as(&b));
    assert_ne!(a, b);
    assert!(a.same_as(&AccountId::new([7u8; 32])));
    assert_eq!(b.into_value()[31], 8);
}

use token_authority::account::{Account, AccountId, AccountWithMetadata, Claim};
use token_authority::approval::{ApprovalError, Authority};
use token_authority::program::{
    mint_with_authority, new_fungible_definition_with_authority, revoke_authority,
    rotate_authority, ProgramError,
};
use token_authority::token::{TokenDefinition, TokenHolding};

fn admin_id() -> AccountId {
    AccountId::new([1; 32])
}

fn holding_id() -> AccountId {
    AccountId::new([20; 32])
}

fn uninit_account(id: AccountId) -> AccountWithMetadata {
    AccountWithMetadata { account: Account::default(), is_authorized: true, account_id: id }
}

fn make_def(total_supply: u128, authority: Authority) -> AccountWithMetadata {
    let admin = authority.admin().unwrap_or(admin_id());
    let definition = TokenDefinition::FungibleWithAuthority {
        name: "TEST".to_string(),
        total_supply,
        metadata_id: None,
        authority,
    };
    AccountWithMetadata {
        account: Account {
            program_owner: [5_u32; 8],
            balance: 0,
            data: definition.to_data(),
            nonce: 0,
        },
        is_authorized: true,
        account_id: admin,
    }
}

fn make_holding(def_id: AccountId, balance: u128) -> AccountWithMetadata {
    AccountWithMetadata {
        account: Account {
            program_owner: [5_u32; 8],
            balance: 0,
            data: TokenHolding::Fungible { definition_id: def_id, balance }.to_data(),
            nonce: 0,
        },
        is_authorized: true,
        account_id: holding_id(),
    }
}

fn definition_of(data: &[u8]) -> TokenDefinition {
    TokenDefinition::try_from_data(data).unwrap()
}

#[test]
fn full_lifecycle_create_mint_revoke() {
    let posts = new_fungible_definition_with_authority(
        uninit_account(admin_id()),
        uninit_account(holding_id()),
        "LIFECYCLE".into(),
        1000,
        admin_id(),
    )
    .unwrap();
    assert!(posts.len() >= 2);
    let def = definition_of(&posts[0].account().data);
    assert!(matches!(def, TokenDefinition::FungibleWithAuthority { .. }));

    let def_acct = AccountWithMetadata {
        account: posts[0].account().clone(),
        is_authorized: true,
        account_id: admin_id(),
    };
    let posts = mint_with_authority(def_acct, uninit_account(holding_id()), 500).unwrap();
    assert!(posts.len() >= 2);
    let def = definition_of(&posts[0].account().data);
    match &def {
        TokenDefinition::FungibleWithAuthority { total_supply, .. } => {
            assert_eq!(*total_supply, 1500);
        }
        _ => panic!("wrong variant"),
    }

    let def_acct = AccountWithMetadata {
        account: posts[0].account().clone(),
        is_authorized: true,
        account_id: admin_id(),
    };
    let posts = revoke_authority(def_acct).unwrap();
    let def = definition_of(&posts[0].account().data);
    match &def {
        TokenDefinition::FungibleWithAuthority { authority, .. } => {
            assert!(authority.is_renounced());
        }
        _ => panic!("wrong variant"),
    }
}

#[test]
fn create_mint_revoke_reject() {
    let posts = new_fungible_definition_with_authority(
        uninit_account(admin_id()),
        uninit_account(holding_id()),
        "FLOW".into(),
        0,
        admin_id(),
    )
    .unwrap();

    let def_acct = AccountWithMetadata {
        account: posts[0].account().clone(),
        is_authorized: true,
        account_id: admin_id(),
    };
    let posts = mint_with_authority(def_acct, uninit_account(holding_id()), 1000).unwrap();

    let def = definition_of(&posts[0].account().data);
    match &def {
        TokenDefinition::FungibleWithAuthority { total_supply, .. } => {
            assert_eq!(*total_supply, 1000);
        }
        _ => panic!("expected FungibleWithAuthority"),
    }

    let def_acct = AccountWithMetadata {
        account: posts[0].account().clone(),
        is_authorized: true,
        account_id: admin_id(),
    };
    let posts = revoke_authority(def_acct).unwrap();

    let def = definition_of(&posts[0].account().data);
    match &def {
        TokenDefinition::FungibleWithAuthority { authority, .. } => {
            assert!(authority.is_renounced());
        }
        _ => panic!("expected FungibleWithAuthority"),
    }

    let def_acct = AccountWithMetadata {
        account: posts[0].account().clone(),
        is_authorized: true,
        account_id: admin_id(),
    };
    let result = mint_with_authority(def_acct, uninit_account(holding_id()), 100);
    assert!(result.is_err(), "mint after revoke should panic");
}

#[test]
fn mint_after_revoke_is_refused_as_renounced() {
    let def = make_def(1000, Authority::renounced());
    let result = mint_with_authority(def, uninit_account(holding_id()), 100);
    assert_eq!(result.unwrap_err(), ProgramError::Approval(ApprovalError::Renounced));
    assert!(ProgramError::Approval(ApprovalError::Renounced).message().contains("Renounced"));
}

#[test]
fn wrong_signer_is_refused_as_unauthorized() {
    let mut def = make_def(1000, Authority::new(admin_id()));
    def.account_id = AccountId::new([99; 32]);
    let result = mint_with_authority(def, uninit_account(holding_id()), 100);
    assert_eq!(result.unwrap_err(), ProgramError::Approval(ApprovalError::Unauthorized));
}

#[test]
fn unsigned_definition_is_refused() {
    let mut def = make_def(1000, Authority::new(admin_id()));
    def.is_authorized = false;
    let result = mint_with_authority(def, uninit_account(holding_id()), 100);
    assert_eq!(result.unwrap_err(), ProgramError::DefinitionAuthorizationMissing);
    assert_eq!(
        ProgramError::DefinitionAuthorizationMissing.message(),
        "Definition authorization is missing"
    );
}

#[test]
fn create_writes_definition_and_holding() {
    let posts = new_fungible_definition_with_authority(
        uninit_account(admin_id()),
        uninit_account(holding_id()),
        "NEW".into(),
        777,
        AccountId::new([9; 32]),
    )
    .unwrap();
    assert_eq!(posts.len(), 2);
    assert_eq!(posts[0].claim, Some(Claim::Authorized));
    assert_eq!(posts[1].claim, Some(Claim::Authorized));
    match definition_of(&posts[0].account().data) {
        TokenDefinition::FungibleWithAuthority { name, total_supply, metadata_id, authority } => {
            assert_eq!(name, "NEW");
            assert_eq!(total_supply, 777);
            assert_eq!(metadata_id, None);
            assert_eq!(authority.admin(), Some(AccountId::new([9; 32])));
        }
        _ => panic!("wrong variant"),
    }
    match TokenHolding::try_from_data(&posts[1].account().data).unwrap() {
        TokenHolding::Fungible { definition_id, balance } => {
            assert_eq!(definition_id, admin_id());
            assert_eq!(balance, 777);
        }
        _ => panic!("wrong variant"),
    }
}

#[test]
fn create_refuses_used_definition_account() {
    let used = make_def(5, Authority::new(admin_id()));
    let result = new_fungible_definition_with_authority(
        used,
        uninit_account(holding_id()),
        "X".into(),
        1,
        admin_id(),
    );
    assert_eq!(result.unwrap_err(), ProgramError::DefinitionTargetNotDefault);
}

#[test]
fn create_refuses_used_holding_account() {
    let result = new_fungible_definition_with_authority(
        uninit_account(admin_id()),
        make_holding(admin_id(), 3),
        "X".into(),
        1,
        admin_id(),
    );
    assert_eq!(result.unwrap_err(), ProgramError::HoldingTargetNotDefault);
}

#[test]
fn mint_into_existing_holding_adds_to_balance() {
    let def = make_def(1000, Authority::new(admin_id()));
    let holding = make_holding(admin_id(), 500);
    let posts = mint_with_authority(def, holding, 200).unwrap();
    assert_eq!(posts[0].claim, None);
    assert_eq!(posts[1].claim, None);
    assert_eq!(posts[0].account().program_owner, [5_u32; 8]);
    match definition_of(&posts[0].account().data) {
        TokenDefinition::FungibleWithAuthority { total_supply, .. } => {
            assert_eq!(total_supply, 1200)
        }
        _ => panic!("wrong variant"),
    }
    match TokenHolding::try_from_data(&posts[1].account().data).unwrap() {
        TokenHolding::Fungible { balance, .. } => assert_eq!(balance, 700),
        _ => panic!("wrong variant"),
    }
}

#[test]
fn mint_into_fresh_holding_claims_it() {
    let def = make_def(10, Authority::new(admin_id()));
    let posts = mint_with_authority(def, uninit_account(holding_id()), 5).unwrap();
    assert_eq!(posts[1].claim, Some(Claim::Authorized));
    match TokenHolding::try_from_data(&posts[1].account().data).unwrap() {
        TokenHolding::Fungible { definition_id, balance } => {
            assert_eq!(definition_id, admin_id());
            assert_eq!(balance, 5);
        }
        _ => panic!("wrong variant"),
    }
}

#[test]
fn mint_refuses_garbage_definition() {
    let mut def = make_def(10, Authority::new(admin_id()));
    def.account.data = vec![7, 7, 7];
    let result = mint_with_authority(def, uninit_account(holding_id()), 5);
    assert_eq!(result.unwrap_err(), ProgramError::InvalidDefinition);
}

#[test]
fn mint_refuses_token_without_authority() {
    let mut def = make_def(10, Authority::new(admin_id()));
    def.account.data = TokenDefinition::Fungible {
        name: "PLAIN".to_string(),
        total_supply: 10,
        metadata_id: None,
    }
    .to_data();
    let result = mint_with_authority(def, uninit_account(holding_id()), 5);
    assert_eq!(result.unwrap_err(), ProgramError::MissingAuthority);
}

#[test]
fn mint_refuses_garbage_holding() {
    let def = make_def(10, Authority::new(admin_id()));
    let mut holding = make_holding(admin_id(), 1);
    holding.account.data = vec![0, 1];
    let result = mint_with_authority(def, holding, 5);
    assert_eq!(result.unwrap_err(), ProgramError::InvalidHolding);
}

#[test]
fn mint_refuses_holding_of_other_definition() {
    let def = make_def(10, Authority::new(admin_id()));
    let holding = make_holding(AccountId::new([44; 32]), 1);
    let result = mint_with_authority(def, holding, 5);
    assert_eq!(result.unwrap_err(), ProgramError::DefinitionMismatch);
}

#[test]
fn mint_refuses_balance_overflow() {
    let def = make_def(10, Authority::new(admin_id()));
    let holding = make_holding(admin_id(), u128::MAX - 1);
    let result = mint_with_authority(def, holding, 2);
    assert_eq!(result.unwrap_err(), ProgramError::BalanceOverflow);
}

#[test]
fn mint_refuses_total_supply_overflow() {
    let def = make_def(u128::MAX, Authority::new(admin_id()));
    let holding = make_holding(admin_id(), 0);
    let result = mint_with_authority(def, holding, 1);
    assert_eq!(result.unwrap_err(), ProgramError::TotalSupplyOverflow);
}

#[test]
fn mint_refuses_non_fungible_holding() {
    let def = make_def(10, Authority::new(admin_id()));
    let mut holding = make_holding(admin_id(), 1);
    holding.account.data =
        TokenHolding::NftPrintedCopy { definition_id: admin_id(), owned: true }.to_data();
    let result = mint_with_authority(def, holding, 5);
    assert_eq!(result.unwrap_err(), ProgramError::NotFungibleWithAuthority);
}

#[test]
fn rotate_hands_minting_to_new_admin() {
    let new_admin = AccountId::new([2; 32]);
    let def = make_def(100, Authority::new(admin_id()));
    let posts = rotate_authority(def, new_admin).unwrap();
    assert_eq!(posts.len(), 1);
    assert_eq!(posts[0].claim, None);

    let old_signer = AccountWithMetadata {
        account: posts[0].account().clone(),
        is_authorized: true,
        account_id: admin_id(),
    };
    let result = mint_with_authority(old_signer, uninit_account(holding_id()), 1);
    assert_eq!(result.unwrap_err(), ProgramError::Approval(ApprovalError::Unauthorized));

    let new_signer = AccountWithMetadata {
        account: posts[0].account().clone(),
        is_authorized: true,
        account_id: new_admin,
    };
    let holding = make_holding(new_admin, 0);
    let minted = mint_with_authority(new_signer, holding, 1).unwrap();
    match definition_of(&minted[0].account().data) {
        TokenDefinition::FungibleWithAuthority { total_supply, authority, .. } => {
            assert_eq!(total_supply, 101);
            assert_eq!(authority.admin(), Some(new_admin));
        }
        _ => panic!("wrong variant"),
    }
}

#[test]
fn rotate_and_revoke_refuse_after_revoke() {
    let def = make_def(100, Authority::renounced());
    let rotated = rotate_authority(def.clone(), AccountId::new([2; 32]));
    assert_eq!(rotated.unwrap_err(), ProgramError::Approval(ApprovalError::Renounced));
    let revoked = revoke_authority(def);
    assert_eq!(revoked.unwrap_err(), ProgramError::Approval(ApprovalError::Renounced));
}

#[test]
fn rotate_and_revoke_need_signature_and_admin() {
    let mut unsigned = make_def(100, Authority::new(admin_id()));
    unsigned.is_authorized = false;
    assert_eq!(
        rotate_authority(unsigned.clone(), holding_id()).unwrap_err(),
        ProgramError::DefinitionAuthorizationMissing
    );
    assert_eq!(revoke_authority(unsigned).unwrap_err(), ProgramError::DefinitionAuthorizationMissing);

    let mut stranger = make_def(100, Authority::new(admin_id()));
    stranger.account_id = AccountId::new([77; 32]);
    assert_eq!(
        revoke_authority(stranger).unwrap_err(),
        ProgramError::Approval(ApprovalError::Unauthorized)
    );
}

#[test]
fn program_error_messages() {
    assert_eq!(
        ProgramError::DefinitionTargetNotDefault.message(),
        "Definition target account must have default values"
    );
    assert_eq!(
        ProgramError::HoldingTargetNotDefault.message(),
        "Holding target account must have default values"
    );
    assert_eq!(ProgramError::MissingAuthority.message(), "Token definition must have an authority");
    assert_eq!(
        ProgramError::Approval(ApprovalError::Unauthorized).message(),
        "Unauthorized: signer is not the current authority"
    );
    assert_eq!(ProgramError::BalanceOverflow.message(), "Balance overflow on minting");
    assert_eq!(ProgramError::TotalSupplyOverflow.message(), "Total supply overflow");
}

#[test]
fn created_token_is_minted_only_by_its_authority() {
    let authority = AccountId::new([9; 32]);
    let posts = new_fungible_definition_with_authority(
        uninit_account(admin_id()),
        uninit_account(holding_id()),
        "GATED".into(),
        10,
        authority,
    )
    .unwrap();
    let by_definition_owner = AccountWithMetadata {
        account: posts[0].account().clone(),
        is_authorized: true,
        account_id: admin_id(),
    };
    assert_eq!(
        mint_with_authority(by_definition_owner, uninit_account(holding_id()), 1).unwrap_err(),
        ProgramError::Approval(ApprovalError::Unauthorized)
    );
    let by_authority = AccountWithMetadata {
        account: posts[0].account().clone(),
        is_authorized: true,
        account_id: authority,
    };
    let minted = mint_with_authority(by_authority, make_holding(authority, 4), 6).unwrap();
    match TokenHolding::try_from_data(&minted[1].account().data).unwrap() {
        TokenHolding::Fungible { balance, .. } => assert_eq!(balance, 10),
        _ => panic!("wrong variant"),
    }
}

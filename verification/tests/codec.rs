use token_authority::account::{Account, AccountId};
use token_authority::approval::Authority;
use token_authority::token::{TokenDefinition, TokenHolding};

type FungibleWithAuthorityLayout = (u8, String, u128, Option<[u8; 32]>, Option<[u8; 32]>);

#[test]
fn definition_bytes_match_borsh_layout() {
    let definition = TokenDefinition::FungibleWithAuthority {
        name: "FIXED".to_string(),
        total_supply: 1_000_000,
        metadata_id: Some(AccountId::new([4; 32])),
        authority: Authority::new(AccountId::new([1; 32])),
    };
    let expected = borsh::to_vec(&(
        2u8,
        "FIXED".to_string(),
        1_000_000u128,
        Some([4u8; 32]),
        Some([1u8; 32]),
    ))
    .unwrap();
    assert_eq!(definition.to_data(), expected);
}

#[test]
fn renounced_definition_bytes_match_borsh_layout() {
    let definition = TokenDefinition::FungibleWithAuthority {
        name: "é✓".to_string(),
        total_supply: 5,
        metadata_id: None,
        authority: Authority::renounced(),
    };
    let bytes = definition.to_data();
    let decoded: FungibleWithAuthorityLayout = borsh::from_slice(&bytes).unwrap();
    assert_eq!(decoded, (2u8, "é✓".to_string(), 5u128, None, None));
}

#[test]
fn plain_definitions_match_borsh_layout() {
    let fungible = TokenDefinition::Fungible {
        name: "A".to_string(),
        total_supply: 3,
        metadata_id: None,
    };
    let expected = borsh::to_vec(&(0u8, "A".to_string(), 3u128, None::<[u8; 32]>)).unwrap();
    assert_eq!(fungible.to_data(), expected);

    let nft = TokenDefinition::NonFungible {
        name: "N".to_string(),
        printable_supply: 9,
        metadata_id: AccountId::new([6; 32]),
    };
    let expected = borsh::to_vec(&(1u8, "N".to_string(), 9u128, [6u8; 32])).unwrap();
    assert_eq!(nft.to_data(), expected);
}

#[test]
fn holding_bytes_match_borsh_layout() {
    let h = TokenHolding::Fungible { definition_id: AccountId::new([3; 32]), balance: 42 };
    assert_eq!(h.to_data(), borsh::to_vec(&(0u8, [3u8; 32], 42u128)).unwrap());
    let h = TokenHolding::NftMaster { definition_id: AccountId::new([3; 32]), print_balance: 2 };
    assert_eq!(h.to_data(), borsh::to_vec(&(1u8, [3u8; 32], 2u128)).unwrap());
    let h = TokenHolding::NftPrintedCopy { definition_id: AccountId::new([3; 32]), owned: true };
    assert_eq!(h.to_data(), borsh::to_vec(&(2u8, [3u8; 32], true)).unwrap());
}

#[test]
fn definition_roundtrip() {
    let definition = TokenDefinition::FungibleWithAuthority {
        name: "ROUND".to_string(),
        total_supply: u128::MAX,
        metadata_id: None,
        authority: Authority::new(AccountId::new([8; 32])),
    };
    let bytes = definition.to_data();
    match TokenDefinition::try_from_data(&bytes).unwrap() {
        TokenDefinition::FungibleWithAuthority { name, total_supply, metadata_id, authority } => {
            assert_eq!(name, "ROUND");
            assert_eq!(total_supply, u128::MAX);
            assert_eq!(metadata_id, None);
            assert_eq!(authority, Authority::new(AccountId::new([8; 32])));
        }
        _ => panic!("wrong variant"),
    }
}

#[test]
fn decoding_reads_borsh_bytes() {
    let bytes =
        borsh::to_vec(&(2u8, "B".to_string(), 17u128, None::<[u8; 32]>, Some([5u8; 32]))).unwrap();
    match TokenDefinition::try_from_data(&bytes).unwrap() {
        TokenDefinition::FungibleWithAuthority { name, total_supply, authority, .. } => {
            assert_eq!(name, "B");
            assert_eq!(total_supply, 17);
            assert_eq!(authority.admin(), Some(AccountId::new([5; 32])));
        }
        _ => panic!("wrong variant"),
    }
}

#[test]
fn decoding_refuses_malformed_bytes() {
    let good = TokenDefinition::Fungible {
        name: "OK".to_string(),
        total_supply: 1,
        metadata_id: None,
    }
    .to_data();
    // Trailing byte.
    let mut longer = good.clone();
    longer.push(0);
    assert!(TokenDefinition::try_from_data(&longer).is_none());
    // Truncated.
    assert!(TokenDefinition::try_from_data(&good[..good.len() - 1]).is_none());
    // Unknown variant tag.
    let mut tagged = good.clone();
    tagged[0] = 3;
    assert!(TokenDefinition::try_from_data(&tagged).is_none());
    // Option tag other than zero or one.
    let mut bad_option = good.clone();
    let last = bad_option.len() - 1;
    bad_option[last] = 2;
    assert!(TokenDefinition::try_from_data(&bad_option).is_none());
    // Name that is not UTF-8.
    let bad_name = vec![0u8, 1, 0, 0, 0, 0xff, 1, 0, 0, 0, 0, 0, 0, 0, 0, 0, 0, 0, 0, 0, 0, 0, 0];
    assert!(TokenDefinition::try_from_data(&bad_name).is_none());
    assert!(TokenDefinition::try_from_data(&[]).is_none());
}

#[test]
fn holding_decoding_refuses_bad_bool() {
    let mut bytes =
        TokenHolding::NftPrintedCopy { definition_id: AccountId::new([1; 32]), owned: false }
            .to_data();
    assert!(TokenHolding::try_from_data(&bytes).is_some());
    let last = bytes.len() - 1;
    bytes[last] = 2;
    assert!(TokenHolding::try_from_data(&bytes).is_none());
}

#[test]
fn zeroized_holding_follows_definition_kind() {
    let id = AccountId::new([2; 32]);
    let fungible = TokenDefinition::FungibleWithAuthority {
        name: "F".to_string(),
        total_supply: 1,
        metadata_id: None,
        authority: Authority::renounced(),
    };
    match TokenHolding::zeroized_from_definition(id, &fungible) {
        TokenHolding::Fungible { definition_id, balance } => {
            assert_eq!(definition_id, id);
            assert_eq!(balance, 0);
        }
        _ => panic!("wrong variant"),
    }
    let nft = TokenDefinition::NonFungible {
        name: "N".to_string(),
        printable_supply: 1,
        metadata_id: id,
    };
    match TokenHolding::zeroized_from_definition(id, &nft) {
        TokenHolding::NftPrintedCopy { owned, .. } => assert!(!owned),
        _ => panic!("wrong variant"),
    }
}

#[test]
fn authority_mut_changes_only_the_authority() {
    let admin = AccountId::new([1; 32]);
    let mut definition = TokenDefinition::FungibleWithAuthority {
        name: "VARIABLE".to_string(),
        total_supply: 1_000,
        metadata_id: None,
        authority: Authority::new(admin),
    };
    definition.authority_mut().unwrap().rotate(admin, AccountId::new([2; 32]));
    assert_eq!(definition.authority().unwrap().admin(), Some(AccountId::new([2; 32])));
    let mut plain = TokenDefinition::Fungible {
        name: "P".to_string(),
        total_supply: 1,
        metadata_id: None,
    };
    assert!(plain.authority_mut().is_none());
    assert!(plain.authority().is_none());
}

#[test]
fn default_account_is_default() {
    assert!(Account::default().is_default());
    let mut a = Account::default();
    a.nonce = 1;
    assert!(!a.is_default());
}

#[test]
fn holding_roundtrip() {
    let h = TokenHolding::NftMaster { definition_id: AccountId::new([11; 32]), print_balance: 12 };
    match TokenHolding::try_from_data(&h.to_data()).unwrap() {
        TokenHolding::NftMaster { definition_id, print_balance } => {
            assert_eq!(definition_id, AccountId::new([11; 32]));
            assert_eq!(print_balance, 12);
        }
        _ => panic!("wrong variant"),
    }
}

#[test]
fn authority_storage_overhead() {
    let plain = TokenDefinition::Fungible {
        name: "SIZE".to_string(),
        total_supply: 1,
        metadata_id: None,
    };
    let active = TokenDefinition::FungibleWithAuthority {
        name: "SIZE".to_string(),
        total_supply: 1,
        metadata_id: None,
        authority: Authority::new(AccountId::new([1; 32])),
    };
    let renounced = TokenDefinition::FungibleWithAuthority {
        name: "SIZE".to_string(),
        total_supply: 1,
        metadata_id: None,
        authority: Authority::renounced(),
    };
    assert_eq!(active.to_data().len(), plain.to_data().len() + 33);
    assert_eq!(renounced.to_data().len(), plain.to_data().len() + 1);
}

//! The token program's authority instructions: create a fungible token with
//! a mint authority, mint gated by that authority, rotate it, revoke it.
//! A refused instruction is answered with a [`ProgramError`] and changes
//! nothing.
use vstd::prelude::*;

use crate::account::{
    is_default_program_owner, Account, AccountId, AccountPostState, AccountWithMetadata, Claim,
};
use crate::approval::{gate_answer, ApprovalError, Authority};
use crate::codec::string_fits;
use crate::token::{
    lemma_holding_roundtrip, lemma_definition_canonical, lemma_definition_roundtrip, definition_bytes, holding_bytes, parse_definition, parse_holding, TokenDefinition,
    TokenDefinitionView, TokenHolding,
};

verus! {

/// Why an instruction was refused.
#[derive(Clone, Copy, Debug, PartialEq, Eq, Structural)]
pub enum ProgramError {
    /// The account meant for the new definition already holds something.
    DefinitionTargetNotDefault,
    /// The account meant for the first holding already holds something.
    HoldingTargetNotDefault,
    /// The definition account did not sign.
    DefinitionAuthorizationMissing,
    /// The definition account's data is not a token definition.
    InvalidDefinition,
    /// The token definition has no mint authority.
    MissingAuthority,
    /// The mint authority refused the signer.
    Approval(ApprovalError),
    /// The holding account's data is not a token holding.
    InvalidHolding,
    /// The holding belongs to another token definition.
    DefinitionMismatch,
    /// Minting would overflow the holding's balance.
    BalanceOverflow,
    /// Minting would overflow the total supply.
    TotalSupplyOverflow,
    /// Only fungible holdings of a fungible token with an authority can be
    /// minted into.
    NotFungibleWithAuthority,
}

impl ProgramError {
    /// The text that reports this error.
    pub open spec fn spec_message(&self) -> Seq<char> {
        match self {
            ProgramError::DefinitionTargetNotDefault => "Definition target account must have default values"@,
            ProgramError::HoldingTargetNotDefault => "Holding target account must have default values"@,
            ProgramError::DefinitionAuthorizationMissing => "Definition authorization is missing"@,
            ProgramError::InvalidDefinition => "Token Definition account must be valid"@,
            ProgramError::MissingAuthority => "Token definition must have an authority"@,
            ProgramError::Approval(e) => e.spec_message(),
            ProgramError::InvalidHolding => "Token Holding account must be valid"@,
            ProgramError::DefinitionMismatch => "Mismatch Token Definition and Token Holding"@,
            ProgramError::BalanceOverflow => "Balance overflow on minting"@,
            ProgramError::TotalSupplyOverflow => "Total supply overflow"@,
            ProgramError::NotFungibleWithAuthority => "MintWithAuthority requires FungibleWithAuthority definition"@,
        }
    }

    /// The text that reports this error.
    pub fn message(&self) -> (res: &'static str)
        ensures
            res@ == self.spec_message(),
    {
        match self {
            ProgramError::DefinitionTargetNotDefault => "Definition target account must have default values",
            ProgramError::HoldingTargetNotDefault => "Holding target account must have default values",
            ProgramError::DefinitionAuthorizationMissing => "Definition authorization is missing",
            ProgramError::InvalidDefinition => "Token Definition account must be valid",
            ProgramError::MissingAuthority => "Token definition must have an authority",
            ProgramError::Approval(e) => e.message(),
            ProgramError::InvalidHolding => "Token Holding account must be valid",
            ProgramError::DefinitionMismatch => "Mismatch Token Definition and Token Holding",
            ProgramError::BalanceOverflow => "Balance overflow on minting",
            ProgramError::TotalSupplyOverflow => "Total supply overflow",
            ProgramError::NotFungibleWithAuthority => "MintWithAuthority requires FungibleWithAuthority definition",
        }
    }
}

/// `post` is `pre` with its data replaced by `data`, requesting `claim`.
pub open spec fn rewrites(post: AccountPostState, pre: Account, data: Seq<u8>, claim: Option<Claim>) -> bool {
    post.account.is_rewritten_from(pre, data) && post.claim == claim
}

/// The definition and first holding that creating a token stores, or why
/// the creation is refused.
pub open spec fn create_outcome(
    definition_target: AccountWithMetadata,
    holding_target: AccountWithMetadata,
    name: Seq<char>,
    initial_supply: u128,
    authority: AccountId,
) -> Result<(TokenDefinitionView, TokenHolding), ProgramError> {
    if !definition_target.account.spec_is_default() {
        Err(ProgramError::DefinitionTargetNotDefault)
    } else if !holding_target.account.spec_is_default() {
        Err(ProgramError::HoldingTargetNotDefault)
    } else {
        Ok(
            (
                TokenDefinitionView::FungibleWithAuthority {
                    name,
                    total_supply: initial_supply,
                    metadata_id: None,
                    authority: Some(authority),
                },
                TokenHolding::Fungible {
                    definition_id: definition_target.account_id,
                    balance: initial_supply,
                },
            ),
        )
    }
}

/// The holding that minting credits: a fresh zero holding where the holding
/// account is still empty, else the holding stored in it.
pub open spec fn holding_to_credit(
    definition_id: AccountId,
    definition: TokenDefinitionView,
    holding_account: Account,
) -> Option<TokenHolding> {
    if holding_account.spec_is_default() {
        Some(TokenHolding::spec_zeroized(definition_id, definition))
    } else {
        parse_holding(holding_account.data@)
    }
}

/// The definition and holding after minting `amount`, or why the mint is
/// refused. The checks come in this order: the definition account signed,
/// its data is a definition, the definition has an authority, the authority
/// admits the definition account, the holding is readable and belongs to
/// this definition, both are fungible, and neither sum overflows.
pub open spec fn mint_outcome(
    definition_account: AccountWithMetadata,
    holding_account: AccountWithMetadata,
    amount: u128,
) -> Result<(TokenDefinitionView, TokenHolding), ProgramError> {
    if !definition_account.is_authorized {
        Err(ProgramError::DefinitionAuthorizationMissing)
    } else {
        match parse_definition(definition_account.account.data@) {
            None => Err(ProgramError::InvalidDefinition),
            Some(definition) => match definition {
                TokenDefinitionView::FungibleWithAuthority {
                    name,
                    total_supply,
                    metadata_id,
                    authority,
                } => match gate_answer(authority, definition_account.account_id) {
                    Err(e) => Err(ProgramError::Approval(e)),
                    Ok(_) => match holding_to_credit(
                        definition_account.account_id,
                        definition,
                        holding_account.account,
                    ) {
                        None => Err(ProgramError::InvalidHolding),
                        Some(holding) => if holding.spec_definition_id()
                            != definition_account.account_id {
                            Err(ProgramError::DefinitionMismatch)
                        } else {
                            match holding {
                                TokenHolding::Fungible { definition_id, balance } => if balance
                                    + amount > u128::MAX {
                                    Err(ProgramError::BalanceOverflow)
                                } else if total_supply + amount > u128::MAX {
                                    Err(ProgramError::TotalSupplyOverflow)
                                } else {
                                    Ok(
                                        (
                                            TokenDefinitionView::FungibleWithAuthority {
                                                name,
                                                total_supply: (total_supply + amount) as u128,
                                                metadata_id,
                                                authority,
                                            },
                                            TokenHolding::Fungible {
                                                definition_id,
                                                balance: (balance + amount) as u128,
                                            },
                                        ),
                                    )
                                },
                                _ => Err(ProgramError::NotFungibleWithAuthority),
                            }
                        },
                    },
                },
                _ => Err(ProgramError::MissingAuthority),
            },
        }
    }
}

/// The definition after its authority admitted the definition account and
/// was set to `new_admin` (`None` to revoke it), or why that is refused.
pub open spec fn hand_over_outcome(
    definition_account: AccountWithMetadata,
    new_admin: Option<AccountId>,
) -> Result<TokenDefinitionView, ProgramError> {
    if !definition_account.is_authorized {
        Err(ProgramError::DefinitionAuthorizationMissing)
    } else {
        match parse_definition(definition_account.account.data@) {
            None => Err(ProgramError::InvalidDefinition),
            Some(definition) => match definition {
                TokenDefinitionView::FungibleWithAuthority {
                    name,
                    total_supply,
                    metadata_id,
                    authority,
                } => match gate_answer(authority, definition_account.account_id) {
                    Err(e) => Err(ProgramError::Approval(e)),
                    Ok(_) => Ok(
                        TokenDefinitionView::FungibleWithAuthority {
                            name,
                            total_supply,
                            metadata_id,
                            authority: new_admin,
                        },
                    ),
                },
                _ => Err(ProgramError::MissingAuthority),
            },
        }
    }
}

/// Creates a fungible token with `authority` as its mint authority: the
/// definition account receives the definition with `initial_supply` as its
/// total supply, the holding account receives the whole initial supply, and
/// both accounts are claimed. Both accounts must be empty.
pub fn new_fungible_definition_with_authority(
    definition_target_account: AccountWithMetadata,
    holding_target_account: AccountWithMetadata,
    name: String,
    initial_supply: u128,
    authority: AccountId,
) -> (res: Result<Vec<AccountPostState>, ProgramError>)
    requires
        string_fits(name@),
    ensures
        match create_outcome(
            definition_target_account,
            holding_target_account,
            name@,
            initial_supply,
            authority,
        ) {
            Err(e) => res == Err::<Vec<AccountPostState>, ProgramError>(e),
            Ok((definition, holding)) => res matches Ok(posts) && posts@.len() == 2 && rewrites(
                posts@[0],
                definition_target_account.account,
                definition_bytes(definition),
                Some(Claim::Authorized),
            ) && rewrites(
                posts@[1],
                holding_target_account.account,
                holding_bytes(holding),
                Some(Claim::Authorized),
            ),
        },
        res is Ok <==> is_untouched(definition_target_account.account) && is_untouched(
            holding_target_account.account,
        ),
        res matches Ok(posts) ==> posts@.len() == 2 && parse_definition(posts@[0].account.data@)
            == Some(
            TokenDefinitionView::FungibleWithAuthority {
                name: name@,
                total_supply: initial_supply,
                metadata_id: None,
                authority: Some(authority),
            },
        ) && parse_holding(posts@[1].account.data@) == Some(
            TokenHolding::Fungible {
                definition_id: definition_target_account.account_id,
                balance: initial_supply,
            },
        ),
        res matches Ok(posts) ==> posts@.len() > 0 && posts@[0].account.program_owner
            == definition_target_account.account.program_owner && posts@[0].account.balance == definition_target_account.account.balance
            && posts@[0].account.nonce == definition_target_account.account.nonce,
        res matches Ok(posts) ==> posts@.len() > 1 && posts@[1].account.program_owner
            == holding_target_account.account.program_owner && posts@[1].account.balance == holding_target_account.account.balance
            && posts@[1].account.nonce == holding_target_account.account.nonce,
        res matches Ok(posts) ==> posts@[0].claim == Some(Claim::Authorized) && posts@[1].claim
            == Some(Claim::Authorized),
{
    proof {
        lemma_create_credits_initial_supply(
            definition_target_account,
            holding_target_account,
            name@,
            initial_supply,
            authority,
        );
    }
    if !definition_target_account.account.is_default() {
        return Err(ProgramError::DefinitionTargetNotDefault);
    }
    if !holding_target_account.account.is_default() {
        return Err(ProgramError::HoldingTargetNotDefault);
    }
    let token_definition = TokenDefinition::FungibleWithAuthority {
        name,
        total_supply: initial_supply,
        metadata_id: None,
        authority: Authority::new(authority),
    };
    let token_holding = TokenHolding::Fungible {
        definition_id: definition_target_account.account_id,
        balance: initial_supply,
    };
    let mut definition_post = definition_target_account.account;
    definition_post.data = token_definition.to_data();
    let mut holding_post = holding_target_account.account;
    holding_post.data = token_holding.to_data();
    let mut posts: Vec<AccountPostState> = Vec::new();
    posts.push(AccountPostState::new_claimed(definition_post, Claim::Authorized));
    posts.push(AccountPostState::new_claimed(holding_post, Claim::Authorized));
    proof {
        lemma_definition_roundtrip(token_definition@);
        lemma_holding_roundtrip(token_holding);
    }
    Ok(posts)
}

/// Mints `amount_to_mint` into the holding account, gated by the token's
/// mint authority: the definition account must have signed and must be the
/// current admin. The total supply and the holding's balance both grow by
/// the amount; an empty holding account starts from a zero holding and is
/// claimed where no program owns it yet.
pub fn mint_with_authority(
    definition_account: AccountWithMetadata,
    user_holding_account: AccountWithMetadata,
    amount_to_mint: u128,
) -> (res: Result<Vec<AccountPostState>, ProgramError>)
    ensures
        match mint_outcome(definition_account, user_holding_account, amount_to_mint) {
            Err(e) => res == Err::<Vec<AccountPostState>, ProgramError>(e),
            Ok((definition, holding)) => res matches Ok(posts) && posts@.len() == 2 && rewrites(
                posts@[0],
                definition_account.account,
                definition_bytes(definition),
                None,
            ) && rewrites(
                posts@[1],
                user_holding_account.account,
                holding_bytes(holding),
                if is_default_program_owner(user_holding_account.account.program_owner) {
                    Some(Claim::Authorized)
                } else {
                    None
                },
            ),
        },
        res matches Ok(posts) ==> posts@.len() == 2 && (parse_definition(
            definition_account.account.data@,
        ) matches Some(
            TokenDefinitionView::FungibleWithAuthority { name, total_supply, metadata_id, authority },
        ) && authority == Some(definition_account.account_id) && parse_definition(
            posts@[0].account.data@,
        ) == Some(
            TokenDefinitionView::FungibleWithAuthority {
                name,
                total_supply: (total_supply + amount_to_mint) as u128,
                metadata_id,
                authority,
            },
        )) && if is_untouched(user_holding_account.account) {
            parse_holding(posts@[1].account.data@) == Some(
                TokenHolding::Fungible {
                    definition_id: definition_account.account_id,
                    balance: amount_to_mint,
                },
            )
        } else {
            parse_holding(user_holding_account.account.data@) matches Some(
                TokenHolding::Fungible { definition_id, balance },
            ) && definition_id == definition_account.account_id && parse_holding(
                posts@[1].account.data@,
            ) == Some(
                TokenHolding::Fungible {
                    definition_id,
                    balance: (balance + amount_to_mint) as u128,
                },
            )
        },
        definition_account.is_authorized && (parse_definition(
            definition_account.account.data@,
        ) matches Some(TokenDefinitionView::FungibleWithAuthority { authority, .. }) && authority
            == Some(definition_account.account_id)) && !is_untouched(user_holding_account.account)
            && parse_holding(user_holding_account.account.data@) is None ==> res == Err::<
            Vec<AccountPostState>,
            ProgramError,
        >(ProgramError::InvalidHolding),
        res matches Ok(posts) ==> posts@.len() > 0 && posts@[0].account.program_owner
            == definition_account.account.program_owner && posts@[0].account.balance == definition_account.account.balance
            && posts@[0].account.nonce == definition_account.account.nonce,
        res matches Ok(posts) ==> posts@.len() > 1 && posts@[1].account.program_owner
            == user_holding_account.account.program_owner && posts@[1].account.balance == user_holding_account.account.balance
            && posts@[1].account.nonce == user_holding_account.account.nonce,
        res matches Ok(posts) ==> posts@[0].claim is None && posts@[1].claim == (if forall|i: int|
            0 <= i < 8 ==> user_holding_account.account.program_owner[i] == 0 {
            Some(Claim::Authorized)
        } else {
            None
        }),
{
    proof {
        lemma_mint_credits_the_stored_holding(
            definition_account,
            user_holding_account,
            amount_to_mint,
        );
        lemma_definition_canonical(definition_account.account.data@);
    }
    if !definition_account.is_authorized {
        return Err(ProgramError::DefinitionAuthorizationMissing);
    }
    let definition = match TokenDefinition::try_from_data(
        definition_account.account.data.as_slice(),
    ) {
        Some(d) => d,
        None => return Err(ProgramError::InvalidDefinition),
    };
    match definition.authority() {
        None => return Err(ProgramError::MissingAuthority),
        Some(authority) => match authority.authorize(definition_account.account_id) {
            Err(e) => return Err(ProgramError::Approval(e)),
            Ok(()) => authority.gate(definition_account.account_id),
        },
    }
    let holding = if user_holding_account.account.is_default() {
        TokenHolding::zeroized_from_definition(definition_account.account_id, &definition)
    } else {
        match TokenHolding::try_from_data(user_holding_account.account.data.as_slice()) {
            Some(h) => h,
            None => return Err(ProgramError::InvalidHolding),
        }
    };
    if !definition_account.account_id.same_as(&holding.definition_id()) {
        return Err(ProgramError::DefinitionMismatch);
    }
    let (new_definition, new_holding) = match (definition, holding) {
        (
            TokenDefinition::FungibleWithAuthority { name, total_supply, metadata_id, authority },
            TokenHolding::Fungible { definition_id, balance },
        ) => {
            let new_balance = match balance.checked_add(amount_to_mint) {
                Some(b) => b,
                None => return Err(ProgramError::BalanceOverflow),
            };
            let new_total = match total_supply.checked_add(amount_to_mint) {
                Some(t) => t,
                None => return Err(ProgramError::TotalSupplyOverflow),
            };
            (
                TokenDefinition::FungibleWithAuthority {
                    name,
                    total_supply: new_total,
                    metadata_id,
                    authority,
                },
                TokenHolding::Fungible { definition_id, balance: new_balance },
            )
        },
        _ => return Err(ProgramError::NotFungibleWithAuthority),
    };
    let mut definition_post = definition_account.account;
    definition_post.data = new_definition.to_data();
    let mut holding_post = user_holding_account.account;
    holding_post.data = new_holding.to_data();
    let mut posts: Vec<AccountPostState> = Vec::new();
    posts.push(AccountPostState::new(definition_post));
    posts.push(AccountPostState::new_claimed_if_default(holding_post, Claim::Authorized));
    proof {
        lemma_definition_roundtrip(new_definition@);
        lemma_holding_roundtrip(new_holding);
    }
    Ok(posts)
}

/// Hands the mint authority to `new_authority`; the definition account must
/// have signed and must be the current admin. Nothing but the authority
/// changes, and the definition account claims nothing.
pub fn rotate_authority(definition_account: AccountWithMetadata, new_authority: AccountId) -> (res:
    Result<Vec<AccountPostState>, ProgramError>)
    ensures
        match hand_over_outcome(definition_account, Some(new_authority)) {
            Err(e) => res == Err::<Vec<AccountPostState>, ProgramError>(e),
            Ok(definition) => res matches Ok(posts) && posts@.len() == 1 && rewrites(
                posts@[0],
                definition_account.account,
                definition_bytes(definition),
                None,
            ),
        },
        res matches Ok(posts) ==> posts@.len() == 1 && (parse_definition(
            definition_account.account.data@,
        ) matches Some(
            TokenDefinitionView::FungibleWithAuthority { name, total_supply, metadata_id, authority },
        ) && authority == Some(definition_account.account_id) && parse_definition(
            posts@[0].account.data@,
        ) == Some(
            TokenDefinitionView::FungibleWithAuthority {
                name,
                total_supply,
                metadata_id,
                authority: Some(new_authority),
            },
        )),
        res matches Ok(posts) ==> posts@.len() > 0 && posts@[0].account.program_owner
            == definition_account.account.program_owner && posts@[0].account.balance == definition_account.account.balance
            && posts@[0].account.nonce == definition_account.account.nonce,
        res matches Ok(posts) ==> posts@[0].claim is None,
{
    proof {
        lemma_hand_over_changes_only_authority(definition_account, Some(new_authority));
        lemma_definition_canonical(definition_account.account.data@);
    }
    if !definition_account.is_authorized {
        return Err(ProgramError::DefinitionAuthorizationMissing);
    }
    let definition = match TokenDefinition::try_from_data(
        definition_account.account.data.as_slice(),
    ) {
        Some(d) => d,
        None => return Err(ProgramError::InvalidDefinition),
    };
    let new_definition = match definition {
        TokenDefinition::FungibleWithAuthority { name, total_supply, metadata_id, authority } => {
            let mut authority = authority;
            match authority.authorize(definition_account.account_id) {
                Err(e) => return Err(ProgramError::Approval(e)),
                Ok(()) => authority.rotate(definition_account.account_id, new_authority),
            }
            TokenDefinition::FungibleWithAuthority { name, total_supply, metadata_id, authority }
        },
        _ => return Err(ProgramError::MissingAuthority),
    };
    let mut definition_post = definition_account.account;
    definition_post.data = new_definition.to_data();
    let mut posts: Vec<AccountPostState> = Vec::new();
    posts.push(AccountPostState::new(definition_post));
    proof {
        lemma_definition_roundtrip(new_definition@);
    }
    Ok(posts)
}

/// Renounces the mint authority for good; the definition account must have
/// signed and must be the current admin. Nothing but the authority changes,
/// and the definition account claims nothing.
pub fn revoke_authority(definition_account: AccountWithMetadata) -> (res: Result<
    Vec<AccountPostState>,
    ProgramError,
>)
    ensures
        match hand_over_outcome(definition_account, None) {
            Err(e) => res == Err::<Vec<AccountPostState>, ProgramError>(e),
            Ok(definition) => res matches Ok(posts) && posts@.len() == 1 && rewrites(
                posts@[0],
                definition_account.account,
                definition_bytes(definition),
                None,
            ),
        },
        res matches Ok(posts) ==> posts@.len() == 1 && (parse_definition(
            definition_account.account.data@,
        ) matches Some(
            TokenDefinitionView::FungibleWithAuthority { name, total_supply, metadata_id, authority },
        ) && authority == Some(definition_account.account_id) && parse_definition(
            posts@[0].account.data@,
        ) == Some(
            TokenDefinitionView::FungibleWithAuthority {
                name,
                total_supply,
                metadata_id,
                authority: None,
            },
        )),
        res matches Ok(posts) ==> posts@.len() > 0 && posts@[0].account.program_owner
            == definition_account.account.program_owner && posts@[0].account.balance == definition_account.account.balance
            && posts@[0].account.nonce == definition_account.account.nonce,
        res matches Ok(posts) ==> posts@[0].claim is None,
{
    proof {
        lemma_hand_over_changes_only_authority(definition_account, None);
        lemma_definition_canonical(definition_account.account.data@);
    }
    if !definition_account.is_authorized {
        return Err(ProgramError::DefinitionAuthorizationMissing);
    }
    let definition = match TokenDefinition::try_from_data(
        definition_account.account.data.as_slice(),
    ) {
        Some(d) => d,
        None => return Err(ProgramError::InvalidDefinition),
    };
    let new_definition = match definition {
        TokenDefinition::FungibleWithAuthority { name, total_supply, metadata_id, authority } => {
            let mut authority = authority;
            match authority.authorize(definition_account.account_id) {
                Err(e) => return Err(ProgramError::Approval(e)),
                Ok(()) => authority.revoke(definition_account.account_id),
            }
            TokenDefinition::FungibleWithAuthority { name, total_supply, metadata_id, authority }
        },
        _ => return Err(ProgramError::MissingAuthority),
    };
    let mut definition_post = definition_account.account;
    definition_post.data = new_definition.to_data();
    let mut posts: Vec<AccountPostState> = Vec::new();
    posts.push(AccountPostState::new(definition_post));
    proof {
        lemma_definition_roundtrip(new_definition@);
    }
    Ok(posts)
}

/// A token whose authority is renounced is frozen: minting, rotating and
/// revoking are all refused, as renounced wherever the definition account
/// signed. No instruction brings an admin back.
pub proof fn lemma_renounced_token_is_frozen(
    definition_account: AccountWithMetadata,
    holding_account: AccountWithMetadata,
    amount: u128,
    new_admin: Option<AccountId>,
)
    requires
        parse_definition(definition_account.account.data@) matches Some(
            TokenDefinitionView::FungibleWithAuthority { authority, .. },
        ) && authority is None,
    ensures
        mint_outcome(definition_account, holding_account, amount) is Err,
        hand_over_outcome(definition_account, new_admin) is Err,
        definition_account.is_authorized ==> mint_outcome(
            definition_account,
            holding_account,
            amount,
        ) == Err::<(TokenDefinitionView, TokenHolding), ProgramError>(
            ProgramError::Approval(ApprovalError::Renounced),
        ),
        definition_account.is_authorized ==> hand_over_outcome(definition_account, new_admin)
            == Err::<TokenDefinitionView, ProgramError>(
            ProgramError::Approval(ApprovalError::Renounced),
        ),
{
}

/// Minting after a revocation is refused: once `revoke_authority` stored
/// its definition, minting against that stored definition fails, as
/// renounced wherever the definition account signed.
pub proof fn lemma_no_mint_after_revoke(
    definition_account: AccountWithMetadata,
    revoked_account: AccountWithMetadata,
    holding_account: AccountWithMetadata,
    amount: u128,
)
    requires
        hand_over_outcome(definition_account, None) matches Ok(revoked) && revoked_account.account.data@
            == definition_bytes(revoked),
    ensures
        mint_outcome(revoked_account, holding_account, amount) is Err,
        revoked_account.is_authorized ==> mint_outcome(revoked_account, holding_account, amount)
            == Err::<(TokenDefinitionView, TokenHolding), ProgramError>(
            ProgramError::Approval(ApprovalError::Renounced),
        ),
{
    lemma_definition_canonical(definition_account.account.data@);
    let revoked = hand_over_outcome(definition_account, None).unwrap();
    lemma_definition_roundtrip(revoked);
    lemma_renounced_token_is_frozen(revoked_account, holding_account, amount, None);
}

/// After `rotate_authority` to `new_authority` stored its definition, the
/// gate on that stored definition passes `new_authority` and refuses every
/// other signer as unauthorized, the previous admin included.
pub proof fn lemma_rotation_hands_over_minting(
    definition_account: AccountWithMetadata,
    new_authority: AccountId,
    rotated_account: AccountWithMetadata,
    holding_account: AccountWithMetadata,
    amount: u128,
)
    requires
        hand_over_outcome(definition_account, Some(new_authority)) matches Ok(rotated)
            && rotated_account.account.data@ == definition_bytes(rotated),
        rotated_account.is_authorized,
    ensures
        rotated_account.account_id != new_authority ==> mint_outcome(
            rotated_account,
            holding_account,
            amount,
        ) == Err::<(TokenDefinitionView, TokenHolding), ProgramError>(
            ProgramError::Approval(ApprovalError::Unauthorized),
        ),
        rotated_account.account_id == new_authority ==> !(mint_outcome(
            rotated_account,
            holding_account,
            amount,
        ) matches Err(ProgramError::Approval(_))),
{
    lemma_definition_canonical(definition_account.account.data@);
    let rotated = hand_over_outcome(definition_account, Some(new_authority)).unwrap();
    lemma_definition_roundtrip(rotated);
}

/// A freshly created token can be minted by its authority and by no one
/// else: against the stored definition, the authority admits exactly `authority`.
pub proof fn lemma_created_token_gated_by_authority(
    definition_target: AccountWithMetadata,
    holding_target: AccountWithMetadata,
    name: Seq<char>,
    initial_supply: u128,
    authority: AccountId,
    definition_account: AccountWithMetadata,
    holding_account: AccountWithMetadata,
    amount: u128,
)
    requires
        string_fits(name),
        create_outcome(definition_target, holding_target, name, initial_supply, authority) matches Ok(
            (created, _),
        ) && definition_account.account.data@ == definition_bytes(created),
        definition_account.is_authorized,
    ensures
        definition_account.account_id != authority ==> mint_outcome(
            definition_account,
            holding_account,
            amount,
        ) == Err::<(TokenDefinitionView, TokenHolding), ProgramError>(
            ProgramError::Approval(ApprovalError::Unauthorized),
        ),
        definition_account.account_id == authority ==> !(mint_outcome(
            definition_account,
            holding_account,
            amount,
        ) matches Err(ProgramError::Approval(_))),
{
    let (created, _) = create_outcome(
        definition_target,
        holding_target,
        name,
        initial_supply,
        authority,
    ).unwrap();
    lemma_definition_roundtrip(created);
}

/// Minting adds the same amount to the total supply and to the credited
/// holding's balance, and changes nothing else of the definition.
pub proof fn lemma_mint_conserves_supply(
    definition_account: AccountWithMetadata,
    holding_account: AccountWithMetadata,
    amount: u128,
)
    requires
        mint_outcome(definition_account, holding_account, amount) is Ok,
    ensures
        parse_definition(definition_account.account.data@) matches Some(
            TokenDefinitionView::FungibleWithAuthority { name, total_supply, metadata_id, authority },
        ) && holding_to_credit(
            definition_account.account_id,
            parse_definition(definition_account.account.data@).unwrap(),
            holding_account.account,
        ) matches Some(TokenHolding::Fungible { definition_id, balance }) && mint_outcome(
            definition_account,
            holding_account,
            amount,
        ) == Ok::<(TokenDefinitionView, TokenHolding), ProgramError>(
            (
                TokenDefinitionView::FungibleWithAuthority {
                    name,
                    total_supply: (total_supply + amount) as u128,
                    metadata_id,
                    authority,
                },
                TokenHolding::Fungible { definition_id, balance: (balance + amount) as u128 },
            ),
        ) && total_supply + amount <= u128::MAX && balance + amount <= u128::MAX,
{
}

/// Whether `a` is the account as it is before anything was written to it:
/// no owning program, zero balance and nonce, no data.
pub open spec fn is_untouched(a: Account) -> bool {
    &&& forall|i: int| 0 <= i < 8 ==> a.program_owner[i] == 0
    &&& a.balance == 0
    &&& a.nonce == 0
    &&& a.data@.len() == 0
}

/// Creating a token succeeds exactly when both target accounts are
/// untouched; it then records `initial_supply` as the total supply and
/// credits all of it to the first holding, whatever the authority is.
pub proof fn lemma_create_credits_initial_supply(
    definition_target: AccountWithMetadata,
    holding_target: AccountWithMetadata,
    name: Seq<char>,
    initial_supply: u128,
    authority: AccountId,
)
    ensures
        create_outcome(definition_target, holding_target, name, initial_supply, authority) is Ok
            <==> is_untouched(definition_target.account) && is_untouched(holding_target.account),
        create_outcome(definition_target, holding_target, name, initial_supply, authority) matches Ok(
            (definition, holding),
        ) ==> definition == (TokenDefinitionView::FungibleWithAuthority {
            name,
            total_supply: initial_supply,
            metadata_id: None,
            authority: Some(authority),
        }) && holding == (TokenHolding::Fungible {
            definition_id: definition_target.account_id,
            balance: initial_supply,
        }),
{
}

/// A successful mint needs the signed definition account to be the token's
/// current admin; it adds the amount to the total supply and changes
/// nothing else of the definition. It credits a fresh zero holding only
/// when the holding account is untouched; otherwise it credits the fungible
/// holding of this token stored in that account. A used account whose data
/// is no holding is refused as an invalid holding.
pub proof fn lemma_mint_credits_the_stored_holding(
    definition_account: AccountWithMetadata,
    holding_account: AccountWithMetadata,
    amount: u128,
)
    ensures
        mint_outcome(definition_account, holding_account, amount) matches Ok(
            (new_definition, new_holding),
        ) ==> {
            &&& definition_account.is_authorized
            &&& parse_definition(definition_account.account.data@) matches Some(
                TokenDefinitionView::FungibleWithAuthority {
                    name,
                    total_supply,
                    metadata_id,
                    authority,
                },
            ) && authority == Some(definition_account.account_id) && new_definition == (
            TokenDefinitionView::FungibleWithAuthority {
                name,
                total_supply: (total_supply + amount) as u128,
                metadata_id,
                authority,
            }) && total_supply + amount <= u128::MAX
            &&& if is_untouched(holding_account.account) {
                new_holding == (TokenHolding::Fungible {
                    definition_id: definition_account.account_id,
                    balance: amount,
                })
            } else {
                parse_holding(holding_account.account.data@) matches Some(
                    TokenHolding::Fungible { definition_id, balance },
                ) && definition_id == definition_account.account_id && balance + amount
                    <= u128::MAX && new_holding == (TokenHolding::Fungible {
                    definition_id,
                    balance: (balance + amount) as u128,
                })
            }
        },
        definition_account.is_authorized && (parse_definition(
            definition_account.account.data@,
        ) matches Some(TokenDefinitionView::FungibleWithAuthority { authority, .. }) && authority
            == Some(definition_account.account_id)) && !is_untouched(holding_account.account)
            && parse_holding(holding_account.account.data@) is None ==> mint_outcome(
            definition_account,
            holding_account,
            amount,
        ) == Err::<(TokenDefinitionView, TokenHolding), ProgramError>(
            ProgramError::InvalidHolding,
        ),
{
}

/// A successful rotation or revocation needs the signed definition account
/// to be the token's current admin, and stores the same definition with only
/// its authority replaced: name, total supply and metadata are unchanged.
pub proof fn lemma_hand_over_changes_only_authority(
    definition_account: AccountWithMetadata,
    new_admin: Option<AccountId>,
)
    ensures
        hand_over_outcome(definition_account, new_admin) matches Ok(new_definition) ==> {
            &&& definition_account.is_authorized
            &&& parse_definition(definition_account.account.data@) matches Some(
                TokenDefinitionView::FungibleWithAuthority {
                    name,
                    total_supply,
                    metadata_id,
                    authority,
                },
            ) && authority == Some(definition_account.account_id) && new_definition == (
            TokenDefinitionView::FungibleWithAuthority {
                name,
                total_supply,
                metadata_id,
                authority: new_admin,
            })
        },
{
}

/// Which error answers a refused creation: a used definition account is
/// refused first, then a used holding account.
pub proof fn lemma_create_refusals(
    definition_target: AccountWithMetadata,
    holding_target: AccountWithMetadata,
    name: Seq<char>,
    initial_supply: u128,
    authority: AccountId,
)
    ensures
        !is_untouched(definition_target.account) ==> create_outcome(
            definition_target,
            holding_target,
            name,
            initial_supply,
            authority,
        ) == Err::<(TokenDefinitionView, TokenHolding), ProgramError>(
            ProgramError::DefinitionTargetNotDefault,
        ),
        is_untouched(definition_target.account) && !is_untouched(holding_target.account)
            ==> create_outcome(definition_target, holding_target, name, initial_supply, authority)
            == Err::<(TokenDefinitionView, TokenHolding), ProgramError>(
            ProgramError::HoldingTargetNotDefault,
        ),
{
}

/// Which error answers a refused rotation or revocation: a missing
/// signature, then data that is no definition, then a definition without an
/// authority, then a renounced authority, then a signer who is not the
/// admin.
pub proof fn lemma_hand_over_refusals(
    definition_account: AccountWithMetadata,
    new_admin: Option<AccountId>,
)
    ensures
        !definition_account.is_authorized ==> hand_over_outcome(definition_account, new_admin)
            == Err::<TokenDefinitionView, ProgramError>(
            ProgramError::DefinitionAuthorizationMissing,
        ),
        definition_account.is_authorized && parse_definition(definition_account.account.data@)
            is None ==> hand_over_outcome(definition_account, new_admin) == Err::<
            TokenDefinitionView,
            ProgramError,
        >(ProgramError::InvalidDefinition),
        definition_account.is_authorized && (parse_definition(definition_account.account.data@) matches Some(d)
            && !(d is FungibleWithAuthority)) ==> hand_over_outcome(definition_account, new_admin)
            == Err::<TokenDefinitionView, ProgramError>(ProgramError::MissingAuthority),
        definition_account.is_authorized && (parse_definition(definition_account.account.data@) matches Some(
            TokenDefinitionView::FungibleWithAuthority { authority, .. },
        ) && authority is None) ==> hand_over_outcome(definition_account, new_admin) == Err::<
            TokenDefinitionView,
            ProgramError,
        >(ProgramError::Approval(ApprovalError::Renounced)),
        definition_account.is_authorized && (parse_definition(definition_account.account.data@) matches Some(
            TokenDefinitionView::FungibleWithAuthority { authority, .. },
        ) && authority is Some && authority != Some(definition_account.account_id))
            ==> hand_over_outcome(definition_account, new_admin) == Err::<
            TokenDefinitionView,
            ProgramError,
        >(ProgramError::Approval(ApprovalError::Unauthorized)),
{
}

/// Whether minting through `definition_account` gets past the signature,
/// the definition and its authority: the account signed, its data is a
/// fungible definition with an authority, and the account is its admin.
pub open spec fn mint_admitted(definition_account: AccountWithMetadata) -> bool {
    &&& definition_account.is_authorized
    &&& parse_definition(definition_account.account.data@) matches Some(
        TokenDefinitionView::FungibleWithAuthority { authority, .. },
    ) && authority == Some(definition_account.account_id)
}

/// Which error answers a refused mint, in the order of the checks: missing
/// signature, data that is no definition, a definition without authority,
/// a renounced authority, a signer who is not the admin, then for a used
/// holding account: data that is no holding, a holding of another token, a
/// holding that is not fungible, a balance overflow; and last a total
/// supply overflow.
pub proof fn lemma_mint_refusals(
    definition_account: AccountWithMetadata,
    holding_account: AccountWithMetadata,
    amount: u128,
)
    ensures
        !definition_account.is_authorized ==> mint_outcome(
            definition_account,
            holding_account,
            amount,
        ) == Err::<(TokenDefinitionView, TokenHolding), ProgramError>(
            ProgramError::DefinitionAuthorizationMissing,
        ),
        definition_account.is_authorized && parse_definition(definition_account.account.data@)
            is None ==> mint_outcome(definition_account, holding_account, amount) == Err::<
            (TokenDefinitionView, TokenHolding),
            ProgramError,
        >(ProgramError::InvalidDefinition),
        definition_account.is_authorized && (parse_definition(definition_account.account.data@) matches Some(d)
            && !(d is FungibleWithAuthority)) ==> mint_outcome(
            definition_account,
            holding_account,
            amount,
        ) == Err::<(TokenDefinitionView, TokenHolding), ProgramError>(
            ProgramError::MissingAuthority,
        ),
        definition_account.is_authorized && (parse_definition(definition_account.account.data@) matches Some(
            TokenDefinitionView::FungibleWithAuthority { authority, .. },
        ) && authority is None) ==> mint_outcome(definition_account, holding_account, amount)
            == Err::<(TokenDefinitionView, TokenHolding), ProgramError>(
            ProgramError::Approval(ApprovalError::Renounced),
        ),
        definition_account.is_authorized && (parse_definition(definition_account.account.data@) matches Some(
            TokenDefinitionView::FungibleWithAuthority { authority, .. },
        ) && authority is Some && authority != Some(definition_account.account_id))
            ==> mint_outcome(definition_account, holding_account, amount) == Err::<
            (TokenDefinitionView, TokenHolding),
            ProgramError,
        >(ProgramError::Approval(ApprovalError::Unauthorized)),
        mint_admitted(definition_account) && !is_untouched(holding_account.account) && (
        parse_holding(holding_account.account.data@) matches Some(h) && h.spec_definition_id()
            != definition_account.account_id) ==> mint_outcome(
            definition_account,
            holding_account,
            amount,
        ) == Err::<(TokenDefinitionView, TokenHolding), ProgramError>(
            ProgramError::DefinitionMismatch,
        ),
        mint_admitted(definition_account) && !is_untouched(holding_account.account) && (
        parse_holding(holding_account.account.data@) matches Some(h) && h.spec_definition_id()
            == definition_account.account_id && !(h is Fungible)) ==> mint_outcome(
            definition_account,
            holding_account,
            amount,
        ) == Err::<(TokenDefinitionView, TokenHolding), ProgramError>(
            ProgramError::NotFungibleWithAuthority,
        ),
        mint_admitted(definition_account) && !is_untouched(holding_account.account) && (
        parse_holding(holding_account.account.data@) matches Some(
            TokenHolding::Fungible { definition_id, balance },
        ) && definition_id == definition_account.account_id && balance + amount > u128::MAX)
            ==> mint_outcome(definition_account, holding_account, amount) == Err::<
            (TokenDefinitionView, TokenHolding),
            ProgramError,
        >(ProgramError::BalanceOverflow),
        mint_admitted(definition_account) && (parse_definition(definition_account.account.data@) matches Some(
            TokenDefinitionView::FungibleWithAuthority { total_supply, .. },
        ) && total_supply + amount > u128::MAX) && (is_untouched(holding_account.account) || (
        parse_holding(holding_account.account.data@) matches Some(
            TokenHolding::Fungible { definition_id, balance },
        ) && definition_id == definition_account.account_id && balance + amount <= u128::MAX))
            ==> mint_outcome(definition_account, holding_account, amount) == Err::<
            (TokenDefinitionView, TokenHolding),
            ProgramError,
        >(ProgramError::TotalSupplyOverflow),
{
}

} // verus!

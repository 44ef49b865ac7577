//! Accounts as the execution runtime hands them to a program: identifiers,
//! account state, the signer flag, and the post-states a handler returns.
use vstd::prelude::*;

verus! {

/// Number of bytes in an account identifier.
pub const ACCOUNT_ID_LEN: usize = 32;

/// A 32-byte account identifier.
#[derive(Clone, Copy, Debug)]
pub struct AccountId {
    pub value: [u8; 32],
}

impl AccountId {
    /// Wraps raw identifier bytes.
    pub fn new(value: [u8; 32]) -> (res: AccountId)
        ensures
            res.value == value,
    {
        AccountId { value }
    }

    /// The raw identifier bytes.
    pub fn into_value(self) -> (res: [u8; 32])
        ensures
            res == self.value,
    {
        self.value
    }

    /// Compares two identifiers byte by byte.
    pub fn same_as(&self, other: &AccountId) -> (res: bool)
        ensures
            res == (*self == *other),
    {
        let mut i: usize = 0;
        while i < ACCOUNT_ID_LEN
            invariant
                0 <= i <= ACCOUNT_ID_LEN,
                forall|j: int| 0 <= j < i ==> self.value@[j] == other.value@[j],
            decreases ACCOUNT_ID_LEN - i,
        {
            if self.value[i] != other.value[i] {
                proof {
                    broadcast use vstd::array::group_array_axioms;
                }
                return false;
            }
            i = i + 1;
        }
        proof {
            broadcast use vstd::array::group_array_axioms;
            assert(self.value =~= other.value);
        }
        true
    }
}

impl PartialEq for AccountId {
    fn eq(&self, other: &AccountId) -> (res: bool) {
        self.same_as(other)
    }
}

impl Eq for AccountId {}

impl vstd::std_specs::cmp::PartialEqSpecImpl for AccountId {
    open spec fn obeys_eq_spec() -> bool {
        true
    }

    open spec fn eq_spec(&self, other: &AccountId) -> bool {
        *self == *other
    }
}

/// The program identifier that an account carries before any program owns it.
pub open spec fn is_default_program_owner(owner: [u32; 8]) -> bool {
    forall|i: int| 0 <= i < 8 ==> owner[i] == 0
}

/// The state of one account.
#[derive(Clone, Debug)]
pub struct Account {
    pub program_owner: [u32; 8],
    pub balance: u128,
    pub data: Vec<u8>,
    pub nonce: u128,
}

impl Account {
    /// The account as it is before anything was written to it.
    pub open spec fn spec_is_default(&self) -> bool {
        &&& is_default_program_owner(self.program_owner)
        &&& self.balance == 0
        &&& self.data@.len() == 0
        &&& self.nonce == 0
    }

    /// `self` is `other` with its data replaced by `data` and every other
    /// field unchanged.
    pub open spec fn is_rewritten_from(self, other: Account, data: Seq<u8>) -> bool {
        &&& self.program_owner == other.program_owner
        &&& self.balance == other.balance
        &&& self.nonce == other.nonce
        &&& self.data@ == data
    }

    /// An account with every field at its default value.
    pub fn new_default() -> (res: Account)
        ensures
            res.spec_is_default(),
    {
        Account { program_owner: [0u32; 8], balance: 0, data: Vec::new(), nonce: 0 }
    }

    /// Whether every field of the account holds its default value.
    pub fn is_default(&self) -> (res: bool)
        ensures
            res == self.spec_is_default(),
    {
        has_default_program_owner(&self.program_owner) && self.balance == 0 && self.data.len() == 0
            && self.nonce == 0
    }
}

/// Whether no program owns the account yet.
pub fn has_default_program_owner(owner: &[u32; 8]) -> (res: bool)
    ensures
        res == is_default_program_owner(*owner),
{
    let mut i: usize = 0;
    while i < 8
        invariant
            0 <= i <= 8,
            forall|j: int| 0 <= j < i ==> owner[j] == 0,
        decreases 8 - i,
    {
        if owner[i] != 0 {
            return false;
        }
        i = i + 1;
    }
    true
}

impl Default for Account {
    fn default() -> (res: Account)
        ensures
            res.spec_is_default(),
    {
        Account::new_default()
    }
}

/// An account together with what the runtime knows of the transaction:
/// its identifier and whether its owner signed.
#[derive(Clone, Debug)]
pub struct AccountWithMetadata {
    pub account: Account,
    pub is_authorized: bool,
    pub account_id: AccountId,
}

/// The kind of ownership claim that a post-state may request.
#[derive(Clone, Copy, Debug, PartialEq, Eq, Structural)]
pub enum Claim {
    /// The account is claimed on the strength of its owner's signature.
    Authorized,
}

/// The new state of an account that a handler returns, with the ownership
/// claim it requests, if any.
#[derive(Clone, Debug)]
pub struct AccountPostState {
    pub account: Account,
    pub claim: Option<Claim>,
}

impl AccountPostState {
    /// A post-state that requests no claim.
    pub fn new(account: Account) -> (res: AccountPostState)
        ensures
            res.account == account,
            res.claim.is_none(),
    {
        AccountPostState { account, claim: None }
    }

    /// A post-state that requests the given claim.
    pub fn new_claimed(account: Account, claim: Claim) -> (res: AccountPostState)
        ensures
            res.account == account,
            res.claim == Some(claim),
    {
        AccountPostState { account, claim: Some(claim) }
    }

    /// A post-state that requests the claim only where no program owns the
    /// account yet.
    pub fn new_claimed_if_default(account: Account, claim: Claim) -> (res: AccountPostState)
        ensures
            res.account == account,
            res.claim == (if is_default_program_owner(account.program_owner) {
                Some(claim)
            } else {
                None
            }),
    {
        let unowned = has_default_program_owner(&account.program_owner);
        if unowned {
            AccountPostState { account, claim: Some(claim) }
        } else {
            AccountPostState { account, claim: None }
        }
    }

    /// The account of this post-state.
    pub fn account(&self) -> (res: &Account)
        ensures
            *res == self.account,
    {
        &self.account
    }
}

} // verus!

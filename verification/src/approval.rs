//! An approval gate held by at most one admin account: the admin may pass the
//! gate, hand it to a successor, or renounce it for good.
use vstd::prelude::*;

use crate::account::AccountId;

verus! {

/// Why an authority refused a signer.
#[derive(Clone, Copy, Debug, PartialEq, Eq, Structural)]
pub enum ApprovalError {
    /// The signer is not the current admin.
    Unauthorized,
    /// The authority was renounced and no one is admitted any more.
    Renounced,
}

impl ApprovalError {
    /// The text that reports this error.
    pub open spec fn spec_message(&self) -> Seq<char> {
        match self {
            ApprovalError::Unauthorized => "Unauthorized: signer is not the current authority"@,
            ApprovalError::Renounced => "Renounced: authority has been permanently revoked"@,
        }
    }

    /// The text that reports this error.
    pub fn message(&self) -> (res: &'static str)
        ensures
            res@ == self.spec_message(),
    {
        match self {
            ApprovalError::Unauthorized => "Unauthorized: signer is not the current authority",
            ApprovalError::Renounced => "Renounced: authority has been permanently revoked",
        }
    }
}

/// What a gate whose admin is `admin` (`None` once renounced) answers
/// `signer`: it passes exactly the admin, refuses everyone else as
/// unauthorized, and refuses everyone once renounced.
pub open spec fn gate_answer(admin: Option<AccountId>, signer: AccountId) -> Result<
    (),
    ApprovalError,
> {
    match admin {
        None => Err(ApprovalError::Renounced),
        Some(a) => if a == signer {
            Ok(())
        } else {
            Err(ApprovalError::Unauthorized)
        },
    }
}

/// The admin of a gate, or nobody once the authority was renounced.
#[derive(Clone, Copy, Debug)]
pub struct Authority(Option<AccountId>);

impl View for Authority {
    type V = Option<AccountId>;

    /// The current admin, `None` once renounced.
    closed spec fn view(&self) -> Option<AccountId> {
        self.0
    }
}

impl Authority {
    /// What this authority answers `signer`.
    pub open spec fn verdict(self, signer: AccountId) -> Result<(), ApprovalError> {
        gate_answer(self@, signer)
    }

    /// An active authority held by `admin`.
    pub fn new(admin: AccountId) -> (res: Authority)
        ensures
            res@ == Some(admin),
    {
        Authority(Some(admin))
    }

    /// An authority that nobody holds.
    pub fn renounced() -> (res: Authority)
        ensures
            res@ == None::<AccountId>,
    {
        Authority(None)
    }

    /// Whether the authority was renounced.
    pub fn is_renounced(&self) -> (res: bool)
        ensures
            res == (self@ is None),
    {
        self.0.is_none()
    }

    /// The current admin, if any.
    pub fn admin(&self) -> (res: Option<AccountId>)
        ensures
            res == self@,
    {
        self.0
    }

    /// Answers whether `signer` is admitted, and if not, why.
    pub fn authorize(&self, signer: AccountId) -> (res: Result<(), ApprovalError>)
        ensures
            res == self.verdict(signer),
            res is Ok <==> self@ == Some(signer),
            self@ is None ==> res == Err::<(), ApprovalError>(ApprovalError::Renounced),
            self@ is Some && self@ != Some(signer) ==> res == Err::<(), ApprovalError>(
                ApprovalError::Unauthorized,
            ),
    {
        match self.0 {
            None => Err(ApprovalError::Renounced),
            Some(admin) => if admin.same_as(&signer) {
                Ok(())
            } else {
                Err(ApprovalError::Unauthorized)
            },
        }
    }

    /// Lets the current admin through; `authorize` reports the refusals.
    pub fn gate(&self, signer: AccountId)
        requires
            self.verdict(signer) is Ok,
    {
    }

    /// The current admin hands the authority to `new_admin`.
    pub fn rotate(&mut self, signer: AccountId, new_admin: AccountId)
        requires
            old(self).verdict(signer) is Ok,
        ensures
            final(self)@ == Some(new_admin),
    {
        self.gate(signer);
        self.0 = Some(new_admin);
    }

    /// The current admin renounces the authority for good.
    pub fn revoke(&mut self, signer: AccountId)
        requires
            old(self).verdict(signer) is Ok,
        ensures
            final(self)@ == None::<AccountId>,
    {
        self.gate(signer);
        self.0 = None;
    }
}

impl PartialEq for Authority {
    fn eq(&self, other: &Authority) -> (res: bool) {
        match (self.0, other.0) {
            (None, None) => true,
            (Some(a), Some(b)) => a.same_as(&b),
            _ => false,
        }
    }
}

impl Eq for Authority {}

impl vstd::std_specs::cmp::PartialEqSpecImpl for Authority {
    open spec fn obeys_eq_spec() -> bool {
        true
    }

    open spec fn eq_spec(&self, other: &Authority) -> bool {
        self@ == other@
    }
}

/// Renouncing is permanent: a renounced authority refuses every signer as
/// renounced, so gate, rotate and revoke can never be applied to it again.
pub proof fn lemma_renounced_refuses_everyone(authority: Authority, signer: AccountId)
    requires
        authority@ is None,
    ensures
        authority.verdict(signer) == Err::<(), ApprovalError>(ApprovalError::Renounced),
{
}

/// After a rotation to `new_admin` the authority admits `new_admin` and refuses
/// everyone else as unauthorized, the previous admin included.
pub proof fn lemma_rotation_hands_over(rotated: Authority, new_admin: AccountId, signer: AccountId)
    requires
        rotated@ == Some(new_admin),
    ensures
        rotated.verdict(new_admin) is Ok,
        signer != new_admin ==> rotated.verdict(signer) == Err::<(), ApprovalError>(
            ApprovalError::Unauthorized,
        ),
{
}

} // verus!

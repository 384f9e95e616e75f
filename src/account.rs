//! The accounts an operation works on, and the creation of program-owned ones.

use vstd::prelude::*;
use crate::address::Address;
use crate::error::DocumentsError;

verus! {

/// The mathematical content of an account.
pub struct AccountModel {
    pub key: Seq<u8>,
    pub owner: Seq<u8>,
    pub lamports: u64,
    pub data: Seq<u8>,
    pub is_signer: bool,
}

/// One account handed to an operation, as the host presents it.
#[derive(Clone, Debug, PartialEq, Eq)]
pub struct AccountState {
    /// The account's address.
    pub key: Address,
    /// The program that owns the account.
    pub owner: Address,
    /// The account's balance.
    pub lamports: u64,
    /// The account's stored bytes; empty while the account does not exist.
    pub data: Vec<u8>,
    /// Whether the account signed the operation.
    pub is_signer: bool,
}

impl View for AccountState {
    type V = AccountModel;

    open spec fn view(&self) -> AccountModel {
        AccountModel {
            key: self.key@,
            owner: self.owner@,
            lamports: self.lamports,
            data: self.data@,
            is_signer: self.is_signer,
        }
    }
}

/// The contents of a list of accounts.
pub open spec fn accounts_view(accounts: Seq<AccountState>) -> Seq<AccountModel> {
    accounts.map_values(|a: AccountState| a@)
}

/// What a new program-owned account is funded with: its minimum balance,
/// and at least one lamport.
pub open spec fn funding(minimum_balance: u64) -> u64 {
    if minimum_balance < 1 {
        1
    } else {
        minimum_balance
    }
}

/// The identity of the system program: 32 zero bytes.
pub open spec fn system_program_id() -> Seq<u8> {
    Seq::new(32, |i: int| 0u8)
}

/// Relies on solana_program's `system_program::check_id`: a comparison of
/// the key with the system program's identity, `11111111111111111111111111111111`.
#[verifier::external_body]
fn check_system_program_id(key: &Address) -> (r: bool)
    ensures
        r == (key@ == system_program_id()),
{
    solana_program::system_program::check_id(&solana_program::pubkey::Pubkey::new_from_array(key.bytes))
}

/// Why creating an account at `new_account`, paid by `payer`, fails, if it
/// does: the target must hold no lamports and still belong to the system
/// program, and the payer must cover the funding.
pub open spec fn creation_failure(accounts: Seq<AccountModel>, payer: int, new_account: int, minimum_balance: u64) -> Option<DocumentsError> {
    if accounts[new_account].lamports > 0 {
        Some(DocumentsError::AccountAlreadyInUse)
    } else if accounts[new_account].owner != system_program_id() {
        Some(DocumentsError::AccountAlreadyInUse)
    } else if accounts[payer].lamports < funding(minimum_balance) {
        Some(DocumentsError::InsufficientFunds)
    } else {
        None
    }
}

/// The accounts after a successful creation: the payer has paid the
/// funding, and the new account holds exactly that, is owned by `owner`
/// and has `space` zero bytes.
pub open spec fn created(
    accounts: Seq<AccountModel>,
    payer: int,
    new_account: int,
    space: nat,
    owner: Seq<u8>,
    minimum_balance: u64,
) -> Seq<AccountModel> {
    let f = funding(minimum_balance);
    let p = accounts[payer];
    let n = accounts[new_account];
    accounts.update(payer, AccountModel { lamports: (p.lamports - f) as u64, ..p }).update(
        new_account,
        AccountModel {
            owner,
            lamports: f,
            data: Seq::new(space, |i: int| 0u8),
            ..n
        },
    )
}

/// Creates a program-owned account of `space` zero bytes at position
/// `new_account`, funded by the account at `payer`.
pub fn create_pda_account(
    accounts: &mut Vec<AccountState>,
    payer: usize,
    new_account: usize,
    space: usize,
    owner: &Address,
    minimum_balance: u64,
) -> (r: Result<(), DocumentsError>)
    requires
        payer < old(accounts)@.len(),
        new_account < old(accounts)@.len(),
        payer != new_account,
    ensures
        r == (match creation_failure(accounts_view(old(accounts)@), payer as int, new_account as int, minimum_balance) {
            Some(e) => Err(e),
            None => Ok(()),
        }),
        r is Ok ==> accounts_view(final(accounts)@) == created(
            accounts_view(old(accounts)@),
            payer as int,
            new_account as int,
            space as nat,
            owner@,
            minimum_balance,
        ),
        r is Err ==> final(accounts)@ == old(accounts)@,
{
    let f: u64 = if minimum_balance < 1 { 1 } else { minimum_balance };
    if accounts[new_account].lamports > 0 {
        return Err(DocumentsError::AccountAlreadyInUse);
    }
    if !check_system_program_id(&accounts[new_account].owner) {
        return Err(DocumentsError::AccountAlreadyInUse);
    }
    if accounts[payer].lamports < f {
        return Err(DocumentsError::InsufficientFunds);
    }
    let mut zeros: Vec<u8> = Vec::new();
    let mut i: usize = 0;
    while i < space
        invariant
            i <= space,
            zeros@ == Seq::new(i as nat, |j: int| 0u8),
        decreases space - i,
    {
        zeros.push(0u8);
        i = i + 1;
        assert(zeros@ =~= Seq::new(i as nat, |j: int| 0u8));
    }
    let ghost before = accounts_view(accounts@);
    let paid = accounts[payer].lamports - f;
    accounts[payer].lamports = paid;
    accounts[new_account].lamports = f;
    accounts[new_account].owner = *owner;
    accounts[new_account].data = zeros;
    assert(accounts_view(accounts@) =~= created(before, payer as int, new_account as int, space as nat, owner@, minimum_balance));
    Ok(())
}

} // verus!

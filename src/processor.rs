//! Validation and execution of the two operations.

use vstd::prelude::*;
use crate::account::{AccountModel, AccountState, accounts_view, create_pda_account, created, creation_failure};
use crate::address::{Address, program_address};
use crate::error::DocumentsError;
use crate::instruction::{DocumentsInstruction, OperationModel, decode_instruction};
use crate::state::{
    Document, DocumentModel, Receiver, decode_receiver, document_seeds, document_size, encode_document,
    encode_receiver, receiver_seeds,
};

verus! {

/// The identity of the rent sysvar, `SysvarRent111111111111111111111111111111111`.
pub open spec fn rent_sysvar_id() -> Seq<u8> {
    seq![
        6u8, 167, 213, 23, 25, 44, 92, 81, 33, 140, 201, 76, 61, 74, 241, 127,
        88, 218, 238, 8, 155, 161, 253, 68, 227, 219, 217, 138, 0, 0, 0, 0,
    ]
}

/// The identity of the clock sysvar, `SysvarC1ock11111111111111111111111111111111`.
pub open spec fn clock_sysvar_id() -> Seq<u8> {
    seq![
        6u8, 167, 213, 23, 24, 199, 116, 201, 40, 86, 99, 152, 105, 29, 94, 182,
        139, 94, 184, 163, 155, 75, 109, 92, 115, 85, 91, 33, 0, 0, 0, 0,
    ]
}

/// Relies on solana_program's `sysvar::rent::check_id`: a comparison of the
/// key with the rent sysvar's fixed identity.
#[verifier::external_body]
fn check_rent_id(key: &Address) -> (r: bool)
    ensures
        r == (key@ == rent_sysvar_id()),
{
    solana_program::sysvar::rent::check_id(&solana_program::pubkey::Pubkey::new_from_array(key.bytes))
}

/// Relies on solana_program's `sysvar::clock::check_id`: a comparison of the
/// key with the clock sysvar's fixed identity.
#[verifier::external_body]
fn check_clock_id(key: &Address) -> (r: bool)
    ensures
        r == (key@ == clock_sysvar_id()),
{
    solana_program::sysvar::clock::check_id(&solana_program::pubkey::Pubkey::new_from_array(key.bytes))
}

/// Facts the host supplies to an operation.
#[derive(Clone, Copy, Debug, PartialEq, Eq, Structural)]
pub struct HostFacts {
    /// Current time, from the clock sysvar.
    pub unix_timestamp: i64,
    /// Minimum balance of an account the size of an index record.
    pub receiver_minimum_balance: u64,
    /// Minimum balance of an account the size of the document being sent.
    pub document_minimum_balance: u64,
}

/// Why creating the index record fails, if it does. The checks come in
/// this order: account count, address, state, authorization, funding,
/// system facts.
pub open spec fn create_receiver_failure(program: Seq<u8>, accs: Seq<AccountModel>, facts: HostFacts) -> Option<DocumentsError> {
    if accs.len() < 5 {
        Some(DocumentsError::NotEnoughAccountKeys)
    } else {
        match program_address(receiver_seeds(accs[2].key), program) {
            None => Some(DocumentsError::DerivationExhausted),
            Some(found) => if found.0 != accs[1].key {
                Some(DocumentsError::AddressDerivationMismatch)
            } else if accs[1].data.len() > 0 {
                Some(DocumentsError::AlreadyInitialized)
            } else if !accs[0].is_signer {
                Some(DocumentsError::MissingAuthorization)
            } else if accs[3].key != rent_sysvar_id() {
                Some(DocumentsError::InvalidSystemFact)
            } else {
                creation_failure(accs, 0, 1, facts.receiver_minimum_balance)
            },
        }
    }
}

/// The accounts after the index record is created: funded, owned by the
/// program, and holding a zero counter.
pub open spec fn receiver_created(program: Seq<u8>, accs: Seq<AccountModel>, facts: HostFacts) -> Seq<AccountModel> {
    created(accs, 0, 1, 4, program, facts.receiver_minimum_balance)
}

/// Creates the index record of the recipient whose wallet is the third
/// account.
pub fn create_receiver_account(program_id: &Address, accounts: &mut Vec<AccountState>, facts: &HostFacts) -> (r: Result<(), DocumentsError>)
    ensures
        r == (match create_receiver_failure(program_id@, accounts_view(old(accounts)@), *facts) {
            Some(e) => Err(e),
            None => Ok(()),
        }),
        r is Ok ==> accounts_view(final(accounts)@) == receiver_created(program_id@, accounts_view(old(accounts)@), *facts),
        r is Ok ==> decode_receiver(accounts_view(final(accounts)@)[1].data) == Some(0u32),
        r is Err ==> final(accounts)@ == old(accounts)@,
{
    let ghost accs = accounts_view(accounts@);
    if accounts.len() < 5 {
        return Err(DocumentsError::NotEnoughAccountKeys);
    }
    assert(accs[1] == accounts@[1]@ && accs[2] == accounts@[2]@ && accs[0] == accounts@[0]@ && accs[3] == accounts@[3]@);
    let expected = Receiver::find_pda_address(&accounts[2].key, program_id)?;
    if !expected.same_as(&accounts[1].key) {
        return Err(DocumentsError::AddressDerivationMismatch);
    }
    if accounts[1].data.len() > 0 {
        return Err(DocumentsError::AlreadyInitialized);
    }
    if !accounts[0].is_signer {
        return Err(DocumentsError::MissingAuthorization);
    }
    if !check_rent_id(&accounts[3].key) {
        return Err(DocumentsError::InvalidSystemFact);
    }
    let size = Receiver::retrieve_size();
    create_pda_account(accounts, 0, 1, size, program_id, facts.receiver_minimum_balance)?;
    proof {
        let after = accounts_view(accounts@);
        crate::bytes::lemma_u32_le_zero();
        assert(after[1].data == encode_receiver(0));
        crate::state::receiver_round_trip(0);
    }
    Ok(())
}

} // verus!

verus! {

/// Why sending a document fails, if it does. The checks come in this
/// order: account count, index address, index state, document state,
/// authorization, index owner, index contents, document address,
/// reclamation exemption, system facts, integer ranges, funding.
#[verifier::opaque]
pub open spec fn send_document_failure(
    program: Seq<u8>,
    accs: Seq<AccountModel>,
    data: Seq<u8>,
    facts: HostFacts,
) -> Option<DocumentsError> {
    if accs.len() < 7 {
        Some(DocumentsError::NotEnoughAccountKeys)
    } else {
        match program_address(receiver_seeds(accs[3].key), program) {
            None => Some(DocumentsError::DerivationExhausted),
            Some(found) => if found.0 != accs[1].key {
                Some(DocumentsError::AddressDerivationMismatch)
            } else if accs[1].data.len() == 0 {
                Some(DocumentsError::NotInitialized)
            } else if accs[2].data.len() > 0 {
                Some(DocumentsError::AlreadyInitialized)
            } else if !accs[0].is_signer {
                Some(DocumentsError::MissingAuthorization)
            } else if accs[1].owner != program {
                Some(DocumentsError::WrongOwner)
            } else {
                match decode_receiver(accs[1].data) {
                    None => Some(DocumentsError::DecodeError),
                    Some(n) => match program_address(document_seeds(n, accs[3].key), program) {
                        None => Some(DocumentsError::DerivationExhausted),
                        Some(doc) => if doc.0 != accs[2].key {
                            Some(DocumentsError::AddressDerivationMismatch)
                        } else if accs[1].lamports < facts.receiver_minimum_balance {
                            Some(DocumentsError::NotExemptFromReclamation)
                        } else if accs[4].key != rent_sysvar_id() || accs[5].key != clock_sysvar_id() {
                            Some(DocumentsError::InvalidSystemFact)
                        } else if n == u32::MAX || document_size(data.len()) > usize::MAX {
                            Some(DocumentsError::ArithmeticOverflow)
                        } else {
                            creation_failure(accs, 0, 2, facts.document_minimum_balance)
                        },
                    },
                }
            },
        }
    }
}

/// The document that a successful send stores.
pub open spec fn sent_document(accs: Seq<AccountModel>, data: Seq<u8>, facts: HostFacts) -> DocumentModel {
    DocumentModel { sender: accs[0].key, data, sent_at: facts.unix_timestamp, opened_at: 0 }
}

/// The accounts after a successful send: the document account is created
/// and holds the document, then the index counter is one higher.
#[verifier::opaque]
pub open spec fn document_sent(program: Seq<u8>, accs: Seq<AccountModel>, data: Seq<u8>, facts: HostFacts) -> Seq<AccountModel> {
    let n = decode_receiver(accs[1].data)->Some_0;
    let c = created(accs, 0, 2, document_size(data.len()), program, facts.document_minimum_balance);
    c.update(2, AccountModel { data: encode_document(sent_document(accs, data, facts)), ..c[2] }).update(
        1,
        AccountModel { data: encode_receiver((n + 1) as u32), ..c[1] },
    )
}

/// Appends a document to the records of the recipient whose wallet is the
/// fourth account, at the index the recipient's counter holds.
pub fn send_document(program_id: &Address, accounts: &mut Vec<AccountState>, data: Vec<u8>, facts: &HostFacts) -> (r: Result<(), DocumentsError>)
    requires
        data@.len() <= u32::MAX,
    ensures
        r == (match send_document_failure(program_id@, accounts_view(old(accounts)@), data@, *facts) {
            Some(e) => Err(e),
            None => Ok(()),
        }),
        r is Ok ==> accounts_view(final(accounts)@) == document_sent(program_id@, accounts_view(old(accounts)@), data@, *facts),
        r is Err ==> final(accounts)@ == old(accounts)@,
{
    proof {
        reveal(send_document_failure);
        reveal(document_sent);
    }
    let ghost accs = accounts_view(accounts@);
    if accounts.len() < 7 {
        return Err(DocumentsError::NotEnoughAccountKeys);
    }
    assert(forall|i: int| 0 <= i < 7 ==> accs[i] == accounts@[i]@);
    let receiver_address = Receiver::find_pda_address(&accounts[3].key, program_id)?;
    if !receiver_address.same_as(&accounts[1].key) {
        return Err(DocumentsError::AddressDerivationMismatch);
    }
    if accounts[1].data.len() == 0 {
        return Err(DocumentsError::NotInitialized);
    }
    if accounts[2].data.len() > 0 {
        return Err(DocumentsError::AlreadyInitialized);
    }
    if !accounts[0].is_signer {
        return Err(DocumentsError::MissingAuthorization);
    }
    if !accounts[1].owner.same_as(program_id) {
        return Err(DocumentsError::WrongOwner);
    }
    let receiver = Receiver::unpack(accounts[1].data.as_slice())?;
    let counter = receiver.documents_counter;
    let document_address = Document::find_pda_address(counter, &accounts[3].key, program_id)?;
    if !document_address.same_as(&accounts[2].key) {
        return Err(DocumentsError::AddressDerivationMismatch);
    }
    if accounts[1].lamports < facts.receiver_minimum_balance {
        return Err(DocumentsError::NotExemptFromReclamation);
    }
    if !check_rent_id(&accounts[4].key) {
        return Err(DocumentsError::InvalidSystemFact);
    }
    if !check_clock_id(&accounts[5].key) {
        return Err(DocumentsError::InvalidSystemFact);
    }
    if counter == u32::MAX || data.len() > usize::MAX - 52 {
        return Err(DocumentsError::ArithmeticOverflow);
    }
    let size = Document::retrieve_size(data.len());
    create_pda_account(accounts, 0, 2, size, program_id, facts.document_minimum_balance)?;
    assert(accounts_view(accounts@).len() == accounts@.len());
    assert(accounts_view(accounts@)[0] == accounts@[0]@);
    let document = Document { sender: accounts[0].key, data, sent_at: facts.unix_timestamp, opened_at: 0 };
    assert(document@ == sent_document(accs, data@, *facts));
    accounts[2].data = document.pack();
    let next = Receiver { documents_counter: counter + 1 };
    accounts[1].data = next.pack();
    assert(accounts_view(accounts@) =~= document_sent(program_id@, accs, data@, *facts));
    Ok(())
}

/// Decodes an operation and carries it out.
pub fn process_instruction(
    program_id: &Address,
    accounts: &mut Vec<AccountState>,
    instruction_data: &[u8],
    facts: &HostFacts,
) -> (r: Result<(), DocumentsError>)
    ensures
        match decode_instruction(instruction_data@) {
            None => r == Err::<(), DocumentsError>(DocumentsError::DecodeError) && final(accounts)@ == old(accounts)@,
            Some(OperationModel::CreateReceiverAccount) => {
                &&& r == (match create_receiver_failure(program_id@, accounts_view(old(accounts)@), *facts) {
                    Some(e) => Err(e),
                    None => Ok(()),
                })
                &&& r is Ok ==> accounts_view(final(accounts)@) == receiver_created(program_id@, accounts_view(old(accounts)@), *facts)
                &&& r is Err ==> final(accounts)@ == old(accounts)@
            },
            Some(OperationModel::SendDocument(data)) => {
                &&& r == (match send_document_failure(program_id@, accounts_view(old(accounts)@), data, *facts) {
                    Some(e) => Err(e),
                    None => Ok(()),
                })
                &&& r is Ok ==> accounts_view(final(accounts)@) == document_sent(program_id@, accounts_view(old(accounts)@), data, *facts)
                &&& r is Err ==> final(accounts)@ == old(accounts)@
            },
        },
{
    let instruction = DocumentsInstruction::unpack(instruction_data)?;
    match instruction {
        DocumentsInstruction::CreateReceiverAccount => create_receiver_account(program_id, accounts, facts),
        DocumentsInstruction::SendDocument { data } => send_document(program_id, accounts, data, facts),
    }
}

} // verus!

verus! {

/// Creating the index record twice fails the second time with
/// `AlreadyInitialized`, whatever facts the second attempt brings.
pub proof fn create_twice_rejected(program: Seq<u8>, accs: Seq<AccountModel>, facts: HostFacts, later_facts: HostFacts)
    requires
        create_receiver_failure(program, accs, facts) is None,
    ensures
        create_receiver_failure(program, receiver_created(program, accs, facts), later_facts)
            == Some(DocumentsError::AlreadyInitialized),
{
    let after = receiver_created(program, accs, facts);
    assert(after[1].data.len() == 4);
}

/// A successful send stores the document at the address derived from the
/// counter `n` that the index held, and leaves the counter at `n + 1`.
pub proof fn send_advances_counter(program: Seq<u8>, accs: Seq<AccountModel>, data: Seq<u8>, facts: HostFacts)
    requires
        send_document_failure(program, accs, data, facts) is None,
    ensures
        ({
            let after = document_sent(program, accs, data, facts);
            &&& decode_receiver(accs[1].data) matches Some(n)
            &&& n < u32::MAX
            &&& decode_receiver(after[1].data) == Some((n + 1) as u32)
            &&& program_address(document_seeds(n, accs[3].key), program) matches Some(doc) && doc.0 == accs[2].key
            &&& after[2].key == accs[2].key
            &&& after[2].owner == program
            &&& after[2].data == encode_document(sent_document(accs, data, facts))
        }),
{
    reveal(send_document_failure);
    reveal(document_sent);
    let after = document_sent(program, accs, data, facts);
    let n = decode_receiver(accs[1].data)->Some_0;
    crate::state::receiver_round_trip((n + 1) as u32);
    assert(after[1].data.len() == 4);
}

/// Sending again over a document account that already holds a document
/// fails with `AlreadyInitialized`: an assigned index is never reused.
pub proof fn send_twice_rejected(
    program: Seq<u8>,
    accs: Seq<AccountModel>,
    data: Seq<u8>,
    facts: HostFacts,
    later_data: Seq<u8>,
    later_facts: HostFacts,
)
    requires
        send_document_failure(program, accs, data, facts) is None,
    ensures
        send_document_failure(program, document_sent(program, accs, data, facts), later_data, later_facts)
            == Some(DocumentsError::AlreadyInitialized),
{
    reveal(send_document_failure);
    reveal(document_sent);
    let after = document_sent(program, accs, data, facts);
    assert(after[1].data.len() == 4);
    assert(after[2].data.len() > 0);
}

/// Sending to a recipient whose index record does not exist fails with
/// `NotInitialized`, whatever the signature, balances and system facts.
pub proof fn send_without_index_rejected(program: Seq<u8>, accs: Seq<AccountModel>, data: Seq<u8>, facts: HostFacts)
    requires
        accs.len() >= 7,
        program_address(receiver_seeds(accs[3].key), program) matches Some(found) && found.0 == accs[1].key,
        accs[1].data.len() == 0,
    ensures
        send_document_failure(program, accs, data, facts) == Some(DocumentsError::NotInitialized),
{
    reveal(send_document_failure);
    reveal(document_sent);
}

} // verus!

verus! {

/// Sending over a document account that already holds bytes fails with
/// `AlreadyInitialized`, once the index account is the recipient's and
/// exists, whatever the payload, signature, balances and system facts.
pub proof fn send_over_existing_document_rejected(program: Seq<u8>, accs: Seq<AccountModel>, data: Seq<u8>, facts: HostFacts)
    requires
        accs.len() >= 7,
        program_address(receiver_seeds(accs[3].key), program) matches Some(found) && found.0 == accs[1].key,
        accs[1].data.len() > 0,
        accs[2].data.len() > 0,
    ensures
        send_document_failure(program, accs, data, facts) == Some(DocumentsError::AlreadyInitialized),
{
    reveal(send_document_failure);
    reveal(document_sent);
}

/// Whether `calls` are successive successful sends to one recipient, each
/// seeing the index record as the previous send left it, starting from a
/// fresh index whose counter is zero.
pub open spec fn successive_sends(
    program: Seq<u8>,
    calls: Seq<Seq<AccountModel>>,
    data: Seq<Seq<u8>>,
    facts: Seq<HostFacts>,
) -> bool {
    &&& data.len() == calls.len()
    &&& facts.len() == calls.len()
    &&& calls.len() > 0 ==> decode_receiver(calls[0][1].data) == Some(0u32)
    &&& forall|j: int| 0 <= j < calls.len() ==> send_document_failure(program, #[trigger] calls[j], data[j], facts[j]) is None
    &&& forall|j: int| 0 <= j < calls.len() ==> (#[trigger] calls[j])[3].key == calls[0][3].key
    &&& forall|j: int|
        0 < j < calls.len() ==> (#[trigger] calls[j])[1].data == document_sent(program, calls[j - 1], data[j - 1], facts[j - 1])[1].data
}

proof fn lemma_send_success_shape(program: Seq<u8>, accs: Seq<AccountModel>, data: Seq<u8>, facts: HostFacts)
    requires
        send_document_failure(program, accs, data, facts) is None,
    ensures
        accs.len() >= 7,
        accs[2].data.len() == 0,
        document_sent(program, accs, data, facts)[2].data.len() > 0,
{
    reveal(send_document_failure);
    reveal(document_sent);
    let after = document_sent(program, accs, data, facts);
    assert(after[2].data.len() > 0);
}

proof fn lemma_counter_at(program: Seq<u8>, calls: Seq<Seq<AccountModel>>, data: Seq<Seq<u8>>, facts: Seq<HostFacts>, j: int)
    requires
        successive_sends(program, calls, data, facts),
        0 <= j < calls.len(),
    ensures
        j <= u32::MAX,
        decode_receiver(calls[j][1].data) == Some(j as u32),
    decreases j,
{
    if j > 0 {
        lemma_counter_at(program, calls, data, facts, j - 1);
        let prev = calls[j - 1];
        assert(send_document_failure(program, prev, data[j - 1], facts[j - 1]) is None);
        send_advances_counter(program, prev, data[j - 1], facts[j - 1]);
        let n = decode_receiver(prev[1].data)->Some_0;
        assert(n == (j - 1) as u32);
        assert(n < u32::MAX);
        assert(calls[j][1].data == document_sent(program, prev, data[j - 1], facts[j - 1])[1].data);
        assert(decode_receiver(calls[j][1].data) == Some((n + 1) as u32));
    }
}

/// Over successive sends to a fresh recipient, the j-th send finds the
/// counter at j, leaves it at j + 1, and stores its document at the address
/// derived from index j: the counter runs 0, 1, 2, ... with no gap and no
/// repeat.
pub proof fn counter_runs_without_gaps(program: Seq<u8>, calls: Seq<Seq<AccountModel>>, data: Seq<Seq<u8>>, facts: Seq<HostFacts>)
    requires
        successive_sends(program, calls, data, facts),
    ensures
        forall|j: int| 0 <= j < calls.len() ==> {
            &&& decode_receiver((#[trigger] calls[j])[1].data) == Some(j as u32)
            &&& decode_receiver(document_sent(program, calls[j], data[j], facts[j])[1].data) == Some((j + 1) as u32)
            &&& program_address(document_seeds(j as u32, calls[0][3].key), program) matches Some(doc)
                && doc.0 == calls[j][2].key
        },
{
    assert forall|j: int| 0 <= j < calls.len() implies {
        &&& decode_receiver((#[trigger] calls[j])[1].data) == Some(j as u32)
        &&& decode_receiver(document_sent(program, calls[j], data[j], facts[j])[1].data) == Some((j + 1) as u32)
        &&& program_address(document_seeds(j as u32, calls[0][3].key), program) matches Some(doc)
            && doc.0 == calls[j][2].key
    } by {
        lemma_counter_at(program, calls, data, facts, j);
        assert(send_document_failure(program, calls[j], data[j], facts[j]) is None);
        send_advances_counter(program, calls[j], data[j], facts[j]);
        assert(calls[j][3].key == calls[0][3].key);
    }
}

/// Over successive sends to a fresh recipient, on a host that keeps the
/// bytes stored at each address, no two sends use the same document
/// account.
pub proof fn document_accounts_never_reused(
    program: Seq<u8>,
    calls: Seq<Seq<AccountModel>>,
    data: Seq<Seq<u8>>,
    facts: Seq<HostFacts>,
)
    requires
        successive_sends(program, calls, data, facts),
        forall|i: int, j: int|
            0 <= i < j < calls.len() && (#[trigger] calls[j])[2].key == (#[trigger] calls[i])[2].key
                ==> calls[j][2].data == document_sent(program, calls[i], data[i], facts[i])[2].data,
    ensures
        forall|i: int, j: int| 0 <= i < j < calls.len() ==> (#[trigger] calls[i])[2].key != (#[trigger] calls[j])[2].key,
{
    assert forall|i: int, j: int| 0 <= i < j < calls.len() implies (#[trigger] calls[i])[2].key != (#[trigger] calls[j])[2].key by {
        assert(send_document_failure(program, calls[i], data[i], facts[i]) is None);
        assert(send_document_failure(program, calls[j], data[j], facts[j]) is None);
        lemma_send_success_shape(program, calls[i], data[i], facts[i]);
        lemma_send_success_shape(program, calls[j], data[j], facts[j]);
    }
}

} // verus!

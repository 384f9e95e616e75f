use documents::account::{create_pda_account, AccountState};
use documents::address::Address;
use documents::error::DocumentsError;
use documents::instruction::DocumentsInstruction;
use documents::processor::{process_instruction, HostFacts};
use documents::state::{Document, Receiver};
use solana_program::sysvar::rent::Rent;

const NOW: i64 = 1_700_000_000;

fn program() -> Address {
    Address::new([9u8; 32])
}

fn payer() -> Address {
    Address::new([1u8; 32])
}

fn rent_id() -> Address {
    Address::new(solana_program::sysvar::rent::ID.to_bytes())
}

fn clock_id() -> Address {
    Address::new(solana_program::sysvar::clock::ID.to_bytes())
}

fn system_id() -> Address {
    Address::new([0u8; 32])
}

/// An in-memory account table standing in for the host.
struct Ledger {
    accounts: Vec<AccountState>,
    signer: Address,
}

impl Ledger {
    fn new() -> Ledger {
        let funder = AccountState {
            key: payer(),
            owner: system_id(),
            lamports: 1_000_000_000_000,
            data: Vec::new(),
            is_signer: false,
        };
        Ledger { accounts: vec![funder], signer: payer() }
    }

    fn get(&self, key: &Address) -> AccountState {
        match self.accounts.iter().find(|a| a.key == *key) {
            Some(a) => {
                let mut a = a.clone();
                a.is_signer = *key == self.signer;
                a
            }
            None => AccountState {
                key: *key,
                owner: system_id(),
                lamports: 0,
                data: Vec::new(),
                is_signer: *key == self.signer,
            },
        }
    }

    fn run(&mut self, keys: &[Address], data: &[u8], facts: &HostFacts) -> Result<(), DocumentsError> {
        let mut accounts: Vec<AccountState> = keys.iter().map(|k| self.get(k)).collect();
        let r = process_instruction(&program(), &mut accounts, data, facts);
        for a in accounts {
            match self.accounts.iter_mut().find(|b| b.key == a.key) {
                Some(b) => *b = a,
                None => self.accounts.push(a),
            }
        }
        r
    }

    fn create_receiver(&mut self, wallet: &Address) -> Result<(), DocumentsError> {
        let pda = Receiver::find_pda_address(wallet, &program()).unwrap();
        let data = DocumentsInstruction::CreateReceiverAccount.pack();
        self.run(&[payer(), pda, *wallet, rent_id(), system_id()], &data, &facts(0))
    }

    fn send(&mut self, wallet: &Address, index: u32, payload: &[u8]) -> Result<(), DocumentsError> {
        let pda = Receiver::find_pda_address(wallet, &program()).unwrap();
        let doc = Document::find_pda_address(index, wallet, &program()).unwrap();
        let data = DocumentsInstruction::SendDocument { data: payload.to_vec() }.pack();
        self.run(
            &[payer(), pda, doc, *wallet, rent_id(), clock_id(), system_id()],
            &data,
            &facts(payload.len()),
        )
    }

    fn counter(&self, wallet: &Address) -> u32 {
        let pda = Receiver::find_pda_address(wallet, &program()).unwrap();
        Receiver::unpack(&self.get(&pda).data).unwrap().documents_counter
    }

    fn document(&self, wallet: &Address, index: u32) -> Document {
        let doc = Document::find_pda_address(index, wallet, &program()).unwrap();
        Document::unpack(&self.get(&doc).data).unwrap()
    }
}

fn facts(payload_len: usize) -> HostFacts {
    let rent = Rent::default();
    HostFacts {
        unix_timestamp: NOW,
        receiver_minimum_balance: rent.minimum_balance(Receiver::retrieve_size()),
        document_minimum_balance: rent.minimum_balance(Document::retrieve_size(payload_len)),
    }
}

fn get_documents_dummy_data() -> Vec<Vec<u8>> {
    vec![
        String::from("0x18747470733a2f2f656d6e3137382e6769746875622e696f2f6f6e6c696e652d746f6f6c732f7368613235362e68746d6ce2c1fcbd5b4befacb2ebdc5a7b6e6da86ad5b2a1ebb50371a546d197467165c9")
            .into_bytes(),
        String::from("0x28747470733a2f2f656d6e3137382e6769746875622e696f2f6f6e6c696e652d746f6f6c732f7368613235362e68746d6ce2c1fcbd5b4befacb2ebdc5a7b6e6da86ad5b2a1ebb50371a546d19746")
            .into_bytes(),
    ]
}

#[test]
fn test_create_receiver_account() {
    let wallet = Address::new([42u8; 32]);
    let pda = Receiver::find_pda_address(&wallet, &program()).unwrap();
    let mut ledger = Ledger::new();
    assert!(ledger.get(&pda).data.is_empty());

    ledger.create_receiver(&wallet).unwrap();

    let account = ledger.get(&pda);
    assert_eq!(account.data.len(), Receiver::retrieve_size());
    assert_eq!(Receiver::unpack(&account.data).unwrap().documents_counter, 0);
    assert_eq!(account.owner, program());
    assert!(Rent::default().is_exempt(account.lamports, account.data.len()));
}

#[test]
fn test_send_document() {
    let wallet = Address::new([42u8; 32]);
    let mut ledger = Ledger::new();
    ledger.create_receiver(&wallet).unwrap();

    let documents_data = get_documents_dummy_data();
    for (i, document_data) in documents_data.iter().enumerate() {
        ledger.send(&wallet, i as u32, document_data).unwrap();
    }

    for (i, document_data) in documents_data.iter().enumerate() {
        let doc_key = Document::find_pda_address(i as u32, &wallet, &program()).unwrap();
        let account = ledger.get(&doc_key);
        let document = Document::unpack(&account.data).unwrap();
        assert_eq!(document.sender, payer());
        assert_eq!(document.data, document_data.clone());
        assert_ne!(document.sent_at, 0);
        assert_eq!(document.opened_at, 0);
        assert!(Rent::default().is_exempt(account.lamports, account.data.len()));
    }

    assert_eq!(ledger.counter(&wallet), 2);
}

#[test]
fn end_to_end_two_recipients() {
    let a = Address::new([42u8; 32]);
    let b = Address::new([43u8; 32]);
    let mut ledger = Ledger::new();
    ledger.create_receiver(&a).unwrap();
    assert_eq!(ledger.counter(&a), 0);

    ledger.send(&a, 0, b"hello").unwrap();
    let first = ledger.document(&a, 0);
    assert_eq!(first.sender, payer());
    assert_eq!(first.data, b"hello".to_vec());
    assert_eq!(first.sent_at, NOW);
    assert_eq!(first.opened_at, 0);
    assert_eq!(ledger.counter(&a), 1);

    ledger.send(&a, 1, b"world").unwrap();
    assert_eq!(ledger.document(&a, 1).data, b"world".to_vec());
    assert_eq!(ledger.counter(&a), 2);

    assert_eq!(ledger.send(&b, 0, b"early"), Err(DocumentsError::NotInitialized));
}

#[test]
fn counter_advances_without_gaps() {
    let wallet = Address::new([5u8; 32]);
    let mut ledger = Ledger::new();
    ledger.create_receiver(&wallet).unwrap();
    let mut seen: Vec<Address> = Vec::new();
    for i in 0..5u32 {
        assert_eq!(ledger.counter(&wallet), i);
        ledger.send(&wallet, i, &[i as u8]).unwrap();
        let key = Document::find_pda_address(i, &wallet, &program()).unwrap();
        assert!(!seen.contains(&key));
        seen.push(key);
    }
    assert_eq!(ledger.counter(&wallet), 5);
}

#[test]
fn second_create_is_rejected() {
    let wallet = Address::new([6u8; 32]);
    let mut ledger = Ledger::new();
    ledger.create_receiver(&wallet).unwrap();
    assert_eq!(ledger.create_receiver(&wallet), Err(DocumentsError::AlreadyInitialized));
    assert_eq!(ledger.counter(&wallet), 0);
}

#[test]
fn reused_document_address_is_rejected() {
    let wallet = Address::new([7u8; 32]);
    let mut ledger = Ledger::new();
    ledger.create_receiver(&wallet).unwrap();
    ledger.send(&wallet, 0, b"one").unwrap();
    assert_eq!(ledger.send(&wallet, 0, b"two"), Err(DocumentsError::AlreadyInitialized));
    assert_eq!(ledger.counter(&wallet), 1);
    assert_eq!(ledger.document(&wallet, 0).data, b"one".to_vec());
}

#[test]
fn stale_index_is_an_address_mismatch() {
    let wallet = Address::new([8u8; 32]);
    let mut ledger = Ledger::new();
    ledger.create_receiver(&wallet).unwrap();
    assert_eq!(ledger.send(&wallet, 3, b"skip"), Err(DocumentsError::AddressDerivationMismatch));
    assert_eq!(ledger.counter(&wallet), 0);
}

#[test]
fn missing_index_beats_missing_signature_and_rent() {
    let wallet = Address::new([10u8; 32]);
    let pda = Receiver::find_pda_address(&wallet, &program()).unwrap();
    let doc = Document::find_pda_address(0, &wallet, &program()).unwrap();
    let mut accounts: Vec<AccountState> = [payer(), pda, doc, wallet, system_id(), system_id(), system_id()]
        .iter()
        .map(|k| AccountState { key: *k, owner: system_id(), lamports: 0, data: Vec::new(), is_signer: false })
        .collect();
    let data = DocumentsInstruction::SendDocument { data: b"x".to_vec() }.pack();
    let before = accounts.clone();
    let r = process_instruction(&program(), &mut accounts, &data, &facts(1));
    assert_eq!(r, Err(DocumentsError::NotInitialized));
    assert_eq!(accounts, before);
}

#[test]
fn wrong_receiver_address_is_rejected() {
    let wallet = Address::new([11u8; 32]);
    let mut ledger = Ledger::new();
    let data = DocumentsInstruction::CreateReceiverAccount.pack();
    let wrong = Address::new([12u8; 32]);
    let r = ledger.run(&[payer(), wrong, wallet, rent_id(), system_id()], &data, &facts(0));
    assert_eq!(r, Err(DocumentsError::AddressDerivationMismatch));
}

#[test]
fn unsigned_create_is_rejected() {
    let wallet = Address::new([13u8; 32]);
    let mut ledger = Ledger::new();
    ledger.signer = Address::new([99u8; 32]);
    assert_eq!(ledger.create_receiver(&wallet), Err(DocumentsError::MissingAuthorization));
}

#[test]
fn unsigned_send_is_rejected() {
    let wallet = Address::new([14u8; 32]);
    let mut ledger = Ledger::new();
    ledger.create_receiver(&wallet).unwrap();
    ledger.signer = Address::new([99u8; 32]);
    assert_eq!(ledger.send(&wallet, 0, b"x"), Err(DocumentsError::MissingAuthorization));
}

#[test]
fn foreign_owned_index_is_rejected() {
    let wallet = Address::new([15u8; 32]);
    let mut ledger = Ledger::new();
    ledger.create_receiver(&wallet).unwrap();
    let pda = Receiver::find_pda_address(&wallet, &program()).unwrap();
    for a in ledger.accounts.iter_mut() {
        if a.key == pda {
            a.owner = Address::new([77u8; 32]);
        }
    }
    assert_eq!(ledger.send(&wallet, 0, b"x"), Err(DocumentsError::WrongOwner));
}

#[test]
fn underfunded_index_is_rejected() {
    let wallet = Address::new([16u8; 32]);
    let mut ledger = Ledger::new();
    ledger.create_receiver(&wallet).unwrap();
    let pda = Receiver::find_pda_address(&wallet, &program()).unwrap();
    for a in ledger.accounts.iter_mut() {
        if a.key == pda {
            a.lamports = 1;
        }
    }
    assert_eq!(ledger.send(&wallet, 0, b"x"), Err(DocumentsError::NotExemptFromReclamation));
}

#[test]
fn wrong_sysvars_are_rejected() {
    let wallet = Address::new([17u8; 32]);
    let mut ledger = Ledger::new();
    let create = DocumentsInstruction::CreateReceiverAccount.pack();
    let pda = Receiver::find_pda_address(&wallet, &program()).unwrap();
    let r = ledger.run(&[payer(), pda, wallet, clock_id(), system_id()], &create, &facts(0));
    assert_eq!(r, Err(DocumentsError::InvalidSystemFact));

    ledger.create_receiver(&wallet).unwrap();
    let doc = Document::find_pda_address(0, &wallet, &program()).unwrap();
    let send = DocumentsInstruction::SendDocument { data: b"x".to_vec() }.pack();
    let r = ledger.run(&[payer(), pda, doc, wallet, rent_id(), rent_id(), system_id()], &send, &facts(1));
    assert_eq!(r, Err(DocumentsError::InvalidSystemFact));
    assert_eq!(ledger.counter(&wallet), 0);
}

#[test]
fn too_few_accounts_are_rejected() {
    let mut ledger = Ledger::new();
    let data = DocumentsInstruction::CreateReceiverAccount.pack();
    assert_eq!(ledger.run(&[payer()], &data, &facts(0)), Err(DocumentsError::NotEnoughAccountKeys));
}

#[test]
fn poor_funder_is_rejected() {
    let wallet = Address::new([18u8; 32]);
    let mut ledger = Ledger::new();
    ledger.accounts[0].lamports = 10;
    assert_eq!(ledger.create_receiver(&wallet), Err(DocumentsError::InsufficientFunds));
}

#[test]
fn full_counter_is_rejected() {
    let wallet = Address::new([19u8; 32]);
    let mut ledger = Ledger::new();
    ledger.create_receiver(&wallet).unwrap();
    let pda = Receiver::find_pda_address(&wallet, &program()).unwrap();
    for a in ledger.accounts.iter_mut() {
        if a.key == pda {
            a.data = Receiver { documents_counter: u32::MAX }.pack();
        }
    }
    assert_eq!(ledger.send(&wallet, u32::MAX, b"x"), Err(DocumentsError::ArithmeticOverflow));
}

#[test]
fn malformed_index_bytes_are_rejected() {
    let wallet = Address::new([20u8; 32]);
    let mut ledger = Ledger::new();
    ledger.create_receiver(&wallet).unwrap();
    let pda = Receiver::find_pda_address(&wallet, &program()).unwrap();
    for a in ledger.accounts.iter_mut() {
        if a.key == pda {
            a.data = vec![0u8; 3];
        }
    }
    assert_eq!(ledger.send(&wallet, 0, b"x"), Err(DocumentsError::DecodeError));
}

#[test]
fn malformed_instruction_is_rejected() {
    let mut ledger = Ledger::new();
    assert_eq!(ledger.run(&[payer()], &[7u8], &facts(0)), Err(DocumentsError::DecodeError));
}

#[test]
fn prefunded_target_is_rejected() {
    let wallet = Address::new([21u8; 32]);
    let pda = Receiver::find_pda_address(&wallet, &program()).unwrap();
    let mut ledger = Ledger::new();
    ledger.accounts.push(AccountState { key: pda, owner: system_id(), lamports: 5, data: Vec::new(), is_signer: false });
    assert_eq!(ledger.create_receiver(&wallet), Err(DocumentsError::AccountAlreadyInUse));
    assert_eq!(ledger.get(&pda).lamports, 5);
    assert!(ledger.get(&pda).data.is_empty());
}

#[test]
fn foreign_owned_target_is_rejected() {
    let wallet = Address::new([22u8; 32]);
    let mut ledger = Ledger::new();
    ledger.create_receiver(&wallet).unwrap();
    let doc = Document::find_pda_address(0, &wallet, &program()).unwrap();
    ledger.accounts.push(AccountState {
        key: doc,
        owner: Address::new([77u8; 32]),
        lamports: 0,
        data: Vec::new(),
        is_signer: false,
    });
    assert_eq!(ledger.send(&wallet, 0, b"x"), Err(DocumentsError::AccountAlreadyInUse));
    assert_eq!(ledger.counter(&wallet), 0);
}

#[test]
fn creation_funds_target_exactly() {
    let mut accounts = vec![
        AccountState { key: payer(), owner: system_id(), lamports: 100, data: Vec::new(), is_signer: true },
        AccountState { key: Address::new([23u8; 32]), owner: system_id(), lamports: 0, data: Vec::new(), is_signer: false },
    ];
    create_pda_account(&mut accounts, 0, 1, 4, &program(), 10).unwrap();
    assert_eq!(accounts[0].lamports, 90);
    assert_eq!(accounts[1].lamports, 10);
    assert_eq!(accounts[1].owner, program());
    assert_eq!(accounts[1].data, vec![0u8; 4]);

    let mut accounts = vec![
        AccountState { key: payer(), owner: system_id(), lamports: 100, data: Vec::new(), is_signer: true },
        AccountState { key: Address::new([24u8; 32]), owner: system_id(), lamports: 0, data: Vec::new(), is_signer: false },
    ];
    create_pda_account(&mut accounts, 0, 1, 0, &program(), 0).unwrap();
    assert_eq!(accounts[0].lamports, 99);
    assert_eq!(accounts[1].lamports, 1);

    let mut accounts = vec![
        AccountState { key: payer(), owner: system_id(), lamports: 100, data: Vec::new(), is_signer: true },
        AccountState { key: Address::new([25u8; 32]), owner: system_id(), lamports: 5, data: Vec::new(), is_signer: false },
    ];
    let before = accounts.clone();
    assert_eq!(create_pda_account(&mut accounts, 0, 1, 4, &program(), 10), Err(DocumentsError::AccountAlreadyInUse));
    assert_eq!(accounts, before);
}

#[test]
fn system_identities_are_the_stated_bytes() {
    assert_eq!(
        solana_program::sysvar::rent::ID.to_bytes(),
        [6u8, 167, 213, 23, 25, 44, 92, 81, 33, 140, 201, 76, 61, 74, 241, 127, 88, 218, 238, 8, 155, 161, 253, 68, 227, 219, 217, 138, 0, 0, 0, 0]
    );
    assert_eq!(
        solana_program::sysvar::clock::ID.to_bytes(),
        [6u8, 167, 213, 23, 24, 199, 116, 201, 40, 86, 99, 152, 105, 29, 94, 182, 139, 94, 184, 163, 155, 75, 109, 92, 115, 85, 91, 33, 0, 0, 0, 0]
    );
    assert_eq!(solana_program::system_program::ID.to_bytes(), [0u8; 32]);
}

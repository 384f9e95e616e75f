//! The operations the program accepts and their wire format.

use vstd::prelude::*;
use vstd::slice::slice_subrange;
use vstd::slice::slice_to_vec;
use crate::bytes::{u32_le, u32_from_le, push_u32_le, read_u32_le, lemma_u32_round_trip};
use crate::error::DocumentsError;

verus! {

/// The mathematical content of an operation.
pub enum OperationModel {
    CreateReceiverAccount,
    SendDocument(Seq<u8>),
}

/// Wire form of an operation: a tag byte, then for a document its
/// length-prefixed payload.
pub open spec fn encode_instruction(op: OperationModel) -> Seq<u8> {
    match op {
        OperationModel::CreateReceiverAccount => seq![0u8],
        OperationModel::SendDocument(data) => seq![1u8] + u32_le(data.len() as u32) + data,
    }
}

/// The operation that a byte buffer holds, if it is well formed: a known tag,
/// a payload of the announced length, and nothing after it.
pub open spec fn decode_instruction(b: Seq<u8>) -> Option<OperationModel> {
    if b.len() == 1 && b[0] == 0 {
        Some(OperationModel::CreateReceiverAccount)
    } else if b.len() >= 5 && b[0] == 1 && b.len() - 5 == u32_from_le(b.subrange(1, 5)) {
        Some(OperationModel::SendDocument(b.subrange(5, b.len() as int)))
    } else {
        None
    }
}

/// An operation of the program.
#[derive(Clone, Debug, PartialEq, Eq)]
pub enum DocumentsInstruction {
    /// Create the index record of a recipient.
    ///
    /// Accounts expected:
    ///
    /// 0. `[signer]` Funder account
    /// 1. `[writable]` Derived address of the recipient's index record
    /// 2. `[]` Wallet address of the recipient
    /// 3. `[]` Rent sysvar
    /// 4. `[]` System program
    CreateReceiverAccount,
    /// Append a document to the records of a recipient.
    ///
    /// Accounts expected:
    ///
    /// 0. `[signer]` Sender account, which also funds the new record
    /// 1. `[writable]` Derived address of the recipient's index record
    /// 2. `[writable]` Derived address of the document
    /// 3. `[]` Wallet address of the recipient
    /// 4. `[]` Rent sysvar
    /// 5. `[]` Clock sysvar
    /// 6. `[]` System program
    SendDocument {
        /// Link of the meta file and checksum.
        data: Vec<u8>,
    },
}

impl View for DocumentsInstruction {
    type V = OperationModel;

    open spec fn view(&self) -> OperationModel {
        match self {
            DocumentsInstruction::CreateReceiverAccount => OperationModel::CreateReceiverAccount,
            DocumentsInstruction::SendDocument { data } => OperationModel::SendDocument(data@),
        }
    }
}

impl DocumentsInstruction {
    /// Serializes the operation.
    pub fn pack(&self) -> (r: Vec<u8>)
        requires
            self matches DocumentsInstruction::SendDocument { data } ==> data@.len() <= u32::MAX,
        ensures
            r@ == encode_instruction(self@),
    {
        match self {
            DocumentsInstruction::CreateReceiverAccount => {
                let out: Vec<u8> = vec![0u8];
                assert(out@ =~= encode_instruction(self@));
                out
            },
            DocumentsInstruction::SendDocument { data } => {
                let mut out: Vec<u8> = vec![1u8];
                push_u32_le(&mut out, data.len() as u32);
                let ghost head = out@;
                let mut i: usize = 0;
                while i < data.len()
                    invariant
                        i <= data@.len(),
                        out@ == head + data@.subrange(0, i as int),
                    decreases data@.len() - i,
                {
                    out.push(data[i]);
                    i = i + 1;
                    assert(out@ =~= head + data@.subrange(0, i as int));
                }
                assert(data@.subrange(0, i as int) =~= data@);
                assert(out@ =~= encode_instruction(self@));
                out
            },
        }
    }

    /// Reads an operation; fails on an unknown tag, a truncated payload or
    /// trailing bytes.
    pub fn unpack(b: &[u8]) -> (r: Result<DocumentsInstruction, DocumentsError>)
        ensures
            match r {
                Ok(op) => decode_instruction(b@) == Some(op@),
                Err(e) => decode_instruction(b@) is None && e == DocumentsError::DecodeError,
            },
    {
        if b.len() == 1 && b[0] == 0 {
            return Ok(DocumentsInstruction::CreateReceiverAccount);
        }
        if b.len() < 5 || b[0] != 1 {
            return Err(DocumentsError::DecodeError);
        }
        let len = read_u32_le(b, 1);
        if b.len() - 5 != len as usize {
            return Err(DocumentsError::DecodeError);
        }
        let data = slice_to_vec(slice_subrange(b, 5, b.len()));
        Ok(DocumentsInstruction::SendDocument { data })
    }
}

/// Decoding the wire form of an operation gives it back, for every payload
/// whose length fits the length prefix.
pub proof fn instruction_round_trip(op: OperationModel)
    requires
        op matches OperationModel::SendDocument(data) ==> data.len() <= u32::MAX,
    ensures
        decode_instruction(encode_instruction(op)) == Some(op),
{
    if let OperationModel::SendDocument(data) = op {
        let b = encode_instruction(op);
        lemma_u32_round_trip(data.len() as u32);
        assert(b.subrange(1, 5) =~= u32_le(data.len() as u32));
        assert(b.subrange(5, b.len() as int) =~= data);
    }
}

} // verus!

//! The two record kinds, their byte layouts and their addresses.

use vstd::prelude::*;
use vstd::slice::slice_subrange;
use vstd::slice::slice_to_vec;
use crate::address::{Address, decimal, derive_address, program_address, push_decimal};
use crate::bytes::{
    i64_le, i64_from_le, u32_le, u32_from_le, push_i64_le, push_u32_le, read_i64_le, read_u32_le,
    lemma_i64_round_trip, lemma_u32_round_trip,
};
use crate::error::DocumentsError;

verus! {

/// The domain tag of index records, "receiver" in ASCII.
pub open spec fn receiver_tag() -> Seq<u8> {
    seq![114u8, 101u8, 99u8, 101u8, 105u8, 118u8, 101u8, 114u8]
}

/// The domain tag of document records, "document" in ASCII.
pub open spec fn document_tag() -> Seq<u8> {
    seq![100u8, 111u8, 99u8, 117u8, 109u8, 101u8, 110u8, 116u8]
}

/// The seed tuple of the index record of a recipient.
pub open spec fn receiver_seeds(wallet: Seq<u8>) -> Seq<Seq<u8>> {
    seq![wallet, receiver_tag()]
}

/// The seed tuple of the document at `index` of a recipient: the index in
/// decimal, followed by the document tag.
pub open spec fn document_seeds(index: u32, wallet: Seq<u8>) -> Seq<Seq<u8>> {
    seq![wallet, decimal(index as nat) + document_tag()]
}

/// Serialized form of an index record.
pub open spec fn encode_receiver(counter: u32) -> Seq<u8> {
    u32_le(counter)
}

/// The counter that a byte buffer holds, if it is a well-formed index record.
pub open spec fn decode_receiver(b: Seq<u8>) -> Option<u32> {
    if b.len() == 4 {
        Some(u32_from_le(b))
    } else {
        None
    }
}

/// The index record of one recipient.
#[derive(Clone, Copy, Debug, PartialEq, Eq, Structural)]
pub struct Receiver {
    /// Number of documents sent so far; also the index of the next one.
    pub documents_counter: u32,
}

impl Receiver {
    /// A fresh index record, with no documents.
    pub fn new() -> (r: Self)
        ensures
            r.documents_counter == 0,
    {
        Receiver { documents_counter: 0 }
    }

    /// Byte size of a stored index record.
    pub fn retrieve_size() -> (r: usize)
        ensures
            r == encode_receiver(0).len(),
            r == 4,
    {
        4
    }

    /// Serializes the record.
    pub fn pack(&self) -> (r: Vec<u8>)
        ensures
            r@ == encode_receiver(self.documents_counter),
    {
        let mut out: Vec<u8> = Vec::new();
        push_u32_le(&mut out, self.documents_counter);
        assert(out@ =~= encode_receiver(self.documents_counter));
        out
    }

    /// Reads a record from exactly four bytes.
    pub fn unpack(b: &[u8]) -> (r: Result<Receiver, DocumentsError>)
        ensures
            match r {
                Ok(rec) => decode_receiver(b@) == Some(rec.documents_counter),
                Err(e) => decode_receiver(b@) is None && e == DocumentsError::DecodeError,
            },
    {
        if b.len() != 4 {
            return Err(DocumentsError::DecodeError);
        }
        let counter = read_u32_le(b, 0);
        assert(b@.subrange(0, 4) =~= b@);
        Ok(Receiver { documents_counter: counter })
    }

    /// Address and bump of the index record of `receiver_address`.
    pub fn find_pda_address_with_bump_seed(receiver_address: &Address, program_id: &Address) -> (r: Result<(Address, u8), DocumentsError>)
        ensures
            match r {
                Ok(found) => program_address(receiver_seeds(receiver_address@), program_id@) == Some((found.0@, found.1)),
                Err(e) => e == DocumentsError::DerivationExhausted
                    && program_address(receiver_seeds(receiver_address@), program_id@) is None,
            },
    {
        let tag: Vec<u8> = vec![114u8, 101u8, 99u8, 101u8, 105u8, 118u8, 101u8, 114u8];
        assert(tag@ =~= receiver_tag());
        assert(seq![receiver_address.bytes@, tag@] =~= receiver_seeds(receiver_address@));
        derive_address(receiver_address.bytes.as_slice(), tag.as_slice(), program_id)
    }

    /// Address of the index record of `receiver_address`.
    pub fn find_pda_address(receiver_address: &Address, program_id: &Address) -> (r: Result<Address, DocumentsError>)
        ensures
            match r {
                Ok(a) => program_address(receiver_seeds(receiver_address@), program_id@) matches Some(p) && p.0 == a@,
                Err(e) => e == DocumentsError::DerivationExhausted
                    && program_address(receiver_seeds(receiver_address@), program_id@) is None,
            },
    {
        match Self::find_pda_address_with_bump_seed(receiver_address, program_id) {
            Ok(found) => Ok(found.0),
            Err(e) => Err(e),
        }
    }
}

} // verus!

verus! {

/// The mathematical content of a document record.
pub struct DocumentModel {
    pub sender: Seq<u8>,
    pub data: Seq<u8>,
    pub sent_at: i64,
    pub opened_at: i64,
}

/// Serialized form of a document record: sender, payload length, payload,
/// sending time, opening time.
pub open spec fn encode_document(m: DocumentModel) -> Seq<u8> {
    m.sender + u32_le(m.data.len() as u32) + m.data + i64_le(m.sent_at) + i64_le(m.opened_at)
}

/// Whether a byte buffer has the shape of a document record: a 32-byte
/// sender, a length that matches what follows, and two timestamps.
pub open spec fn document_layout_ok(b: Seq<u8>) -> bool {
    b.len() >= 52 && b.len() - 52 == u32_from_le(b.subrange(32, 36))
}

/// The document that a byte buffer holds, if it is well formed.
pub open spec fn decode_document(b: Seq<u8>) -> Option<DocumentModel> {
    if document_layout_ok(b) {
        Some(
            DocumentModel {
                sender: b.subrange(0, 32),
                data: b.subrange(36, b.len() - 16),
                sent_at: i64_from_le(b.subrange(b.len() - 16, b.len() - 8)),
                opened_at: i64_from_le(b.subrange(b.len() - 8, b.len() as int)),
            },
        )
    } else {
        None
    }
}

/// Byte size of a stored document with a payload of `data_size` bytes.
pub open spec fn document_size(data_size: nat) -> nat {
    52 + data_size
}

/// The zero-filled document with a payload of `data_size` bytes.
pub open spec fn zeroed_document(data_size: nat) -> DocumentModel {
    DocumentModel {
        sender: Seq::new(32, |i: int| 0u8),
        data: Seq::new(data_size, |i: int| 0u8),
        sent_at: 0,
        opened_at: 0,
    }
}

/// One document sent to a recipient.
#[derive(Clone, Debug, PartialEq, Eq)]
pub struct Document {
    /// The sender of the document.
    pub sender: Address,
    /// Data about an off-chain document.
    pub data: Vec<u8>,
    /// Time at which the document was sent.
    pub sent_at: i64,
    /// Time at which the document was opened; 0 while unopened.
    pub opened_at: i64,
}

impl View for Document {
    type V = DocumentModel;

    open spec fn view(&self) -> DocumentModel {
        DocumentModel { sender: self.sender@, data: self.data@, sent_at: self.sent_at, opened_at: self.opened_at }
    }
}

impl Document {
    /// A zero-filled document with a payload of `data_size` bytes.
    pub fn new(data_size: usize) -> (r: Self)
        ensures
            r@ == zeroed_document(data_size as nat),
    {
        let mut data: Vec<u8> = Vec::new();
        let mut i: usize = 0;
        while i < data_size
            invariant
                i <= data_size,
                data@ == Seq::new(i as nat, |j: int| 0u8),
            decreases data_size - i,
        {
            data.push(0u8);
            i = i + 1;
            assert(data@ =~= Seq::new(i as nat, |j: int| 0u8));
        }
        let sender = Address::new([0u8; 32]);
        assert(sender@ =~= Seq::new(32, |i: int| 0u8));
        let r = Document { sender, data, sent_at: 0, opened_at: 0 };
        assert(r@ =~= zeroed_document(data_size as nat));
        r
    }

    /// Byte size of a stored document with a payload of `data_size` bytes:
    /// the length of a zero-filled one of that payload.
    pub fn retrieve_size(data_size: usize) -> (r: usize)
        requires
            data_size <= u32::MAX,
            data_size + 52 <= usize::MAX,
        ensures
            r == document_size(data_size as nat),
            r == encode_document(zeroed_document(data_size as nat)).len(),
    {
        assert(encode_document(zeroed_document(data_size as nat)).len() == 52 + data_size);
        52 + data_size
    }

    /// Serializes the record.
    pub fn pack(&self) -> (r: Vec<u8>)
        requires
            self.data@.len() <= u32::MAX,
        ensures
            r@ == encode_document(self@),
    {
        let mut out: Vec<u8> = slice_to_vec(self.sender.bytes.as_slice());
        push_u32_le(&mut out, self.data.len() as u32);
        let mut i: usize = 0;
        let ghost head = out@;
        while i < self.data.len()
            invariant
                i <= self.data@.len(),
                out@ == head + self.data@.subrange(0, i as int),
            decreases self.data@.len() - i,
        {
            out.push(self.data[i]);
            i = i + 1;
            assert(out@ =~= head + self.data@.subrange(0, i as int));
        }
        assert(self.data@.subrange(0, i as int) =~= self.data@);
        push_i64_le(&mut out, self.sent_at);
        push_i64_le(&mut out, self.opened_at);
        assert(out@ =~= encode_document(self@));
        out
    }

    /// Reads a record; fails unless the bytes have the document layout.
    pub fn unpack(b: &[u8]) -> (r: Result<Document, DocumentsError>)
        ensures
            match r {
                Ok(d) => decode_document(b@) == Some(d@),
                Err(e) => decode_document(b@) is None && e == DocumentsError::DecodeError,
            },
    {
        if b.len() < 52 {
            return Err(DocumentsError::DecodeError);
        }
        let len = read_u32_le(b, 32);
        if b.len() - 52 != len as usize {
            return Err(DocumentsError::DecodeError);
        }
        let mut sender_bytes = [0u8; 32];
        let mut i: usize = 0;
        while i < 32
            invariant
                i <= 32,
                b@.len() >= 52,
                forall|j: int| 0 <= j < i ==> sender_bytes@[j] == b@[j],
            decreases 32 - i,
        {
            sender_bytes[i] = b[i];
            i = i + 1;
        }
        assert(sender_bytes@ =~= b@.subrange(0, 32));
        let end = b.len();
        let data = slice_to_vec(slice_subrange(b, 36, end - 16));
        let sent_at = read_i64_le(b, end - 16);
        let opened_at = read_i64_le(b, end - 8);
        let d = Document { sender: Address::new(sender_bytes), data, sent_at, opened_at };
        assert(d@ == decode_document(b@)->Some_0);
        Ok(d)
    }

    /// Address and bump of the document at `document_index` of `receiver_address`.
    pub fn find_pda_address_with_bump_seed(document_index: u32, receiver_address: &Address, program_id: &Address) -> (r: Result<(Address, u8), DocumentsError>)
        ensures
            match r {
                Ok(found) => program_address(document_seeds(document_index, receiver_address@), program_id@)
                    == Some((found.0@, found.1)),
                Err(e) => e == DocumentsError::DerivationExhausted
                    && program_address(document_seeds(document_index, receiver_address@), program_id@) is None,
            },
    {
        let mut seed: Vec<u8> = Vec::new();
        push_decimal(&mut seed, document_index);
        let tag: Vec<u8> = vec![100u8, 111u8, 99u8, 117u8, 109u8, 101u8, 110u8, 116u8];
        let mut i: usize = 0;
        let ghost head = seed@;
        while i < tag.len()
            invariant
                i <= tag@.len(),
                seed@ == head + tag@.subrange(0, i as int),
            decreases tag@.len() - i,
        {
            seed.push(tag[i]);
            i = i + 1;
            assert(seed@ =~= head + tag@.subrange(0, i as int));
        }
        assert(tag@.subrange(0, i as int) =~= document_tag());
        assert(seq![receiver_address.bytes@, seed@] =~= document_seeds(document_index, receiver_address@));
        derive_address(receiver_address.bytes.as_slice(), seed.as_slice(), program_id)
    }

    /// Address of the document at `document_index` of `receiver_address`.
    pub fn find_pda_address(document_index: u32, receiver_address: &Address, program_id: &Address) -> (r: Result<Address, DocumentsError>)
        ensures
            match r {
                Ok(a) => program_address(document_seeds(document_index, receiver_address@), program_id@) matches Some(p)
                    && p.0 == a@,
                Err(e) => e == DocumentsError::DerivationExhausted
                    && program_address(document_seeds(document_index, receiver_address@), program_id@) is None,
            },
    {
        match Self::find_pda_address_with_bump_seed(document_index, receiver_address, program_id) {
            Ok(found) => Ok(found.0),
            Err(e) => Err(e),
        }
    }
}

} // verus!

verus! {

/// Decoding the bytes of an index record gives back its counter.
pub proof fn receiver_round_trip(counter: u32)
    ensures
        decode_receiver(encode_receiver(counter)) == Some(counter),
{
    lemma_u32_round_trip(counter);
}

/// Decoding the bytes of a document record gives back the record, for every
/// 32-byte sender and every payload whose length fits the length prefix.
pub proof fn document_round_trip(m: DocumentModel)
    requires
        m.sender.len() == 32,
        m.data.len() <= u32::MAX,
    ensures
        decode_document(encode_document(m)) == Some(m),
{
    let b = encode_document(m);
    let n = m.data.len();
    lemma_u32_round_trip(n as u32);
    lemma_i64_round_trip(m.sent_at);
    lemma_i64_round_trip(m.opened_at);
    assert(b.subrange(32, 36) =~= u32_le(n as u32));
    assert(b.subrange(0, 32) =~= m.sender);
    assert(b.subrange(36, b.len() - 16) =~= m.data);
    assert(b.subrange(b.len() - 16, b.len() - 8) =~= i64_le(m.sent_at));
    assert(b.subrange(b.len() - 8, b.len() as int) =~= i64_le(m.opened_at));
}

/// Distinct document indices of one recipient give distinct seed tuples, so
/// no two documents of a recipient are derived from the same seeds.
pub proof fn document_seeds_distinct(i: u32, j: u32, wallet: Seq<u8>)
    requires
        i != j,
    ensures
        document_seeds(i, wallet) != document_seeds(j, wallet),
{
    let si = decimal(i as nat) + document_tag();
    let sj = decimal(j as nat) + document_tag();
    if si == sj {
        assert(si.len() == sj.len());
        assert(decimal(i as nat) =~= si.subrange(0, si.len() - 8));
        assert(decimal(j as nat) =~= sj.subrange(0, sj.len() - 8));
        lemma_decimal_injective(i as nat, j as nat);
    }
    assert(document_seeds(i, wallet)[1] == si);
    assert(document_seeds(j, wallet)[1] == sj);
}

proof fn lemma_decimal_len(n: nat)
    ensures
        decimal(n).len() >= 1,
        n >= 10 ==> decimal(n).len() >= 2,
    decreases n,
{
    if n >= 10 {
        lemma_decimal_len(n / 10);
    }
}

proof fn lemma_decimal_injective(a: nat, b: nat)
    requires
        decimal(a) == decimal(b),
    ensures
        a == b,
    decreases a,
{
    lemma_decimal_len(a);
    lemma_decimal_len(b);
    if a < 10 && b < 10 {
        assert(decimal(a)[0] == decimal(b)[0]);
        assert(decimal(a)[0] == (48 + a) as u8);
    } else if a >= 10 && b >= 10 {
        let da = decimal(a);
        assert(da.last() == decimal(b).last());
        assert(decimal(a / 10) =~= da.drop_last());
        assert(decimal(b / 10) =~= decimal(b).drop_last());
        lemma_decimal_injective(a / 10, b / 10);
        assert(a % 10 == b % 10);
        assert(a == 10 * (a / 10) + a % 10) by (nonlinear_arith);
        assert(b == 10 * (b / 10) + b % 10) by (nonlinear_arith);
    } else {
        assert(decimal(a).len() != decimal(b).len());
    }
}

} // verus!

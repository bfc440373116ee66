//! The `EmitMe` event and the log record it is written to.

use crate::address::{left_padded, Address};
use crate::big_endian::{
    be_bytes, be_value, lemma_be_bytes_len, lemma_be_value_of_be_bytes, pow256,
};
use crate::hash::{keccak, keccak256};
use crate::uint::{lemma_u256_below_limit, U256};
use vstd::arithmetic::div_mod::lemma_small_mod;
use vstd::prelude::*;
use vstd::slice::slice_to_vec;
use vstd::string::StringSliceAdditionalSpecFns;

verus! {

/// Name and parameter types of the event, as hashed into its selector.
pub const EVENT_SIGNATURE: &'static str = "EmitMe(address,uint256)";

/// Number of topics of the event: the selector and the indexed sender.
pub const TOPIC_COUNT: usize = 2;

/// The bytes of the event's signature.
pub open spec fn event_signature() -> Seq<u8> {
    EVENT_SIGNATURE.spec_bytes()
}

/// Why an event could not be encoded.
#[derive(Clone, Copy, Debug, PartialEq, Eq)]
pub enum EncodeError {
    /// The buffer has room for fewer topics than the event has.
    Overrun,
}

/// The event `EmitMe(address indexed sender, uint256 value)`.
#[derive(Clone, Copy, Debug)]
pub struct EmitMe {
    pub sender: Address,
    pub value: U256,
}

/// Whether `after` is `before` with its first two words replaced by the
/// selector and by the sender as one word.
pub open spec fn topics_written(
    before: Seq<[u8; 32]>,
    after: Seq<[u8; 32]>,
    selector: Seq<u8>,
    sender: Seq<u8>,
) -> bool {
    &&& after.len() == before.len()
    &&& after.len() >= TOPIC_COUNT
    &&& after[0]@ == selector
    &&& after[1]@ == left_padded(sender)
    &&& forall|i: int| 2 <= i < before.len() ==> after[i] == before[i]
}

/// Writes the topics of an `EmitMe` event with the given selector and
/// sender to the front of `out`, or fails and leaves `out` as it was when
/// `out` is too short for them.
pub fn write_topics(selector: [u8; 32], sender: Address, out: &mut [[u8; 32]]) -> (res: Result<
    (),
    EncodeError,
>)
    ensures
        res is Ok <==> old(out)@.len() >= TOPIC_COUNT,
        res is Ok ==> topics_written(old(out)@, final(out)@, selector@, sender@),
        res is Err ==> res == Err::<(), EncodeError>(EncodeError::Overrun) && final(out)@
            == old(out)@,
{
    if out.len() < TOPIC_COUNT {
        return Err(EncodeError::Overrun);
    }
    out[0] = selector;
    out[1] = sender.into_word();
    Ok(())
}

impl EmitMe {
    /// The selector of the event: the digest of its signature.
    pub fn signature_hash() -> (hash: [u8; 32])
        ensures
            hash@ == keccak256(event_signature()),
            keccak256(event_signature()).len() == 32,
    {
        keccak(EVENT_SIGNATURE.as_bytes())
    }

    /// Writes the topics of the event, its selector and then the sender as
    /// one word, to the front of `out`, or fails and leaves `out` as it was
    /// when `out` is too short for them.
    pub fn encode_topics_raw(&self, out: &mut [[u8; 32]]) -> (res: Result<(), EncodeError>)
        ensures
            res is Ok <==> old(out)@.len() >= TOPIC_COUNT,
            res is Ok ==> topics_written(
                old(out)@,
                final(out)@,
                keccak256(event_signature()),
                self.sender@,
            ),
            res is Err ==> res == Err::<(), EncodeError>(EncodeError::Overrun) && final(out)@
                == old(out)@,
    {
        write_topics(Self::signature_hash(), self.sender, out)
    }

    /// The data of the event: the value as 32 bytes, most significant
    /// first.
    pub fn encode_data(&self) -> (data: Vec<u8>)
        ensures
            data@ == be_bytes(self.value@, 32),
    {
        let bytes = self.value.to_be_bytes();
        slice_to_vec(bytes.as_slice())
    }
}

/// A log record: its topics, one word each, and its data.
#[derive(Clone, Debug, PartialEq, Eq)]
pub struct LogRecord {
    pub topics: Vec<[u8; 32]>,
    pub data: Vec<u8>,
}

/// The bytes of `words` one after the other, followed by `data`.
pub open spec fn words_then_data(words: Seq<[u8; 32]>, data: Seq<u8>) -> Seq<u8> {
    Seq::new(
        32 * words.len() + data.len(),
        |i: int|
            if i < 32 * words.len() {
                words[i / 32]@[i % 32]
            } else {
                data[i - 32 * words.len()]
            },
    )
}

/// The bytes of the record of an `EmitMe` event with the given selector,
/// sent by `sender` with `value` attached: the selector, the sender as one
/// word, and the value as 32 bytes, most significant first.
pub open spec fn emit_me_payload(selector: Seq<u8>, sender: Seq<u8>, value: nat) -> Seq<u8> {
    selector + left_padded(sender) + be_bytes(value, 32)
}

/// A reader of the record of an `EmitMe` event finds the sender in the low
/// 20 bytes of topic 1 and the value as the number that the data spell.
pub proof fn lemma_emit_me_payload_decodes(selector: [u8; 32], sender: Address, value: U256)
    ensures
        emit_me_payload(selector@, sender@, value@).len() == 96,
        emit_me_payload(selector@, sender@, value@).subrange(0, 32) == selector@,
        emit_me_payload(selector@, sender@, value@).subrange(44, 64) == sender@,
        be_value(emit_me_payload(selector@, sender@, value@).subrange(64, 96)) == value@,
{
    let payload = emit_me_payload(selector@, sender@, value@);
    lemma_be_bytes_len(value@, 32);
    assert(payload.subrange(0, 32) =~= selector@);
    assert(payload.subrange(44, 64) =~= sender@);
    assert(payload.subrange(64, 96) =~= be_bytes(value@, 32));
    lemma_be_value_of_be_bytes(value@, 32);
    lemma_u256_below_limit(value);
    lemma_small_mod(value@, pow256(32));
}

impl LogRecord {
    /// The number of topics of the record.
    pub fn num_topics(&self) -> (count: usize)
        ensures
            count == self.topics@.len(),
    {
        self.topics.len()
    }

    /// The record as the host takes it: the topics, then the data.
    pub fn payload(&self) -> (bytes: Vec<u8>)
        ensures
            bytes@ == words_then_data(self.topics@, self.data@),
    {
        let mut bytes: Vec<u8> = Vec::new();
        let mut t: usize = 0;
        while t < self.topics.len()
            invariant
                t <= self.topics@.len(),
                bytes@.len() == 32 * t,
                forall|i: int| 0 <= i < 32 * t ==> bytes@[i] == self.topics@[i / 32]@[i % 32],
            decreases self.topics@.len() - t,
        {
            let word = self.topics[t];
            let mut k: usize = 0;
            while k < 32
                invariant
                    k <= 32,
                    t < self.topics@.len(),
                    word == self.topics@[t as int],
                    bytes@.len() == 32 * t + k,
                    forall|i: int|
                        0 <= i < 32 * t + k ==> bytes@[i] == self.topics@[i / 32]@[i % 32],
                decreases 32 - k,
            {
                bytes.push(word[k]);
                k += 1;
            }
            t += 1;
        }
        let mut d: usize = 0;
        while d < self.data.len()
            invariant
                d <= self.data@.len(),
                t == self.topics@.len(),
                bytes@.len() == 32 * t + d,
                forall|i: int| 0 <= i < 32 * t ==> bytes@[i] == self.topics@[i / 32]@[i % 32],
                forall|i: int| 0 <= i < d ==> bytes@[32 * t + i] == self.data@[i],
            decreases self.data@.len() - d,
        {
            bytes.push(self.data[d]);
            d += 1;
        }
        assert(bytes@ =~= words_then_data(self.topics@, self.data@));
        bytes
    }
}

} // verus!

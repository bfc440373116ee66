//! The program: an owner slot and the operations on it and on the host.

use crate::address::Address;
use crate::big_endian::lemma_be_bytes_len;
use crate::event::{
    emit_me_payload, event_signature, EmitMe, EncodeError, LogRecord, TOPIC_COUNT,
};
use crate::hash::{keccak, keccak256};
use crate::host::{ink_for_gas, EmittedLogView, Host, HostState};
use crate::storage::StorageAddress;
use crate::uint::U256;
use vstd::prelude::*;

verus! {

/// The persistent state of the program, as mathematical values.
pub struct ContractState {
    /// The account recorded as owner.
    pub owner: Seq<u8>,
}

impl ContractState {
    /// The state of a program that was deployed and never called: the owner
    /// is the zero address.
    pub open spec fn deployed() -> ContractState {
        ContractState { owner: Seq::new(20, |i: int| 0u8) }
    }

    /// The state after `caller` has invoked `initialize`.
    pub open spec fn initialize(self, caller: Seq<u8>) -> ContractState {
        ContractState { owner: caller }
    }
}

/// The program. Its view is its persistent state.
#[derive(Debug)]
pub struct StylusPrimitivesDemo {
    owner: StorageAddress,
}

impl View for StylusPrimitivesDemo {
    type V = ContractState;

    closed spec fn view(&self) -> ContractState {
        ContractState { owner: self.owner@ }
    }
}

impl StylusPrimitivesDemo {
    /// The program as deployed.
    pub fn new() -> (program: StylusPrimitivesDemo)
        ensures
            program@ == ContractState::deployed(),
    {
        StylusPrimitivesDemo { owner: StorageAddress::new() }
    }

    /// The program with `owner` in its owner slot.
    pub fn with_owner(owner: Address) -> (program: StylusPrimitivesDemo)
        ensures
            program@ == (ContractState { owner: owner@ }),
    {
        StylusPrimitivesDemo { owner: StorageAddress::holding(owner) }
    }

    /// Records the caller as owner, whatever the slot held before.
    pub fn initialize(&mut self, host: &Host)
        ensures
            final(self)@ == old(self)@.initialize(host@.caller),
    {
        let sender = host.msg_sender();
        self.owner.set(sender);
    }

    /// The native value attached to the call.
    pub fn get_msg_value(&self, host: &Host) -> (value: U256)
        ensures
            value@ == host@.value,
    {
        host.msg_value()
    }

    /// The balance of the program's own account.
    pub fn get_contract_balance(&self, host: &Host) -> (balance: U256)
        ensures
            balance@ == host@.balance_of(host@.contract_address),
    {
        let this_contract = host.contract_address();
        host.balance(this_contract)
    }

    /// The account that started the chain of calls.
    pub fn get_tx_origin(&self, host: &Host) -> (origin: Address)
        ensures
            origin@ == host@.origin,
    {
        host.tx_origin()
    }

    /// The ink that `gas` units of gas convert to at the host's ink price.
    pub fn convert_gas(&self, host: &Host, gas: u64) -> (ink: u64)
        ensures
            ink == ink_for_gas(gas as nat, host@.ink_price),
    {
        host.gas_to_ink(gas)
    }

    /// Hands the host the record of one `EmitMe` event, with the caller as
    /// sender and the attached value as value: two topics of 32 bytes each,
    /// their number reported as two, and 32 bytes of data. Encoding is
    /// fallible, and a failure is passed on with nothing handed to the host;
    /// it does not fail here, since the buffer has room for every topic.
    pub fn emit_my_event(&self, host: &mut Host) -> (res: Result<(), EncodeError>)
        ensures
            res is Ok,
            keccak256(event_signature()).len() == 32,
            final(host)@ == (HostState {
                logs: old(host)@.logs.push(
                    EmittedLogView {
                        payload: emit_me_payload(
                            keccak256(event_signature()),
                            old(host)@.caller,
                            old(host)@.value,
                        ),
                        num_topics: TOPIC_COUNT as nat,
                    },
                ),
                ..old(host)@
            }),
    {
        let sender = host.msg_sender();
        let value = host.msg_value();
        let event = EmitMe { sender, value };
        let mut topics: Vec<[u8; 32]> = vec![[0u8; 32]; TOPIC_COUNT];
        match event.encode_topics_raw(topics.as_mut_slice()) {
            Ok(()) => {},
            Err(e) => {
                return Err(e);
            },
        }
        let data = event.encode_data();
        let log = LogRecord { topics, data };
        let payload = log.payload();
        proof {
            lemma_be_bytes_len(value@, 32);
            assert(payload@ =~= emit_me_payload(keccak256(event_signature()), sender@, value@));
        }
        host.emit_log(payload, log.num_topics());
        Ok(())
    }

    /// The Keccak-256 digest of `preimage`.
    pub fn hash_preimage(&self, preimage: Vec<u8>) -> (digest: [u8; 32])
        ensures
            digest@ == keccak256(preimage@),
    {
        keccak(preimage.as_slice())
    }

    /// The account recorded as owner.
    pub fn get_owner(&self) -> (owner: Address)
        ensures
            owner@ == self@.owner,
    {
        self.owner.get()
    }
}

/// After `initialize` the owner is the caller, whatever the state was
/// before.
pub proof fn lemma_initialize_sets_owner(state: ContractState, caller: Seq<u8>)
    ensures
        state.initialize(caller).owner == caller,
{
}

/// Of two calls of `initialize` the later one decides: the state is the
/// one that the second caller alone would have left, and the owner is the
/// second caller.
pub proof fn lemma_last_initialize_wins(state: ContractState, first: Seq<u8>, second: Seq<u8>)
    ensures
        state.initialize(first).initialize(second) == state.initialize(second),
        state.initialize(first).initialize(second).owner == second,
{
}

} // verus!

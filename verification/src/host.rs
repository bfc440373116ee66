//! The host as the program sees it during one call: the facts it reports
//! and the log records it has been handed.

use crate::address::Address;
use crate::uint::U256;
use vstd::prelude::*;

verus! {

/// An account and the native value it holds.
#[derive(Clone, Copy, Debug)]
struct Account {
    address: Address,
    balance: U256,
}

/// One use of the host's log facility: the bytes handed over, topics first,
/// and the number of topics reported with them.
#[derive(Clone, Debug, PartialEq, Eq)]
pub struct EmittedLog {
    pub payload: Vec<u8>,
    pub num_topics: usize,
}

/// One use of the host's log facility, as mathematical values.
pub struct EmittedLogView {
    pub payload: Seq<u8>,
    pub num_topics: nat,
}

impl View for EmittedLog {
    type V = EmittedLogView;

    open spec fn view(&self) -> EmittedLogView {
        EmittedLogView { payload: self.payload@, num_topics: self.num_topics as nat }
    }
}

/// The host during one call, as mathematical values.
pub struct HostState {
    /// The account that made the call.
    pub caller: Seq<u8>,
    /// The native value attached to the call.
    pub value: nat,
    /// The program's own account.
    pub contract_address: Seq<u8>,
    /// The account that started the chain of calls.
    pub origin: Seq<u8>,
    /// Units of ink that one unit of gas buys.
    pub ink_price: nat,
    /// The balance of each account that holds any value.
    pub balances: Map<Seq<u8>, nat>,
    /// The log records handed to the host so far, oldest first.
    pub logs: Seq<EmittedLogView>,
}

impl HostState {
    /// The balance of `who`: zero for an account the host knows nothing of.
    pub open spec fn balance_of(self, who: Seq<u8>) -> nat {
        if self.balances.dom().contains(who) {
            self.balances[who]
        } else {
            0
        }
    }
}

/// The ink that `gas` units of gas convert to at `ink_price`: their
/// product, or the largest `u64` where the product is above it.
pub open spec fn ink_for_gas(gas: nat, ink_price: nat) -> nat {
    if gas * ink_price > u64::MAX {
        u64::MAX as nat
    } else {
        gas * ink_price
    }
}

/// No gas converts to no ink, at any ink price.
pub proof fn lemma_no_gas_no_ink(ink_price: nat)
    ensures
        ink_for_gas(0, ink_price) == 0,
{
}

/// At a fixed ink price, more gas never converts to less ink.
pub proof fn lemma_ink_monotonic(less: nat, more: nat, ink_price: nat)
    requires
        less <= more,
    ensures
        ink_for_gas(less, ink_price) <= ink_for_gas(more, ink_price),
{
    assert(less * ink_price <= more * ink_price) by (nonlinear_arith)
        requires
            less <= more,
    ;
}

/// The balances that a list of accounts records: a later entry for an
/// address replaces an earlier one.
spec fn balances_of(accounts: Seq<Account>) -> Map<Seq<u8>, nat>
    decreases accounts.len(),
{
    if accounts.len() == 0 {
        Map::empty()
    } else {
        balances_of(accounts.drop_last()).insert(accounts.last().address@, accounts.last().balance@)
    }
}

/// An address that no entry from `from` on names has the balance that the
/// entries before `from` record for it.
proof fn lemma_skip_other_accounts(accounts: Seq<Account>, who: Seq<u8>, from: int)
    requires
        0 <= from <= accounts.len(),
        forall|k: int| from <= k < accounts.len() ==> accounts[k].address@ != who,
    ensures
        balances_of(accounts).dom().contains(who) == balances_of(
            accounts.subrange(0, from),
        ).dom().contains(who),
        balances_of(accounts).dom().contains(who) ==> balances_of(accounts)[who] == balances_of(
            accounts.subrange(0, from),
        )[who],
    decreases accounts.len() - from,
{
    if from == accounts.len() {
        assert(accounts.subrange(0, from) =~= accounts);
    } else {
        let init = accounts.drop_last();
        lemma_skip_other_accounts(init, who, from);
        assert(init.subrange(0, from) =~= accounts.subrange(0, from));
    }
}

/// The host as the program sees it during one call.
#[derive(Debug)]
pub struct Host {
    caller: Address,
    value: U256,
    contract_address: Address,
    origin: Address,
    ink_price: u32,
    accounts: Vec<Account>,
    logs: Vec<EmittedLog>,
}

impl View for Host {
    type V = HostState;

    closed spec fn view(&self) -> HostState {
        HostState {
            caller: self.caller@,
            value: self.value@,
            contract_address: self.contract_address@,
            origin: self.origin@,
            ink_price: self.ink_price as nat,
            balances: balances_of(self.accounts@),
            logs: self.logs@.map_values(|log: EmittedLog| log@),
        }
    }
}

impl Host {
    /// A host that reports the given facts, knows of no balance and has
    /// been handed no log record.
    pub fn new(
        caller: Address,
        value: U256,
        contract_address: Address,
        origin: Address,
        ink_price: u32,
    ) -> (host: Host)
        ensures
            host@ == (HostState {
                caller: caller@,
                value: value@,
                contract_address: contract_address@,
                origin: origin@,
                ink_price: ink_price as nat,
                balances: Map::empty(),
                logs: Seq::empty(),
            }),
    {
        let host = Host {
            caller,
            value,
            contract_address,
            origin,
            ink_price,
            accounts: Vec::new(),
            logs: Vec::new(),
        };
        assert(host@.logs =~= Seq::empty());
        host
    }

    /// Records that `who` holds `amount`; all else stays.
    pub fn set_balance(&mut self, who: Address, amount: U256)
        ensures
            final(self)@ == (HostState {
                balances: old(self)@.balances.insert(who@, amount@),
                ..old(self)@
            }),
    {
        self.accounts.push(Account { address: who, balance: amount });
        assert(self.accounts@.drop_last() =~= old(self).accounts@);
    }

    /// The account that made the call.
    pub fn msg_sender(&self) -> (caller: Address)
        ensures
            caller@ == self@.caller,
    {
        self.caller
    }

    /// The native value attached to the call.
    pub fn msg_value(&self) -> (value: U256)
        ensures
            value@ == self@.value,
    {
        self.value
    }

    /// The program's own account.
    pub fn contract_address(&self) -> (this: Address)
        ensures
            this@ == self@.contract_address,
    {
        self.contract_address
    }

    /// The account that started the chain of calls.
    pub fn tx_origin(&self) -> (origin: Address)
        ensures
            origin@ == self@.origin,
    {
        self.origin
    }

    /// Units of ink that one unit of gas buys.
    pub fn tx_ink_price(&self) -> (price: u32)
        ensures
            price == self@.ink_price,
    {
        self.ink_price
    }

    /// The balance of `who`.
    pub fn balance(&self, who: Address) -> (amount: U256)
        ensures
            amount@ == self@.balance_of(who@),
    {
        let mut i: usize = self.accounts.len();
        while i > 0
            invariant
                i <= self.accounts@.len(),
                forall|k: int| i <= k < self.accounts@.len() ==> self.accounts@[k].address@ != who@,
            decreases i,
        {
            i -= 1;
            if self.accounts[i].address == who {
                proof {
                    lemma_skip_other_accounts(self.accounts@, who@, i + 1);
                    assert(self.accounts@.subrange(0, i + 1).drop_last()
                        =~= self.accounts@.subrange(0, i as int));
                }
                return self.accounts[i].balance;
            }
        }
        proof {
            lemma_skip_other_accounts(self.accounts@, who@, 0);
        }
        U256::zero()
    }

    /// Hands the host a log record: `payload` holds `num_topics` topics of
    /// one word each and then the data. The record is added after those
    /// handed over before; all else stays.
    pub fn emit_log(&mut self, payload: Vec<u8>, num_topics: usize)
        ensures
            final(self)@ == (HostState {
                logs: old(self)@.logs.push(
                    EmittedLogView { payload: payload@, num_topics: num_topics as nat },
                ),
                ..old(self)@
            }),
    {
        self.logs.push(EmittedLog { payload, num_topics });
        assert(self@.logs =~= old(self)@.logs.push(
            EmittedLogView { payload: payload@, num_topics: num_topics as nat },
        ));
    }

    /// The number of log records handed to the host so far.
    pub fn num_logs(&self) -> (count: usize)
        ensures
            count == self@.logs.len(),
    {
        self.logs.len()
    }

    /// The log record handed to the host at position `index`, oldest first,
    /// if there were that many.
    pub fn log(&self, index: usize) -> (log: Option<&EmittedLog>)
        ensures
            log is Some <==> index < self@.logs.len(),
            log matches Some(record) ==> record@ == self@.logs[index as int],
    {
        if index < self.logs.len() {
            Some(&self.logs[index])
        } else {
            None
        }
    }

    /// The ink that `gas` units of gas convert to.
    pub fn gas_to_ink(&self, gas: u64) -> (ink: u64)
        ensures
            ink == ink_for_gas(gas as nat, self@.ink_price),
    {
        match gas.checked_mul(self.ink_price as u64) {
            Some(ink) => ink,
            None => u64::MAX,
        }
    }
}

} // verus!

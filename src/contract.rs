use vstd::prelude::*;
use crate::error::ContractError;
use crate::gate::RetryGate;
use crate::ledger::Ledger;
use crate::msg::{Coin, ExternalExecuteMsg, InstantiateMsg, PalomaMsg, QueryMsg};
use crate::state::{ChainSetting, ChainSettings, State};

verus! {

pub const REMOVE_LIQUIDITY_REPLY_ID: u64 = 1;
pub const EXECUTE_REPLY_ID: u64 = 2;
pub const ADD_LIQUIDITY_REPLY_ID: u64 = 3;
pub const EXECUTE_FOR_SINGLE_LIQUIDITY_REPLY_ID: u64 = 4;

/// What a delegated call carries until its completion arrives: the snapshot
/// that its reconciliation needs.
pub enum Continuation {
    /// Withdrawal of pool shares: both underlying balances before the call.
    RemoveLiquidity { coins: Vec<Coin>, receiver: String, chain_id: String, lp_token: String },
    /// Swap: the balance of the output asset before the call.
    Exchange { recipient: String, chain_id: String, coin: Coin },
    /// Deposit of two assets: the share balance before the call.
    AddLiquidity { depositor: String, lp_token: String, init_lp_balance: u128 },
    /// Swap ahead of a deposit: the pool, the share balance before any call,
    /// the part of the input kept back and the other asset's balance before the swap.
    SingleSidedSwap {
        pair: String,
        depositor: String,
        lp_token: String,
        init_lp_balance: u128,
        coins: Vec<Coin>,
    },
}

impl Continuation {
    pub open spec fn tag(&self) -> u64 {
        match *self {
            Continuation::RemoveLiquidity { .. } => REMOVE_LIQUIDITY_REPLY_ID,
            Continuation::Exchange { .. } => EXECUTE_REPLY_ID,
            Continuation::AddLiquidity { .. } => ADD_LIQUIDITY_REPLY_ID,
            Continuation::SingleSidedSwap { .. } => EXECUTE_FOR_SINGLE_LIQUIDITY_REPLY_ID,
        }
    }

    /// The reply identifier under which the completion of this flow arrives.
    pub fn reply_id(&self) -> (r: u64)
        ensures
            r == self.tag(),
    {
        match self {
            Continuation::RemoveLiquidity { .. } => REMOVE_LIQUIDITY_REPLY_ID,
            Continuation::Exchange { .. } => EXECUTE_REPLY_ID,
            Continuation::AddLiquidity { .. } => ADD_LIQUIDITY_REPLY_ID,
            Continuation::SingleSidedSwap { .. } => EXECUTE_FOR_SINGLE_LIQUIDITY_REPLY_ID,
        }
    }
}

/// A delegated call: execute `msg` on `contract_addr` with `funds` attached,
/// and hand `payload` to the reconciliation when it completes.
pub struct SubMsg {
    pub contract_addr: String,
    pub msg: ExternalExecuteMsg,
    pub funds: Vec<Coin>,
    pub payload: Continuation,
}

/// What an instruction or a completion hands to the host: delegated calls
/// and outbound settlement messages.
pub struct Response {
    pub submessages: Vec<SubMsg>,
    pub messages: Vec<PalomaMsg>,
}

impl Response {
    pub fn new() -> (r: Response)
        ensures
            r.submessages@.len() == 0,
            r.messages@.len() == 0,
    {
        Response { submessages: Vec::new(), messages: Vec::new() }
    }

    pub fn with_message(m: PalomaMsg) -> (r: Response)
        ensures
            r.submessages@.len() == 0,
            r.messages@ == seq![m],
    {
        let mut messages: Vec<PalomaMsg> = Vec::new();
        messages.push(m);
        assert(messages@ =~= seq![m]);
        Response { submessages: Vec::new(), messages }
    }

    pub fn with_submessage(s: SubMsg) -> (r: Response)
        ensures
            r.submessages@ == seq![s],
            r.messages@.len() == 0,
    {
        let mut submessages: Vec<SubMsg> = Vec::new();
        submessages.push(s);
        assert(submessages@ =~= seq![s]);
        Response { submessages, messages: Vec::new() }
    }
}

/// All the contract's state: configuration, chain settings, the share ledger
/// and the outbound attempt records.
pub struct Trader {
    pub state: State,
    pub chain_settings: ChainSettings,
    pub lp_balances: Ledger,
    pub message_timestamps: RetryGate,
}

impl Trader {
    pub open spec fn wf(&self) -> bool {
        &&& self.chain_settings.wf()
        &&& self.lp_balances.wf()
        &&& self.message_timestamps.wf()
    }

    pub open spec fn is_owner(&self, who: Seq<char>) -> bool {
        self.state.is_owner(who)
    }

    /// The share balance that the ledger records for (user, share token).
    pub fn lp_query(&self, user: &String, lp_token: &String) -> (r: u128)
        requires
            self.wf(),
        ensures
            r == self.lp_balances.balance_of(user@, lp_token@),
    {
        self.lp_balances.balance(user, lp_token)
    }

    /// The chain setting stored for `chain_id`.
    pub fn chain_setting(&self, chain_id: &String) -> (r: Result<ChainSetting, ContractError>)
        requires
            self.wf(),
        ensures
            self.chain_settings@.contains_key(chain_id@) ==> r == Ok::<ChainSetting, ContractError>(
                self.chain_settings@[chain_id@],
            ),
            !self.chain_settings@.contains_key(chain_id@) ==> r == Err::<ChainSetting, ContractError>(
                ContractError::ChainNotConfigured,
            ),
    {
        match self.chain_settings.get(chain_id) {
            Some(s) => Ok(s),
            None => Err(ContractError::ChainNotConfigured),
        }
    }
}

/// The contract as first configured: the given owners and delay, and empty
/// stores.
pub fn instantiate(msg: InstantiateMsg) -> (r: Trader)
    ensures
        r.wf(),
        r.state.owners@ == msg.owners@,
        r.state.retry_delay == msg.retry_delay,
        r.chain_settings@ == Map::<Seq<char>, ChainSetting>::empty(),
        r.lp_balances@.is_empty(),
        r.message_timestamps@.is_empty(),
{
    Trader {
        state: State::instantiate(msg.owners, msg.retry_delay),
        chain_settings: ChainSettings::new(),
        lp_balances: Ledger::new(),
        message_timestamps: RetryGate::new(),
    }
}

/// The answer to a read-only query.
pub enum QueryResponse {
    State { owners: Vec<String>, retry_delay: u64 },
    ChainSetting(ChainSetting),
    LpBalance(u128),
}

/// Answers a read-only query; a chain without a setting is an error, a share
/// balance never recorded is zero.
pub fn query(trader: &Trader, msg: QueryMsg) -> (r: Result<QueryResponse, ContractError>)
    requires
        trader.wf(),
    ensures
        match msg {
            QueryMsg::State {} => match r {
                Ok(QueryResponse::State { owners, retry_delay }) => owners@ == trader.state.owners@
                    && retry_delay == trader.state.retry_delay,
                _ => false,
            },
            QueryMsg::ChainSetting { chain_id } => if trader.chain_settings@.contains_key(chain_id@) {
                r == Ok::<QueryResponse, ContractError>(
                    QueryResponse::ChainSetting(trader.chain_settings@[chain_id@]),
                )
            } else {
                r == Err::<QueryResponse, ContractError>(ContractError::ChainNotConfigured)
            },
            QueryMsg::LpQuery { user, lp_token } => r == Ok::<QueryResponse, ContractError>(
                QueryResponse::LpBalance(trader.lp_balances.balance_of(user@, lp_token@) as u128),
            ),
        },
{
    match msg {
        QueryMsg::State {} => {
            let mut owners: Vec<String> = Vec::new();
            let mut i: usize = 0;
            while i < trader.state.owners.len()
                invariant
                    i <= trader.state.owners@.len(),
                    owners@ == trader.state.owners@.subrange(0, i as int),
                decreases trader.state.owners@.len() - i,
            {
                owners.push(trader.state.owners[i].clone());
                assert(owners@ =~= trader.state.owners@.subrange(0, i + 1));
                i = i + 1;
            }
            assert(owners@ =~= trader.state.owners@);
            Ok(QueryResponse::State { owners, retry_delay: trader.state.retry_delay })
        },
        QueryMsg::ChainSetting { chain_id } => {
            let s = trader.chain_setting(&chain_id)?;
            Ok(QueryResponse::ChainSetting(s))
        },
        QueryMsg::LpQuery { user, lp_token } => Ok(
            QueryResponse::LpBalance(trader.lp_query(&user, &lp_token)),
        ),
    }
}

} // verus!

use vstd::prelude::*;
use crate::contract::{Continuation, Response, SubMsg, Trader};
use crate::error::ContractError;
use crate::ledger::debited;
use crate::abi::{call_data, encode_call, evm_address, parse_evm_address, parse_evm_addresses, AbiArg, AbiValue};
use crate::gate::attempt_allowed;
use crate::msg::{
    Asset, AssetInfo, CancelTx, Coin, ExecuteJob, ExternalExecuteMsg, PairType, PalomaMsg,
    PoolResponse, SendTx, SwapOperation,
};
use crate::quote::be_value;
use crate::state::{with_owners, ChainSetting};
use crate::quote::{calculate_swap_amount, optimal_swap_amount};

verus! {

/// The deposit of `coins` as native assets.
pub open spec fn native_assets(coins: Seq<Coin>) -> Seq<Asset> {
    coins.map_values(|c: Coin| Asset { info: AssetInfo::NativeToken { denom: c.denom }, amount: c.amount })
}

/// Whether `info` is the native asset `denom`.
pub open spec fn is_native(info: AssetInfo, denom: Seq<char>) -> bool {
    match info {
        AssetInfo::NativeToken { denom: d } => d@ == denom,
        AssetInfo::Token { .. } => false,
    }
}

/// The denomination asked for by the last hop of a route, if native.
pub open spec fn route_ask(operations: Seq<SwapOperation>) -> Option<String> {
    if operations.len() == 0 {
        None
    } else {
        match operations.last() {
            SwapOperation::AstroSwap { ask_asset_info: AssetInfo::NativeToken { denom }, .. } => Some(
                denom,
            ),
            _ => None,
        }
    }
}

/// How a deposit goes: the given coins straight into the pool, or one coin
/// that is partly swapped first.
#[derive(Debug, Clone, Copy, PartialEq, Eq, Structural)]
pub enum LiquidityRoute {
    TwoSided,
    SingleSided,
}

pub open spec fn is_xyk(p: PairType) -> bool {
    p is Xyk
}

/// The swap that precedes a single-asset deposit: the reserve of the input
/// asset, the other reserve, and that reserve's native denomination.
pub struct SwapLeg {
    pub reserve_in: Asset,
    pub reserve_out: Asset,
    pub ask_denom: String,
}

/// The denomination that the route's last hop asks for; a route must end in
/// a native asset.
pub fn ask_denom(operations: &Vec<SwapOperation>) -> (r: Result<String, ContractError>)
    ensures
        operations@.len() == 0 ==> r == Err::<String, ContractError>(ContractError::EmptyRoute),
        operations@.len() > 0 && route_ask(operations@).is_none() ==> r == Err::<
            String,
            ContractError,
        >(ContractError::UnsupportedCw20),
        route_ask(operations@).is_some() ==> r == Ok::<String, ContractError>(
            route_ask(operations@).unwrap(),
        ),
{
    if operations.len() == 0 {
        return Err(ContractError::EmptyRoute);
    }
    let last = &operations[operations.len() - 1];
    match last {
        SwapOperation::AstroSwap { ask_asset_info, .. } => match ask_asset_info {
            AssetInfo::NativeToken { denom } => Ok(denom.clone()),
            AssetInfo::Token { .. } => Err(ContractError::UnsupportedCw20),
        },
    }
}

/// Swap along `operations` through the router, with `funds` attached; the
/// output, found by comparing with `ask_balance` (the contract's balance of
/// the asked asset now), is later sent to `recipient` on `chain_id`.
pub fn exchange(
    trader: &Trader,
    sender: &String,
    dex_router: String,
    operations: Vec<SwapOperation>,
    minimum_receive: Option<u128>,
    max_spread: Option<u128>,
    funds: Vec<Coin>,
    chain_id: String,
    recipient: String,
    ask_balance: u128,
) -> (r: Result<Response, ContractError>)
    ensures
        !trader.is_owner(sender@) ==> r == Err::<Response, ContractError>(ContractError::Unauthorized),
        trader.is_owner(sender@) && operations@.len() == 0 ==> r == Err::<Response, ContractError>(
            ContractError::EmptyRoute,
        ),
        trader.is_owner(sender@) && operations@.len() > 0 && route_ask(operations@).is_none() ==> r
            == Err::<Response, ContractError>(ContractError::UnsupportedCw20),
        trader.is_owner(sender@) && route_ask(operations@).is_some() ==> r.is_ok() && r.unwrap().messages@.len()
            == 0 && r.unwrap().submessages@ == seq![
            SubMsg {
                contract_addr: dex_router,
                msg: ExternalExecuteMsg::ExecuteSwapOperations {
                    operations,
                    minimum_receive,
                    to: None,
                    max_spread,
                },
                funds,
                payload: Continuation::Exchange {
                    recipient,
                    chain_id,
                    coin: Coin { denom: route_ask(operations@).unwrap(), amount: ask_balance },
                },
            },
        ],
{
    trader.state.require_owner(sender)?;
    let denom = ask_denom(&operations)?;
    let call = SubMsg {
        contract_addr: dex_router,
        msg: ExternalExecuteMsg::ExecuteSwapOperations { operations, minimum_receive, to: None, max_spread },
        funds,
        payload: Continuation::Exchange {
            recipient,
            chain_id,
            coin: Coin { denom, amount: ask_balance },
        },
    };
    Ok(Response::with_submessage(call))
}

/// Which deposit a list of coins makes into a pool of `pair_type`: two coins,
/// or any pool but a constant-product one, go in as given; a single coin into
/// a constant-product pool is partly swapped first; anything else is refused.
pub fn liquidity_route(coin_count: usize, pair_type: &PairType) -> (r: Result<
    LiquidityRoute,
    ContractError,
>)
    ensures
        (coin_count == 2 || !is_xyk(*pair_type)) ==> r == Ok::<LiquidityRoute, ContractError>(
            LiquidityRoute::TwoSided,
        ),
        !(coin_count == 2 || !is_xyk(*pair_type)) && coin_count == 1 ==> r == Ok::<
            LiquidityRoute,
            ContractError,
        >(LiquidityRoute::SingleSided),
        !(coin_count == 2 || !is_xyk(*pair_type)) && coin_count != 1 ==> r == Err::<
            LiquidityRoute,
            ContractError,
        >(ContractError::UnsupportedCoinCount),
{
    let xyk = match pair_type {
        PairType::Xyk {} => true,
        _ => false,
    };
    if coin_count == 2 || !xyk {
        Ok(LiquidityRoute::TwoSided)
    } else if coin_count == 1 {
        Ok(LiquidityRoute::SingleSided)
    } else {
        Err(ContractError::UnsupportedCoinCount)
    }
}

fn native_asset_list(coins: &Vec<Coin>) -> (r: Vec<Asset>)
    ensures
        r@ == native_assets(coins@),
{
    let mut out: Vec<Asset> = Vec::new();
    let mut i: usize = 0;
    while i < coins.len()
        invariant
            i <= coins@.len(),
            out@ == native_assets(coins@.subrange(0, i as int)),
        decreases coins@.len() - i,
    {
        let c = &coins[i];
        out.push(Asset { info: AssetInfo::NativeToken { denom: c.denom.clone() }, amount: c.amount });
        assert(out@ =~= native_assets(coins@.subrange(0, i + 1)));
        i = i + 1;
    }
    assert(coins@.subrange(0, i as int) =~= coins@);
    out
}

/// Whether `m` deposits exactly `coins`, as native assets, with the given
/// slippage guard and no other receiver.
pub open spec fn provides(m: ExternalExecuteMsg, coins: Seq<Coin>, slippage: Option<u128>) -> bool {
    match m {
        ExternalExecuteMsg::ProvideLiquidity { assets, slippage_tolerance, receiver } => assets@
            == native_assets(coins) && slippage_tolerance == slippage && receiver.is_none(),
        _ => false,
    }
}

/// Deposit `coins` into the pool `pair`; the shares minted, found by comparing
/// with `init_lp_balance` (the contract's balance of share token `lp_token`
/// now), are later credited to `depositor`.
pub fn add_liquidity(
    trader: &Trader,
    sender: &String,
    pair: String,
    coins: Vec<Coin>,
    slippage_tolerance: Option<u128>,
    depositor: String,
    lp_token: String,
    init_lp_balance: u128,
) -> (r: Result<Response, ContractError>)
    ensures
        !trader.is_owner(sender@) ==> r == Err::<Response, ContractError>(ContractError::Unauthorized),
        trader.is_owner(sender@) ==> r.is_ok() && r.unwrap().messages@.len() == 0
            && r.unwrap().submessages@.len() == 1 && ({
            let s = r.unwrap().submessages@[0];
            &&& s.contract_addr == pair
            &&& provides(s.msg, coins@, slippage_tolerance)
            &&& s.funds == coins
            &&& s.payload == (Continuation::AddLiquidity { depositor, lp_token, init_lp_balance })
        }),
{
    trader.state.require_owner(sender)?;
    let assets = native_asset_list(&coins);
    let call = SubMsg {
        contract_addr: pair,
        msg: ExternalExecuteMsg::ProvideLiquidity { assets, slippage_tolerance, receiver: None },
        funds: coins,
        payload: Continuation::AddLiquidity { depositor, lp_token, init_lp_balance },
    };
    Ok(Response::with_submessage(call))
}

/// The reserves of the pool for a swap of `input_denom`: the reserve that is
/// that native asset (else the second one) comes in, the other goes out; the
/// outgoing asset must be native.
pub fn single_sided_leg(pool: &PoolResponse, input_denom: &String) -> (r: Result<
    SwapLeg,
    ContractError,
>)
    ensures
        pool.assets@.len() < 2 ==> r == Err::<SwapLeg, ContractError>(ContractError::InvalidPool),
        pool.assets@.len() >= 2 ==> ({
            let first_in = is_native(pool.assets@[0].info, input_denom@);
            let rin = if first_in { pool.assets@[0] } else { pool.assets@[1] };
            let rout = if first_in { pool.assets@[1] } else { pool.assets@[0] };
            match rout.info {
                AssetInfo::NativeToken { denom } => r == Ok::<SwapLeg, ContractError>(
                    SwapLeg { reserve_in: rin, reserve_out: rout, ask_denom: denom },
                ),
                AssetInfo::Token { .. } => r == Err::<SwapLeg, ContractError>(
                    ContractError::UnsupportedCw20,
                ),
            }
        }),
{
    if pool.assets.len() < 2 {
        return Err(ContractError::InvalidPool);
    }
    let first_in = match &pool.assets[0].info {
        AssetInfo::NativeToken { denom } => *denom == *input_denom,
        AssetInfo::Token { .. } => false,
    };
    let (rin, rout) = if first_in {
        (pool.assets[0].duplicate(), pool.assets[1].duplicate())
    } else {
        (pool.assets[1].duplicate(), pool.assets[0].duplicate())
    };
    match rout.info.native_denom() {
        Some(denom) => Ok(SwapLeg { reserve_in: rin, reserve_out: rout, ask_denom: denom }),
        None => Err(ContractError::UnsupportedCw20),
    }
}

/// Whether `m` is a one-hop swap from `leg`'s incoming to its outgoing asset,
/// with no guards.
pub open spec fn swaps_leg(m: ExternalExecuteMsg, leg: SwapLeg) -> bool {
    match m {
        ExternalExecuteMsg::ExecuteSwapOperations { operations, minimum_receive, to, max_spread } => {
            &&& operations@ == seq![
                SwapOperation::AstroSwap {
                    offer_asset_info: leg.reserve_in.info,
                    ask_asset_info: leg.reserve_out.info,
                },
            ]
            &&& minimum_receive.is_none() && to.is_none() && max_spread.is_none()
        },
        _ => false,
    }
}

/// Deposit a single coin into a constant-product pool: first swap the part
/// that balances the deposit (see `optimal_swap_amount`, with the pool's fee
/// `fee_bps`), carrying forward the part kept back and `ask_balance`, the
/// contract's balance of the other asset now; the deposit follows when the
/// swap completes.
pub fn add_single_sided_liquidity(
    trader: &Trader,
    sender: &String,
    pair: String,
    input: Coin,
    depositor: String,
    lp_token: String,
    init_lp_balance: u128,
    leg: SwapLeg,
    fee_bps: u16,
    ask_balance: u128,
) -> (r: Result<Response, ContractError>)
    ensures
        !trader.is_owner(sender@) ==> r == Err::<Response, ContractError>(ContractError::Unauthorized),
        trader.is_owner(sender@) && fee_bps > 10000 ==> r == Err::<Response, ContractError>(
            ContractError::InvalidFee,
        ),
        trader.is_owner(sender@) && fee_bps <= 10000 ==> r.is_ok() && r.unwrap().messages@.len() == 0
            && r.unwrap().submessages@.len() == 1 && ({
            let swap = optimal_swap_amount(
                input.amount as nat,
                leg.reserve_in.amount as nat,
                fee_bps as nat,
            );
            let s = r.unwrap().submessages@[0];
            &&& swap <= input.amount
            &&& s.contract_addr@ == pair@
            &&& swaps_leg(s.msg, leg)
            &&& s.funds@ == seq![Coin { denom: input.denom, amount: swap as u128 }]
            &&& match s.payload {
                Continuation::SingleSidedSwap {
                    pair: p,
                    depositor: d,
                    lp_token: l,
                    init_lp_balance: i,
                    coins,
                } => {
                    &&& p@ == pair@ && d == depositor && l == lp_token && i == init_lp_balance
                    &&& coins@ == seq![
                        Coin { denom: input.denom, amount: (input.amount - swap) as u128 },
                        Coin { denom: leg.ask_denom, amount: ask_balance },
                    ]
                },
                _ => false,
            }
        }),
{
    trader.state.require_owner(sender)?;
    if fee_bps > 10000 {
        return Err(ContractError::InvalidFee);
    }
    let swap = calculate_swap_amount(input.amount, leg.reserve_in.amount, fee_bps);
    let mut operations: Vec<SwapOperation> = Vec::new();
    operations.push(
        SwapOperation::AstroSwap {
            offer_asset_info: leg.reserve_in.info.duplicate(),
            ask_asset_info: leg.reserve_out.info.duplicate(),
        },
    );
    let mut funds: Vec<Coin> = Vec::new();
    funds.push(Coin { denom: input.denom.clone(), amount: swap });
    let mut coins: Vec<Coin> = Vec::new();
    coins.push(Coin { denom: input.denom.clone(), amount: input.amount - swap });
    coins.push(Coin { denom: leg.ask_denom.clone(), amount: ask_balance });
    let call = SubMsg {
        contract_addr: pair.clone(),
        msg: ExternalExecuteMsg::ExecuteSwapOperations {
            operations,
            minimum_receive: None,
            to: None,
            max_spread: None,
        },
        funds,
        payload: Continuation::SingleSidedSwap { pair, depositor, lp_token, init_lp_balance, coins },
    };
    let r = Response::with_submessage(call);
    assert(r.submessages@[0].funds@ =~= seq![Coin { denom: input.denom, amount: swap }]);
    Ok(r)
}

} // verus!

verus! {

/// The native denominations among `infos`, in order.
pub open spec fn native_denoms_of(infos: Seq<AssetInfo>) -> Seq<String>
    decreases infos.len(),
{
    if infos.len() == 0 {
        Seq::empty()
    } else {
        let before = native_denoms_of(infos.drop_last());
        match infos.last() {
            AssetInfo::NativeToken { denom } => before.push(denom),
            AssetInfo::Token { .. } => before,
        }
    }
}

/// The native denominations of a pool's assets, whose balances a withdrawal
/// snapshots.
pub fn native_denoms(infos: &Vec<AssetInfo>) -> (r: Vec<String>)
    ensures
        r@ == native_denoms_of(infos@),
{
    let mut out: Vec<String> = Vec::new();
    let mut i: usize = 0;
    while i < infos.len()
        invariant
            i <= infos@.len(),
            out@ == native_denoms_of(infos@.subrange(0, i as int)),
        decreases infos@.len() - i,
    {
        assert(infos@.subrange(0, i + 1).drop_last() =~= infos@.subrange(0, i as int));
        match infos[i].native_denom() {
            Some(d) => out.push(d),
            None => {},
        }
        i = i + 1;
    }
    assert(infos@.subrange(0, i as int) =~= infos@);
    out
}

/// Whether `m` hands `amount` shares to `pair` with an order to withdraw.
pub open spec fn withdraws(m: ExternalExecuteMsg, pair: String, amount: u128) -> bool {
    match m {
        ExternalExecuteMsg::Send { contract, amount: a, msg } => contract == pair && a == amount
            && match *msg {
            ExternalExecuteMsg::WithdrawLiquidity { assets } => assets@.len() == 0,
            _ => false,
        },
        _ => false,
    }
}

/// Withdraw `amount` shares of `lp_token` held for `receiver` from the pool
/// `pair`: debit the ledger now, and send the two underlying assets, found by
/// comparing with `snapshots` (the contract's balances of the pool's native
/// assets now), to `receiver` on `chain_id` when the withdrawal completes.
pub fn remove_liquidity(
    trader: &mut Trader,
    sender: &String,
    chain_id: String,
    pair: String,
    amount: u128,
    receiver: String,
    lp_token: String,
    snapshots: Vec<Coin>,
) -> (r: Result<Response, ContractError>)
    requires
        old(trader).wf(),
    ensures
        final(trader).wf(),
        r.is_err() ==> *final(trader) == *old(trader),
        !old(trader).is_owner(sender@) ==> r == Err::<Response, ContractError>(
            ContractError::Unauthorized,
        ),
        old(trader).is_owner(sender@) && snapshots@.len() != 2 ==> r == Err::<
            Response,
            ContractError,
        >(ContractError::UnsupportedCw20),
        old(trader).is_owner(sender@) && snapshots@.len() == 2 && old(trader).lp_balances.balance_of(receiver@, lp_token@) < amount ==> r == Err::<
            Response,
            ContractError,
        >(ContractError::InsufficientLiquidity),
        old(trader).is_owner(sender@) && snapshots@.len() == 2 && old(trader).lp_balances.balance_of(receiver@, lp_token@) >= amount ==> {
            &&& r.is_ok()
            &&& final(trader).lp_balances@ == debited(
                old(trader).lp_balances@,
                (receiver@, lp_token@),
                amount as nat,
            )
            &&& final(trader).state == old(trader).state
            &&& final(trader).chain_settings == old(trader).chain_settings
            &&& final(trader).message_timestamps == old(trader).message_timestamps
            &&& r.unwrap().messages@.len() == 0
            &&& r.unwrap().submessages@.len() == 1
            &&& r.unwrap().submessages@[0].contract_addr@ == lp_token@
            &&& withdraws(r.unwrap().submessages@[0].msg, pair, amount)
            &&& r.unwrap().submessages@[0].funds@.len() == 0
            &&& r.unwrap().submessages@[0].payload == (Continuation::RemoveLiquidity {
                coins: snapshots,
                receiver,
                chain_id,
                lp_token,
            })
        },
{
    trader.state.require_owner(sender)?;
    if snapshots.len() != 2 {
        return Err(ContractError::UnsupportedCw20);
    }
    trader.lp_balances.debit_checked(&receiver, &lp_token, amount)?;
    let call = SubMsg {
        contract_addr: lp_token.clone(),
        msg: ExternalExecuteMsg::Send {
            contract: pair,
            amount,
            msg: Box::new(ExternalExecuteMsg::WithdrawLiquidity { assets: Vec::new() }),
        },
        funds: Vec::new(),
        payload: Continuation::RemoveLiquidity { coins: snapshots, receiver, chain_id, lp_token },
    };
    Ok(Response::with_submessage(call))
}

} // verus!

verus! {

/// Whether `m` runs remote job `job_id` with calldata `payload`.
pub open spec fn runs_job(m: PalomaMsg, job_id: Seq<char>, payload: Seq<u8>) -> bool {
    match m {
        PalomaMsg::SchedulerMsg { execute_job } => execute_job.job_id@ == job_id
            && execute_job.payload@ == payload,
        _ => false,
    }
}

/// Whether `r` is exactly one job, `payload` on the main job of `chain_id`.
pub open spec fn schedules(trader: Trader, r: Response, chain_id: Seq<char>, payload: Seq<u8>) -> bool {
    &&& r.submessages@.len() == 0
    &&& r.messages@.len() == 1
    &&& runs_job(r.messages@[0], trader.chain_settings@[chain_id].main_job_id@, payload)
}

/// Whether `m` sends `amount` to `to` on chain `chain`.
pub open spec fn sends(m: PalomaMsg, to: Seq<char>, amount: Seq<char>, chain: Seq<char>) -> bool {
    match m {
        PalomaMsg::SkywayMsg { send_tx: Some(tx), cancel_tx: None } => {
            &&& tx.remote_chain_destination_address@ == to
            &&& tx.amount@ == amount
            &&& tx.chain_reference_id@ == chain
        },
        _ => false,
    }
}

fn scheduler_job(trader: &Trader, chain_id: &String, payload: Vec<u8>) -> (r: Result<
    Response,
    ContractError,
>)
    requires
        trader.wf(),
    ensures
        !trader.chain_settings@.contains_key(chain_id@) ==> r == Err::<Response, ContractError>(
            ContractError::ChainNotConfigured,
        ),
        trader.chain_settings@.contains_key(chain_id@) ==> r.is_ok() && schedules(
            *trader,
            r.unwrap(),
            chain_id@,
            payload@,
        ),
{
    let setting = trader.chain_setting(chain_id)?;
    let job = ExecuteJob { job_id: setting.main_job_id, payload };
    Ok(Response::with_message(PalomaMsg::SchedulerMsg { execute_job: job }))
}

/// Tell the remote contract on `chain_id` to take this chain as its caller.
pub fn set_paloma(trader: &Trader, sender: &String, chain_id: String) -> (r: Result<
    Response,
    ContractError,
>)
    requires
        trader.wf(),
    ensures
        !trader.is_owner(sender@) ==> r == Err::<Response, ContractError>(ContractError::Unauthorized),
        trader.is_owner(sender@) && !trader.chain_settings@.contains_key(chain_id@) ==> r == Err::<
            Response,
            ContractError,
        >(ContractError::ChainNotConfigured),
        trader.is_owner(sender@) && trader.chain_settings@.contains_key(chain_id@) ==> r.is_ok()
            && schedules(*trader, r.unwrap(), chain_id@, call_data("set_paloma"@, seq![])),
{
    trader.state.require_owner(sender)?;
    let args: Vec<AbiArg> = Vec::new();
    let payload = encode_call("set_paloma", &args);
    assert(crate::abi::abi_values(args@) =~= seq![]);
    scheduler_job(trader, &chain_id, payload)
}

/// A remote update that takes one address argument.
fn address_update(trader: &Trader, sender: &String, chain_id: &String, function: &str, address: &String) -> (r: Result<
    Response,
    ContractError,
>)
    requires
        trader.wf(),
    ensures
        !trader.is_owner(sender@) ==> r == Err::<Response, ContractError>(ContractError::Unauthorized),
        trader.is_owner(sender@) && evm_address(address@).is_none() ==> r == Err::<
            Response,
            ContractError,
        >(ContractError::InvalidAddress),
        trader.is_owner(sender@) && evm_address(address@).is_some() && !trader.chain_settings@.contains_key(chain_id@)
            ==> r == Err::<Response, ContractError>(ContractError::ChainNotConfigured),
        trader.is_owner(sender@) && evm_address(address@).is_some() && trader.chain_settings@.contains_key(chain_id@)
            ==> r.is_ok() && schedules(
            *trader,
            r.unwrap(),
            chain_id@,
            call_data(function@, seq![AbiValue::Address(evm_address(address@).unwrap())]),
        ),
{
    trader.state.require_owner(sender)?;
    let a = match parse_evm_address(address) {
        Some(a) => a,
        None => return Err(ContractError::InvalidAddress),
    };
    let mut args: Vec<AbiArg> = Vec::new();
    args.push(AbiArg::Address(a));
    let payload = encode_call(function, &args);
    assert(crate::abi::abi_values(args@) =~= seq![AbiValue::Address(evm_address(address@).unwrap())]);
    scheduler_job(trader, chain_id, payload)
}

/// A remote update that takes one 256-bit number, as big-endian bytes.
fn number_update(trader: &Trader, sender: &String, chain_id: &String, function: &str, number: [u8; 32]) -> (r: Result<
    Response,
    ContractError,
>)
    requires
        trader.wf(),
    ensures
        !trader.is_owner(sender@) ==> r == Err::<Response, ContractError>(ContractError::Unauthorized),
        trader.is_owner(sender@) && !trader.chain_settings@.contains_key(chain_id@) ==> r == Err::<
            Response,
            ContractError,
        >(ContractError::ChainNotConfigured),
        trader.is_owner(sender@) && trader.chain_settings@.contains_key(chain_id@) ==> r.is_ok()
            && schedules(
            *trader,
            r.unwrap(),
            chain_id@,
            call_data(function@, seq![AbiValue::Uint(be_value(number@))]),
        ),
{
    trader.state.require_owner(sender)?;
    let mut args: Vec<AbiArg> = Vec::new();
    args.push(AbiArg::Word(number));
    let payload = encode_call(function, &args);
    assert(crate::abi::abi_values(args@) =~= seq![AbiValue::Uint(be_value(number@))]);
    scheduler_job(trader, chain_id, payload)
}

/// Point the remote contract's refund wallet at `new_refund_wallet`.
pub fn update_refund_wallet(trader: &Trader, sender: &String, chain_id: String, new_refund_wallet: String) -> (r: Result<
    Response,
    ContractError,
>)
    requires
        trader.wf(),
    ensures
        !trader.is_owner(sender@) ==> r == Err::<Response, ContractError>(ContractError::Unauthorized),
        trader.is_owner(sender@) && evm_address(new_refund_wallet@).is_none() ==> r == Err::<
            Response,
            ContractError,
        >(ContractError::InvalidAddress),
        trader.is_owner(sender@) && evm_address(new_refund_wallet@).is_some() && !trader.chain_settings@.contains_key(chain_id@)
            ==> r == Err::<Response, ContractError>(ContractError::ChainNotConfigured),
        trader.is_owner(sender@) && evm_address(new_refund_wallet@).is_some() && trader.chain_settings@.contains_key(chain_id@)
            ==> r.is_ok() && schedules(
            *trader,
            r.unwrap(),
            chain_id@,
            call_data("update_refund_wallet"@, seq![AbiValue::Address(evm_address(new_refund_wallet@).unwrap())]),
        ),
{
    address_update(trader, sender, &chain_id, "update_refund_wallet", &new_refund_wallet)
}

/// Set the remote contract's service-fee collector to `new_service_fee_collector`.
pub fn update_service_fee_collector(trader: &Trader, sender: &String, chain_id: String, new_service_fee_collector: String) -> (r: Result<
    Response,
    ContractError,
>)
    requires
        trader.wf(),
    ensures
        !trader.is_owner(sender@) ==> r == Err::<Response, ContractError>(ContractError::Unauthorized),
        trader.is_owner(sender@) && evm_address(new_service_fee_collector@).is_none() ==> r == Err::<
            Response,
            ContractError,
        >(ContractError::InvalidAddress),
        trader.is_owner(sender@) && evm_address(new_service_fee_collector@).is_some() && !trader.chain_settings@.contains_key(chain_id@)
            ==> r == Err::<Response, ContractError>(ContractError::ChainNotConfigured),
        trader.is_owner(sender@) && evm_address(new_service_fee_collector@).is_some() && trader.chain_settings@.contains_key(chain_id@)
            ==> r.is_ok() && schedules(
            *trader,
            r.unwrap(),
            chain_id@,
            call_data("update_service_fee_collector"@, seq![AbiValue::Address(evm_address(new_service_fee_collector@).unwrap())]),
        ),
{
    address_update(trader, sender, &chain_id, "update_service_fee_collector", &new_service_fee_collector)
}

/// Set the remote contract's gas fee.
pub fn update_gas_fee(trader: &Trader, sender: &String, chain_id: String, new_gas_fee: [u8; 32]) -> (r: Result<
    Response,
    ContractError,
>)
    requires
        trader.wf(),
    ensures
        !trader.is_owner(sender@) ==> r == Err::<Response, ContractError>(ContractError::Unauthorized),
        trader.is_owner(sender@) && !trader.chain_settings@.contains_key(chain_id@) ==> r == Err::<
            Response,
            ContractError,
        >(ContractError::ChainNotConfigured),
        trader.is_owner(sender@) && trader.chain_settings@.contains_key(chain_id@) ==> r.is_ok()
            && schedules(*trader, r.unwrap(), chain_id@, call_data("update_gas_fee"@, seq![AbiValue::Uint(be_value(new_gas_fee@))])),
{
    number_update(trader, sender, &chain_id, "update_gas_fee", new_gas_fee)
}

/// Set the remote contract's service fee.
pub fn update_service_fee(trader: &Trader, sender: &String, chain_id: String, new_service_fee: [u8; 32]) -> (r: Result<
    Response,
    ContractError,
>)
    requires
        trader.wf(),
    ensures
        !trader.is_owner(sender@) ==> r == Err::<Response, ContractError>(ContractError::Unauthorized),
        trader.is_owner(sender@) && !trader.chain_settings@.contains_key(chain_id@) ==> r == Err::<
            Response,
            ContractError,
        >(ContractError::ChainNotConfigured),
        trader.is_owner(sender@) && trader.chain_settings@.contains_key(chain_id@) ==> r.is_ok()
            && schedules(*trader, r.unwrap(), chain_id@, call_data("update_service_fee"@, seq![AbiValue::Uint(be_value(new_service_fee@))])),
{
    number_update(trader, sender, &chain_id, "update_service_fee", new_service_fee)
}

} // verus!

verus! {

/// The calldata of a remote token transfer: parsed token addresses, the
/// recipient, the amounts and the nonce.
pub open spec fn send_token_call(tokens: Seq<String>, to: Seq<char>, amounts: Seq<u128>, nonce: u128) -> Seq<u8> {
    call_data(
        "send_token"@,
        seq![
            AbiValue::Addresses(tokens.map_values(|t: String| evm_address(t@).unwrap())),
            AbiValue::Address(evm_address(to).unwrap()),
            AbiValue::Uints(amounts.map_values(|n: u128| n as nat)),
            AbiValue::Uint(nonce as nat),
        ],
    )
}

pub open spec fn all_addresses(texts: Seq<String>) -> bool {
    forall|i: int| 0 <= i < texts.len() ==> evm_address(#[trigger] texts[i]@).is_some()
}

/// Transfer `amounts` of `tokens` to `to` from the settlement contract on
/// `chain_id`, under replay nonce `nonce`, at time `now` (seconds). A nonce is
/// sent again only once the retry delay has passed since its last attempt.
pub fn send_token(
    trader: &mut Trader,
    sender: &String,
    chain_id: String,
    tokens: Vec<String>,
    to: String,
    amounts: Vec<u128>,
    nonce: u128,
    now: u64,
) -> (r: Result<Response, ContractError>)
    requires
        old(trader).wf(),
    ensures
        final(trader).wf(),
        r.is_err() ==> *final(trader) == *old(trader),
        !old(trader).is_owner(sender@) ==> r == Err::<Response, ContractError>(
            ContractError::Unauthorized,
        ),
        old(trader).is_owner(sender@) && !(all_addresses(tokens@) && evm_address(to@).is_some())
            ==> r == Err::<Response, ContractError>(ContractError::InvalidAddress),
        old(trader).is_owner(sender@) && all_addresses(tokens@) && evm_address(to@).is_some()
            && !attempt_allowed(
            old(trader).message_timestamps@,
            (chain_id@, nonce),
            now,
            old(trader).state.retry_delay,
        ) ==> r == Err::<Response, ContractError>(ContractError::Pending),
        old(trader).is_owner(sender@) && all_addresses(tokens@) && evm_address(to@).is_some()
            && attempt_allowed(
            old(trader).message_timestamps@,
            (chain_id@, nonce),
            now,
            old(trader).state.retry_delay,
        ) && !old(trader).chain_settings@.contains_key(chain_id@) ==> r == Err::<
            Response,
            ContractError,
        >(ContractError::ChainNotConfigured),
        old(trader).is_owner(sender@) && all_addresses(tokens@) && evm_address(to@).is_some()
            && attempt_allowed(
            old(trader).message_timestamps@,
            (chain_id@, nonce),
            now,
            old(trader).state.retry_delay,
        ) && old(trader).chain_settings@.contains_key(chain_id@) ==> {
            &&& r.is_ok()
            &&& schedules(
                *old(trader),
                r.unwrap(),
                chain_id@,
                send_token_call(tokens@, to@, amounts@, nonce),
            )
            &&& final(trader).message_timestamps@ == old(trader).message_timestamps@.insert(
                (chain_id@, nonce),
                now,
            )
            &&& final(trader).state == old(trader).state
            &&& final(trader).chain_settings == old(trader).chain_settings
            &&& final(trader).lp_balances == old(trader).lp_balances
        },
{
    trader.state.require_owner(sender)?;
    let token_addresses = match parse_evm_addresses(&tokens) {
        Some(v) => v,
        None => return Err(ContractError::InvalidAddress),
    };
    let to_address = match parse_evm_address(&to) {
        Some(a) => a,
        None => return Err(ContractError::InvalidAddress),
    };
    let ghost parsed = tokens@.map_values(|t: String| evm_address(t@).unwrap());
    assert(token_addresses@.map_values(|b: [u8; 20]| b@) =~= parsed);
    let mut args: Vec<AbiArg> = Vec::new();
    args.push(AbiArg::Addresses(token_addresses));
    args.push(AbiArg::Address(to_address));
    args.push(AbiArg::Uints(amounts));
    args.push(AbiArg::Uint(nonce));
    let payload = encode_call("send_token", &args);
    assert(crate::abi::abi_values(args@) =~= seq![
        AbiValue::Addresses(parsed),
        AbiValue::Address(evm_address(to@).unwrap()),
        AbiValue::Uints(amounts@.map_values(|n: u128| n as nat)),
        AbiValue::Uint(nonce as nat),
    ]);
    let retry_delay = trader.state.retry_delay;
    match trader.message_timestamps.last_attempt(&chain_id, nonce) {
        Some(last) => {
            if (now as u128) < (last as u128) + (retry_delay as u128) {
                return Err(ContractError::Pending);
            }
        },
        None => {},
    }
    let response = scheduler_job(trader, &chain_id, payload)?;
    let passed = trader.message_timestamps.allow_attempt(&chain_id, nonce, now, retry_delay);
    assert(passed.is_ok());
    Ok(response)
}

/// Send each of `amounts` (amount and denomination, as text) to `recipient`
/// on `chain_id`.
pub fn send_to_evm(trader: &Trader, sender: &String, chain_id: String, amounts: Vec<String>, recipient: String) -> (r: Result<
    Response,
    ContractError,
>)
    ensures
        !trader.is_owner(sender@) ==> r == Err::<Response, ContractError>(ContractError::Unauthorized),
        trader.is_owner(sender@) ==> {
            &&& r.is_ok()
            &&& r.unwrap().submessages@.len() == 0
            &&& r.unwrap().messages@.len() == amounts@.len()
            &&& forall|i: int|
                0 <= i < amounts@.len() ==> sends(
                    #[trigger] r.unwrap().messages@[i],
                    recipient@,
                    amounts@[i]@,
                    chain_id@,
                )
        },
{
    trader.state.require_owner(sender)?;
    let mut messages: Vec<PalomaMsg> = Vec::new();
    let mut i: usize = 0;
    while i < amounts.len()
        invariant
            i <= amounts@.len(),
            messages@.len() == i,
            forall|j: int|
                0 <= j < i ==> sends(#[trigger] messages@[j], recipient@, amounts@[j]@, chain_id@),
        decreases amounts@.len() - i,
    {
        let tx = SendTx {
            remote_chain_destination_address: recipient.clone(),
            amount: amounts[i].clone(),
            chain_reference_id: chain_id.clone(),
        };
        messages.push(PalomaMsg::SkywayMsg { send_tx: Some(tx), cancel_tx: None });
        i = i + 1;
    }
    Ok(Response { submessages: Vec::new(), messages })
}

/// Cancel the earlier remote send `transaction_id`.
pub fn cancel_tx(trader: &Trader, sender: &String, transaction_id: u64) -> (r: Result<
    Response,
    ContractError,
>)
    ensures
        !trader.is_owner(sender@) ==> r == Err::<Response, ContractError>(ContractError::Unauthorized),
        trader.is_owner(sender@) ==> r.is_ok() && r.unwrap().submessages@.len() == 0
            && r.unwrap().messages@ == seq![
            PalomaMsg::SkywayMsg { send_tx: None, cancel_tx: Some(CancelTx { transaction_id }) },
        ],
{
    trader.state.require_owner(sender)?;
    Ok(
        Response::with_message(
            PalomaMsg::SkywayMsg { send_tx: None, cancel_tx: Some(CancelTx { transaction_id }) },
        ),
    )
}

/// Store the remote job identifiers of `chain_id`.
pub fn set_chain_setting(
    trader: &mut Trader,
    sender: &String,
    chain_id: String,
    compass_job_id: String,
    main_job_id: String,
) -> (r: Result<Response, ContractError>)
    requires
        old(trader).wf(),
    ensures
        final(trader).wf(),
        r.is_ok() == old(trader).is_owner(sender@),
        r.is_err() ==> r == Err::<Response, ContractError>(ContractError::Unauthorized) && *final(trader) == *old(trader),
        r.is_ok() ==> {
            &&& final(trader).chain_settings@ == old(trader).chain_settings@.insert(
                chain_id@,
                ChainSetting { compass_job_id, main_job_id },
            )
            &&& final(trader).state == old(trader).state
            &&& final(trader).lp_balances == old(trader).lp_balances
            &&& final(trader).message_timestamps == old(trader).message_timestamps
            &&& r.unwrap().submessages@.len() == 0 && r.unwrap().messages@.len() == 0
        },
{
    trader.state.require_owner(sender)?;
    trader.chain_settings.set(&chain_id, ChainSetting { compass_job_id, main_job_id });
    Ok(Response::new())
}

/// Change the retry delay, where one is given.
pub fn update_config(trader: &mut Trader, sender: &String, retry_delay: Option<u64>) -> (r: Result<
    Response,
    ContractError,
>)
    requires
        old(trader).wf(),
    ensures
        final(trader).wf(),
        r.is_ok() == old(trader).is_owner(sender@),
        r.is_err() ==> r == Err::<Response, ContractError>(ContractError::Unauthorized) && *final(trader) == *old(trader),
        r.is_ok() ==> {
            &&& final(trader).state.retry_delay == match retry_delay {
                Some(d) => d,
                None => old(trader).state.retry_delay,
            }
            &&& final(trader).state.owners == old(trader).state.owners
            &&& final(trader).chain_settings == old(trader).chain_settings
            &&& final(trader).lp_balances == old(trader).lp_balances
            &&& final(trader).message_timestamps == old(trader).message_timestamps
            &&& r.unwrap().submessages@.len() == 0 && r.unwrap().messages@.len() == 0
        },
{
    trader.state.require_owner(sender)?;
    match retry_delay {
        Some(d) => {
            trader.state.retry_delay = d;
        },
        None => {},
    }
    Ok(Response::new())
}

/// Add each of `owners` that is not an owner yet.
pub fn add_owner(trader: &mut Trader, sender: &String, owners: Vec<String>) -> (r: Result<
    Response,
    ContractError,
>)
    requires
        old(trader).wf(),
    ensures
        final(trader).wf(),
        r.is_ok() == old(trader).is_owner(sender@),
        r.is_err() ==> r == Err::<Response, ContractError>(ContractError::Unauthorized) && *final(trader) == *old(trader),
        r.is_ok() ==> {
            &&& final(trader).state.owners_view() == with_owners(
                old(trader).state.owners_view(),
                owners@.map_values(|o: String| o@),
            )
            &&& final(trader).state.retry_delay == old(trader).state.retry_delay
            &&& final(trader).chain_settings == old(trader).chain_settings
            &&& final(trader).lp_balances == old(trader).lp_balances
            &&& final(trader).message_timestamps == old(trader).message_timestamps
            &&& r.unwrap().submessages@.len() == 0 && r.unwrap().messages@.len() == 0
        },
{
    trader.state.require_owner(sender)?;
    trader.state.add_owners(&owners);
    Ok(Response::new())
}

/// Remove `owner` from the owner set; it must be an owner. The set may
/// become empty.
pub fn remove_owner(trader: &mut Trader, sender: &String, owner: String) -> (r: Result<
    Response,
    ContractError,
>)
    requires
        old(trader).wf(),
    ensures
        final(trader).wf(),
        r.is_err() ==> *final(trader) == *old(trader),
        !old(trader).is_owner(sender@) ==> r == Err::<Response, ContractError>(
            ContractError::Unauthorized,
        ),
        old(trader).is_owner(sender@) && !old(trader).is_owner(owner@) ==> r == Err::<
            Response,
            ContractError,
        >(ContractError::OwnerNotFound),
        old(trader).is_owner(sender@) && old(trader).is_owner(owner@) ==> {
            &&& r.is_ok()
            &&& final(trader).state.owners_view() == old(trader).state.owners_view().filter(
                |o: Seq<char>| o != owner@,
            )
            &&& final(trader).state.retry_delay == old(trader).state.retry_delay
            &&& final(trader).chain_settings == old(trader).chain_settings
            &&& final(trader).lp_balances == old(trader).lp_balances
            &&& final(trader).message_timestamps == old(trader).message_timestamps
            &&& r.unwrap().submessages@.len() == 0 && r.unwrap().messages@.len() == 0
        },
{
    trader.state.require_owner(sender)?;
    trader.state.remove_owner(&owner)?;
    Ok(Response::new())
}

} // verus!

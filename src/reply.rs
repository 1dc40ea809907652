use vstd::prelude::*;
use crate::contract::{Continuation, Response, SubMsg, Trader};
use crate::error::ContractError;
use crate::execute::{provides, sends};
use crate::ledger::{credited, debited_floor};
use crate::msg::{Asset, AssetInfo, Coin, ExternalExecuteMsg, PalomaMsg, SendTx};

verus! {

pub open spec fn digit_char(d: nat) -> char {
    seq!['0', '1', '2', '3', '4', '5', '6', '7', '8', '9'][d as int]
}

/// The decimal digits of `n`, without leading zeros.
pub open spec fn decimal_text(n: nat) -> Seq<char>
    decreases n,
{
    if n < 10 {
        seq![digit_char(n)]
    } else {
        decimal_text(n / 10).push(digit_char(n % 10))
    }
}

/// How an amount of a native asset is written in a remote send: its decimal
/// digits, then its denomination.
pub open spec fn coin_text_of(amount: nat, denom: Seq<char>) -> Seq<char> {
    decimal_text(amount) + denom
}

/// Relies on the `Display` of cosmwasm_std::Coin: the amount (a Uint128,
/// printed as std prints a u128) immediately followed by the denomination.
#[verifier::external_body]
fn coin_text(amount: u128, denom: &String) -> (r: String)
    ensures
        r@ == coin_text_of(amount as nat, denom@),
{
    cosmwasm_std::Coin::new(amount, denom.as_str()).to_string()
}

fn send_message(to: &String, amount: String, chain_id: &String) -> (r: PalomaMsg)
    ensures
        sends(r, to@, amount@, chain_id@),
{
    let tx = SendTx {
        remote_chain_destination_address: to.clone(),
        amount,
        chain_reference_id: chain_id.clone(),
    };
    PalomaMsg::SkywayMsg { send_tx: Some(tx), cancel_tx: None }
}

/// A withdrawal settled: both underlying assets gained are sent on.
pub open spec fn withdrawal_settled(
    r: Response,
    coins: Seq<Coin>,
    receiver: Seq<char>,
    chain_id: Seq<char>,
    balances: Seq<u128>,
) -> bool {
    &&& r.submessages@.len() == 0
    &&& r.messages@.len() == 2
    &&& sends(
        r.messages@[0],
        receiver,
        coin_text_of((balances[0] - coins[0].amount) as nat, coins[0].denom@),
        chain_id,
    )
    &&& sends(
        r.messages@[1],
        receiver,
        coin_text_of((balances[1] - coins[1].amount) as nat, coins[1].denom@),
        chain_id,
    )
}

/// Completion of a withdrawal: `balances` are the contract's balances of the
/// two snapshotted assets now. Each must have grown; the gains go to
/// `receiver` on `chain_id`.
pub fn remove_liquidity(coins: &Vec<Coin>, receiver: &String, chain_id: &String, balances: &Vec<u128>) -> (r: Result<
    Response,
    ContractError,
>)
    ensures
        (coins@.len() != 2 || balances@.len() != 2) ==> r == Err::<Response, ContractError>(
            ContractError::InvalidPayload,
        ),
        coins@.len() == 2 && balances@.len() == 2 && (balances@[0] <= coins@[0].amount
            || balances@[1] <= coins@[1].amount) ==> r == Err::<Response, ContractError>(
            ContractError::NotEnoughOutput,
        ),
        coins@.len() == 2 && balances@.len() == 2 && balances@[0] > coins@[0].amount
            && balances@[1] > coins@[1].amount ==> r.is_ok() && withdrawal_settled(
            r.unwrap(),
            coins@,
            receiver@,
            chain_id@,
            balances@,
        ),
{
    if coins.len() != 2 || balances.len() != 2 {
        return Err(ContractError::InvalidPayload);
    }
    if balances[0] <= coins[0].amount || balances[1] <= coins[1].amount {
        return Err(ContractError::NotEnoughOutput);
    }
    let first = coin_text(balances[0] - coins[0].amount, &coins[0].denom);
    let second = coin_text(balances[1] - coins[1].amount, &coins[1].denom);
    let mut messages: Vec<PalomaMsg> = Vec::new();
    messages.push(send_message(receiver, first, chain_id));
    messages.push(send_message(receiver, second, chain_id));
    Ok(Response { submessages: Vec::new(), messages })
}

/// A swap settled: the output gained is sent on.
pub open spec fn swap_settled(r: Response, recipient: Seq<char>, chain_id: Seq<char>, coin: Coin, balance: u128) -> bool {
    &&& r.submessages@.len() == 0
    &&& r.messages@.len() == 1
    &&& sends(
        r.messages@[0],
        recipient,
        coin_text_of((balance - coin.amount) as nat, coin.denom@),
        chain_id,
    )
}

/// Completion of a swap: `balance` is the contract's balance of the asked
/// asset now. It must exceed the snapshot in `coin`; the gain goes to
/// `recipient` on `chain_id`.
pub fn execute_reply(recipient: &String, chain_id: &String, coin: &Coin, balance: u128) -> (r: Result<
    Response,
    ContractError,
>)
    ensures
        balance <= coin.amount ==> r == Err::<Response, ContractError>(ContractError::NotEnoughOutput),
        balance > coin.amount ==> r.is_ok() && swap_settled(
            r.unwrap(),
            recipient@,
            chain_id@,
            *coin,
            balance,
        ),
{
    if balance <= coin.amount {
        return Err(ContractError::NotEnoughOutput);
    }
    let text = coin_text(balance - coin.amount, &coin.denom);
    Ok(Response::with_message(send_message(recipient, text, chain_id)))
}

/// Completion of a deposit: `lp_balance` is the contract's share balance now.
/// It must exceed `init_lp_balance`; the shares gained are credited to
/// `depositor`.
pub fn add_liquidity(
    trader: &mut Trader,
    depositor: &String,
    lp_token: &String,
    init_lp_balance: u128,
    lp_balance: u128,
) -> (r: Result<Response, ContractError>)
    requires
        old(trader).wf(),
    ensures
        final(trader).wf(),
        r.is_err() ==> *final(trader) == *old(trader),
        lp_balance <= init_lp_balance ==> r == Err::<Response, ContractError>(
            ContractError::NotEnoughOutput,
        ),
        lp_balance > init_lp_balance && old(trader).lp_balances.balance_of(depositor@, lp_token@) + (
        lp_balance - init_lp_balance) > u128::MAX ==> r == Err::<Response, ContractError>(
            ContractError::Overflow,
        ),
        lp_balance > init_lp_balance && old(trader).lp_balances.balance_of(depositor@, lp_token@) + (
        lp_balance - init_lp_balance) <= u128::MAX ==> {
            &&& r.is_ok()
            &&& r.unwrap().submessages@.len() == 0 && r.unwrap().messages@.len() == 0
            &&& final(trader).lp_balances@ == credited(
                old(trader).lp_balances@,
                (depositor@, lp_token@),
                (lp_balance - init_lp_balance) as nat,
            )
            &&& final(trader).state == old(trader).state
            &&& final(trader).chain_settings == old(trader).chain_settings
            &&& final(trader).message_timestamps == old(trader).message_timestamps
        },
{
    if lp_balance <= init_lp_balance {
        return Err(ContractError::NotEnoughOutput);
    }
    let minted = lp_balance - init_lp_balance;
    let held = trader.lp_balances.balance(depositor, lp_token);
    if held > u128::MAX - minted {
        return Err(ContractError::Overflow);
    }
    trader.lp_balances.credit(depositor, lp_token, minted);
    Ok(Response::new())
}

/// The swap ahead of a deposit settled: the deposit of the kept part and the
/// swap output is issued.
pub open spec fn deposit_issued(
    r: Response,
    pair: Seq<char>,
    depositor: String,
    lp_token: String,
    init_lp_balance: u128,
    coins: Seq<Coin>,
    balance: u128,
) -> bool {
    let deposit = seq![coins[0], Coin { denom: coins[1].denom, amount: (balance - coins[1].amount) as u128 }];
    &&& r.messages@.len() == 0
    &&& r.submessages@.len() == 1
    &&& r.submessages@[0].contract_addr@ == pair
    &&& provides(r.submessages@[0].msg, deposit, None)
    &&& r.submessages@[0].funds@ == deposit
    &&& r.submessages@[0].payload == (Continuation::AddLiquidity { depositor, lp_token, init_lp_balance })
}

/// Completion of the swap ahead of a single-asset deposit: `balance` is the
/// contract's balance of the swapped-to asset now. It must exceed the
/// snapshot in `coins[1]`; then the kept part and the gain are deposited.
pub fn exchange_for_single_liqudity(
    pair: &String,
    depositor: String,
    lp_token: String,
    init_lp_balance: u128,
    coins: &Vec<Coin>,
    balance: u128,
) -> (r: Result<Response, ContractError>)
    ensures
        coins@.len() != 2 ==> r == Err::<Response, ContractError>(ContractError::InvalidPayload),
        coins@.len() == 2 && balance <= coins@[1].amount ==> r == Err::<Response, ContractError>(
            ContractError::NotEnoughOutput,
        ),
        coins@.len() == 2 && balance > coins@[1].amount ==> r.is_ok() && deposit_issued(
            r.unwrap(),
            pair@,
            depositor,
            lp_token,
            init_lp_balance,
            coins@,
            balance,
        ),
{
    if coins.len() != 2 {
        return Err(ContractError::InvalidPayload);
    }
    if balance <= coins[1].amount {
        return Err(ContractError::NotEnoughOutput);
    }
    let output = Coin { denom: coins[1].denom.clone(), amount: balance - coins[1].amount };
    let mut deposit: Vec<Coin> = Vec::new();
    deposit.push(coins[0].duplicate());
    deposit.push(output.duplicate());
    let mut assets: Vec<Asset> = Vec::new();
    assets.push(Asset { info: AssetInfo::NativeToken { denom: coins[0].denom.clone() }, amount: coins[0].amount });
    assets.push(Asset { info: AssetInfo::NativeToken { denom: output.denom.clone() }, amount: output.amount });
    let ghost expected = seq![coins@[0], Coin { denom: coins@[1].denom, amount: (balance - coins@[1].amount) as u128 }];
    assert(deposit@ =~= expected);
    assert(assets@ =~= crate::execute::native_assets(expected));
    let call = SubMsg {
        contract_addr: pair.clone(),
        msg: ExternalExecuteMsg::ProvideLiquidity { assets, slippage_tolerance: None, receiver: None },
        funds: deposit,
        payload: Continuation::AddLiquidity { depositor, lp_token, init_lp_balance },
    };
    Ok(Response::with_submessage(call))
}

/// What a completion does, by flow, given the balances observed now: both
/// snapshotted assets for a withdrawal, else the one tracked asset.
pub open spec fn reply_outcome(
    old_trader: Trader,
    new_trader: Trader,
    id: u64,
    payload: Continuation,
    balances: Seq<u128>,
    r: Result<Response, ContractError>,
) -> bool {
    if id != payload.tag() {
        r == Err::<Response, ContractError>(ContractError::UnknownReply)
    } else {
        match payload {
            Continuation::RemoveLiquidity { coins, receiver, chain_id, .. } => {
                &&& new_trader == old_trader
                &&& (coins@.len() != 2 || balances.len() != 2) ==> r == Err::<Response, ContractError>(ContractError::InvalidPayload)
                &&& (coins@.len() == 2 && balances.len() == 2) ==> (r.is_ok() <==> (
                    balances[0] > coins@[0].amount && balances[1] > coins@[1].amount))
                &&& r.is_ok() ==> withdrawal_settled(r.unwrap(), coins@, receiver@, chain_id@, balances)
            },
            Continuation::Exchange { recipient, chain_id, coin } => {
                &&& new_trader == old_trader
                &&& balances.len() != 1 ==> r == Err::<Response, ContractError>(ContractError::InvalidPayload)
                &&& balances.len() == 1 ==> (r.is_ok() <==> balances[0] > coin.amount)
                &&& r.is_ok() ==> swap_settled(r.unwrap(), recipient@, chain_id@, coin, balances[0])
            },
            Continuation::AddLiquidity { depositor, lp_token, init_lp_balance } => {
                &&& r.is_err() ==> new_trader == old_trader
                &&& balances.len() != 1 ==> r == Err::<Response, ContractError>(ContractError::InvalidPayload)
                &&& balances.len() == 1 ==> (r.is_ok() <==> (balances[0] > init_lp_balance
                    && old_trader.lp_balances.balance_of(depositor@, lp_token@) + (balances[0] - init_lp_balance) <= u128::MAX))
                &&& r.is_ok() ==> new_trader.lp_balances@ == credited(
                    old_trader.lp_balances@,
                    (depositor@, lp_token@),
                    (balances[0] - init_lp_balance) as nat,
                ) && new_trader.state == old_trader.state
                    && new_trader.chain_settings == old_trader.chain_settings
                    && new_trader.message_timestamps == old_trader.message_timestamps
                    && r.unwrap().messages@.len() == 0 && r.unwrap().submessages@.len() == 0
            },
            Continuation::SingleSidedSwap { pair, depositor, lp_token, init_lp_balance, coins } => {
                &&& new_trader == old_trader
                &&& (coins@.len() != 2 || balances.len() != 1) ==> r == Err::<Response, ContractError>(ContractError::InvalidPayload)
                &&& (coins@.len() == 2 && balances.len() == 1) ==> (r.is_ok() <==> balances[0] > coins@[1].amount)
                &&& r.is_ok() ==> deposit_issued(r.unwrap(), pair@, depositor, lp_token, init_lp_balance, coins@, balances[0])
            },
        }
    }
}

/// Route a completion to the reconciliation of its flow. `id` is the reply
/// identifier the host reports, which must be the payload's own.
pub fn reply(trader: &mut Trader, id: u64, payload: Continuation, balances: &Vec<u128>) -> (r: Result<
    Response,
    ContractError,
>)
    requires
        old(trader).wf(),
    ensures
        final(trader).wf(),
        r.is_err() ==> *final(trader) == *old(trader),
        reply_outcome(*old(trader), *final(trader), id, payload, balances@, r),
{
    if id != payload.reply_id() {
        return Err(ContractError::UnknownReply);
    }
    match payload {
        Continuation::RemoveLiquidity { coins, receiver, chain_id, .. } => {
            remove_liquidity(&coins, &receiver, &chain_id, balances)
        },
        Continuation::Exchange { recipient, chain_id, coin } => {
            if balances.len() != 1 {
                return Err(ContractError::InvalidPayload);
            }
            execute_reply(&recipient, &chain_id, &coin, balances[0])
        },
        Continuation::AddLiquidity { depositor, lp_token, init_lp_balance } => {
            if balances.len() != 1 {
                return Err(ContractError::InvalidPayload);
            }
            add_liquidity(trader, &depositor, &lp_token, init_lp_balance, balances[0])
        },
        Continuation::SingleSidedSwap { pair, depositor, lp_token, init_lp_balance, coins } => {
            if coins.len() != 2 || balances.len() != 1 {
                return Err(ContractError::InvalidPayload);
            }
            exchange_for_single_liqudity(&pair, depositor, lp_token, init_lp_balance, &coins, balances[0])
        },
    }
}

} // verus!

verus! {

/// Whether the balances observed at a completion show no gain over the
/// payload's snapshot, for the flows that must produce one.
pub open spec fn shows_no_gain(payload: Continuation, balances: Seq<u128>) -> bool {
    match payload {
        Continuation::RemoveLiquidity { coins, .. } => coins@.len() == 2 && balances.len() == 2 && (
        balances[0] == coins@[0].amount || balances[1] == coins@[1].amount),
        Continuation::Exchange { coin, .. } => balances == seq![coin.amount],
        Continuation::AddLiquidity { init_lp_balance, .. } => balances == seq![init_lp_balance],
        Continuation::SingleSidedSwap { coins, .. } => coins@.len() == 2 && balances == seq![
            coins@[1].amount,
        ],
    }
}

/// A completion of a swap, a deposit or a withdrawal whose observed balance
/// did not change fails, and the ledger and every other store stay as they
/// were.
pub proof fn lemma_no_gain_no_settlement(
    old_trader: Trader,
    new_trader: Trader,
    id: u64,
    payload: Continuation,
    balances: Seq<u128>,
    r: Result<Response, ContractError>,
)
    requires
        reply_outcome(old_trader, new_trader, id, payload, balances, r),
        r.is_err() ==> new_trader == old_trader,
        shows_no_gain(payload, balances),
    ensures
        r.is_err(),
        new_trader == old_trader,
{
}

} // verus!

verus! {

/// Completion of a call to the incentive or locking component on behalf of
/// `user`: `snapshot` is the contract's balance of the tracked `asset` before
/// the call and `balance` the one now. A gain is credited to the user and a
/// loss taken from them, stopping at zero; no change is no error.
pub fn incentive_balance_diff(
    trader: &mut Trader,
    user: &String,
    asset: &String,
    snapshot: u128,
    balance: u128,
) -> (r: Result<Response, ContractError>)
    requires
        old(trader).wf(),
    ensures
        final(trader).wf(),
        r.is_err() ==> *final(trader) == *old(trader),
        balance >= snapshot && old(trader).lp_balances.balance_of(user@, asset@) + (balance - snapshot)
            > u128::MAX ==> r == Err::<Response, ContractError>(ContractError::Overflow),
        balance >= snapshot && old(trader).lp_balances.balance_of(user@, asset@) + (balance - snapshot)
            <= u128::MAX ==> r.is_ok() && final(trader).lp_balances@ == credited(
            old(trader).lp_balances@,
            (user@, asset@),
            (balance - snapshot) as nat,
        ),
        balance < snapshot ==> r.is_ok() && final(trader).lp_balances@ == debited_floor(
            old(trader).lp_balances@,
            (user@, asset@),
            (snapshot - balance) as nat,
        ),
        r.is_ok() ==> {
            &&& final(trader).state == old(trader).state
            &&& final(trader).chain_settings == old(trader).chain_settings
            &&& final(trader).message_timestamps == old(trader).message_timestamps
            &&& r.unwrap().submessages@.len() == 0 && r.unwrap().messages@.len() == 0
        },
{
    if balance >= snapshot {
        let gain = balance - snapshot;
        let held = trader.lp_balances.balance(user, asset);
        if held > u128::MAX - gain {
            return Err(ContractError::Overflow);
        }
        trader.lp_balances.credit(user, asset, gain);
    } else {
        trader.lp_balances.debit_floor(user, asset, snapshot - balance);
    }
    Ok(Response::new())
}

} // verus!

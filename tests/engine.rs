use palomadex_trader::contract::{instantiate, query, Continuation, QueryResponse, Trader};
use palomadex_trader::error::ContractError;
use palomadex_trader::execute::{
    add_liquidity, add_owner, add_single_sided_liquidity, ask_denom, cancel_tx, exchange,
    liquidity_route, native_denoms, remove_liquidity, remove_owner, send_to_evm, send_token,
    set_chain_setting, set_paloma, single_sided_leg, update_config, update_gas_fee,
    update_refund_wallet, LiquidityRoute,
};
use palomadex_trader::msg::{
    Asset, AssetInfo, Coin, ExternalExecuteMsg, InstantiateMsg, PairType, PalomaMsg, PoolResponse,
    QueryMsg, SwapOperation,
};
use palomadex_trader::reply::{incentive_balance_diff, reply};

const OWNER: &str = "owner";
const TOKEN_A: &str = "0x1111111111111111111111111111111111111111";
const TOKEN_B: &str = "0x2222222222222222222222222222222222222222";
const RECIPIENT: &str = "0x3333333333333333333333333333333333333333";

fn s(x: &str) -> String {
    x.to_string()
}

fn coin(denom: &str, amount: u128) -> Coin {
    Coin { denom: s(denom), amount }
}

fn native(denom: &str) -> AssetInfo {
    AssetInfo::NativeToken { denom: s(denom) }
}

fn trader() -> Trader {
    let mut t = instantiate(InstantiateMsg { retry_delay: 60, owners: vec![s(OWNER)] });
    set_chain_setting(&mut t, &s(OWNER), s("eth-main"), s("compass-1"), s("main-1")).unwrap();
    t
}

fn lp(t: &Trader, user: &str, token: &str) -> u128 {
    t.lp_query(&s(user), &s(token))
}

/// Runs a two-sided deposit to completion with the given share balances.
fn deposit(t: &mut Trader, depositor: &str, before: u128, after: u128) {
    let r = add_liquidity(
        t,
        &s(OWNER),
        s("pair"),
        vec![coin("uatom", 100), coin("uusd", 200)],
        None,
        s(depositor),
        s("lp"),
        before,
    )
    .unwrap();
    let call = r.submessages.into_iter().next().unwrap();
    let id = call.payload.reply_id();
    reply(t, id, call.payload, &vec![after]).unwrap();
}

fn job_payload(r: &palomadex_trader::contract::Response) -> (String, Vec<u8>) {
    match &r.messages[0] {
        PalomaMsg::SchedulerMsg { execute_job } => {
            (execute_job.job_id.clone(), execute_job.payload.clone())
        }
        _ => panic!("expected a scheduler message"),
    }
}

fn send_amount(m: &PalomaMsg) -> (String, String, String) {
    match m {
        PalomaMsg::SkywayMsg { send_tx: Some(tx), cancel_tx: None } => (
            tx.remote_chain_destination_address.clone(),
            tx.amount.clone(),
            tx.chain_reference_id.clone(),
        ),
        _ => panic!("expected a remote send"),
    }
}

#[test]
fn scenario_two_sided_deposit_credits_minted_shares() {
    let mut t = trader();
    let r = add_liquidity(
        &t,
        &s(OWNER),
        s("pair"),
        vec![coin("uatom", 100), coin("uusd", 200)],
        None,
        s("alice"),
        s("lp"),
        0,
    )
    .unwrap();
    assert_eq!(r.submessages.len(), 1);
    let call = r.submessages.into_iter().next().unwrap();
    assert_eq!(call.contract_addr, "pair");
    match &call.msg {
        ExternalExecuteMsg::ProvideLiquidity { assets, slippage_tolerance, receiver } => {
            assert_eq!(assets.len(), 2);
            assert_eq!(assets[0].amount, 100);
            assert_eq!(assets[1].amount, 200);
            assert!(slippage_tolerance.is_none() && receiver.is_none());
        }
        _ => panic!("expected a deposit"),
    }
    assert_eq!(call.payload.reply_id(), 3);
    reply(&mut t, 3, call.payload, &vec![50]).unwrap();
    assert_eq!(lp(&t, "alice", "lp"), 50);
}

#[test]
fn scenario_withdraw_all_shares_sends_both_assets() {
    let mut t = trader();
    deposit(&mut t, "alice", 0, 50);
    let r = remove_liquidity(
        &mut t,
        &s(OWNER),
        s("eth-main"),
        s("pair"),
        50,
        s("alice"),
        s("lp"),
        vec![coin("uatom", 1000), coin("uusd", 2000)],
    )
    .unwrap();
    assert_eq!(lp(&t, "alice", "lp"), 0);
    let call = r.submessages.into_iter().next().unwrap();
    assert_eq!(call.contract_addr, "lp");
    match &call.msg {
        ExternalExecuteMsg::Send { contract, amount, msg } => {
            assert_eq!(contract, "pair");
            assert_eq!(*amount, 50);
            assert!(matches!(**msg, ExternalExecuteMsg::WithdrawLiquidity { ref assets } if assets.is_empty()));
        }
        _ => panic!("expected a share transfer"),
    }
    let done = reply(&mut t, 1, call.payload, &vec![1100, 2300]).unwrap();
    assert_eq!(done.messages.len(), 2);
    assert_eq!(send_amount(&done.messages[0]), (s("alice"), s("100uatom"), s("eth-main")));
    assert_eq!(send_amount(&done.messages[1]), (s("alice"), s("300uusd"), s("eth-main")));
}

#[test]
fn scenario_withdraw_more_than_held_is_refused() {
    let mut t = trader();
    deposit(&mut t, "alice", 0, 50);
    let r = remove_liquidity(
        &mut t,
        &s(OWNER),
        s("eth-main"),
        s("pair"),
        51,
        s("alice"),
        s("lp"),
        vec![coin("uatom", 1000), coin("uusd", 2000)],
    );
    assert_eq!(r.err(), Some(ContractError::InsufficientLiquidity));
    assert_eq!(lp(&t, "alice", "lp"), 50);
}

#[test]
fn scenario_send_token_retry_window() {
    let mut t = trader();
    let call = |t: &mut Trader, now: u64| {
        send_token(
            t,
            &s(OWNER),
            s("eth-main"),
            vec![s(TOKEN_A), s(TOKEN_B)],
            s(RECIPIENT),
            vec![5, 7],
            42,
            now,
        )
    };
    let first = call(&mut t, 1000).unwrap();
    assert_eq!(call(&mut t, 1030).err(), Some(ContractError::Pending));
    let third = call(&mut t, 1060).unwrap();
    assert_eq!(job_payload(&first), job_payload(&third));
    assert_eq!(t.message_timestamps.last_attempt(&s("eth-main"), 42), Some(1060));
    assert_eq!(call(&mut t, 1061).err(), Some(ContractError::Pending));
}

#[test]
fn send_token_payload_is_abi_calldata() {
    let mut t = trader();
    let r = send_token(
        &mut t,
        &s(OWNER),
        s("eth-main"),
        vec![s(TOKEN_A)],
        s(RECIPIENT),
        vec![5],
        9,
        10,
    )
    .unwrap();
    let (job, payload) = job_payload(&r);
    assert_eq!(job, "main-1");
    let selector = ethabi::short_signature(
        "send_token",
        &[
            ethabi::ParamType::Array(Box::new(ethabi::ParamType::Address)),
            ethabi::ParamType::Address,
            ethabi::ParamType::Array(Box::new(ethabi::ParamType::Uint(256))),
            ethabi::ParamType::Uint(256),
        ],
    );
    assert_eq!(&payload[..4], &selector[..]);
    // head: offset, address, offset, nonce; then the two arrays
    assert_eq!(payload.len(), 4 + 32 * 8);
    assert_eq!(payload[4 + 32 + 31], 0x33);
    assert_eq!(payload[4 + 32 * 3 + 31], 9);
    assert_eq!(payload[4 + 32 * 5 + 31], 0x11);
    assert_eq!(payload[4 + 32 * 7 + 31], 5);
}

#[test]
fn send_token_refuses_a_bad_address() {
    let mut t = trader();
    let r = send_token(&mut t, &s(OWNER), s("eth-main"), vec![s("0x12")], s(RECIPIENT), vec![1], 1, 10);
    assert_eq!(r.err(), Some(ContractError::InvalidAddress));
    assert_eq!(t.message_timestamps.last_attempt(&s("eth-main"), 1), None);
}

#[test]
fn send_token_needs_a_chain_setting() {
    let mut t = trader();
    let r = send_token(&mut t, &s(OWNER), s("bsc"), vec![s(TOKEN_A)], s(RECIPIENT), vec![1], 1, 10);
    assert_eq!(r.err(), Some(ContractError::ChainNotConfigured));
    assert_eq!(t.message_timestamps.last_attempt(&s("bsc"), 1), None);
}

#[test]
fn non_owner_changes_nothing() {
    let mut t = trader();
    deposit(&mut t, "alice", 0, 50);
    let mallory = s("mallory");
    assert_eq!(
        remove_liquidity(&mut t, &mallory, s("eth-main"), s("pair"), 1, s("alice"), s("lp"), vec![coin("a", 1), coin("b", 1)]).err(),
        Some(ContractError::Unauthorized)
    );
    assert_eq!(
        send_token(&mut t, &mallory, s("eth-main"), vec![s(TOKEN_A)], s(RECIPIENT), vec![1], 1, 10).err(),
        Some(ContractError::Unauthorized)
    );
    assert_eq!(set_chain_setting(&mut t, &mallory, s("x"), s("c"), s("m")).err(), Some(ContractError::Unauthorized));
    assert_eq!(update_config(&mut t, &mallory, Some(1)).err(), Some(ContractError::Unauthorized));
    assert_eq!(add_owner(&mut t, &mallory, vec![s("mallory")]).err(), Some(ContractError::Unauthorized));
    assert_eq!(remove_owner(&mut t, &mallory, s(OWNER)).err(), Some(ContractError::Unauthorized));
    assert_eq!(cancel_tx(&t, &mallory, 3).err(), Some(ContractError::Unauthorized));
    assert_eq!(set_paloma(&t, &mallory, s("eth-main")).err(), Some(ContractError::Unauthorized));
    assert_eq!(lp(&t, "alice", "lp"), 50);
    assert_eq!(t.message_timestamps.last_attempt(&s("eth-main"), 1), None);
    assert_eq!(t.state.retry_delay, 60);
    assert_eq!(t.state.owners, vec![s(OWNER)]);
    assert!(t.chain_setting(&s("x")).is_err());
}

#[test]
fn zero_share_gain_fails_without_credit() {
    let mut t = trader();
    deposit(&mut t, "alice", 0, 50);
    let payload = Continuation::AddLiquidity { depositor: s("alice"), lp_token: s("lp"), init_lp_balance: 50 };
    assert_eq!(reply(&mut t, 3, payload, &vec![50]).err(), Some(ContractError::NotEnoughOutput));
    assert_eq!(lp(&t, "alice", "lp"), 50);
}

#[test]
fn zero_swap_output_fails() {
    let mut t = trader();
    let payload = Continuation::Exchange { recipient: s("bob"), chain_id: s("eth-main"), coin: coin("uusd", 500) };
    assert_eq!(reply(&mut t, 2, payload, &vec![500]).err(), Some(ContractError::NotEnoughOutput));
}

#[test]
fn zero_withdrawal_output_fails() {
    let mut t = trader();
    let payload = Continuation::RemoveLiquidity {
        coins: vec![coin("uatom", 10), coin("uusd", 10)],
        receiver: s("bob"),
        chain_id: s("eth-main"),
        lp_token: s("lp"),
    };
    assert_eq!(reply(&mut t, 1, payload, &vec![20, 10]).err(), Some(ContractError::NotEnoughOutput));
}

#[test]
fn reply_with_foreign_id_is_unknown() {
    let mut t = trader();
    let payload = Continuation::Exchange { recipient: s("bob"), chain_id: s("eth-main"), coin: coin("uusd", 500) };
    assert_eq!(reply(&mut t, 7, payload, &vec![900]).err(), Some(ContractError::UnknownReply));
}

#[test]
fn exchange_then_settle_sends_gain() {
    let mut t = trader();
    let ops = vec![SwapOperation::AstroSwap { offer_asset_info: native("uatom"), ask_asset_info: native("uusd") }];
    assert_eq!(ask_denom(&ops).unwrap(), "uusd");
    let r = exchange(&t, &s(OWNER), s("router"), ops, Some(10), None, vec![coin("uatom", 7)], s("eth-main"), s("bob"), 500).unwrap();
    let call = r.submessages.into_iter().next().unwrap();
    assert_eq!(call.contract_addr, "router");
    assert_eq!(call.funds[0].amount, 7);
    let done = reply(&mut t, 2, call.payload, &vec![512]).unwrap();
    assert_eq!(send_amount(&done.messages[0]), (s("bob"), s("12uusd"), s("eth-main")));
}

#[test]
fn exchange_refuses_token_output_and_empty_route() {
    let t = trader();
    let ops = vec![SwapOperation::AstroSwap {
        offer_asset_info: native("uatom"),
        ask_asset_info: AssetInfo::Token { contract_addr: s("cw20") },
    }];
    let r = exchange(&t, &s(OWNER), s("router"), ops, None, None, vec![], s("eth-main"), s("bob"), 0);
    assert_eq!(r.err(), Some(ContractError::UnsupportedCw20));
    let r = exchange(&t, &s(OWNER), s("router"), vec![], None, None, vec![], s("eth-main"), s("bob"), 0);
    assert_eq!(r.err(), Some(ContractError::EmptyRoute));
}

#[test]
fn single_sided_deposit_swaps_then_deposits() {
    let mut t = trader();
    assert_eq!(liquidity_route(1, &PairType::Xyk {}), Ok(LiquidityRoute::SingleSided));
    let pool = PoolResponse {
        assets: vec![
            Asset { info: native("uusd"), amount: 5_000_000 },
            Asset { info: native("uatom"), amount: 1_000_000 },
        ],
        total_share: 1,
    };
    let leg = single_sided_leg(&pool, &s("uatom")).unwrap();
    assert_eq!(leg.ask_denom, "uusd");
    assert_eq!(leg.reserve_in.amount, 1_000_000);
    let r = add_single_sided_liquidity(&t, &s(OWNER), s("pair"), coin("uatom", 1000), s("carol"), s("lp"), 0, leg, 30, 400).unwrap();
    let call = r.submessages.into_iter().next().unwrap();
    assert_eq!(call.funds[0].amount, 499);
    match &call.payload {
        Continuation::SingleSidedSwap { coins, .. } => {
            assert_eq!(coins[0].amount, 501);
            assert_eq!(coins[1].amount, 400);
            assert_eq!(coins[1].denom, "uusd");
        }
        _ => panic!("expected the swap continuation"),
    }
    let next = reply(&mut t, 4, call.payload, &vec![2900]).unwrap();
    let deposit_call = next.submessages.into_iter().next().unwrap();
    assert_eq!(deposit_call.funds[0].amount, 501);
    assert_eq!(deposit_call.funds[1].amount, 2500);
    reply(&mut t, 3, deposit_call.payload, &vec![77]).unwrap();
    assert_eq!(lp(&t, "carol", "lp"), 77);
}

#[test]
fn single_sided_refuses_bad_fee_and_token_reserve() {
    let t = trader();
    let pool = PoolResponse {
        assets: vec![Asset { info: native("uatom"), amount: 10 }, Asset { info: AssetInfo::Token { contract_addr: s("c") }, amount: 10 }],
        total_share: 1,
    };
    assert_eq!(single_sided_leg(&pool, &s("uatom")).err(), Some(ContractError::UnsupportedCw20));
    let short = PoolResponse { assets: vec![], total_share: 0 };
    assert_eq!(single_sided_leg(&short, &s("uatom")).err(), Some(ContractError::InvalidPool));
    let good = PoolResponse {
        assets: vec![Asset { info: native("uatom"), amount: 10 }, Asset { info: native("uusd"), amount: 10 }],
        total_share: 1,
    };
    let leg = single_sided_leg(&good, &s("uatom")).unwrap();
    let r = add_single_sided_liquidity(&t, &s(OWNER), s("pair"), coin("uatom", 1), s("c"), s("lp"), 0, leg, 10001, 0);
    assert_eq!(r.err(), Some(ContractError::InvalidFee));
}

#[test]
fn liquidity_route_by_coin_count() {
    assert_eq!(liquidity_route(2, &PairType::Xyk {}), Ok(LiquidityRoute::TwoSided));
    assert_eq!(liquidity_route(1, &PairType::Stable {}), Ok(LiquidityRoute::TwoSided));
    assert_eq!(liquidity_route(3, &PairType::Xyk {}), Err(ContractError::UnsupportedCoinCount));
}

#[test]
fn native_denoms_skip_tokens() {
    let infos = vec![native("uatom"), AssetInfo::Token { contract_addr: s("c") }, native("uusd")];
    assert_eq!(native_denoms(&infos), vec![s("uatom"), s("uusd")]);
}

#[test]
fn withdrawal_of_token_pair_is_refused() {
    let mut t = trader();
    deposit(&mut t, "alice", 0, 50);
    let r = remove_liquidity(&mut t, &s(OWNER), s("eth-main"), s("pair"), 5, s("alice"), s("lp"), vec![coin("uatom", 1)]);
    assert_eq!(r.err(), Some(ContractError::UnsupportedCw20));
    assert_eq!(lp(&t, "alice", "lp"), 50);
}

#[test]
fn owners_add_and_remove() {
    let mut t = trader();
    add_owner(&mut t, &s(OWNER), vec![s("b"), s(OWNER), s("b"), s("c")]).unwrap();
    assert_eq!(t.state.owners, vec![s(OWNER), s("b"), s("c")]);
    remove_owner(&mut t, &s("b"), s(OWNER)).unwrap();
    assert_eq!(t.state.owners, vec![s("b"), s("c")]);
    assert_eq!(remove_owner(&mut t, &s("b"), s("zed")).err(), Some(ContractError::OwnerNotFound));
    update_config(&mut t, &s("c"), Some(5)).unwrap();
    assert_eq!(t.state.retry_delay, 5);
    update_config(&mut t, &s("c"), None).unwrap();
    assert_eq!(t.state.retry_delay, 5);
}

#[test]
fn admin_updates_schedule_main_job() {
    let t = trader();
    let r = set_paloma(&t, &s(OWNER), s("eth-main")).unwrap();
    let (job, payload) = job_payload(&r);
    assert_eq!(job, "main-1");
    assert_eq!(payload, ethabi::short_signature("set_paloma", &[]).to_vec());
    let r = update_refund_wallet(&t, &s(OWNER), s("eth-main"), s(RECIPIENT)).unwrap();
    let (_, payload) = job_payload(&r);
    assert_eq!(payload.len(), 36);
    assert_eq!(&payload[..4], &ethabi::short_signature("update_refund_wallet", &[ethabi::ParamType::Address])[..]);
    assert_eq!(payload[35], 0x33);
    let mut fee = [0u8; 32];
    fee[31] = 0x2a;
    let r = update_gas_fee(&t, &s(OWNER), s("eth-main"), fee).unwrap();
    let (_, payload) = job_payload(&r);
    assert_eq!(&payload[4..], &fee[..]);
    assert_eq!(update_refund_wallet(&t, &s(OWNER), s("eth-main"), s("nope")).err(), Some(ContractError::InvalidAddress));
    assert_eq!(set_paloma(&t, &s(OWNER), s("unknown")).err(), Some(ContractError::ChainNotConfigured));
}

#[test]
fn send_to_evm_and_cancel() {
    let t = trader();
    let r = send_to_evm(&t, &s(OWNER), s("eth-main"), vec![s("5uatom"), s("6uusd")], s("bob")).unwrap();
    assert_eq!(r.messages.len(), 2);
    assert_eq!(send_amount(&r.messages[1]), (s("bob"), s("6uusd"), s("eth-main")));
    let r = cancel_tx(&t, &s(OWNER), 17).unwrap();
    assert!(matches!(&r.messages[0], PalomaMsg::SkywayMsg { send_tx: None, cancel_tx: Some(c) } if c.transaction_id == 17));
}

#[test]
fn queries() {
    let mut t = trader();
    deposit(&mut t, "alice", 0, 9);
    match query(&t, QueryMsg::LpQuery { user: s("alice"), lp_token: s("lp") }).unwrap() {
        QueryResponse::LpBalance(b) => assert_eq!(b, 9),
        _ => panic!("expected a balance"),
    }
    match query(&t, QueryMsg::LpQuery { user: s("nobody"), lp_token: s("lp") }).unwrap() {
        QueryResponse::LpBalance(b) => assert_eq!(b, 0),
        _ => panic!("expected a balance"),
    }
    match query(&t, QueryMsg::ChainSetting { chain_id: s("eth-main") }).unwrap() {
        QueryResponse::ChainSetting(c) => assert_eq!((c.compass_job_id, c.main_job_id), (s("compass-1"), s("main-1"))),
        _ => panic!("expected a setting"),
    }
    assert!(matches!(query(&t, QueryMsg::State {}).unwrap(), QueryResponse::State { retry_delay: 60, .. }));
    assert!(query(&t, QueryMsg::ChainSetting { chain_id: s("none") }).is_err());
}

#[test]
fn incentive_diff_credits_gain_and_floors_loss() {
    let mut t = trader();
    incentive_balance_diff(&mut t, &s("dave"), &s("padex"), 100, 130).unwrap();
    assert_eq!(lp(&t, "dave", "padex"), 30);
    incentive_balance_diff(&mut t, &s("dave"), &s("padex"), 130, 130).unwrap();
    assert_eq!(lp(&t, "dave", "padex"), 30);
    incentive_balance_diff(&mut t, &s("dave"), &s("padex"), 130, 120).unwrap();
    assert_eq!(lp(&t, "dave", "padex"), 20);
    incentive_balance_diff(&mut t, &s("dave"), &s("padex"), 500, 0).unwrap();
    assert_eq!(lp(&t, "dave", "padex"), 0);
}

#[test]
fn credit_past_the_largest_amount_is_refused() {
    let mut t = trader();
    deposit(&mut t, "erin", 0, u128::MAX);
    let payload = Continuation::AddLiquidity { depositor: s("erin"), lp_token: s("lp"), init_lp_balance: 0 };
    assert_eq!(reply(&mut t, 3, payload, &vec![1]).err(), Some(ContractError::Overflow));
    assert_eq!(lp(&t, "erin", "lp"), u128::MAX);
}

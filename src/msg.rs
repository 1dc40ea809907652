use vstd::prelude::*;

verus! {

/// Arguments of the first configuration.
pub struct InstantiateMsg {
    pub retry_delay: u64,
    pub owners: Vec<String>,
}

/// Arguments of a code migration; there are none.
pub struct MigrateMsg {}

/// An amount of a native asset.
pub struct Coin {
    pub denom: String,
    pub amount: u128,
}

impl Coin {
    pub fn duplicate(&self) -> (r: Coin)
        ensures
            r == *self,
    {
        Coin { denom: self.denom.clone(), amount: self.amount }
    }
}

/// Which asset: a token contract or a native denomination.
pub enum AssetInfo {
    Token { contract_addr: String },
    NativeToken { denom: String },
}

impl AssetInfo {
    pub fn duplicate(&self) -> (r: AssetInfo)
        ensures
            r == *self,
    {
        match self {
            AssetInfo::Token { contract_addr } => AssetInfo::Token {
                contract_addr: contract_addr.clone(),
            },
            AssetInfo::NativeToken { denom } => AssetInfo::NativeToken { denom: denom.clone() },
        }
    }

    /// The denomination, where the asset is native.
    pub fn native_denom(&self) -> (r: Option<String>)
        ensures
            r == (match *self {
                AssetInfo::NativeToken { denom } => Some(denom),
                AssetInfo::Token { .. } => None,
            }),
    {
        match self {
            AssetInfo::NativeToken { denom } => Some(denom.clone()),
            AssetInfo::Token { .. } => None,
        }
    }
}

/// An amount of an asset.
pub struct Asset {
    pub info: AssetInfo,
    pub amount: u128,
}

impl Asset {
    pub fn duplicate(&self) -> (r: Asset)
        ensures
            r == *self,
    {
        Asset { info: self.info.duplicate(), amount: self.amount }
    }
}

/// One hop of a swap route.
pub enum SwapOperation {
    AstroSwap { offer_asset_info: AssetInfo, ask_asset_info: AssetInfo },
}

/// The kind of pool.
pub enum PairType {
    Xyk {},
    Stable {},
    Custom(String),
}

/// What a pool says of itself.
pub struct PairInfo {
    pub asset_infos: Vec<AssetInfo>,
    pub contract_addr: String,
    pub liquidity_token: String,
    pub pair_type: PairType,
}

/// A pool's reserves and the number of its shares in circulation.
pub struct PoolResponse {
    pub assets: Vec<Asset>,
    pub total_share: u128,
}

/// A pool's configuration.
pub struct ConfigResponse {
    pub block_time_last: u64,
    pub params: Option<Vec<u8>>,
    pub owner: String,
    pub factory_addr: String,
}

/// The fees that a pool factory charges on a swap.
pub struct FeeInfoResponse {
    pub fee_address: Option<String>,
    pub total_fee_bps: u16,
    pub maker_fee_bps: u16,
}

/// Instructions to the router, the pool and the share token. Ratios
/// (`max_spread`, `slippage_tolerance`) are fixed-point with eighteen
/// fractional digits, held as their atomics.
pub enum ExternalExecuteMsg {
    ExecuteSwapOperations {
        operations: Vec<SwapOperation>,
        minimum_receive: Option<u128>,
        to: Option<String>,
        max_spread: Option<u128>,
    },
    ProvideLiquidity {
        assets: Vec<Asset>,
        slippage_tolerance: Option<u128>,
        receiver: Option<String>,
    },
    WithdrawLiquidity { assets: Vec<Asset> },
    Send { contract: String, amount: u128, msg: Box<ExternalExecuteMsg> },
}

/// A job for the remote scheduler: run `job_id` with an ABI-encoded call.
pub struct ExecuteJob {
    pub job_id: String,
    pub payload: Vec<u8>,
}

/// Send value to an address on a remote chain.
pub struct SendTx {
    pub remote_chain_destination_address: String,
    pub amount: String,
    pub chain_reference_id: String,
}

/// Cancel an earlier remote send.
pub struct CancelTx {
    pub transaction_id: u64,
}

/// Outbound settlement messages.
pub enum PalomaMsg {
    SchedulerMsg { execute_job: ExecuteJob },
    SkywayMsg { send_tx: Option<SendTx>, cancel_tx: Option<CancelTx> },
}

/// Read-only queries of this contract.
pub enum QueryMsg {
    State {},
    ChainSetting { chain_id: String },
    LpQuery { user: String, lp_token: String },
}

/// Read-only queries sent to a pool or its factory.
pub enum ExternalQueryMsg {
    Pair {},
    Pool {},
    Config {},
    FeeInfo { pair_type: PairType },
}

} // verus!

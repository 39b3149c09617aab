use vstd::prelude::*;
use crate::decimal::Decimal;
use vstd::string::StrSliceExecFns;

verus! {

/// Longest credential or symbol, in characters, that a request may carry.
pub const MAX_FIELD_LEN: u64 = 0x0100_0000_0000_0000;

/// The outcome of an API call or of one of its local steps.
#[derive(Debug, Clone)]
pub enum StatusCode {
    Success,
    InternalErrorGeneric,
    InternalErrorParsingRawUrl,
    InternalErrorCreatingHttpRequest,
    InternalErrorParsingJsonObject,
    InternalErrorNoTickStepAvailable,
    /// The exchange answered with a non-zero return code, or could not be
    /// reached; carries the exchange's (or the transport's) message.
    ErrorApiResponse(String),
    ErrorJsonParsing,
    ErrorNumericJsonParsing,
    MalformedAPIResponseFormat,
    ApiEmptyResult,
    ErrorIncorrectParameterValue,
}

/// The tick size known for one symbol.
#[derive(Debug, Clone)]
pub struct TickStep {
    pub symbol: String,
    pub tick: Decimal,
}

/// What is known before trading: credentials for the live and the test
/// exchange, tick sizes per symbol, the stop-loss percentage, and which
/// exchange to use.
#[derive(Debug, Clone)]
pub struct TradingContext {
    pub api_key: String,
    pub api_secret: String,
    pub testnet_api_key: String,
    pub testnet_api_secret: String,
    /// Tick sizes per symbol, each symbol listed once.
    pub tick_steps: Vec<TickStep>,
    /// Stop-loss distance in percent (`0.2` is 0.2%).
    pub stop_loss_pcnt: Decimal,
    pub use_testnet: bool,
}

/// The tick of the first entry for `symbol`.
pub open spec fn lookup_tick(entries: Seq<TickStep>, symbol: Seq<char>) -> Option<Decimal>
    decreases entries.len(),
{
    if entries.len() == 0 {
        None
    } else if entries[0].symbol@ == symbol {
        Some(entries[0].tick)
    } else {
        lookup_tick(entries.drop_first(), symbol)
    }
}

impl TradingContext {
    /// Every tick is a positive decimal, no symbol is listed twice, the
    /// percentage is well formed, and the credentials fit the signing limit.
    pub open spec fn wf(&self) -> bool {
        &&& self.stop_loss_pcnt.wf()
        &&& self.symbols_unique()
        &&& forall|i: int| 0 <= i < self.tick_steps@.len() ==> (#[trigger] self.tick_steps@[i]).tick.is_tick()
        &&& self.api_key@.len() < MAX_FIELD_LEN
        &&& self.api_secret@.len() < MAX_FIELD_LEN
        &&& self.testnet_api_key@.len() < MAX_FIELD_LEN
        &&& self.testnet_api_secret@.len() < MAX_FIELD_LEN
    }

    pub open spec fn symbols_unique(&self) -> bool {
        forall|i: int, j: int|
            0 <= i < j < self.tick_steps@.len() ==> (#[trigger] self.tick_steps@[i]).symbol@
                != (#[trigger] self.tick_steps@[j]).symbol@
    }

    /// Checks `symbols_unique`.
    fn has_unique_symbols(&self) -> (r: bool)
        ensures
            r == self.symbols_unique(),
    {
        let n = self.tick_steps.len();
        let mut j: usize = 0;
        while j < n
            invariant
                j <= n == self.tick_steps@.len(),
                forall|a: int, b: int|
                    0 <= a < b < j ==> (#[trigger] self.tick_steps@[a]).symbol@
                        != (#[trigger] self.tick_steps@[b]).symbol@,
            decreases n - j,
        {
            let mut i: usize = 0;
            while i < j
                invariant
                    i <= j < n == self.tick_steps@.len(),
                    forall|a: int, b: int|
                        0 <= a < b < j ==> (#[trigger] self.tick_steps@[a]).symbol@
                            != (#[trigger] self.tick_steps@[b]).symbol@,
                    forall|a: int|
                        0 <= a < i ==> (#[trigger] self.tick_steps@[a]).symbol@
                            != self.tick_steps@[j as int].symbol@,
                decreases j - i,
            {
                if self.tick_steps[i].symbol == self.tick_steps[j].symbol {
                    return false;
                }
                i = i + 1;
            }
            j = j + 1;
        }
        true
    }

    pub open spec fn tick_of(&self, symbol: Seq<char>) -> Option<Decimal> {
        lookup_tick(self.tick_steps@, symbol)
    }

    /// The key of the exchange in use.
    pub open spec fn active_key(&self) -> Seq<char> {
        if self.use_testnet {
            self.testnet_api_key@
        } else {
            self.api_key@
        }
    }

    /// The secret of the exchange in use.
    pub open spec fn active_secret(&self) -> &String {
        if self.use_testnet {
            &self.testnet_api_secret
        } else {
            &self.api_secret
        }
    }

    /// Checks `wf`.
    pub fn is_valid(&self) -> (r: bool)
        ensures
            r == self.wf(),
    {
        if self.stop_loss_pcnt.scale > crate::decimal::MAX_SCALE || !self.has_unique_symbols() {
            return false;
        }
        let mut i: usize = 0;
        while i < self.tick_steps.len()
            invariant
                i <= self.tick_steps@.len(),
                self.stop_loss_pcnt.wf(),
                self.symbols_unique(),
                forall|j: int| 0 <= j < i ==> (#[trigger] self.tick_steps@[j]).tick.is_tick(),
            decreases self.tick_steps@.len() - i,
        {
            if !self.tick_steps[i].tick.is_valid_tick() {
                return false;
            }
            i = i + 1;
        }
        (self.api_key.as_str().unicode_len() as u64) < MAX_FIELD_LEN
            && (self.api_secret.as_str().unicode_len() as u64) < MAX_FIELD_LEN
            && (self.testnet_api_key.as_str().unicode_len() as u64) < MAX_FIELD_LEN
            && (self.testnet_api_secret.as_str().unicode_len() as u64) < MAX_FIELD_LEN
    }

    /// The tick size known for `symbol`, if any.
    pub fn tick_step_for(&self, symbol: &str) -> (r: Option<Decimal>)
        ensures
            r == self.tick_of(symbol@),
            self.wf() && r is Some ==> r->0.is_tick(),
    {
        let key = symbol.to_owned();
        let mut i: usize = 0;
        assert(self.tick_steps@.skip(0) =~= self.tick_steps@);
        while i < self.tick_steps.len()
            invariant
                i <= self.tick_steps@.len(),
                key@ == symbol@,
                lookup_tick(self.tick_steps@.skip(i as int), symbol@) == self.tick_of(symbol@),
            decreases self.tick_steps@.len() - i,
        {
            proof {
                assert(self.tick_steps@.skip(i as int).drop_first() =~= self.tick_steps@.skip(i + 1));
            }
            if self.tick_steps[i].symbol == key {
                return Some(self.tick_steps[i].tick);
            }
            i = i + 1;
        }
        None
    }
}

/// The key of the exchange the context trades on.
pub fn get_api_key(context: &TradingContext) -> (r: &str)
    ensures
        r@ == context.active_key(),
{
    if context.use_testnet {
        context.testnet_api_key.as_str()
    } else {
        context.api_key.as_str()
    }
}

/// The secret of the exchange the context trades on.
pub fn get_api_secret(context: &TradingContext) -> (r: &str)
    ensures
        r@ == context.active_secret()@,
{
    if context.use_testnet {
        context.testnet_api_secret.as_str()
    } else {
        context.api_secret.as_str()
    }
}

/// Reply envelope without a result field; tells success from failure.
#[derive(Debug, Clone)]
pub struct BybitGenericNoResultResponse {
    pub ret_code: u32,
    pub ret_msg: String,
    pub ext_code: String,
    pub ext_info: String,
}

/// Server time reply.
#[derive(Debug, Clone)]
pub struct BybitServerTimeResponse {
    pub ret_code: u32,
    pub ret_msg: String,
    pub ext_code: String,
    pub ext_info: String,
    pub time_now: String,
}

/// One ticker row of the latest-information reply.
#[derive(Debug, Clone)]
pub struct BybitLatestInformationSymbolResult {
    pub symbol: String,
    pub bid_price: String,
    pub ask_price: String,
    pub last_price: String,
    pub last_tick_direction: String,
    pub prev_price_24h: String,
    pub price_24h_pcnt: String,
    pub high_price_24h: String,
    pub low_price_24h: String,
    pub prev_price_1h: String,
    pub price_1h_pcnt: String,
    pub mark_price: String,
    pub index_price: String,
    pub open_interest: u64,
    pub open_value: String,
    pub total_turnover: String,
    pub turnover_24h: String,
    pub total_volume: u64,
    pub volume_24h: u64,
    pub funding_rate: String,
    pub predicted_funding_rate: String,
    pub next_funding_time: String,
    pub countdown_hour: u8,
    pub delivery_fee_rate: String,
    pub predicted_delivery_price: String,
    pub delivery_time: String,
}

/// Latest-information reply for a symbol; `result` is absent on error.
#[derive(Debug, Clone)]
pub struct BybitLatestInformationSymbolResponse {
    pub ret_code: u32,
    pub ret_msg: String,
    pub ext_code: String,
    pub ext_info: String,
    pub result: Option<Vec<BybitLatestInformationSymbolResult>>,
    pub time_now: String,
}

/// What came back from one HTTP exchange: the transport failed (with its
/// message), the body could not be decoded, or the decoded body.
#[derive(Debug, Clone)]
pub enum HttpReply<T> {
    TransportFailed(String),
    Undecodable,
    Decoded(T),
}

} // verus!

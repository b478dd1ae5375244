//! Plain records shared with the rest of the system: exchange and
//! instrument kinds, a book exchanged as text, and the records of the two
//! exchanges' REST answers.
use vstd::prelude::*;

verus! {

#[derive(Debug, Clone, Copy, PartialEq, Eq, Structural)]
pub enum StrategyTypes {
    Spread,
    EE,
    PEE,
}

#[derive(Debug, Clone, Copy, PartialEq, Eq, Structural)]
pub enum Exchanges {
    Bybit,
    Binance,
    Okx,
    Bitget,
    Hyperliquid,
}

#[derive(Debug, Clone, Copy, PartialEq, Eq, Structural)]
pub enum InstrumentType {
    Spot,
    Perp,
    Linear,
    Inverse,
    Futures,
    Options,
}

/// A book as text levels `(price, size)`, with its time.
pub struct QTSOrderBook {
    pub symbol: String,
    pub asks: Vec<(String, String)>,
    pub bids: Vec<(String, String)>,
    pub time: i64,
}

/// Exchange "Binance"'s order book at a point in time.
#[derive(Debug)]
pub struct BinanceOrderbookResponse {
    pub lastUpdateId: u64,
    pub E: u64,
    pub T: u64,
    pub bids: Vec<[String; 2]>,
    pub asks: Vec<[String; 2]>,
}

/// One 24-hour ticker as exchange "Binance" sends it.
#[derive(Debug)]
pub struct BinanceTickerResponse {
    pub symbol: String,
    pub priceChange: String,
    pub priceChangePercent: String,
    pub weightedAvgPrice: String,
    pub lastPrice: String,
    pub lastQty: String,
    pub openPrice: String,
    pub highPrice: String,
    pub lowPrice: String,
    pub volume: String,
    pub quoteVolume: String,
    pub openTime: u64,
    pub closeTime: u64,
    pub firstId: u64,
    pub lastId: u64,
    pub count: u64,
}

/// One 24-hour ticker in a ticker list.
#[derive(Debug)]
pub struct BinanceTickerItem {
    pub symbol: String,
    pub priceChange: String,
    pub priceChangePercent: String,
    pub weightedAvgPrice: String,
    pub lastPrice: String,
    pub lastQty: String,
    pub openPrice: String,
    pub highPrice: String,
    pub lowPrice: String,
    pub volume: String,
    pub quoteVolume: String,
    pub openTime: u64,
    pub closeTime: u64,
    pub firstId: u64,
    pub lastId: u64,
    pub count: u64,
}

/// A list of 24-hour tickers, whether one or many were asked for.
#[derive(Debug)]
pub struct BinanceTickersResponse {
    pub list: Vec<BinanceTickerItem>,
}

/// An error reported on exchange "Binance"'s stream API.
#[derive(Debug, Clone)]
pub struct BinanceWebSocketError {
    pub code: i32,
    pub msg: String,
}

/// A rate limit reported on exchange "Binance"'s stream API.
#[derive(Debug, Clone)]
pub struct BinanceRateLimit {
    pub rateLimitType: String,
    pub interval: String,
    pub intervalNum: u32,
    pub limit: u32,
    pub count: u32,
}

/// Exchange "Bybit"'s order book from its REST API: text levels `(price, size)` and ids.
#[derive(Debug)]
pub struct BybitOrderbookResult {
    pub s: String,
    pub a: Vec<(String, String)>,
    pub b: Vec<(String, String)>,
    pub ts: i64,
    pub u: i64,
    pub seq: i64,
    pub cts: i64,
}

/// A category's tickers on exchange "Bybit".
#[derive(Debug)]
pub struct BybitTickersResult {
    pub category: String,
    pub list: Vec<BybitTickerItem>,
}

/// One ticker on exchange "Bybit".
#[derive(Debug)]
pub struct BybitTickerItem {
    pub symbol: String,
    pub lastPrice: String,
    pub indexPrice: String,
    pub markPrice: String,
    pub prevPrice24h: String,
    pub price24hPcnt: String,
    pub highPrice24h: String,
    pub lowPrice24h: String,
    pub prevPrice1h: String,
    pub openInterest: String,
    pub openInterestValue: String,
    pub turnover24h: String,
    pub volume24h: String,
    pub fundingRate: String,
    pub nextFundingTime: String,
    pub predictedDeliveryPrice: String,
    pub basisRate: String,
    pub basis: String,
    pub deliveryFeeRate: String,
    pub deliveryTime: String,
    pub ask1Size: String,
    pub bid1Price: String,
    pub ask1Price: String,
    pub bid1Size: String,
    pub preOpenPrice: String,
    pub preQty: String,
    pub curPreListingPhase: String,
}

/// The account-info answer of exchange "Bybit".
#[derive(Debug)]
pub struct BybitAccInfoResponse {
    pub retCode: i32,
    pub retMsg: String,
    pub result: BybitAccInfoResult,
}

/// An account's margin settings on exchange "Bybit".
#[derive(Debug)]
pub struct BybitAccInfoResult {
    pub marginMode: String,
    pub updatedTime: String,
    pub unifiedMarginStatus: i32,
    pub dcpStatus: String,
    pub timeWindow: i32,
    pub smpGroup: i32,
    pub isMasterTrader: bool,
    pub spotHedgingStatus: String,
}

/// The wallet balances of exchange "Bybit".
#[derive(Debug)]
pub struct BybitWalletBalanceResult {
    pub list: Vec<BybitWalletBalanceItem>,
}

/// One account's balance on exchange "Bybit".
#[derive(Debug)]
pub struct BybitWalletBalanceItem {
    pub totalEquity: String,
    pub accountIMRate: String,
    pub accountIMRateByMp: String,
    pub totalMarginBalance: String,
    pub totalInitialMargin: String,
    pub totalInitialMarginByMp: String,
    pub accountType: String,
    pub totalAvailableBalance: String,
    pub accountMMRate: String,
    pub accountMMRateByMp: String,
    pub totalPerpUPL: String,
    pub totalWalletBalance: String,
    pub accountLTV: String,
    pub totalMaintenanceMargin: String,
    pub totalMaintenanceMarginByMp: String,
    pub coin: Vec<BybitCoinInfo>,
}

/// One coin's balance within an account on exchange "Bybit".
#[derive(Debug)]
pub struct BybitCoinInfo {
    pub availableToBorrow: String,
    pub bonus: String,
    pub accruedInterest: String,
    pub availableToWithdraw: String,
    pub totalOrderIM: String,
    pub equity: String,
    pub totalPositionMM: String,
    pub usdValue: String,
    pub spotHedgingQty: String,
    pub unrealisedPnl: String,
    pub collateralSwitch: bool,
    pub borrowAmount: String,
    pub totalPositionIM: String,
    pub walletBalance: String,
    pub cumRealisedPnl: String,
    pub locked: String,
    pub marginCollateral: bool,
    pub coin: String,
}

/// A page of positions on exchange "Bybit".
#[derive(Debug)]
pub struct BybitPositionResult {
    pub list: Vec<BybitPositionItem>,
    pub nextPageCursor: String,
    pub category: String,
}

/// One position on exchange "Bybit".
#[derive(Debug)]
pub struct BybitPositionItem {
    pub positionIdx: i32,
    pub riskId: i32,
    pub riskLimitValue: String,
    pub symbol: String,
    pub side: String,
    pub size: String,
    pub avgPrice: String,
    pub positionValue: String,
    pub tradeMode: i32,
    pub positionStatus: String,
    pub autoAddMargin: i32,
    pub adlRankIndicator: i32,
    pub leverage: String,
    pub positionBalance: String,
    pub markPrice: String,
    pub liqPrice: String,
    pub bustPrice: String,
    pub positionMM: String,
    pub positionMMByMp: String,
    pub positionIM: String,
    pub positionIMByMp: String,
    pub tpslMode: String,
    pub takeProfit: String,
    pub stopLoss: String,
    pub trailingStop: String,
    pub unrealisedPnl: String,
    pub curRealisedPnl: String,
    pub cumRealisedPnl: String,
    pub seq: i64,
    pub isReduceOnly: bool,
    pub mmrSysUpdateTime: Option<String>,
    pub leverageSysUpdatedTime: String,
    pub sessionAvgPrice: String,
    pub createdTime: String,
    pub updatedTime: String,
}

/// A page of open orders on exchange "Bybit".
#[derive(Debug)]
pub struct BybitOpenOrdersResult {
    pub category: String,
    pub nextPageCursor: String,
    pub list: Vec<BybitOpenOrderItem>,
}

/// One open order on exchange "Bybit".
#[derive(Debug)]
pub struct BybitOpenOrderItem {
    pub orderId: String,
    pub orderLinkId: String,
    pub blockTradeId: String,
    pub symbol: String,
    pub price: String,
    pub qty: String,
    pub side: String,
    pub isLeverage: String,
    pub positionIdx: i32,
    pub orderStatus: String,
    pub createType: Option<String>,
    pub cancelType: String,
    pub rejectReason: String,
    pub avgPrice: String,
    pub leavesQty: String,
    pub leavesValue: String,
    pub cumExecQty: String,
    pub cumExecValue: String,
    pub cumExecFee: String,
    pub timeInForce: String,
    pub orderType: String,
    pub stopOrderType: String,
    pub orderIv: String,
    pub marketUnit: String,
    pub triggerPrice: String,
    pub takeProfit: String,
    pub stopLoss: String,
    pub tpslMode: String,
    pub ocoTriggerBy: Option<String>,
    pub tpLimitPrice: String,
    pub slLimitPrice: String,
    pub tpTriggerBy: String,
    pub slTriggerBy: String,
    pub triggerDirection: i32,
    pub triggerBy: String,
    pub lastPriceOnCreated: String,
    pub basePrice: Option<String>,
    pub reduceOnly: bool,
    pub closeOnTrigger: bool,
    pub placeType: String,
    pub smpType: String,
    pub smpGroup: i32,
    pub smpOrderId: String,
    pub createdTime: String,
    pub updatedTime: String,
}

/// The positions of an account on exchange "Binance".
#[derive(Debug)]
pub struct BinancePositionResponse {
    pub list: Vec<BinancePositionItem>,
}

/// One position on exchange "Binance".
#[derive(Debug)]
pub struct BinancePositionItem {
    pub symbol: String,
    pub positionSide: String,
    pub positionAmt: String,
    pub entryPrice: String,
    pub breakEvenPrice: String,
    pub markPrice: String,
    pub unRealizedProfit: String,
    pub liquidationPrice: String,
    pub isolatedMargin: String,
    pub notional: String,
    pub marginAsset: String,
    pub isolatedWallet: String,
    pub initialMargin: String,
    pub maintMargin: String,
    pub positionInitialMargin: String,
    pub openOrderInitialMargin: String,
    pub adl: u64,
    pub bidNotional: String,
    pub askNotional: String,
    pub updateTime: u64,
}

/// A list item carries every field of the ticker it was made from.
pub open spec fn ticker_item_of(i: BinanceTickerItem, t: BinanceTickerResponse) -> bool {
    &&& i.symbol@ == t.symbol@
    &&& i.priceChange@ == t.priceChange@
    &&& i.priceChangePercent@ == t.priceChangePercent@
    &&& i.weightedAvgPrice@ == t.weightedAvgPrice@
    &&& i.lastPrice@ == t.lastPrice@
    &&& i.lastQty@ == t.lastQty@
    &&& i.openPrice@ == t.openPrice@
    &&& i.highPrice@ == t.highPrice@
    &&& i.lowPrice@ == t.lowPrice@
    &&& i.volume@ == t.volume@
    &&& i.quoteVolume@ == t.quoteVolume@
    &&& i.openTime == t.openTime
    &&& i.closeTime == t.closeTime
    &&& i.firstId == t.firstId
    &&& i.lastId == t.lastId
    &&& i.count == t.count
}

impl BinanceTickerItem {
    /// The list item for one ticker.
    pub fn from_ticker(t: &BinanceTickerResponse) -> (r: Self)
        ensures
            ticker_item_of(r, *t),
    {
        BinanceTickerItem {
            symbol: t.symbol.clone(),
            priceChange: t.priceChange.clone(),
            priceChangePercent: t.priceChangePercent.clone(),
            weightedAvgPrice: t.weightedAvgPrice.clone(),
            lastPrice: t.lastPrice.clone(),
            lastQty: t.lastQty.clone(),
            openPrice: t.openPrice.clone(),
            highPrice: t.highPrice.clone(),
            lowPrice: t.lowPrice.clone(),
            volume: t.volume.clone(),
            quoteVolume: t.quoteVolume.clone(),
            openTime: t.openTime,
            closeTime: t.closeTime,
            firstId: t.firstId,
            lastId: t.lastId,
            count: t.count,
        }
    }
}

impl BinanceTickersResponse {
    /// The ticker list for the tickers received, in the order received.
    pub fn from_tickers(tickers: &Vec<BinanceTickerResponse>) -> (r: Self)
        ensures
            r.list@.len() == tickers@.len(),
            forall|i: int| 0 <= i < tickers@.len() ==> ticker_item_of(#[trigger] r.list@[i], tickers@[i]),
    {
        let mut list: Vec<BinanceTickerItem> = Vec::new();
        let mut i: usize = 0;
        while i < tickers.len()
            invariant
                i <= tickers@.len(),
                list@.len() == i,
                forall|j: int| 0 <= j < i ==> ticker_item_of(#[trigger] list@[j], tickers@[j]),
            decreases tickers@.len() - i,
        {
            list.push(BinanceTickerItem::from_ticker(&tickers[i]));
            i = i + 1;
        }
        BinanceTickersResponse { list }
    }
}

} // verus!

//! The response envelope and the payloads of the position endpoints.

use vstd::prelude::*;

verus! {

/// The wrapper that every endpoint answers with. The code `"0"` reports
/// success; with any other code `data` means nothing.
#[derive(Debug)]
pub struct ApiResponse<T> {
    pub code: String,
    pub msg: String,
    pub data: Vec<T>,
}

/// A closed position, as the history endpoint reports it.
#[derive(Debug)]
pub struct PositionHistory {
    /// Instrument type.
    pub inst_type: String,
    /// Instrument ID.
    pub inst_id: String,
    /// Margin mode.
    pub mgn_mode: String,
    /// Position ID.
    pub pos_id: String,
    /// Position side.
    pub pos_side: String,
    /// Average price of opening.
    pub open_avg_px: String,
    /// Average price of closing.
    pub close_avg_px: String,
    /// Realized profit and loss.
    pub realized_pnl: String,
    /// How the position was closed.
    pub close_type: String,
    /// When the position was opened.
    pub open_time: String,
    /// When the position was last updated.
    pub u_time: String,
    /// Leverage.
    pub lever: String,
    /// Accumulated fee.
    pub fee: String,
    /// Accumulated funding fee.
    pub funding_fee: String,
    /// Direction: long or short.
    pub direction: String,
    /// Currency of the margin.
    pub ccy: String,
    /// Total amount closed.
    pub close_total_pos: String,
    /// Largest amount held.
    pub open_max_pos: String,
    /// Profit and loss.
    pub pnl: String,
    /// Profit and loss as a ratio.
    pub pnl_ratio: String,
    /// Penalty of a liquidation.
    pub liq_penalty: String,
    /// Average price outside settlement.
    pub non_settle_avg_px: String,
    /// Settled profit and loss.
    pub settled_pnl: String,
    /// Trigger price.
    pub trigger_px: String,
    /// Underlying.
    pub uly: String,
}

/// An open position.
#[derive(Debug)]
pub struct Position {
    /// Instrument type.
    pub inst_type: String,
    /// Instrument ID.
    pub inst_id: String,
    /// Margin mode.
    pub mgn_mode: String,
    /// Position ID.
    pub pos_id: String,
    /// Position side.
    pub pos_side: String,
    /// Quantity held.
    pub pos: String,
    /// Average price of opening.
    pub avg_px: String,
    /// Unrealized profit and loss.
    pub upl: String,
    /// Unrealized profit and loss as a ratio.
    pub upl_ratio: String,
    /// Leverage.
    pub lever: String,
    /// Mark price.
    pub mark_px: String,
    /// Last traded price.
    pub last_px: String,
    /// Time of the last traded price.
    pub last_px_time: String,
    /// Value of the position.
    pub pos_value: String,
    /// Margin.
    pub margin: String,
    /// Margin ratio.
    pub mgn_ratio: String,
    /// Maintenance margin ratio.
    pub maint_margin_ratio: String,
    /// Liquidation price.
    pub liq_px: String,
    /// Interest.
    pub interest: String,
    /// Funding fee.
    pub funding_fee: String,
    /// Time of the funding fee.
    pub funding_time: String,
    /// Direction: long or short.
    pub direction: String,
    /// Currency of the margin.
    pub ccy: String,
    /// When the position was opened.
    pub c_time: String,
    /// When the position was last updated.
    pub u_time: String,
    /// Underlying.
    pub uly: String,
    /// Option value.
    pub opt_val: Option<String>,
    /// Time of the option value.
    pub opt_val_time: Option<String>,
    /// Mark price of the option value.
    pub opt_val_mark_px: Option<String>,
    /// Last price of the option value.
    pub opt_val_last_px: Option<String>,
    /// Time of the last price of the option value.
    pub opt_val_last_px_time: Option<String>,
    /// Position value of the option value.
    pub opt_val_pos_value: Option<String>,
    /// Margin of the option value.
    pub opt_val_margin: Option<String>,
    /// Margin ratio of the option value.
    pub opt_val_mgn_ratio: Option<String>,
    /// Maintenance margin ratio of the option value.
    pub opt_val_maint_margin_ratio: Option<String>,
    /// Liquidation price of the option value.
    pub opt_val_liq_px: Option<String>,
    /// Interest of the option value.
    pub opt_val_interest: Option<String>,
    /// Funding fee of the option value.
    pub opt_val_funding_fee: Option<String>,
    /// Funding time of the option value.
    pub opt_val_funding_time: Option<String>,
}

/// Filters of the positions endpoint; an absent filter is not sent.
#[derive(Debug)]
pub struct PositionsParams {
    /// Instrument type, sent as `instType`.
    pub inst_type: Option<String>,
    /// Instrument ID, sent as `instId`.
    pub inst_id: Option<String>,
    /// Position ID, sent as `posId`.
    pub pos_id: Option<String>,
}

} // verus!

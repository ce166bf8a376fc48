//! The positions-history endpoint.

use vstd::prelude::*;
use crate::client::{prepare_request, HttpMethod, SignedRequest};
use crate::config::Config;
use crate::error::ClientError;
use crate::query::{with_param, QueryParams};

verus! {

/// Path of the positions-history endpoint.
pub const POSITIONS_HISTORY_PATH: &'static str = "/api/v5/account/positions-history";

/// Filters of the positions-history endpoint; an absent filter is not sent.
#[derive(Debug, Clone)]
pub struct PositionsHistoryParams {
    /// Instrument type, sent as `instType`.
    pub inst_type: Option<String>,
    /// Instrument ID, sent as `instId`.
    pub inst_id: Option<String>,
    /// Margin mode, sent as `mgnMode`.
    pub mgn_mode: Option<String>,
    /// How the position was closed, sent as `type`.
    pub close_type: Option<String>,
    /// Position ID, sent as `posId`.
    pub pos_id: Option<String>,
    /// Only positions updated before this time, sent as `before`.
    pub before: Option<String>,
    /// Only positions updated after this time, sent as `after`.
    pub after: Option<String>,
    /// Number of results, sent as `limit`.
    pub limit: Option<String>,
}

impl PositionsHistoryParams {
    /// The query that the filters stand for.
    pub open spec fn query_of(&self) -> Map<Seq<char>, Seq<char>> {
        let m0 = with_param(Map::empty(), "instType"@, self.inst_type);
        let m1 = with_param(m0, "instId"@, self.inst_id);
        let m2 = with_param(m1, "mgnMode"@, self.mgn_mode);
        let m3 = with_param(m2, "type"@, self.close_type);
        let m4 = with_param(m3, "posId"@, self.pos_id);
        let m5 = with_param(m4, "before"@, self.before);
        let m6 = with_param(m5, "after"@, self.after);
        with_param(m6, "limit"@, self.limit)
    }

    /// The query of a call: each filter that is present, under its wire name.
    pub fn to_query_params(&self) -> (query: QueryParams)
        ensures
            query.wf(),
            query@ == self.query_of(),
    {
        let mut query = QueryParams::new();
        query.insert_opt("instType", &self.inst_type);
        query.insert_opt("instId", &self.inst_id);
        query.insert_opt("mgnMode", &self.mgn_mode);
        query.insert_opt("type", &self.close_type);
        query.insert_opt("posId", &self.pos_id);
        query.insert_opt("before", &self.before);
        query.insert_opt("after", &self.after);
        query.insert_opt("limit", &self.limit);
        query
    }
}

/// The signed request of a positions-history call.
pub fn positions_history_request(
    config: &Config,
    params: &PositionsHistoryParams,
    timestamp: &str,
) -> (result: Result<SignedRequest, ClientError>)
    ensures
        result matches Ok(request) && request.is_for(
            config,
            HttpMethod::Get,
            "GET"@,
            POSITIONS_HISTORY_PATH@,
            params.query_of(),
            None,
            timestamp@,
        ),
{
    let query = params.to_query_params();
    prepare_request(config, "GET", POSITIONS_HISTORY_PATH, Some(&query), None, timestamp)
}

} // verus!

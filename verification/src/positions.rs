//! The positions endpoint and the short form of a position.

use vstd::prelude::*;
use vstd::string::*;
use crate::client::{prepare_request, HttpMethod, SignedRequest};
use crate::config::Config;
use crate::error::ClientError;
use crate::query::{with_param, QueryParams};
use crate::types::{Position, PositionsParams};

verus! {

/// Path of the positions endpoint.
pub const POSITIONS_PATH: &'static str = "/api/v5/account/positions";

/// The query that the filters of a positions call stand for.
pub open spec fn positions_query_of(params: &PositionsParams) -> Map<Seq<char>, Seq<char>> {
    with_param(
        with_param(
            with_param(Map::empty(), "instType"@, params.inst_type),
            "instId"@,
            params.inst_id,
        ),
        "posId"@,
        params.pos_id,
    )
}

/// The query of a positions call: each filter that is present, under its wire name.
pub fn positions_query(params: &PositionsParams) -> (query: QueryParams)
    ensures
        query.wf(),
        query@ == positions_query_of(params),
{
    let mut query = QueryParams::new();
    query.insert_opt("instType", &params.inst_type);
    query.insert_opt("instId", &params.inst_id);
    query.insert_opt("posId", &params.pos_id);
    query
}

/// The signed request of a positions call.
pub fn positions_request(config: &Config, params: &PositionsParams, timestamp: &str) -> (result:
    Result<SignedRequest, ClientError>)
    ensures
        result matches Ok(request) && request.is_for(
            config,
            HttpMethod::Get,
            "GET"@,
            POSITIONS_PATH@,
            positions_query_of(params),
            None,
            timestamp@,
        ),
{
    let query = positions_query(params);
    prepare_request(config, "GET", POSITIONS_PATH, Some(&query), None, timestamp)
}

/// The short form of a position: what a table row shows.
#[derive(Debug, Clone)]
pub struct SimplifiedPosition {
    pub pair: String,
    pub side: String,
    pub avail_pos: String,
    pub avg_px: String,
    pub mark_px: String,
    pub upl: String,
    pub upl_ratio: String,
}

/// `text`, filled with spaces on the right up to `width` characters; a longer text is kept whole.
pub open spec fn pad_right(text: Seq<char>, width: nat) -> Seq<char> {
    if text.len() >= width {
        text
    } else {
        text + Seq::new((width - text.len()) as nat, |i: int| ' ')
    }
}

/// Appends `text` to `out`, padded on the right to `width` characters.
fn push_padded(out: &mut String, text: &str, width: usize)
    ensures
        final(out)@ == old(out)@ + pad_right(text@, width as nat),
{
    let ghost start = out@;
    out.append(text);
    let mut n = text.unicode_len();
    proof {
        reveal_strlit(" ");
        assert(Seq::new(0, |i: int| ' ') =~= Seq::<char>::empty());
    }
    if n >= width {
        assert(out@ =~= start + pad_right(text@, width as nat));
        return ;
    }
    let ghost len = n;
    while n < width
        invariant
            len == text@.len(),
            len <= n <= width,
            " "@ == seq![' '],
            out@ == start + text@ + Seq::new((n - len) as nat, |i: int| ' '),
        decreases width - n,
    {
        out.append(" ");
        n += 1;
        assert(out@ =~= start + text@ + Seq::new((n - len) as nat, |i: int| ' '));
    }
    assert(out@ =~= start + pad_right(text@, width as nat));
}

impl SimplifiedPosition {
    /// The short form of `position`.
    pub open spec fn summarizes(&self, position: &Position) -> bool {
        &&& self.pair == position.inst_id
        &&& self.side == position.pos_side
        &&& self.avail_pos == position.pos
        &&& self.avg_px == position.avg_px
        &&& self.mark_px == position.mark_px
        &&& self.upl == position.upl
        &&& self.upl_ratio == position.upl_ratio
    }

    /// The row of the table: the seven columns, each padded to its width, with ` | ` between them.
    pub open spec fn display_line(&self) -> Seq<char> {
        pad_right(self.pair@, 12) + " | "@ + pad_right(self.side@, 6) + " | "@ + pad_right(
            self.avail_pos@,
            8,
        ) + " | "@ + pad_right(self.avg_px@, 12) + " | "@ + pad_right(self.mark_px@, 12) + " | "@
            + pad_right(self.upl@, 12) + " | "@ + pad_right(self.upl_ratio@, 8)
    }

    /// Takes from a position what the short form shows.
    pub fn from_position(position: &Position) -> (short: Self)
        ensures
            short.summarizes(position),
    {
        SimplifiedPosition {
            pair: position.inst_id.clone(),
            side: position.pos_side.clone(),
            avail_pos: position.pos.clone(),
            avg_px: position.avg_px.clone(),
            mark_px: position.mark_px.clone(),
            upl: position.upl.clone(),
            upl_ratio: position.upl_ratio.clone(),
        }
    }

    /// Renders the position as a row of the table.
    pub fn format_display(&self) -> (line: String)
        ensures
            line@ == self.display_line(),
    {
        let mut line = String::new();
        push_padded(&mut line, self.pair.as_str(), 12);
        line.append(" | ");
        push_padded(&mut line, self.side.as_str(), 6);
        line.append(" | ");
        push_padded(&mut line, self.avail_pos.as_str(), 8);
        line.append(" | ");
        push_padded(&mut line, self.avg_px.as_str(), 12);
        line.append(" | ");
        push_padded(&mut line, self.mark_px.as_str(), 12);
        line.append(" | ");
        push_padded(&mut line, self.upl.as_str(), 12);
        line.append(" | ");
        push_padded(&mut line, self.upl_ratio.as_str(), 8);
        assert(line@ =~= self.display_line());
        line
    }
}

/// The short forms of the positions of a response, in their order.
pub fn simplify_positions(positions: &Vec<Position>) -> (short: Vec<SimplifiedPosition>)
    ensures
        short@.len() == positions@.len(),
        forall|i: int| 0 <= i < short@.len() ==> (#[trigger] short@[i]).summarizes(&positions@[i]),
{
    let mut short: Vec<SimplifiedPosition> = Vec::new();
    let mut i: usize = 0;
    while i < positions.len()
        invariant
            i <= positions@.len(),
            short@.len() == i,
            forall|j: int| 0 <= j < i ==> (#[trigger] short@[j]).summarizes(&positions@[j]),
        decreases positions@.len() - i,
    {
        short.push(SimplifiedPosition::from_position(&positions[i]));
        i += 1;
    }
    short
}

} // verus!

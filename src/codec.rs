use vstd::prelude::*;

use crate::action::Action;
use crate::pairing::{Row, RowRef};

verus! {

/// A paired situation quantized into fixed-width columns, as stored.
///
/// The first eleven columns (all but the two action columns) form the
/// situation key; the two action columns are the outcome that queries tally.
/// Action codes are one byte wide: their 16-bit columns never hold a code
/// above 255 when written by encoding, and decoding refuses one that does.
#[derive(Clone, Copy, Debug, PartialEq, Eq)]
pub struct DBRow {
    pub init_pos_x: u16,
    pub init_pos_y: u16,
    pub init_vel_x: u16,
    pub init_vel_y: u16,
    pub resp_pos_x: u16,
    pub resp_pos_y: u16,
    pub resp_vel_x: u16,
    pub resp_vel_y: u16,
    pub init_state: u8,
    pub resp_state: u8,
    pub init_action: u16,
    pub resp_action: u16,
    pub delay: u16,
}

/// The column value of a rounded quantity: values below zero become zero and
/// values above the column's range become its largest value, the same
/// saturation that a float-to-integer cast performs.
pub open spec fn quantized(v: int) -> u16 {
    if v < 0 {
        0
    } else if v > u16::MAX {
        u16::MAX
    } else {
        v as u16
    }
}

/// The stored row of paired situation `r`, or `None` when its delay does not
/// fit the 16-bit delay column.
pub open spec fn encoded(r: Row) -> Option<DBRow> {
    let init = r.opponent_initiation;
    let resp = r.player_response;
    if r.response_delay > u16::MAX {
        None
    } else {
        Some(
            DBRow {
                init_pos_x: quantized(init.position_x as int),
                init_pos_y: quantized(init.position_y as int),
                init_vel_x: quantized(init.velocity_x as int),
                init_vel_y: quantized(init.velocity_y as int),
                resp_pos_x: quantized(resp.position_x as int),
                resp_pos_y: quantized(resp.position_y as int),
                resp_vel_x: quantized(resp.velocity_x as int),
                resp_vel_y: quantized(resp.velocity_y as int),
                init_state: init.actionable_state,
                resp_state: resp.actionable_state,
                init_action: init.action_taken as u16,
                resp_action: resp.action_taken as u16,
                delay: r.response_delay as u16,
            },
        )
    }
}

/// The action that stored columns describe; its frame is `frame`.
pub open spec fn decoded_action(frame: usize, px: u16, py: u16, vx: u16, vy: u16, state: u8, action: u16) -> Action {
    Action {
        frame_start: frame,
        position_x: px as i64,
        position_y: py as i64,
        velocity_x: vx as i64,
        velocity_y: vy as i64,
        actionable_state: state,
        action_taken: action as u8,
    }
}

/// The paired situation that stored row `d` describes, with the initiation
/// placed at frame zero and the response at frame `delay`; `None` when an
/// action column holds a code beyond its low byte.
pub open spec fn decoded(d: DBRow) -> Option<Row> {
    if d.init_action > u8::MAX || d.resp_action > u8::MAX {
        None
    } else {
        Some(
            Row {
                opponent_initiation: decoded_action(
                    0, d.init_pos_x, d.init_pos_y, d.init_vel_x, d.init_vel_y, d.init_state, d.init_action),
                player_response: decoded_action(
                    d.delay as usize, d.resp_pos_x, d.resp_pos_y, d.resp_vel_x, d.resp_vel_y, d.resp_state,
                    d.resp_action),
                response_delay: d.delay as usize,
            },
        )
    }
}

/// Whether every rounded quantity and the delay of `r` already lie in their
/// columns' ranges.
pub open spec fn representable(r: Row) -> bool {
    let init = r.opponent_initiation;
    let resp = r.player_response;
    &&& 0 <= init.position_x <= u16::MAX
    &&& 0 <= init.position_y <= u16::MAX
    &&& 0 <= init.velocity_x <= u16::MAX
    &&& 0 <= init.velocity_y <= u16::MAX
    &&& 0 <= resp.position_x <= u16::MAX
    &&& 0 <= resp.position_y <= u16::MAX
    &&& 0 <= resp.velocity_x <= u16::MAX
    &&& 0 <= resp.velocity_y <= u16::MAX
    &&& r.response_delay <= u16::MAX
}

/// Whether `a` and `b` describe the same situation and outcome: equal
/// positions, velocities, states, actions and delay (start frames aside).
pub open spec fn same_quantities(a: Row, b: Row) -> bool {
    let (ai, ar, bi, br) = (a.opponent_initiation, a.player_response, b.opponent_initiation, b.player_response);
    &&& ai.position_x == bi.position_x && ai.position_y == bi.position_y
    &&& ai.velocity_x == bi.velocity_x && ai.velocity_y == bi.velocity_y
    &&& ar.position_x == br.position_x && ar.position_y == br.position_y
    &&& ar.velocity_x == br.velocity_x && ar.velocity_y == br.velocity_y
    &&& ai.actionable_state == bi.actionable_state && ar.actionable_state == br.actionable_state
    &&& ai.action_taken == bi.action_taken && ar.action_taken == br.action_taken
    &&& a.response_delay == b.response_delay
}

/// Decoding the stored row of a situation whose quantities lie in range
/// gives back those quantities.
pub proof fn lemma_decode_encode(r: Row)
    requires
        representable(r),
    ensures
        encoded(r) is Some,
        decoded(encoded(r)->0) is Some,
        same_quantities(decoded(encoded(r)->0)->0, r),
{
}

/// Every row that decodes is a fixed point of decoding and then encoding.
pub proof fn lemma_encode_decode(d: DBRow)
    requires
        decoded(d) is Some,
    ensures
        encoded(decoded(d)->0) == Some(d),
{
}

/// Re-encoding an already-quantized situation changes nothing: the stored
/// row of any situation decodes, and encoding the result gives the same
/// stored row.
pub proof fn lemma_reencode_fixed_point(r: Row)
    requires
        encoded(r) is Some,
    ensures
        decoded(encoded(r)->0) is Some,
        encoded(decoded(encoded(r)->0)->0) == encoded(r),
{
    lemma_encode_decode(encoded(r)->0);
}

/// Saturates a rounded quantity into a 16-bit column.
pub fn quantize(v: i64) -> (r: u16)
    ensures
        r == quantized(v as int),
{
    if v < 0 {
        0
    } else if v > u16::MAX as i64 {
        u16::MAX
    } else {
        v as u16
    }
}

fn encode_parts(init: &Action, resp: &Action, delay: usize) -> (d: Option<DBRow>)
    ensures
        d == encoded(Row { opponent_initiation: *init, player_response: *resp, response_delay: delay }),
{
    if delay > u16::MAX as usize {
        return None;
    }
    Some(
        DBRow {
            init_pos_x: quantize(init.position_x),
            init_pos_y: quantize(init.position_y),
            init_vel_x: quantize(init.velocity_x),
            init_vel_y: quantize(init.velocity_y),
            resp_pos_x: quantize(resp.position_x),
            resp_pos_y: quantize(resp.position_y),
            resp_vel_x: quantize(resp.velocity_x),
            resp_vel_y: quantize(resp.velocity_y),
            init_state: init.actionable_state,
            resp_state: resp.actionable_state,
            init_action: init.action_taken as u16,
            resp_action: resp.action_taken as u16,
            delay: delay as u16,
        },
    )
}

impl Row {
    /// Quantizes this situation into its stored row; `None` when the delay
    /// exceeds the delay column.
    pub fn to_db_row(&self) -> (d: Option<DBRow>)
        ensures
            d == encoded(*self),
    {
        encode_parts(&self.opponent_initiation, &self.player_response, self.response_delay)
    }
}

impl<'a> RowRef<'a> {
    /// Quantizes this situation into its stored row; `None` when the delay
    /// exceeds the delay column.
    pub fn to_db_row(&self) -> (d: Option<DBRow>)
        ensures
            d == encoded(self@),
    {
        encode_parts(self.opponent_initiation, self.player_response, self.response_delay)
    }
}

impl DBRow {
    /// The paired situation this row describes, for inspection; `None` when
    /// an action column holds a code beyond its low byte.
    pub fn to_row(&self) -> (r: Option<Row>)
        ensures
            r == decoded(*self),
    {
        if self.init_action > u8::MAX as u16 || self.resp_action > u8::MAX as u16 {
            return None;
        }
        let init = Action {
            frame_start: 0,
            position_x: self.init_pos_x as i64,
            position_y: self.init_pos_y as i64,
            velocity_x: self.init_vel_x as i64,
            velocity_y: self.init_vel_y as i64,
            actionable_state: self.init_state,
            action_taken: self.init_action as u8,
        };
        let resp = Action {
            frame_start: self.delay as usize,
            position_x: self.resp_pos_x as i64,
            position_y: self.resp_pos_y as i64,
            velocity_x: self.resp_vel_x as i64,
            velocity_y: self.resp_vel_y as i64,
            actionable_state: self.resp_state,
            action_taken: self.resp_action as u8,
        };
        Some(Row { opponent_initiation: init, player_response: resp, response_delay: self.delay as usize })
    }
}

} // verus!

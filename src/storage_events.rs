//! What a node does about the outcome of storing data, and about a peer
//! reporting that it could not store data.
use vstd::prelude::*;

verus! {

/// The outcome of storing a piece of data.
#[derive(Clone, Copy, Debug, PartialEq, Eq, Structural)]
pub enum StoreOutcome {
    /// Stored; `level_updated` when used space crossed into a new tranche.
    Stored { level_updated: bool },
    /// The store is full.
    NotEnoughSpace,
    /// Another error, taken as harmless (the data may already be there).
    Failed,
}

/// The follow-up to storing data.
#[derive(Clone, Copy, Debug, PartialEq, Eq, Structural)]
pub struct StoreDecision {
    /// Let new nodes join.
    pub set_joins_allowed: bool,
    /// Let new nodes join until the section splits.
    pub set_joins_allowed_until_split: bool,
    /// Tell our elders that we are full.
    pub report_full_to_elders: bool,
    /// Answer the requester with success.
    pub response_ok: bool,
}

/// The follow-up to storing data: a new tranche of used space opens joins;
/// reaching the minimum capacity opens joins until the split; a full store is
/// reported to the elders, opens joins until the split when we are an elder
/// and joins are closed, and is answered with an error; other errors are ignored.
pub fn store_data_decision(
    outcome: StoreOutcome,
    has_reached_min_capacity: bool,
    joins_allowed_until_split: bool,
    is_elder: bool,
    joins_allowed: bool,
) -> (r: StoreDecision)
    ensures
        outcome matches StoreOutcome::Stored { level_updated } ==> r == (StoreDecision {
            set_joins_allowed: level_updated,
            set_joins_allowed_until_split: !level_updated && has_reached_min_capacity && !joins_allowed_until_split,
            report_full_to_elders: false,
            response_ok: true,
        }),
        outcome == StoreOutcome::NotEnoughSpace ==> r == (StoreDecision {
            set_joins_allowed: false,
            set_joins_allowed_until_split: is_elder && !joins_allowed,
            report_full_to_elders: true,
            response_ok: false,
        }),
        outcome == StoreOutcome::Failed ==> r == (StoreDecision {
            set_joins_allowed: false,
            set_joins_allowed_until_split: false,
            report_full_to_elders: false,
            response_ok: true,
        }),
{
    match outcome {
        StoreOutcome::Stored { level_updated } => StoreDecision {
            set_joins_allowed: level_updated,
            set_joins_allowed_until_split: !level_updated && has_reached_min_capacity && !joins_allowed_until_split,
            report_full_to_elders: false,
            response_ok: true,
        },
        StoreOutcome::NotEnoughSpace => StoreDecision {
            set_joins_allowed: false,
            set_joins_allowed_until_split: is_elder && !joins_allowed,
            report_full_to_elders: true,
            response_ok: false,
        },
        StoreOutcome::Failed => StoreDecision {
            set_joins_allowed: false,
            set_joins_allowed_until_split: false,
            report_full_to_elders: false,
            response_ok: true,
        },
    }
}

/// The response to a node reporting that it could not store data.
#[derive(Clone, Copy, Debug, PartialEq, Eq, Structural)]
pub struct FullReportDecision {
    /// Let new nodes join.
    pub set_joins_allowed: bool,
    /// Propose the reporting node offline.
    pub propose_offline: bool,
    /// Track a communication issue with the reporting node.
    pub track_issue: bool,
}

/// The response of a node to a peer that reports it could not store data:
/// adults ignore it; elders open joins if they are closed, propose the peer
/// offline when it reports full while our own store is below half its limit
/// (a premature report), and otherwise track an issue with it.
pub fn could_not_store_decision(is_elder: bool, joins_allowed: bool, full: bool, below_half_limit: bool) -> (r: FullReportDecision)
    ensures
        !is_elder ==> r == (FullReportDecision { set_joins_allowed: false, propose_offline: false, track_issue: false }),
        is_elder ==> r == (FullReportDecision {
            set_joins_allowed: !joins_allowed,
            propose_offline: full && below_half_limit,
            track_issue: !(full && below_half_limit),
        }),
{
    if !is_elder {
        return FullReportDecision { set_joins_allowed: false, propose_offline: false, track_issue: false };
    }
    let premature = full && below_half_limit;
    FullReportDecision { set_joins_allowed: !joins_allowed, propose_offline: premature, track_issue: !premature }
}

} // verus!

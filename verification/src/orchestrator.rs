//! One call's worth of questions to a server: which facet is asked for next,
//! and what is kept of each answer.
//!
//! The facets go out one at a time, in the order info, players, rules, extra
//! info, ping. A [`QueryRun`] is driven by its caller: [`QueryRun::advance`]
//! names the facet to send a request for, the caller sends it and waits, and
//! [`QueryRun::record`] takes what came of it. A facet that failed is kept as
//! such and the run goes on with the next.

use crate::cooldown::after_permit;
use crate::cooldown::permitted;
use crate::cooldown::ExtraInfoCooldown;
use crate::error::error_text;
use crate::error::QueryError;
use crate::query::Facet;
use crate::query::RequestKind;
use vstd::prelude::*;

verus! {

/// The ping that is reported where the ping got no answer, in milliseconds.
pub const PING_FAILED: u32 = 9999;

/// The mark that stands for a facet that failed.
#[derive(Clone, Debug, Default, PartialEq, Eq)]
pub struct ErrorResponse {
    /// What went wrong.
    pub info: String,
    /// Always set on a mark made for a failure.
    pub error: bool,
}

impl ErrorResponse {
    /// The mark for `error`.
    pub fn new(error: &QueryError) -> (mark: ErrorResponse)
        ensures
            mark.error,
            mark.info@ == error_text(*error),
    {
        ErrorResponse { info: error.message(), error: true }
    }
}

/// What was kept for a facet that was asked for.
#[derive(Clone, Debug, PartialEq, Eq)]
pub enum FacetReply {
    /// The answer.
    Payload(Facet),
    /// The request failed.
    Failed(ErrorResponse),
}

/// Everything a call learned. A facet that was not asked for, or that the
/// cooldown held back, is `None`.
#[derive(Clone, Debug, Default, PartialEq, Eq)]
pub struct ServerQueryResponse {
    pub info: Option<FacetReply>,
    pub extra_info: Option<FacetReply>,
    pub players: Option<FacetReply>,
    pub rules: Option<FacetReply>,
    /// Milliseconds from the ping's request to its answer.
    pub ping: Option<u32>,
}

/// The facets that a call asks for.
#[derive(Clone, Copy, Debug, Default, PartialEq, Eq)]
pub struct FacetFlags {
    pub info: bool,
    pub extra_info: bool,
    pub players: bool,
    pub rules: bool,
    pub ping: bool,
}

/// What the caller of a run has to do next.
#[derive(Clone, Copy, Debug, PartialEq, Eq)]
pub enum QueryAction {
    /// Send the request for this facet and wait for its answer.
    Send(RequestKind),
    /// The answer for this facet is still owed; there is nothing to send.
    Wait(RequestKind),
    /// Every facet has been dealt with.
    Finished,
}

/// The place of a facet in the order in which facets are asked for.
pub open spec fn place(kind: RequestKind) -> int {
    match kind {
        RequestKind::Info => 0,
        RequestKind::Players => 1,
        RequestKind::Rules => 2,
        RequestKind::ExtraInfo => 3,
        RequestKind::Ping => 4,
    }
}

/// The first facet from place `from` on that is asked for; the extra info
/// counts only where the cooldown lets it through.
pub open spec fn next_from(flags: FacetFlags, from: int, extra_info_passes: bool) -> Option<
    RequestKind,
> {
    if from <= 0 && flags.info {
        Some(RequestKind::Info)
    } else if from <= 1 && flags.players {
        Some(RequestKind::Players)
    } else if from <= 2 && flags.rules {
        Some(RequestKind::Rules)
    } else if from <= 3 && flags.extra_info && extra_info_passes {
        Some(RequestKind::ExtraInfo)
    } else if from <= 4 && flags.ping {
        Some(RequestKind::Ping)
    } else {
        None
    }
}

/// Whether looking for the next facet from place `from` on comes to the extra
/// info, and so to the cooldown: it is asked for and no facet before it is
/// left to send.
pub open spec fn reaches_cooldown(flags: FacetFlags, from: int) -> bool {
    from <= 3 && flags.extra_info && !(from <= 0 && flags.info) && !(from <= 1 && flags.players)
        && !(from <= 2 && flags.rules)
}

/// Whether `slot` keeps `outcome`: the answer itself, or the mark of the
/// failure with its text.
pub open spec fn keeps(slot: Option<FacetReply>, outcome: Result<Facet, QueryError>) -> bool {
    match outcome {
        Ok(facet) => slot == Some(FacetReply::Payload(facet)),
        Err(error) => slot matches Some(FacetReply::Failed(mark)) && mark.error && mark.info@
            == error_text(error),
    }
}

/// The ping to report for `outcome`: the time it took where an answer came,
/// whatever the answer holds, and `PING_FAILED` where none did.
pub open spec fn ping_for(outcome: Result<Facet, QueryError>, elapsed_ms: u32) -> u32 {
    match outcome {
        Ok(_) => elapsed_ms,
        Err(_) => PING_FAILED,
    }
}

/// Whether `after` is `before` with `outcome` kept for the facet `kind`, and
/// nothing else changed.
pub open spec fn answered(
    before: ServerQueryResponse,
    kind: RequestKind,
    outcome: Result<Facet, QueryError>,
    elapsed_ms: u32,
    after: ServerQueryResponse,
) -> bool {
    &&& if kind == RequestKind::Info {
        keeps(after.info, outcome)
    } else {
        after.info == before.info
    }
    &&& if kind == RequestKind::Players {
        keeps(after.players, outcome)
    } else {
        after.players == before.players
    }
    &&& if kind == RequestKind::Rules {
        keeps(after.rules, outcome)
    } else {
        after.rules == before.rules
    }
    &&& if kind == RequestKind::ExtraInfo {
        keeps(after.extra_info, outcome)
    } else {
        after.extra_info == before.extra_info
    }
    &&& if kind == RequestKind::Ping {
        after.ping == Some(ping_for(outcome, elapsed_ms))
    } else {
        after.ping == before.ping
    }
}

/// The state of one call.
pub struct QueryRun {
    flags: FacetFlags,
    passed: u8,
    awaited: Option<RequestKind>,
    response: ServerQueryResponse,
}

impl QueryRun {
    /// The facets that the call asks for.
    pub closed spec fn flags(&self) -> FacetFlags {
        self.flags
    }

    /// How many places of the order lie behind the run.
    pub closed spec fn passed(&self) -> int {
        self.passed as int
    }

    /// The facet whose answer the run waits for.
    pub closed spec fn awaited(&self) -> Option<RequestKind> {
        self.awaited
    }

    /// What the run has kept so far.
    pub closed spec fn response(&self) -> ServerQueryResponse {
        self.response
    }

    /// A run that has asked for nothing yet.
    pub fn new(flags: FacetFlags) -> (run: QueryRun)
        ensures
            run.flags() == flags,
            run.passed() == 0,
            run.awaited() is None,
            run.response() == (ServerQueryResponse {
                info: None,
                extra_info: None,
                players: None,
                rules: None,
                ping: None,
            }),
    {
        QueryRun {
            flags,
            passed: 0,
            awaited: None,
            response: ServerQueryResponse {
                info: None,
                extra_info: None,
                players: None,
                rules: None,
                ping: None,
            },
        }
    }

    /// Says what to do next.
    ///
    /// While an answer is owed, that is to wait, and nothing changes. Else
    /// the run moves on to the next facet that is asked for. Where it comes
    /// to the extra info it asks `cooldown`, for the server named by `target`
    /// and `port` at the time `now`; a fetch that is held back is passed
    /// over and its slot stays empty.
    pub fn advance(
        &mut self,
        cooldown: &mut ExtraInfoCooldown,
        target: &str,
        port: i32,
        now: u64,
    ) -> (action: QueryAction)
        ensures
            final(self).flags() == old(self).flags(),
            final(self).response() == old(self).response(),
            old(self).awaited() matches Some(kind) ==> action == QueryAction::Wait(kind)
                && final(self).awaited() == old(self).awaited() && final(self).passed() == old(
                self,
            ).passed() && final(cooldown)@ == old(cooldown)@,
            old(self).awaited() is None ==> ({
                let asked = reaches_cooldown(old(self).flags(), old(self).passed());
                let passes = permitted(old(cooldown)@, target@, port, now);
                &&& final(cooldown)@ == if asked {
                    after_permit(old(cooldown)@, target@, port, now)
                } else {
                    old(cooldown)@
                }
                &&& match next_from(old(self).flags(), old(self).passed(), passes) {
                    Some(kind) => action == QueryAction::Send(kind) && final(self).awaited()
                        == Some(kind) && final(self).passed() == place(kind) + 1,
                    None => action == QueryAction::Finished && final(self).awaited() is None
                        && final(self).passed() == 5,
                }
            }),
    {
        if let Some(kind) = self.awaited {
            return QueryAction::Wait(kind);
        }
        let from: u8 = self.passed;
        let next = if from <= 0 && self.flags.info {
            Some((RequestKind::Info, 1u8))
        } else if from <= 1 && self.flags.players {
            Some((RequestKind::Players, 2u8))
        } else if from <= 2 && self.flags.rules {
            Some((RequestKind::Rules, 3u8))
        } else if from <= 3 && self.flags.extra_info && cooldown.permit(target, port, now) {
            Some((RequestKind::ExtraInfo, 4u8))
        } else if from <= 4 && self.flags.ping {
            Some((RequestKind::Ping, 5u8))
        } else {
            None
        };
        match next {
            Some((kind, passed)) => {
                self.awaited = Some(kind);
                self.passed = passed;
                QueryAction::Send(kind)
            },
            None => {
                self.passed = 5;
                QueryAction::Finished
            },
        }
    }

    /// Takes what came of the request that the run waits for: the answer, or
    /// why there is none, and the milliseconds it took. It says whether an
    /// answer was owed at all; where none was, nothing changes.
    pub fn record(&mut self, outcome: Result<Facet, QueryError>, elapsed_ms: u32) -> (taken: bool)
        ensures
            final(self).flags() == old(self).flags(),
            final(self).passed() == old(self).passed(),
            final(self).awaited() is None,
            taken == old(self).awaited() is Some,
            match old(self).awaited() {
                Some(kind) => answered(
                    old(self).response(),
                    kind,
                    outcome,
                    elapsed_ms,
                    final(self).response(),
                ),
                None => final(self).response() == old(self).response(),
            },
    {
        let kind = match self.awaited {
            Some(kind) => kind,
            None => return false,
        };
        self.awaited = None;
        match kind {
            RequestKind::Ping => {
                self.response.ping = Some(
                    match outcome {
                        Ok(_) => elapsed_ms,
                        Err(_) => PING_FAILED,
                    },
                );
            },
            _ => {
                let reply = match outcome {
                    Ok(facet) => FacetReply::Payload(facet),
                    Err(error) => FacetReply::Failed(ErrorResponse::new(&error)),
                };
                match kind {
                    RequestKind::Info => {
                        self.response.info = Some(reply);
                    },
                    RequestKind::Players => {
                        self.response.players = Some(reply);
                    },
                    RequestKind::Rules => {
                        self.response.rules = Some(reply);
                    },
                    _ => {
                        self.response.extra_info = Some(reply);
                    },
                }
            },
        }
        true
    }

    /// Whether an answer is owed, and for which facet.
    pub fn waiting_for(&self) -> (kind: Option<RequestKind>)
        ensures
            kind == self.awaited(),
    {
        self.awaited
    }

    /// Ends the run and hands out what it kept.
    pub fn finish(self) -> (response: ServerQueryResponse)
        ensures
            response == self.response(),
    {
        self.response
    }
}

/// Facets do not depend on each other: whatever comes of one request, the run
/// goes on to the same next facet, and what was kept for the other facets
/// stays as it was.
pub proof fn facets_are_independent(
    before: ServerQueryResponse,
    kind: RequestKind,
    one: Result<Facet, QueryError>,
    other: Result<Facet, QueryError>,
    elapsed_ms: u32,
    after_one: ServerQueryResponse,
    after_other: ServerQueryResponse,
)
    requires
        answered(before, kind, one, elapsed_ms, after_one),
        answered(before, kind, other, elapsed_ms, after_other),
    ensures
        kind != RequestKind::Info ==> after_one.info == after_other.info,
        kind != RequestKind::Players ==> after_one.players == after_other.players,
        kind != RequestKind::Rules ==> after_one.rules == after_other.rules,
        kind != RequestKind::ExtraInfo ==> after_one.extra_info == after_other.extra_info,
        kind != RequestKind::Ping ==> after_one.ping == after_other.ping,
{
}

/// The order of the facets is fixed: what is sent next lies behind every
/// place that the run has passed.
pub proof fn facets_go_in_order(flags: FacetFlags, from: int, extra_info_passes: bool)
    ensures
        next_from(flags, from, extra_info_passes) matches Some(kind) ==> from <= place(kind) < 5,
{
}

} // verus!

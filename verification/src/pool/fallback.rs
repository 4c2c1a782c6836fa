//! Routing to another member of the cluster while the local backend is away.
use vstd::prelude::*;
use crate::config::Address;
use crate::errors::Error;
use crate::pool::server_pool::{
    insist_on_tls, is_host_independent_error, should_tls_retry, Attempt, ServerPool,
};
use crate::server::server_backend::Server;
use crate::text::{concat, decimal_text, has_text, join_with};
#[allow(unused_imports)]
use crate::config::ServerTlsMode;
#[allow(unused_imports)]
use crate::errors;
#[allow(unused_imports)]
use crate::pool::server_pool;
#[allow(unused_imports)]
use crate::server::server_backend::SessionState;
#[allow(unused_imports)]
use crate::text;

verus! {

/// What is configured for the fallback. Times are in milliseconds.
#[derive(Debug)]
pub struct FallbackConfig {
    pub urls: Vec<String>,
    /// How long the local backend is left alone after a failure.
    pub cooldown_ms: u64,
    pub connect_timeout_ms: u64,
    pub api_timeout_ms: u64,
    /// How long connections to another member live.
    pub lifetime_ms: u64,
}

/// Whether the local backend is left alone.
#[derive(Debug, Clone, Copy, PartialEq, Eq, Structural)]
pub enum BlacklistCheck {
    /// It is.
    Active,
    /// It was until now.
    JustExpired,
    /// It is not.
    NotBlacklisted,
}

/// The role of a member of the cluster.
#[derive(Debug, Clone, Copy, PartialEq, Eq, Structural)]
pub enum Role {
    Leader,
    SyncStandby,
    Replica,
}

impl Role {
    /// The name of the role.
    pub fn name(self) -> (r: &'static str)
        ensures
            r@ == role_name(self),
    {
        match self {
            Role::Leader => "Leader",
            Role::SyncStandby => "SyncStandby",
            Role::Replica => "Replica",
        }
    }
}

/// The name of a role.
pub open spec fn role_name(role: Role) -> Seq<char> {
    match role {
        Role::Leader => "Leader"@,
        Role::SyncStandby => "SyncStandby"@,
        Role::Replica => "Replica"@,
    }
}

/// A member of the cluster that may be tried.
#[derive(Debug)]
pub struct FallbackTarget {
    pub host: String,
    pub port: u16,
    pub role: Role,
    /// How long connections to it live.
    pub lifetime_ms: u64,
}

/// Where a candidate is known from.
#[derive(Debug, Clone, Copy, PartialEq, Eq, Structural)]
pub enum TargetSource {
    /// It served before.
    WhitelistCache,
    /// The cluster was asked.
    Discovery,
}

/// Why a candidate did not serve.
#[derive(Debug, Clone, Copy, PartialEq, Eq, Structural)]
pub enum FailureReason {
    ConnectError,
    ResourceExhausted,
    ServerUnavailable,
    StartupError,
    StartupParameterRejection,
    Timeout,
}

/// The word for a reason.
pub open spec fn reason_word(r: FailureReason) -> Seq<char> {
    match r {
        FailureReason::ConnectError => "connect_error"@,
        FailureReason::ResourceExhausted => "resource_exhausted"@,
        FailureReason::ServerUnavailable => "server_unavailable"@,
        FailureReason::StartupError => "startup_error"@,
        FailureReason::StartupParameterRejection => "startup_parameter_rejection"@,
        FailureReason::Timeout => "timeout"@,
    }
}

/// The reason that an error stands for.
pub open spec fn reason_of(e: Error) -> FailureReason {
    match e {
        Error::ConnectError(m) => if text::contains_text(m@, "timed out"@) {
            FailureReason::Timeout
        } else {
            FailureReason::ConnectError
        },
        Error::ConnectResourceExhausted(_) => FailureReason::ResourceExhausted,
        Error::ServerUnavailableError(_, _) => FailureReason::ServerUnavailable,
        Error::ServerStartupParameterRejection { .. } => FailureReason::StartupParameterRejection,
        _ => FailureReason::StartupError,
    }
}

impl FailureReason {
    /// The word for the reason.
    pub fn as_str(self) -> (r: &'static str)
        ensures
            r@ == reason_word(self),
    {
        match self {
            FailureReason::ConnectError => "connect_error",
            FailureReason::ResourceExhausted => "resource_exhausted",
            FailureReason::ServerUnavailable => "server_unavailable",
            FailureReason::StartupError => "startup_error",
            FailureReason::StartupParameterRejection => "startup_parameter_rejection",
            FailureReason::Timeout => "timeout",
        }
    }

    /// The reason that an error stands for.
    pub fn of(err: &Error) -> (r: FailureReason)
        ensures
            r == reason_of(*err),
    {
        match err {
            Error::ConnectError(m) => {
                if has_text(m.as_str(), "timed out") {
                    FailureReason::Timeout
                } else {
                    FailureReason::ConnectError
                }
            },
            Error::ConnectResourceExhausted(_) => FailureReason::ResourceExhausted,
            Error::ServerUnavailableError(_, _) => FailureReason::ServerUnavailable,
            Error::ServerStartupParameterRejection { .. } => {
                FailureReason::StartupParameterRejection
            },
            _ => FailureReason::StartupError,
        }
    }

    /// Whether a candidate that failed so is left alone for a while: not if every
    /// member would fail so.
    pub fn warrants_host_cooldown(self) -> (r: bool)
        ensures
            r == !(self == FailureReason::ResourceExhausted || self
                == FailureReason::StartupParameterRejection),
    {
        match self {
            FailureReason::ResourceExhausted => false,
            FailureReason::StartupParameterRejection => false,
            _ => true,
        }
    }
}

/// An error that every member would give leaves no candidate alone.
pub proof fn host_independent_errors_cool_no_host_down(e: Error)
    ensures
        server_pool::host_independent(e) <==> reason_of(e) == FailureReason::ResourceExhausted
            || reason_of(e) == FailureReason::StartupParameterRejection,
{
}

/// How often candidates failed, by reason.
#[derive(Debug, Clone, Copy, PartialEq, Eq, Structural)]
pub struct FailureCounts {
    pub connect_error: u32,
    pub resource_exhausted: u32,
    pub server_unavailable: u32,
    pub startup_error: u32,
    pub startup_parameter_rejection: u32,
    pub timeout: u32,
}

/// How often candidates failed for one reason.
pub open spec fn count_of(c: FailureCounts, r: FailureReason) -> u32 {
    match r {
        FailureReason::ConnectError => c.connect_error,
        FailureReason::ResourceExhausted => c.resource_exhausted,
        FailureReason::ServerUnavailable => c.server_unavailable,
        FailureReason::StartupError => c.startup_error,
        FailureReason::StartupParameterRejection => c.startup_parameter_rejection,
        FailureReason::Timeout => c.timeout,
    }
}

/// One failure more.
pub open spec fn counted(c: FailureCounts, r: FailureReason) -> FailureCounts {
    match r {
        FailureReason::ConnectError => FailureCounts {
            connect_error: (c.connect_error + 1) as u32,
            ..c
        },
        FailureReason::ResourceExhausted => FailureCounts {
            resource_exhausted: (c.resource_exhausted + 1) as u32,
            ..c
        },
        FailureReason::ServerUnavailable => FailureCounts {
            server_unavailable: (c.server_unavailable + 1) as u32,
            ..c
        },
        FailureReason::StartupError => FailureCounts {
            startup_error: (c.startup_error + 1) as u32,
            ..c
        },
        FailureReason::StartupParameterRejection => FailureCounts {
            startup_parameter_rejection: (c.startup_parameter_rejection + 1) as u32,
            ..c
        },
        FailureReason::Timeout => FailureCounts { timeout: (c.timeout + 1) as u32, ..c },
    }
}

/// What came of the candidates of a round.
#[derive(Debug)]
pub struct FailureSummary {
    pub last_err: Option<Error>,
    /// The first rejection of a startup parameter.
    pub typed_startup_rejection: Option<Error>,
    /// The first time that the pooler had no file descriptor left.
    pub typed_resource_exhaustion: Option<Error>,
    pub counts: FailureCounts,
}

impl Default for FailureSummary {
    fn default() -> (r: Self)
        ensures
            r == empty_summary(),
    {
        FailureSummary {
            last_err: None,
            typed_startup_rejection: None,
            typed_resource_exhaustion: None,
            counts: FailureCounts {
                connect_error: 0,
                resource_exhausted: 0,
                server_unavailable: 0,
                startup_error: 0,
                startup_parameter_rejection: 0,
                timeout: 0,
            },
        }
    }
}

/// The summary of a round without candidates.
pub open spec fn empty_summary() -> FailureSummary {
    FailureSummary {
        last_err: None,
        typed_startup_rejection: None,
        typed_resource_exhaustion: None,
        counts: FailureCounts {
            connect_error: 0,
            resource_exhausted: 0,
            server_unavailable: 0,
            startup_error: 0,
            startup_parameter_rejection: 0,
            timeout: 0,
        },
    }
}

/// A summary with one failure more.
pub open spec fn recorded(s: FailureSummary, err: Error, reason: FailureReason) -> FailureSummary {
    FailureSummary {
        last_err: Some(err),
        typed_startup_rejection: if s.typed_startup_rejection.is_none() && reason
            == FailureReason::StartupParameterRejection && err is ServerStartupParameterRejection {
            Some(err)
        } else {
            s.typed_startup_rejection
        },
        typed_resource_exhaustion: if s.typed_resource_exhaustion.is_none() && reason
            == FailureReason::ResourceExhausted {
            Some(err)
        } else {
            s.typed_resource_exhaustion
        },
        counts: counted(s.counts, reason),
    }
}

/// The reasons that occurred, each with its count, in the order of their words.
pub open spec fn occurring(c: FailureCounts) -> Seq<(u32, FailureReason)> {
    seq![
        (c.connect_error, FailureReason::ConnectError),
        (c.resource_exhausted, FailureReason::ResourceExhausted),
        (c.server_unavailable, FailureReason::ServerUnavailable),
        (c.startup_error, FailureReason::StartupError),
        (c.startup_parameter_rejection, FailureReason::StartupParameterRejection),
        (c.timeout, FailureReason::Timeout),
    ]
}

/// The parts of a summary's text, for the first `n` reasons.
pub open spec fn summary_parts(c: FailureCounts, n: nat) -> Seq<Seq<char>>
    decreases n,
{
    if n == 0 {
        Seq::empty()
    } else {
        let (count, reason) = occurring(c)[n - 1];
        let before = summary_parts(c, (n - 1) as nat);
        if count == 0 {
            before
        } else {
            before.push(text::join(seq![text::decimal(count as nat), " "@, reason_word(reason)]))
        }
    }
}

/// The text of a summary.
pub open spec fn summary_text(c: FailureCounts) -> Seq<char> {
    if summary_parts(c, 6).len() == 0 {
        "no candidates"@
    } else {
        text::separated(summary_parts(c, 6), ", "@)
    }
}

/// Adds the part of one reason to a summary's text.
fn add_part(parts: &mut Vec<String>, count: u32, reason: FailureReason)
    ensures
        text::texts_of(final(parts)@) == if count == 0 {
            text::texts_of(old(parts)@)
        } else {
            text::texts_of(old(parts)@).push(
                text::join(seq![text::decimal(count as nat), " "@, reason_word(reason)]),
            )
        },
{
    if count > 0 {
        let number = decimal_text(count as u64);
        let words = [number.as_str(), " ", reason.as_str()];
        assert(text::views(words@) =~= seq![number@, " "@, reason_word(reason)]);
        let part = concat(&words);
        parts.push(part);
        assert(text::texts_of(parts@) =~= text::texts_of(old(parts)@).push(part@));
    }
}

impl FailureSummary {
    /// Records the failure of one candidate.
    pub fn record(&mut self, err: Error, reason: FailureReason)
        requires
            count_of(old(self).counts, reason) < u32::MAX,
        ensures
            *final(self) == recorded(*old(self), err, reason),
    {
        match reason {
            FailureReason::ConnectError => {
                self.counts.connect_error = self.counts.connect_error + 1;
            },
            FailureReason::ResourceExhausted => {
                self.counts.resource_exhausted = self.counts.resource_exhausted + 1;
                if self.typed_resource_exhaustion.is_none() {
                    self.typed_resource_exhaustion = Some(err.clone());
                }
            },
            FailureReason::ServerUnavailable => {
                self.counts.server_unavailable = self.counts.server_unavailable + 1;
            },
            FailureReason::StartupError => {
                self.counts.startup_error = self.counts.startup_error + 1;
            },
            FailureReason::StartupParameterRejection => {
                self.counts.startup_parameter_rejection = self.counts.startup_parameter_rejection
                    + 1;
                if self.typed_startup_rejection.is_none() {
                    match &err {
                        Error::ServerStartupParameterRejection { .. } => {
                            self.typed_startup_rejection = Some(err.clone());
                        },
                        _ => {},
                    }
                }
            },
            FailureReason::Timeout => {
                self.counts.timeout = self.counts.timeout + 1;
            },
        }
        self.last_err = Some(err);
    }

    /// Whether a startup parameter was rejected.
    pub fn has_startup_parameter_rejection(&self) -> (r: bool)
        ensures
            r == self.typed_startup_rejection.is_some(),
    {
        self.typed_startup_rejection.is_some()
    }

    /// The first rejection of a startup parameter.
    pub fn startup_rejection(&self) -> (r: Option<Error>)
        ensures
            r == self.typed_startup_rejection,
    {
        match &self.typed_startup_rejection {
            Some(e) => Some(e.clone()),
            None => None,
        }
    }

    /// The first rejection of a startup parameter, at the end of the summary.
    pub fn into_startup_rejection(self) -> (r: Option<Error>)
        ensures
            r == self.typed_startup_rejection,
    {
        self.typed_startup_rejection
    }

    /// Whether the pooler had no file descriptor left.
    pub fn has_resource_exhaustion(&self) -> (r: bool)
        ensures
            r == self.typed_resource_exhaustion.is_some(),
    {
        self.typed_resource_exhaustion.is_some()
    }

    /// The first time that the pooler had no file descriptor left.
    pub fn resource_exhaustion(&self) -> (r: Option<Error>)
        ensures
            r == self.typed_resource_exhaustion,
    {
        match &self.typed_resource_exhaustion {
            Some(e) => Some(e.clone()),
            None => None,
        }
    }

    /// The same, at the end of the summary.
    pub fn into_resource_exhaustion(self) -> (r: Option<Error>)
        ensures
            r == self.typed_resource_exhaustion,
    {
        self.typed_resource_exhaustion
    }

    /// Whether every candidate rejected a startup parameter.
    pub fn all_startup_parameter_rejection(&self) -> (r: bool)
        ensures
            r == (self.counts.startup_parameter_rejection > 0 && forall|reason: FailureReason|
                reason != FailureReason::StartupParameterRejection ==> #[trigger] count_of(
                    self.counts,
                    reason,
                ) == 0),
    {
        let r = self.counts.startup_parameter_rejection > 0 && self.counts.connect_error == 0
            && self.counts.resource_exhausted == 0 && self.counts.server_unavailable == 0
            && self.counts.startup_error == 0 && self.counts.timeout == 0;
        proof {
            let c = self.counts;
            assert(count_of(c, FailureReason::ConnectError) == c.connect_error);
            assert(count_of(c, FailureReason::ResourceExhausted) == c.resource_exhausted);
            assert(count_of(c, FailureReason::ServerUnavailable) == c.server_unavailable);
            assert(count_of(c, FailureReason::StartupError) == c.startup_error);
            assert(count_of(c, FailureReason::Timeout) == c.timeout);
        }
        r
    }

    /// What came last.
    pub fn into_last_err(self) -> (r: Option<Error>)
        ensures
            r == self.last_err,
    {
        self.last_err
    }

    /// The text of the summary: the reasons that occurred, each with its count.
    pub fn format(&self) -> (s: String)
        ensures
            s@ == summary_text(self.counts),
    {
        let c = self.counts;
        let mut parts: Vec<String> = Vec::new();
        assert(text::texts_of(parts@) =~= Seq::<Seq<char>>::empty());
        add_part(&mut parts, c.connect_error, FailureReason::ConnectError);
        add_part(&mut parts, c.resource_exhausted, FailureReason::ResourceExhausted);
        add_part(&mut parts, c.server_unavailable, FailureReason::ServerUnavailable);
        add_part(&mut parts, c.startup_error, FailureReason::StartupError);
        add_part(
            &mut parts,
            c.startup_parameter_rejection,
            FailureReason::StartupParameterRejection,
        );
        add_part(&mut parts, c.timeout, FailureReason::Timeout);
        proof {
            reveal_with_fuel(summary_parts, 7);
            assert(text::texts_of(parts@) =~= summary_parts(c, 6));
        }
        if parts.len() == 0 {
            return "no candidates".to_owned();
        }
        join_with(&parts, ", ")
    }
}

/// The text for one candidate.
pub open spec fn target_text(t: FallbackTarget) -> Seq<char> {
    text::join(
        seq![t.host@, ":"@, text::decimal(t.port as nat), "("@, role_name(t.role), ")"@],
    )
}

/// A list of candidates, for the log.
pub fn format_target_list(targets: &Vec<FallbackTarget>) -> (s: String)
    ensures
        s@ == text::separated(
            Seq::new(targets@.len(), |i: int| target_text(targets@[i])),
            ", "@,
        ),
{
    let mut parts: Vec<String> = Vec::new();
    let mut i: usize = 0;
    while i < targets.len()
        invariant
            i <= targets@.len(),
            parts@.len() == i,
            forall|j: int| 0 <= j < i ==> (#[trigger] parts@[j])@ == target_text(targets@[j]),
        decreases targets.len() - i,
    {
        let port = decimal_text(targets[i].port as u64);
        let words = [
            targets[i].host.as_str(),
            ":",
            port.as_str(),
            "(",
            targets[i].role.name(),
            ")",
        ];
        assert(text::views(words@) =~= seq![
            targets@[i as int].host@,
            ":"@,
            port@,
            "("@,
            role_name(targets@[i as int].role),
            ")"@,
        ]);
        let part = concat(&words);
        assert(part@ == target_text(targets@[i as int]));
        parts.push(part);
        i = i + 1;
    }
    assert(text::texts_of(parts@) =~= Seq::new(
        targets@.len(),
        |j: int| target_text(targets@[j]),
    ));
    join_with(&parts, ", ")
}

/// The place of the first success, in the order in which the attempts ended; the
/// number of attempts if there is none.
pub open spec fn first_success<T, E>(ended: Seq<(usize, Result<T, E>)>) -> int
    decreases ended.len(),
{
    if ended.len() == 0 {
        0
    } else if ended[0].1 is Ok {
        0
    } else {
        1 + first_success(ended.skip(1))
    }
}

/// The errors of attempts that all failed.
pub open spec fn errors_of<T, E>(ended: Seq<(usize, Result<T, E>)>) -> Seq<(usize, E)> {
    Seq::new(ended.len(), |i: int| (ended[i].0, ended[i].1->Err_0))
}

/// The first success with its number, or all the errors with theirs. The attempts
/// come in the order in which they ended.
pub fn race_first_success<T, E>(ended: Vec<(usize, Result<T, E>)>) -> (r: Result<
    (T, usize),
    Vec<(usize, E)>,
>)
    ensures
        ({
            let k = first_success(ended@);
            if k < ended@.len() {
                r matches Ok((value, idx)) && ended@[k] == (idx, Ok::<T, E>(value))
            } else {
                r matches Err(errors) && errors@ == errors_of(ended@)
            }
        }),
{
    let mut rest = ended;
    let ghost start = rest@;
    let ghost mut gone: int = 0;
    let mut errors: Vec<(usize, E)> = Vec::new();
    assert(start.skip(0) =~= start);
    while rest.len() > 0
        invariant
            start == ended@,
            0 <= gone <= start.len(),
            rest@ == start.skip(gone),
            first_success(start) == gone + first_success(start.skip(gone)),
            errors@ =~= errors_of(start.take(gone)),
        decreases rest@.len(),
    {
        let ghost here = rest@;
        let (idx, result) = rest.remove(0);
        proof {
            assert(here[0] == start[gone]);
            assert(here.skip(1) =~= start.skip(gone + 1));
            assert(rest@ =~= start.skip(gone + 1));
        }
        match result {
            Ok(value) => {
                assert(first_success(start) == gone && here.len() == start.len() - gone);
                return Ok((value, idx));
            },
            Err(e) => {
                errors.push((idx, e));
                proof {
                    gone = gone + 1;
                    assert(errors@ =~= errors_of(start.take(gone)));
                }
            },
        }
    }
    assert(start.take(gone) =~= start);
    Err(errors)
}

/// The candidates with a role, or those with another, in their order.
pub open spec fn in_wave(targets: Seq<FallbackTarget>, first: bool) -> Seq<FallbackTarget>
    decreases targets.len(),
{
    if targets.len() == 0 {
        Seq::empty()
    } else if (targets.last().role == Role::SyncStandby) == first {
        in_wave(targets.drop_last(), first).push(targets.last())
    } else {
        in_wave(targets.drop_last(), first)
    }
}

/// What is done in one round.
pub enum RoundPlan {
    /// Nothing can be tried.
    Failed { error: Error, source: TargetSource },
    /// The candidate that served before is tried.
    Single(FallbackTarget),
    /// Synchronous standbys are tried first, all at once, and then the others.
    Waves { sync: Vec<FallbackTarget>, others: Vec<FallbackTarget> },
}

/// Parts the candidates: synchronous standbys, and the others.
fn partition(targets: Vec<FallbackTarget>) -> (r: (Vec<FallbackTarget>, Vec<FallbackTarget>))
    ensures
        r.0@ == in_wave(targets@, true),
        r.1@ == in_wave(targets@, false),
{
    let mut rest = targets;
    let mut sync: Vec<FallbackTarget> = Vec::new();
    let mut others: Vec<FallbackTarget> = Vec::new();
    let ghost start = rest@;
    let ghost mut gone: int = 0;
    assert(start.skip(0) =~= start);
    assert(start.take(0) =~= Seq::<FallbackTarget>::empty());
    while rest.len() > 0
        invariant
            0 <= gone <= start.len(),
            rest@ == start.skip(gone),
            sync@ == in_wave(start.take(gone), true),
            others@ == in_wave(start.take(gone), false),
        decreases rest@.len(),
    {
        let target = rest.remove(0);
        proof {
            assert(target == start[gone]);
            assert(rest@ =~= start.skip(gone + 1));
            assert(start.take(gone + 1).drop_last() =~= start.take(gone));
            gone = gone + 1;
        }
        match target.role {
            Role::SyncStandby => sync.push(target),
            _ => others.push(target),
        }
    }
    assert(start.take(gone) =~= start);
    (sync, others)
}

/// What follows a login at a candidate.
pub enum TargetStep {
    /// A second login, with TLS.
    Connect(Attempt),
    /// The candidate was tried.
    Ended(Result<Server, Error>),
}

/// The error of a lookup that failed.
pub open spec fn discovery_failed(e: Error, why: Seq<char>) -> bool {
    e matches Error::ConnectError(m) && m@ == text::join(seq!["fallback discovery failed: "@, why])
}

impl ServerPool {
    /// Decides what is done in a round, given the candidates or why there are
    /// none.
    pub fn run_fallback_round(
        &self,
        found: Result<(Vec<FallbackTarget>, TargetSource), String>,
    ) -> (plan: RoundPlan)
        ensures
            match found {
                Err(why) => plan matches RoundPlan::Failed { error, source } && discovery_failed(
                    error,
                    why@,
                ) && source == TargetSource::Discovery,
                Ok((targets, source)) => if !(self.resolved_startup_decision is FullCascade) {
                    plan matches RoundPlan::Failed { error, source: s } && self.rejects_with(error)
                        && s == source
                } else if source == TargetSource::Discovery {
                    plan matches RoundPlan::Waves { sync, others } && sync@ == in_wave(
                        targets@,
                        true,
                    ) && others@ == in_wave(targets@, false)
                } else if targets@.len() > 0 {
                    plan == RoundPlan::Single(targets@[0])
                } else {
                    plan matches RoundPlan::Failed { error, source: s } && s == source && (
                    error matches Error::ConnectError(m) && m@
                        == "whitelist round produced no target"@)
                },
            },
            round_planned(self.resolved_startup_decision is FullCascade, found, plan),
    {
        let (targets, source) = match found {
            Ok(pair) => pair,
            Err(why) => {
                let parts = ["fallback discovery failed: ", why.as_str()];
                assert(text::views(parts@) =~= seq!["fallback discovery failed: "@, why@]);
                return RoundPlan::Failed {
                    error: Error::ConnectError(concat(&parts)),
                    source: TargetSource::Discovery,
                };
            },
        };
        match self.resolved_startup_parameters() {
            Ok(_map) => {},
            Err(error) => {
                return RoundPlan::Failed { error, source };
            },
        }
        match source {
            TargetSource::WhitelistCache => {
                let mut targets = targets;
                if targets.len() == 0 {
                    return RoundPlan::Failed {
                        error: Error::ConnectError("whitelist round produced no target".to_owned()),
                        source,
                    };
                }
                RoundPlan::Single(targets.remove(0))
            },
            TargetSource::Discovery => {
                let (sync, others) = partition(targets);
                RoundPlan::Waves { sync, others }
            },
        }
    }

    /// The first login at a candidate.
    pub fn fallback_attempt(&self, target: &FallbackTarget) -> (r: Attempt)
        ensures
            r.address == (Address { host: target.host, port: target.port, ..self.address }),
            !r.second,
    {
        let mut address = self.address.clone();
        address.host = target.host.clone();
        address.port = target.port;
        Attempt { address, second: false }
    }

    /// How long the login at a candidate may take.
    pub fn fallback_timeout_ms(&self) -> (r: u64)
        ensures
            r == match self.fallback {
                Some(f) => f.connect_timeout_ms,
                None => self.connect_timeout_ms,
            },
    {
        match &self.fallback {
            Some(f) => f.connect_timeout_ms,
            None => self.connect_timeout_ms,
        }
    }

    /// Goes on after a login at a candidate. A first one that was refused is
    /// followed by a second one with TLS, where the mode asks for that.
    pub fn try_fallback_target(
        &self,
        target: &FallbackTarget,
        attempt: &Attempt,
        result: Result<Server, Error>,
    ) -> (step: TargetStep)
        ensures
            match result {
                Ok(server) => step matches TargetStep::Ended(Ok(conn)) && conn == (Server {
                    state: SessionState {
                        override_lifetime_ms: Some(target.lifetime_ms),
                        ..server.state
                    },
                    ..server
                }),
                Err(e) => if !attempt.second && server_pool::retries_with_tls(
                    self.address.server_tls.mode,
                    e,
                ) {
                    step == TargetStep::Connect(
                        Attempt { address: server_pool::with_tls(attempt.address), second: true },
                    )
                } else {
                    step == TargetStep::Ended(Err::<Server, Error>(e))
                },
            },
            attempt_ended(self.address.server_tls.mode, *target, *attempt, result, step),
    {
        match result {
            Ok(server) => {
                let mut conn = server;
                conn.state.override_lifetime_ms = Some(target.lifetime_ms);
                TargetStep::Ended(Ok(conn))
            },
            Err(e) => {
                if !attempt.second && should_tls_retry(self.address.server_tls.mode, &e) {
                    TargetStep::Connect(
                        Attempt { address: insist_on_tls(&attempt.address), second: true },
                    )
                } else {
                    TargetStep::Ended(Err(e))
                }
            },
        }
    }
}

/// The summary after a wave in which all candidates failed.
pub open spec fn wave_recorded(s: FailureSummary, errors: Seq<(usize, Error)>) -> FailureSummary
    decreases errors.len(),
{
    if errors.len() == 0 {
        s
    } else {
        recorded(
            wave_recorded(s, errors.drop_last()),
            errors.last().1,
            reason_of(errors.last().1),
        )
    }
}

/// No count exceeds the number of failures.
pub open spec fn at_most(c: FailureCounts, n: nat) -> bool {
    forall|r: FailureReason| #[trigger] count_of(c, r) <= n
}

/// A failure more raises no count by more than one.
proof fn counted_at_most(c: FailureCounts, reason: FailureReason, n: nat)
    requires
        at_most(c, n),
        n < u32::MAX,
    ensures
        at_most(counted(c, reason), n + 1),
{
    assert forall|r: FailureReason| #[trigger] count_of(counted(c, reason), r) <= n + 1 by {
        assert(count_of(c, r) <= n);
        assert(count_of(c, reason) <= n);
    }
}

/// Records a wave in which all candidates failed, and says which candidates are
/// to be left alone for which reason.
pub fn record_wave(
    summary: &mut FailureSummary,
    errors: Vec<(usize, Error)>,
    failures_before: u32,
) -> (r: Vec<(usize, FailureReason)>)
    requires
        at_most(old(summary).counts, failures_before as nat),
        failures_before + errors@.len() < u32::MAX,
    ensures
        *final(summary) == wave_recorded(*old(summary), errors@),
        at_most(final(summary).counts, (failures_before + errors@.len()) as nat),
        r@ == Seq::new(errors@.len(), |i: int| (errors@[i].0, reason_of(errors@[i].1))),
{
    let mut rest = errors;
    let mut out: Vec<(usize, FailureReason)> = Vec::new();
    let ghost all = rest@;
    let ghost mut gone: int = 0;
    let ghost start = *summary;
    assert(all.skip(0) =~= all);
    assert(all.take(0) =~= Seq::<(usize, Error)>::empty());
    while rest.len() > 0
        invariant
            0 <= gone <= all.len(),
            rest@ == all.skip(gone),
            failures_before + all.len() < u32::MAX,
            *summary == wave_recorded(start, all.take(gone)),
            at_most(summary.counts, (failures_before + gone) as nat),
            out@ =~= Seq::new(gone as nat, |i: int| (all[i].0, reason_of(all[i].1))),
        decreases rest@.len(),
    {
        let (idx, err) = rest.remove(0);
        let reason = FailureReason::of(&err);
        proof {
            assert((idx, err) == all[gone]);
            assert(rest@ =~= all.skip(gone + 1));
            assert(all.take(gone + 1).drop_last() =~= all.take(gone));
            assert(count_of(summary.counts, reason) <= failures_before + gone);
            counted_at_most(summary.counts, reason, (failures_before + gone) as nat);
        }
        summary.record(err, reason);
        out.push((idx, reason));
        proof {
            gone = gone + 1;
        }
    }
    assert(all.take(gone) =~= all);
    out
}

/// How a wave ended.
pub enum WaveEnd {
    /// This candidate serves, and is tried first the next time.
    Won(Server, usize),
    /// None serves; these are left alone for these reasons.
    Lost(Vec<(usize, FailureReason)>),
}

/// Ends a wave, whose attempts come in the order in which they ended. The first
/// candidate that could be reached serves; if there is none, all failures are
/// recorded.
pub fn race_wave(
    summary: &mut FailureSummary,
    ended: Vec<(usize, Result<Server, Error>)>,
    failures_before: u32,
) -> (r: WaveEnd)
    requires
        at_most(old(summary).counts, failures_before as nat),
        failures_before + ended@.len() < u32::MAX,
    ensures
        at_most(final(summary).counts, (failures_before + ended@.len()) as nat),
        ({
            let k = first_success(ended@);
            let errors = errors_of(ended@);
            if k < ended@.len() {
                &&& r matches WaveEnd::Won(server, idx)
                &&& ended@[k] == (idx, Ok::<Server, Error>(server))
                &&& *final(summary) == *old(summary)
            } else {
                &&& r matches WaveEnd::Lost(left)
                &&& left@ == Seq::new(errors.len(), |i: int| (errors[i].0, reason_of(errors[i].1)))
                &&& *final(summary) == wave_recorded(*old(summary), errors)
            }
        }),
        wave_ends_with(ended@, r),
{
    let ghost n = ended@.len();
    match race_first_success(ended) {
        Ok((server, idx)) => {
            assert(at_most(summary.counts, (failures_before + n) as nat)) by {
                assert forall|x: FailureReason| #[trigger]
                    count_of(summary.counts, x) <= failures_before + n by {
                    assert(count_of(summary.counts, x) <= failures_before);
                }
            }
            WaveEnd::Won(server, idx)
        },
        Err(errors) => WaveEnd::Lost(record_wave(summary, errors, failures_before)),
    }
}

/// The error of a round in which no candidate served: what no other member would
/// help with, or a summary.
pub open spec fn round_error(s: FailureSummary, e: Error) -> bool {
    match s.typed_startup_rejection {
        Some(typed) => e == typed,
        None => match s.typed_resource_exhaustion {
            Some(typed) => e == typed,
            None => e matches Error::ConnectError(m) && m@ == text::join(
                seq!["all fallback candidates rejected ("@, summary_text(s.counts), ")"@],
            ),
        },
    }
}

/// The error of a round in which no candidate served.
pub fn exhausted_round(summary: &FailureSummary) -> (e: Error)
    ensures
        round_error(*summary, e),
{
    match summary.startup_rejection() {
        Some(e) => {
            return e;
        },
        None => {},
    }
    match summary.resource_exhaustion() {
        Some(e) => {
            return e;
        },
        None => {},
    }
    let what = summary.format();
    let parts = ["all fallback candidates rejected (", what.as_str(), ")"];
    assert(text::views(parts@) =~= seq!["all fallback candidates rejected ("@, what@, ")"@]);
    Error::ConnectError(concat(&parts))
}

/// What has to be done in a round.
pub enum RoundStep {
    /// The candidate that served before is tried alone.
    TryOne(FallbackTarget),
    /// These are tried, all at once; if none serves, those that are left follow.
    Race { wave: Vec<FallbackTarget>, left: Vec<FallbackTarget> },
    /// The round has ended.
    Over(Result<Server, Error>),
}

/// `step` is what follows when these candidates are left.
pub open spec fn races_next(
    sync: Seq<FallbackTarget>,
    others: Seq<FallbackTarget>,
    summary: FailureSummary,
    step: RoundStep,
) -> bool {
    if sync.len() > 0 {
        step matches RoundStep::Race { wave, left } && wave@ == sync && left@ == others
    } else if others.len() > 0 {
        step matches RoundStep::Race { wave, left } && wave@ == others && left@.len() == 0
    } else {
        step matches RoundStep::Over(Err(e)) && round_error(summary, e)
    }
}

/// Goes on with the candidates that are left; a wave without any is passed over.
fn race_next(
    sync: Vec<FallbackTarget>,
    others: Vec<FallbackTarget>,
    summary: &FailureSummary,
) -> (step: RoundStep)
    ensures
        races_next(sync@, others@, *summary, step),
{
    if sync.len() > 0 {
        RoundStep::Race { wave: sync, left: others }
    } else if others.len() > 0 {
        RoundStep::Race { wave: others, left: Vec::new() }
    } else {
        RoundStep::Over(Err(exhausted_round(summary)))
    }
}

/// Begins a round: synchronous standbys are tried before the others.
pub fn round_begun(plan: RoundPlan, summary: &FailureSummary) -> (step: RoundStep)
    ensures
        match plan {
            RoundPlan::Failed { error, source: _ } => step == RoundStep::Over(
                Err::<Server, Error>(error),
            ),
            RoundPlan::Single(target) => step == RoundStep::TryOne(target),
            RoundPlan::Waves { sync, others } => races_next(sync@, others@, *summary, step),
        },
{
    match plan {
        RoundPlan::Failed { error, source: _ } => RoundStep::Over(Err(error)),
        RoundPlan::Single(target) => RoundStep::TryOne(target),
        RoundPlan::Waves { sync, others } => race_next(sync, others, summary),
    }
}

/// Goes on after a wave: a candidate that serves ends the round, otherwise those
/// follow that are left.
pub fn wave_ended(left: Vec<FallbackTarget>, end: WaveEnd, summary: &FailureSummary) -> (step:
    RoundStep)
    ensures
        match end {
            WaveEnd::Won(server, _) => step == RoundStep::Over(Ok::<Server, Error>(server)),
            WaveEnd::Lost(_) => races_next(Seq::empty(), left@, *summary, step),
        },
{
    match end {
        WaveEnd::Won(server, _) => RoundStep::Over(Ok(server)),
        WaveEnd::Lost(_) => race_next(Vec::new(), left, summary),
    }
}

/// Ends a round with the one candidate that served before: its own error is
/// handed on, with the reason for which it is left alone.
pub fn single_round_ended(result: Result<Server, Error>) -> (r: (
    Result<Server, Error>,
    Option<FailureReason>,
))
    ensures
        r.0 == result,
        match result {
            Ok(_) => r.1.is_none(),
            Err(e) => r.1 == Some(reason_of(e)),
        },
{
    match result {
        Ok(server) => (Ok(server), None),
        Err(e) => {
            let reason = FailureReason::of(&e);
            (Err(e), Some(reason))
        },
    }
}

/// Whether a second round follows: a candidate that served before may be out of
/// date, unless no other member would help.
pub fn retries_round(err: &Error, source: TargetSource) -> (r: bool)
    ensures
        r == (source == TargetSource::WhitelistCache && !server_pool::host_independent(*err)),
{
    match source {
        TargetSource::WhitelistCache => !is_host_independent_error(err),
        TargetSource::Discovery => false,
    }
}

/// The error of two rounds in which no candidate served.
pub open spec fn two_round_error(first: Error, second: Error, e: Error) -> bool {
    if server_pool::host_independent(second) {
        e == second
    } else {
        e matches Error::ConnectError(m) && m@ == text::join(
            seq![
                "fallback exhausted (whitelist round: "@,
                errors::error_text(first),
                "; discovery round: "@,
                errors::error_text(second),
                ")"@,
            ],
        )
    }
}

/// The error of two rounds in which no candidate served.
pub fn exhausted_rounds(first: &Error, second: Error) -> (e: Error)
    ensures
        two_round_error(*first, second, e),
{
    if is_host_independent_error(&second) {
        return second;
    }
    let a = first.text();
    let b = second.text();
    let parts = [
        "fallback exhausted (whitelist round: ",
        a.as_str(),
        "; discovery round: ",
        b.as_str(),
        ")",
    ];
    assert(text::views(parts@) =~= seq![
        "fallback exhausted (whitelist round: "@,
        a@,
        "; discovery round: "@,
        b@,
        ")"@,
    ]);
    Error::ConnectError(concat(&parts))
}

/// What follows a round.
pub enum FallbackStep {
    /// A candidate serves.
    Served(Server),
    /// The candidate that served before is forgotten, and a second round begins
    /// with fresh candidates. The first one failed with this error.
    Rediscover(Error),
    /// None serves.
    Failed(Error),
}

/// Ends the first round.
pub fn first_round_ended(result: Result<Server, Error>, source: TargetSource) -> (step:
    FallbackStep)
    ensures
        match result {
            Ok(server) => step == FallbackStep::Served(server),
            Err(e) => if source == TargetSource::WhitelistCache && !server_pool::host_independent(
                e,
            ) {
                step == FallbackStep::Rediscover(e)
            } else {
                step == FallbackStep::Failed(e)
            },
        },
        round_followed(result, source, step),
{
    match result {
        Ok(server) => FallbackStep::Served(server),
        Err(e) => if retries_round(&e, source) {
            FallbackStep::Rediscover(e)
        } else {
            FallbackStep::Failed(e)
        },
    }
}

/// Ends the second round, after the first one failed with `first`.
pub fn second_round_ended(first: &Error, result: Result<Server, Error>) -> (r: Result<
    Server,
    Error,
>)
    ensures
        match result {
            Ok(server) => r == Ok::<Server, Error>(server),
            Err(second) => r matches Err(e) && two_round_error(*first, second, e),
        },
{
    match result {
        Ok(server) => Ok(server),
        Err(second) => Err(exhausted_rounds(first, second)),
    }
}

/// The error of a fallback that took longer than any client waits.
pub fn deadline_error(deadline_ms: u64) -> (e: Error)
    ensures
        e matches Error::ConnectError(m) && m@ == text::join(
            seq!["fallback total deadline "@, text::decimal(deadline_ms as nat), "ms exceeded"@],
        ),
{
    let ms = decimal_text(deadline_ms);
    let parts = ["fallback total deadline ", ms.as_str(), "ms exceeded"];
    assert(text::views(parts@) =~= seq!["fallback total deadline "@, ms@, "ms exceeded"@]);
    Error::ConnectError(concat(&parts))
}

/// A rejection of a startup parameter in either wave is what the client is told.
pub proof fn first_rejection_is_reported(s: FailureSummary, errors: Seq<(usize, Error)>, e: Error)
    requires
        round_error(wave_recorded(s, errors), e),
        s.typed_startup_rejection.is_some() ==> s.typed_startup_rejection.unwrap()
            is ServerStartupParameterRejection,
        s.typed_startup_rejection.is_some() || exists|i: int|
            0 <= i < errors.len() && (#[trigger] errors[i]).1 is ServerStartupParameterRejection,
    ensures
        e is ServerStartupParameterRejection,
{
    rejection_is_kept(s, errors);
}

/// A rejection that a wave brings, or that was there before, is in its summary.
proof fn rejection_is_kept(s: FailureSummary, errors: Seq<(usize, Error)>)
    requires
        s.typed_startup_rejection.is_some() ==> s.typed_startup_rejection.unwrap()
            is ServerStartupParameterRejection,
    ensures
        ({
            let w = wave_recorded(s, errors);
            &&& w.typed_startup_rejection.is_some() ==> w.typed_startup_rejection.unwrap()
                is ServerStartupParameterRejection
            &&& w.typed_startup_rejection.is_some() <==> s.typed_startup_rejection.is_some()
                || exists|i: int|
                0 <= i < errors.len() && (#[trigger] errors[i]).1 is ServerStartupParameterRejection
        }),
    decreases errors.len(),
{
    if errors.len() > 0 {
        let shorter = errors.drop_last();
        rejection_is_kept(s, shorter);
        assert(forall|i: int| 0 <= i < shorter.len() ==> shorter[i] == errors[i]);
        let last = errors[errors.len() - 1];
        if exists|i: int|
            0 <= i < errors.len() && (#[trigger] errors[i]).1 is ServerStartupParameterRejection {
            let i = choose|i: int|
                0 <= i < errors.len() && (#[trigger] errors[i]).1
                    is ServerStartupParameterRejection;
            if i < shorter.len() {
                assert(shorter[i].1 is ServerStartupParameterRejection);
            }
        }
        if wave_recorded(s, shorter).typed_startup_rejection.is_some()
            && !s.typed_startup_rejection.is_some() {
            let i = choose|i: int|
                0 <= i < shorter.len() && (#[trigger] shorter[i]).1
                    is ServerStartupParameterRejection;
            assert(errors[i].1 is ServerStartupParameterRejection);
        }
        assert(errors.last() == last);
    }
}

/// Every failure is counted once, under its own reason.
pub proof fn failures_are_counted_once(c: FailureCounts, reason: FailureReason, other: FailureReason)
    requires
        count_of(c, reason) < u32::MAX,
    ensures
        count_of(counted(c, reason), reason) == count_of(c, reason) + 1,
        other != reason ==> count_of(counted(c, reason), other) == count_of(c, other),
{
}

/// An error stands for the reason that it names: a time that ran out, a backend that
/// cannot be reached, one that takes no sessions, one that refuses a parameter, a pooler
/// that has no file descriptor left, or else a startup that failed.
pub proof fn errors_stand_for_their_reason(e: Error)
    ensures
        reason_of(e) == FailureReason::Timeout <==> (e matches Error::ConnectError(m)
            && text::contains_text(m@, "timed out"@)),
        reason_of(e) == FailureReason::ConnectError <==> (e matches Error::ConnectError(m)
            && !text::contains_text(m@, "timed out"@)),
        reason_of(e) == FailureReason::ServerUnavailable <==> e is ServerUnavailableError,
        reason_of(e) == FailureReason::StartupParameterRejection
            <==> e is ServerStartupParameterRejection,
        reason_of(e) == FailureReason::ResourceExhausted <==> e is ConnectResourceExhausted,
{
}

/// A login that took too long counts as one that ran out of time.
pub proof fn slow_logins_count_as_timeouts(e: Error, host: Seq<char>, port: u16, ms: u64)
    requires
        server_pool::startup_timeout(e, host, port, ms),
    ensures
        reason_of(e) == FailureReason::Timeout,
{
    reveal_strlit("server startup timed out to ");
    reveal_strlit("timed out");
    let parts = seq![
        "server startup timed out to "@,
        host,
        ":"@,
        text::decimal(port as nat),
        " after "@,
        text::decimal(ms as nat),
        "ms"@,
    ];
    let m = e->ConnectError_0@;
    join_begins(parts);
    let lead = "server startup timed out to "@;
    assert(m.subrange(15, 24) =~= "timed out"@) by {
        assert forall|i: int| 0 <= i < 9 implies m[15 + i] == "timed out"@[i] by {
            assert(m.subrange(0, lead.len() as int)[15 + i] == lead[15 + i]);
        }
    }
    assert(text::occurs_at(m, "timed out"@, 15));
}

/// Joined parts begin with the first.
proof fn join_begins(parts: Seq<Seq<char>>)
    requires
        parts.len() > 0,
    ensures
        text::starts_with(text::join(parts), parts[0]),
    decreases parts.len(),
{
    if parts.len() == 1 {
        assert(parts.drop_last() =~= Seq::<Seq<char>>::empty());
        assert(text::join(parts.drop_last()) =~= Seq::<char>::empty());
        assert(text::join(parts) =~= parts[0]);
        assert(parts[0].subrange(0, parts[0].len() as int) =~= parts[0]);
    } else {
        join_begins(parts.drop_last());
        let front = text::join(parts.drop_last());
        assert(text::join(parts).subrange(0, parts[0].len() as int) =~= front.subrange(
            0,
            parts[0].len() as int,
        ));
    }
}

/// A round remembers its last error and the first rejection of a parameter; one that
/// came before is not replaced.
pub proof fn first_typed_errors_are_kept(s: FailureSummary, e: Error)
    ensures
        ({
            let t = recorded(s, e, reason_of(e));
            &&& t.last_err == Some(e)
            &&& s.typed_startup_rejection.is_some() ==> t.typed_startup_rejection
                == s.typed_startup_rejection
            &&& s.typed_startup_rejection.is_none() ==> t.typed_startup_rejection == if e
                is ServerStartupParameterRejection {
                Some(e)
            } else {
                None
            }
            &&& s.typed_resource_exhaustion.is_some() ==> t.typed_resource_exhaustion
                == s.typed_resource_exhaustion
            &&& s.typed_resource_exhaustion.is_none() ==> t.typed_resource_exhaustion == if e
                is ConnectResourceExhausted {
                Some(e)
            } else {
                None
            }
        }),
        empty_summary().last_err.is_none(),
        empty_summary().typed_startup_rejection.is_none(),
        empty_summary().typed_resource_exhaustion.is_none(),
{
}

/// Who comes first serves: all attempts that ended before it have failed.
pub proof fn first_to_answer_serves<T, E>(ended: Seq<(usize, Result<T, E>)>)
    ensures
        0 <= first_success(ended) <= ended.len(),
        first_success(ended) < ended.len() ==> ended[first_success(ended)].1 is Ok,
        forall|i: int| 0 <= i < first_success(ended) ==> (#[trigger] ended[i]).1 is Err,
    decreases ended.len(),
{
    if ended.len() > 0 && !(ended[0].1 is Ok) {
        let rest = ended.skip(1);
        first_to_answer_serves(rest);
        assert forall|i: int| 0 <= i < first_success(ended) implies (#[trigger] ended[i]).1 is Err by {
            if i > 0 {
                assert(rest[i - 1] == ended[i]);
            }
        }
    }
}

/// Every candidate is in exactly one wave: synchronous standbys in the first, the others
/// in the second.
pub proof fn every_candidate_has_its_wave(targets: Seq<FallbackTarget>, t: FallbackTarget)
    ensures
        in_wave(targets, true).contains(t) <==> targets.contains(t) && t.role == Role::SyncStandby,
        in_wave(targets, false).contains(t) <==> targets.contains(t) && t.role != Role::SyncStandby,
        in_wave(targets, true).len() + in_wave(targets, false).len() == targets.len(),
    decreases targets.len(),
{
    if targets.len() > 0 {
        let front = targets.drop_last();
        let last = targets.last();
        every_candidate_has_its_wave(front, t);
        assert(targets[targets.len() - 1] == last);
        if front.contains(t) {
            let i = choose|i: int| 0 <= i < front.len() && front[i] == t;
            assert(targets[i] == t);
        }
        if targets.contains(t) && t != last {
            let i = choose|i: int| 0 <= i < targets.len() && targets[i] == t;
            assert(front[i] == t);
        }
        wave_grows(front, last, t, true);
        wave_grows(front, last, t, false);
        assert(front.push(last) =~= targets);
    }
}

/// One candidate more in a wave.
proof fn wave_grows(front: Seq<FallbackTarget>, last: FallbackTarget, t: FallbackTarget, first: bool)
    ensures
        in_wave(front.push(last), first).contains(t) <==> in_wave(front, first).contains(t) || (t
            == last && (last.role == Role::SyncStandby) == first),
{
    let all = front.push(last);
    assert(all.drop_last() =~= front);
    let w = in_wave(front, first);
    let v = in_wave(all, first);
    if w.contains(t) {
        let i = choose|i: int| 0 <= i < w.len() && w[i] == t;
        assert(v[i] == t);
    }
    if t == last && (last.role == Role::SyncStandby) == first {
        assert(v[v.len() - 1] == t);
    }
    if v.contains(t) {
        let i = choose|i: int| 0 <= i < v.len() && v[i] == t;
        if i < w.len() {
            assert(w[i] == t);
        }
    }
}

/// Synchronous standbys are tried before the others, no candidate is passed over, and a
/// round ends without a connection only when none is left; then a client hears of the
/// rejected parameter first.
pub proof fn standbys_are_tried_first(
    sync: Seq<FallbackTarget>,
    others: Seq<FallbackTarget>,
    summary: FailureSummary,
    step: RoundStep,
)
    requires
        races_next(sync, others, summary, step),
    ensures
        step is Over <==> sync.len() == 0 && others.len() == 0,
        step matches RoundStep::Race { wave, left } ==> wave@.len() > 0 && wave@ + left@ == sync
            + others && (sync.len() > 0 ==> wave@ == sync),
        step matches RoundStep::Over(r) ==> (r matches Err(e) && (
        summary.typed_startup_rejection.is_some() ==> e == summary.typed_startup_rejection.unwrap())
            && (summary.typed_startup_rejection.is_none()
            && summary.typed_resource_exhaustion.is_some() ==> e
            == summary.typed_resource_exhaustion.unwrap()) && (
        summary.typed_startup_rejection.is_none() && summary.typed_resource_exhaustion.is_none()
            ==> e is ConnectError)),
{
    match step {
        RoundStep::Race { wave, left } => {
            if sync.len() == 0 {
                assert(wave@ + left@ =~= sync + others);
            }
        },
        _ => {},
    }
}

/// After two rounds a client hears of an error that no member could have helped with,
/// otherwise of both rounds.
pub proof fn both_rounds_are_reported(first: Error, second: Error, e: Error)
    requires
        two_round_error(first, second, e),
    ensures
        second is ServerStartupParameterRejection || second is ConnectResourceExhausted ==> e
            == second,
        !(second is ServerStartupParameterRejection) && !(second is ConnectResourceExhausted)
            ==> e is ConnectError,
{
}

/// How many of these errors have this reason.
pub open spec fn errors_with(errors: Seq<(usize, Error)>, r: FailureReason) -> nat
    decreases errors.len(),
{
    if errors.len() == 0 {
        0
    } else {
        errors_with(errors.drop_last(), r) + if reason_of(errors.last().1) == r {
            1nat
        } else {
            0nat
        }
    }
}

/// Every error of a wave is counted once, under its reason, and the last one is
/// remembered.
pub proof fn every_failure_of_a_wave_is_counted(
    s: FailureSummary,
    errors: Seq<(usize, Error)>,
    r: FailureReason,
)
    requires
        forall|x: FailureReason| #[trigger] count_of(s.counts, x) + errors.len() <= u32::MAX,
    ensures
        count_of(wave_recorded(s, errors).counts, r) == count_of(s.counts, r) + errors_with(
            errors,
            r,
        ),
        errors_with(errors, r) <= errors.len(),
        errors.len() > 0 ==> wave_recorded(s, errors).last_err == Some(errors.last().1),
        errors.len() == 0 ==> wave_recorded(s, errors) == s,
    decreases errors.len(),
{
    if errors.len() > 0 {
        let front = errors.drop_last();
        assert forall|x: FailureReason| #[trigger] count_of(s.counts, x) + front.len()
            <= u32::MAX by {
            assert(count_of(s.counts, x) + errors.len() <= u32::MAX);
        }
        every_failure_of_a_wave_is_counted(s, front, r);
        every_failure_of_a_wave_is_counted(s, front, reason_of(errors.last().1));
        assert(count_of(s.counts, reason_of(errors.last().1)) + errors.len() <= u32::MAX);
        failures_are_counted_once(
            wave_recorded(s, front).counts,
            reason_of(errors.last().1),
            r,
        );
    }
}

/// The place of a reason among those that are summed up.
pub open spec fn place_of(r: FailureReason) -> int {
    match r {
        FailureReason::ConnectError => 0,
        FailureReason::ResourceExhausted => 1,
        FailureReason::ServerUnavailable => 2,
        FailureReason::StartupError => 3,
        FailureReason::StartupParameterRejection => 4,
        FailureReason::Timeout => 5,
    }
}

/// A part that is there stays when more are added.
proof fn parts_grow(c: FailureCounts, n: nat, m: nat, part: Seq<char>)
    requires
        summary_parts(c, n).contains(part),
        n <= m,
    ensures
        summary_parts(c, m).contains(part),
    decreases m - n,
{
    if n < m {
        parts_grow(c, n, (m - 1) as nat, part);
        let before = summary_parts(c, (m - 1) as nat);
        let i = choose|i: int| 0 <= i < before.len() && before[i] == part;
        assert(summary_parts(c, m)[i] == part);
    }
}

/// The summary of a round that failed names every reason that occurred, with its count,
/// and says so if there was nobody to ask.
pub proof fn summaries_name_every_reason(c: FailureCounts, r: FailureReason)
    ensures
        count_of(c, r) > 0 ==> summary_parts(c, 6).contains(
            text::join(seq![text::decimal(count_of(c, r) as nat), " "@, reason_word(r)]),
        ),
        (forall|x: FailureReason| #[trigger] count_of(c, x) == 0) ==> summary_text(c)
            == "no candidates"@,
{
    let at = place_of(r);
    assert(occurring(c)[at] == (count_of(c, r), r));
    if count_of(c, r) > 0 {
        let part = text::join(seq![text::decimal(count_of(c, r) as nat), " "@, reason_word(r)]);
        let now = summary_parts(c, (at + 1) as nat);
        assert(now.last() == part);
        assert(now[now.len() - 1] == part);
        parts_grow(c, (at + 1) as nat, 6, part);
    }
    if forall|x: FailureReason| #[trigger] count_of(c, x) == 0 {
        assert(count_of(c, FailureReason::ConnectError) == 0);
        assert(count_of(c, FailureReason::ResourceExhausted) == 0);
        assert(count_of(c, FailureReason::ServerUnavailable) == 0);
        assert(count_of(c, FailureReason::StartupError) == 0);
        assert(count_of(c, FailureReason::StartupParameterRejection) == 0);
        assert(count_of(c, FailureReason::Timeout) == 0);
        reveal_with_fuel(summary_parts, 7);
    }
}

/// Different reasons are reported with different words.
pub proof fn reasons_have_their_words(a: FailureReason, b: FailureReason)
    ensures
        reason_word(a) == reason_word(b) ==> a == b,
{
    reveal_strlit("connect_error");
    reveal_strlit("resource_exhausted");
    reveal_strlit("server_unavailable");
    reveal_strlit("startup_error");
    reveal_strlit("startup_parameter_rejection");
    reveal_strlit("timeout");
    assert("connect_error"@[0] == 'c' && "startup_error"@[0] == 's');
    assert("resource_exhausted"@[0] == 'r' && "server_unavailable"@[0] == 's');
    assert("connect_error"@.len() == 13 && "startup_error"@.len() == 13);
    assert("resource_exhausted"@.len() == 18 && "server_unavailable"@.len() == 18);
    assert("startup_parameter_rejection"@.len() == 27 && "timeout"@.len() == 7);
}

/// What is done in a round with these candidates; `whole` tells that all configured
/// parameters can be sent.
pub open spec fn round_planned(
    whole: bool,
    found: Result<(Vec<FallbackTarget>, TargetSource), String>,
    plan: RoundPlan,
) -> bool {
    match found {
        Err(_) => plan is Failed,
        Ok((targets, source)) => if !whole {
            plan is Failed
        } else if source == TargetSource::Discovery {
            plan matches RoundPlan::Waves { sync, others } && sync@ == in_wave(targets@, true)
                && others@ == in_wave(targets@, false)
        } else if targets@.len() > 0 {
            plan == RoundPlan::Single(targets@[0])
        } else {
            plan is Failed
        },
    }
}

/// Every candidate that was discovered is tried, synchronous standbys first; of those that
/// were remembered the first one is. No candidate is tried with fewer parameters than
/// were configured, and a round fails at once only if it has nobody to try.
pub proof fn rounds_try_their_candidates(
    whole: bool,
    targets: Vec<FallbackTarget>,
    source: TargetSource,
    plan: RoundPlan,
    t: FallbackTarget,
)
    requires
        round_planned(
            whole,
            Ok::<(Vec<FallbackTarget>, TargetSource), String>((targets, source)),
            plan,
        ),
    ensures
        !whole ==> plan is Failed,
        whole && targets@.len() > 0 ==> !(plan is Failed),
        whole && source == TargetSource::Discovery ==> (plan matches RoundPlan::Waves {
            sync,
            others,
        } && (targets@.contains(t) <==> sync@.contains(t) || others@.contains(t)) && (sync@.contains(
            t,
        ) ==> t.role == Role::SyncStandby) && (others@.contains(t) ==> t.role
            != Role::SyncStandby)),
        whole && source != TargetSource::Discovery && targets@.len() > 0 ==> plan
            == RoundPlan::Single(targets@[0]),
{
    every_candidate_has_its_wave(targets@, t);
}

/// What follows a login at a candidate.
pub open spec fn attempt_ended(
    mode: ServerTlsMode,
    target: FallbackTarget,
    attempt: Attempt,
    result: Result<Server, Error>,
    step: TargetStep,
) -> bool {
    match result {
        Ok(server) => step matches TargetStep::Ended(Ok(conn)) && conn
            == with_lifetime(server, target.lifetime_ms),
        Err(e) => if !attempt.second && server_pool::retries_with_tls(mode, e) {
            step == TargetStep::Connect(
                Attempt { address: server_pool::with_tls(attempt.address), second: true },
            )
        } else {
            step == TargetStep::Ended(Err::<Server, Error>(e))
        },
    }
}

/// A connection with a lifetime of its own.
pub open spec fn with_lifetime(server: Server, ms: u64) -> Server {
    Server {
        state: SessionState { override_lifetime_ms: Some(ms), ..server.state },
        ..server
    }
}

/// A connection to a candidate lives as long as the fallback says. A login that was
/// refused is tried once more at most, at the same host with TLS, and only where the mode
/// allows it; its error is handed on otherwise.
pub proof fn fallback_connections_are_short_lived(
    mode: ServerTlsMode,
    target: FallbackTarget,
    attempt: Attempt,
    result: Result<Server, Error>,
    step: TargetStep,
)
    requires
        attempt_ended(mode, target, attempt, result, step),
    ensures
        result matches Ok(server) ==> (step matches TargetStep::Ended(Ok(conn))
            && conn.state.override_lifetime_ms == Some(target.lifetime_ms) && conn.settings
            == server.settings && conn.server_parameters == server.server_parameters),
        step matches TargetStep::Connect(next) ==> next.second && !attempt.second && mode
            == ServerTlsMode::Allow && next.address.host == attempt.address.host
            && next.address.port == attempt.address.port && next.address.server_tls.mode
            == ServerTlsMode::Require && result is Err,
        attempt.second || mode != ServerTlsMode::Allow ==> step is Ended,
        result matches Err(e) ==> (step is Ended ==> step->Ended_0 == Err::<Server, Error>(e)),
        result matches Err(e) ==> (!attempt.second && mode == ServerTlsMode::Allow && (
        e is ServerStartupError || e is ProtocolSyncError) ==> step is Connect),
{
}

/// Who serves after a wave.
pub open spec fn wave_ends_with(ended: Seq<(usize, Result<Server, Error>)>, r: WaveEnd) -> bool {
    let k = first_success(ended);
    if k < ended.len() {
        r matches WaveEnd::Won(server, idx) && ended[k] == (idx, Ok::<Server, Error>(server))
    } else {
        r matches WaveEnd::Lost(left) && left@.len() == ended.len()
    }
}

/// A wave is won by the first candidate that could be reached, and lost only if none
/// could be.
pub proof fn first_reached_wins(ended: Seq<(usize, Result<Server, Error>)>, r: WaveEnd)
    requires
        wave_ends_with(ended, r),
    ensures
        r is Won <==> exists|i: int| 0 <= i < ended.len() && (#[trigger] ended[i]).1 is Ok,
        r matches WaveEnd::Won(server, idx) ==> exists|i: int|
            0 <= i < ended.len() && #[trigger] ended[i] == (idx, Ok::<Server, Error>(server)) && (
            forall|j: int| 0 <= j < i ==> (#[trigger] ended[j]).1 is Err),
{
    first_to_answer_serves(ended);
    let k = first_success(ended);
    if k < ended.len() {
        assert(ended[k].1 is Ok);
    }
}

/// What follows the first round.
pub open spec fn round_followed(
    result: Result<Server, Error>,
    source: TargetSource,
    step: FallbackStep,
) -> bool {
    match result {
        Ok(server) => step == FallbackStep::Served(server),
        Err(e) => if source == TargetSource::WhitelistCache && !server_pool::host_independent(e) {
            step == FallbackStep::Rediscover(e)
        } else {
            step == FallbackStep::Failed(e)
        },
    }
}

/// The cluster is asked anew only if a remembered member has failed for a reason that
/// another one may not have; what was discovered just now is not asked for again.
pub proof fn cluster_is_asked_anew_once(
    result: Result<Server, Error>,
    source: TargetSource,
    step: FallbackStep,
)
    requires
        round_followed(result, source, step),
    ensures
        result matches Ok(server) ==> step == FallbackStep::Served(server),
        step is Served ==> result is Ok,
        step is Rediscover ==> source == TargetSource::WhitelistCache,
        source == TargetSource::Discovery && result is Err ==> step is Failed,
        result matches Err(e) ==> (source == TargetSource::WhitelistCache ==> (step is Failed <==> e
            is ServerStartupParameterRejection || e is ConnectResourceExhausted)),
        result matches Err(e) ==> (step is Failed ==> step->Failed_0 == e),
        result matches Err(e) ==> (step is Rediscover ==> step->Rediscover_0 == e),
{
}

} // verus!

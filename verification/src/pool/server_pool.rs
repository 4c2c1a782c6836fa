//! How the connections of one pool are made and when they are used again.
use vstd::prelude::*;
use crate::config::{Address, CleanupMode, ServerTlsConfig, ServerTlsMode, User};
use crate::errors::{Error, ServerIdentifier};
use crate::pool::fallback::{BlacklistCheck, FallbackConfig};
use crate::pool::inner::ObjectInner;
use crate::pool::pool_coordinator::CoordinatorPermit;
use crate::pool::startup_resolver::{
    effective_parameters, resolve_with_sources, EffectiveParameter,
};
use crate::pool::types::Metrics;
use crate::server::parameters::canonicalize_param_name;
use crate::server::server_backend::{list_has, CloseReason, Server};
use crate::startup_parameters::{
    packet_and_body_bytes, put_layer, MAX_OPERATOR_BUDGET, MAX_STARTUP_PACKET_SIZE,
};
use crate::string_map::StringMap;
use crate::text::{concat, decimal_text};
#[allow(unused_imports)]
use crate::pool::startup_resolver;
#[allow(unused_imports)]
use crate::pool::types;
#[allow(unused_imports)]
use crate::server::parameters;
#[allow(unused_imports)]
use crate::server::prepared_statements;
#[allow(unused_imports)]
use crate::startup_parameters;
#[allow(unused_imports)]
use crate::string_map;
#[allow(unused_imports)]
use crate::text;

verus! {

/// Why no parameters can be sent at all.
#[derive(Debug, Clone, Copy, PartialEq, Eq, Structural)]
pub enum BudgetReason {
    /// The operator's parameters take too many bytes.
    CascadeBudgetExceeded,
    /// The message takes more bytes than PostgreSQL takes.
    PacketCapExceeded,
}

impl BudgetReason {
    /// The word by which the reason is counted.
    pub fn as_str(self) -> (r: &'static str)
        ensures
            r@ == match self {
                BudgetReason::CascadeBudgetExceeded => "cascade_budget_exceeded"@,
                BudgetReason::PacketCapExceeded => "packet_cap_exceeded"@,
            },
    {
        match self {
            BudgetReason::CascadeBudgetExceeded => "cascade_budget_exceeded",
            BudgetReason::PacketCapExceeded => "packet_cap_exceeded",
        }
    }
}

/// Whether the parameters of a pool fit into a StartupMessage.
#[derive(Debug, Clone, Copy, PartialEq, Eq, Structural)]
pub enum BudgetDecision {
    /// They do.
    FullCascade,
    /// They do without those of the user.
    OverlayDroppedBaselineKept { body_bytes: usize, packet_bytes: usize },
    /// They do not.
    EmptyDueToBudget { reason: BudgetReason, body_bytes: usize, packet_bytes: usize },
}

/// Whether a message of this size can be sent.
pub open spec fn fits_budget(size: (usize, usize)) -> bool {
    size.1 <= MAX_OPERATOR_BUDGET && size.0 <= MAX_STARTUP_PACKET_SIZE
}

/// The size of a message with these parameters.
pub open spec fn size_with(
    login: (Seq<char>, Seq<char>, Seq<char>),
    m: Map<Seq<char>, Seq<char>>,
) -> (usize, usize) {
    startup_parameters::packet_size(login.0, login.1, login.2, string_map::in_order(m))
}

/// The parameters that are sent, and whether they are all: those of the user over
/// those of the pool if they fit, those of the pool alone if only they do, none
/// otherwise. `login` holds the user, the database and the application name.
pub open spec fn resolution(
    base: Map<Seq<char>, Seq<char>>,
    overlay: Map<Seq<char>, Seq<char>>,
    login: (Seq<char>, Seq<char>, Seq<char>),
) -> (Map<Seq<char>, Seq<char>>, BudgetDecision) {
    let baseline = startup_parameters::canonical_layer(base);
    let merged = startup_parameters::layered(baseline, overlay);
    let size = size_with(login, merged);
    if fits_budget(size) {
        (merged, BudgetDecision::FullCascade)
    } else if overlay != Map::<Seq<char>, Seq<char>>::empty() && fits_budget(
        size_with(login, baseline),
    ) {
        (
            baseline,
            BudgetDecision::OverlayDroppedBaselineKept { body_bytes: size.1, packet_bytes: size.0 },
        )
    } else {
        (
            Map::empty(),
            BudgetDecision::EmptyDueToBudget {
                reason: if size.0 > MAX_STARTUP_PACKET_SIZE {
                    BudgetReason::PacketCapExceeded
                } else {
                    BudgetReason::CascadeBudgetExceeded
                },
                body_bytes: size.1,
                packet_bytes: size.0,
            },
        )
    }
}

/// The parameters of the operator are sent whole or not at all: either all fit and
/// all are sent, or those that were put aside are the pool's own, which fit, or
/// none are left.
pub proof fn parameters_are_never_cut(
    base: Map<Seq<char>, Seq<char>>,
    overlay: Map<Seq<char>, Seq<char>>,
    login: (Seq<char>, Seq<char>, Seq<char>),
)
    ensures
        ({
            let (m, decision) = resolution(base, overlay, login);
            let baseline = startup_parameters::canonical_layer(base);
            match decision {
                BudgetDecision::FullCascade => m == startup_parameters::layered(baseline, overlay)
                    && fits_budget(size_with(login, m)),
                BudgetDecision::OverlayDroppedBaselineKept { .. } => m == baseline && fits_budget(
                    size_with(login, m),
                ),
                BudgetDecision::EmptyDueToBudget { .. } => m == Map::<
                    Seq<char>,
                    Seq<char>,
                >::empty(),
            }
        }),
        resolution(base, overlay, login).1 is FullCascade <==> fits_budget(
            size_with(
                login,
                startup_parameters::layered(startup_parameters::canonical_layer(base), overlay),
            ),
        ),
{
}

/// Resolves the parameters that are sent when a session begins.
pub fn build_resolved_startup(
    base: &StringMap<String>,
    overlay: &StringMap<String>,
    server_username: &str,
    database: &str,
    application_name: &str,
) -> (r: (StringMap<String>, BudgetDecision))
    ensures
        ({
            let (m, decision) = resolution(
                string_map::texts(base@),
                string_map::texts(overlay@),
                (server_username@, database@, application_name@),
            );
            &&& string_map::texts(r.0@) == m
            &&& r.1 == decision
            &&& decision is FullCascade ==> string_map::text_listing(r.0.listing())
                == string_map::in_order(m)
        }),
{
    let mut baseline: StringMap<String> = StringMap::new();
    assert(string_map::texts(baseline@) =~= Map::empty());
    put_layer(&mut baseline, base);
    let mut merged = baseline.copy();
    put_layer(&mut merged, overlay);
    let merged = merged.in_key_order();
    let (packet_bytes, body_bytes) = packet_and_body_bytes(
        server_username,
        database,
        application_name,
        &merged,
    );
    if body_bytes <= MAX_OPERATOR_BUDGET && packet_bytes <= MAX_STARTUP_PACKET_SIZE {
        return (merged, BudgetDecision::FullCascade);
    }
    proof {
        let texts = string_map::texts(overlay@);
        if overlay@ == Map::<Seq<char>, String>::empty() {
            assert(texts =~= Map::<Seq<char>, Seq<char>>::empty());
        } else {
            if texts == Map::<Seq<char>, Seq<char>>::empty() {
                assert forall|k: Seq<char>| !overlay@.contains_key(k) by {
                    assert(!texts.contains_key(k));
                }
                assert(overlay@ =~= Map::<Seq<char>, String>::empty());
            }
        }
    }
    if !overlay.is_empty() {
        let baseline = baseline.in_key_order();
        let (packet, body) = packet_and_body_bytes(
            server_username,
            database,
            application_name,
            &baseline,
        );
        if body <= MAX_OPERATOR_BUDGET && packet <= MAX_STARTUP_PACKET_SIZE {
            return (
                baseline,
                BudgetDecision::OverlayDroppedBaselineKept { body_bytes, packet_bytes },
            );
        }
    }
    let reason = if packet_bytes > MAX_STARTUP_PACKET_SIZE {
        BudgetReason::PacketCapExceeded
    } else {
        BudgetReason::CascadeBudgetExceeded
    };
    let nothing: StringMap<String> = StringMap::new();
    assert(string_map::texts(nothing@) =~= Map::empty());
    (nothing, BudgetDecision::EmptyDueToBudget { reason, body_bytes, packet_bytes })
}

/// The bit that is set while a pool is paused.
pub const PAUSED_BIT: u64 = 0x1_0000_0000;

/// The bits that count how often all connections were to be made anew.
pub const EPOCH_MASK: u64 = 0xFFFF_FFFF;

/// A pool with this state is paused.
pub open spec fn paused_in(state: u64) -> bool {
    state & PAUSED_BIT != 0
}

/// How often the connections of a pool with this state were to be made anew.
pub open spec fn epoch_in(state: u64) -> u32 {
    (state & EPOCH_MASK) as u32
}

/// The state after the connections are to be made anew.
pub open spec fn bumped(state: u64) -> u64 {
    (state & !EPOCH_MASK) | (epoch_in(state).wrapping_add(1) as u64)
}

/// Pausing and resuming leave the epoch alone; a new epoch leaves the pool
/// paused if it was paused, even when the count starts again from zero.
pub proof fn pause_and_epoch_are_apart(state: u64)
    ensures
        paused_in(state | PAUSED_BIT),
        epoch_in(state | PAUSED_BIT) == epoch_in(state),
        !paused_in(state & !PAUSED_BIT),
        epoch_in(state & !PAUSED_BIT) == epoch_in(state),
        paused_in(bumped(state)) == paused_in(state),
        epoch_in(bumped(state)) == epoch_in(state).wrapping_add(1),
{
    assert((state | 0x1_0000_0000u64) & 0x1_0000_0000u64 != 0) by (bit_vector);
    assert((state | 0x1_0000_0000u64) & 0xFFFF_FFFFu64 == state & 0xFFFF_FFFFu64) by (bit_vector);
    assert((state & !0x1_0000_0000u64) & 0x1_0000_0000u64 == 0) by (bit_vector);
    assert((state & !0x1_0000_0000u64) & 0xFFFF_FFFFu64 == state & 0xFFFF_FFFFu64) by (bit_vector);
    let next: u32 = epoch_in(state).wrapping_add(1);
    assert(((state & !0xFFFF_FFFFu64) | (next as u64)) & 0xFFFF_FFFFu64 == next as u64)
        by (bit_vector);
    assert(((state & !0xFFFF_FFFFu64) | (next as u64)) & 0x1_0000_0000u64 == state
        & 0x1_0000_0000u64) by (bit_vector);
}

/// What a pool needs to make connections and to judge them.
#[derive(Debug)]
pub struct ServerPool {
    pub address: Address,
    pub user: User,
    /// The database as the backend knows it.
    pub database: String,
    pub cleanup_connections: CleanupMode,
    pub cleanup_server_query: Option<String>,
    pub application_name: String,
    pub log_client_parameter_status_changes: bool,
    pub prepared_statement_cache_size: usize,
    pub max_concurrent_creates: usize,
    /// Connections that were begun.
    pub connection_counter: u64,
    /// How long connections live; 0 sets no limit.
    pub lifetime_ms: u64,
    /// How long connections may be idle; 0 sets no limit.
    pub idle_timeout_ms: u64,
    /// Connections that were idle longer are asked for a sign of life; 0 asks
    /// none.
    pub idle_check_timeout_ms: u64,
    pub connect_timeout_ms: u64,
    pub query_wait_timeout_ms: u64,
    pub session_mode: bool,
    pub fallback: Option<FallbackConfig>,
    /// Whether the pool is paused, and its epoch.
    pub pool_state: u64,
    /// The parameters of the user, as they were when the pool was made.
    pub per_user_startup_overlay: StringMap<String>,
    /// The parameters that clients do not change.
    pub operator_managed_startup_keys: Vec<String>,
    /// The parameters that are sent when a session begins.
    pub resolved_startup_map: StringMap<String>,
    pub resolved_startup_decision: BudgetDecision,
}

/// A parameter that the operator sets in one of two layers.
pub open spec fn managed(
    base: Map<Seq<char>, String>,
    overlay: Map<Seq<char>, String>,
    key: Seq<char>,
) -> bool {
    ||| exists|k: Seq<char>| #[trigger]
        base.contains_key(k) && parameters::canonical_name(k) == key
    ||| exists|k: Seq<char>| #[trigger]
        overlay.contains_key(k) && parameters::canonical_name(k) == key
}

/// Adds the canonical names of a layer to a list.
fn add_keys(list: &mut Vec<String>, layer: &StringMap<String>)
    ensures
        forall|key: Seq<char>| #[trigger]
            prepared_statements::names_of(final(list)@).contains(key) <==> (
            prepared_statements::names_of(old(list)@).contains(key) || exists|k: Seq<char>|
                #[trigger] layer@.contains_key(k) && parameters::canonical_name(k) == key),
{
    let n: usize = layer.len();
    let ghost s = layer.listing();
    let ghost start = prepared_statements::names_of(list@);
    let mut i: usize = 0;
    while i < n
        invariant
            i <= n == s.len(),
            s == layer.listing(),
            string_map::unique_keys(s),
            forall|key: Seq<char>| #[trigger]
                prepared_statements::names_of(list@).contains(key) <==> (start.contains(key)
                    || exists|j: int|
                    0 <= j < i && parameters::canonical_name((#[trigger] s[j]).0) == key),
        decreases n - i,
    {
        let name = canonicalize_param_name(layer.key(i).clone());
        let ghost before = prepared_statements::names_of(list@);
        let ghost added = name@;
        if !list_has(list, name.as_str()) {
            list.push(name);
            proof {
                let after = prepared_statements::names_of(list@);
                assert(after =~= before.push(added));
                assert forall|key: Seq<char>| after.contains(key) <==> (before.contains(key) || key
                    == added) by {
                    if before.contains(key) {
                        let j = choose|j: int| 0 <= j < before.len() && before[j] == key;
                        assert(after[j] == key);
                    }
                    if key == added {
                        assert(after[before.len() as int] == key);
                    }
                }
            }
        }
        proof {
            let after = prepared_statements::names_of(list@);
            assert forall|key: Seq<char>|
                after.contains(key) <==> (start.contains(key) || exists|j: int|
                    0 <= j < i + 1 && parameters::canonical_name((#[trigger] s[j]).0) == key) by {
                assert(after.contains(key) <==> (before.contains(key) || key == added));
                if key == added {
                    assert(parameters::canonical_name(s[i as int].0) == key);
                }
                if exists|j: int|
                    0 <= j < i + 1 && parameters::canonical_name((#[trigger] s[j]).0) == key {
                    let j = choose|j: int|
                        0 <= j < i + 1 && parameters::canonical_name((#[trigger] s[j]).0) == key;
                    assert(j < i || key == added);
                }
            }
        }
        i = i + 1;
    }
    proof {
        let all = prepared_statements::names_of(list@);
        assert forall|key: Seq<char>|
            all.contains(key) <==> (start.contains(key) || exists|k: Seq<char>| #[trigger]
                layer@.contains_key(k) && parameters::canonical_name(k) == key) by {
            assert(all.contains(key) <==> (start.contains(key) || exists|j: int|
                0 <= j < i && parameters::canonical_name((#[trigger] s[j]).0) == key));
            if exists|k: Seq<char>| #[trigger]
                layer@.contains_key(k) && parameters::canonical_name(k) == key {
                let k = choose|k: Seq<char>| #[trigger]
                    layer@.contains_key(k) && parameters::canonical_name(k) == key;
                let j = string_map::listed_key(s, k);
                assert(string_map::key_at(s, k, j));
                assert(0 <= j < i && parameters::canonical_name(s[j].0) == key);
                assert(all.contains(key));
            }
            if all.contains(key) && !start.contains(key) {
                let j = choose|j: int|
                    0 <= j < i && parameters::canonical_name((#[trigger] s[j]).0) == key;
                assert(0 <= j < i && parameters::canonical_name(s[j].0) == key);
                string_map::listed_entry(s, j);
                assert(layer@.contains_key(s[j].0));
            }
        }
    }
}

/// Whom the backend sees.
pub open spec fn login_of(user: User) -> Seq<char> {
    match user.server_username {
        Some(name) => name@,
        None => user.username@,
    }
}

impl ServerPool {
    /// The settings of a new pool. `base_startup_parameters` are those of the
    /// database, `per_user_startup_overlay` those of the user.
    pub fn new(
        address: Address,
        user: User,
        database: &str,
        cleanup_connections: CleanupMode,
        cleanup_server_query: Option<String>,
        log_client_parameter_status_changes: bool,
        prepared_statement_cache_size: usize,
        application_name: String,
        max_concurrent_creates: usize,
        lifetime_ms: u64,
        idle_timeout_ms: u64,
        idle_check_timeout_ms: u64,
        connect_timeout_ms: u64,
        query_wait_timeout_ms: u64,
        session_mode: bool,
        fallback: Option<FallbackConfig>,
        base_startup_parameters: &StringMap<String>,
        per_user_startup_overlay: StringMap<String>,
    ) -> (r: ServerPool)
        ensures
            r.address == address,
            r.user == user,
            r.database@ == database@,
            r.cleanup_connections == cleanup_connections,
            r.cleanup_server_query == cleanup_server_query,
            r.application_name == application_name,
            r.log_client_parameter_status_changes == log_client_parameter_status_changes,
            r.prepared_statement_cache_size == prepared_statement_cache_size,
            r.max_concurrent_creates == max_concurrent_creates,
            r.connection_counter == 0,
            r.lifetime_ms == lifetime_ms,
            r.idle_timeout_ms == idle_timeout_ms,
            r.idle_check_timeout_ms == idle_check_timeout_ms,
            r.connect_timeout_ms == connect_timeout_ms,
            r.query_wait_timeout_ms == query_wait_timeout_ms,
            r.session_mode == session_mode,
            r.fallback == fallback,
            r.pool_state == 0,
            r.per_user_startup_overlay == per_user_startup_overlay,
            forall|key: Seq<char>| #[trigger]
                prepared_statements::names_of(r.operator_managed_startup_keys@).contains(key)
                    == managed(base_startup_parameters@, per_user_startup_overlay@, key),
            (string_map::texts(r.resolved_startup_map@), r.resolved_startup_decision) == resolution(
                string_map::texts(base_startup_parameters@),
                string_map::texts(per_user_startup_overlay@),
                (login_of(user), database@, application_name@),
            ),
    {
        let mut keys: Vec<String> = Vec::new();
        add_keys(&mut keys, base_startup_parameters);
        add_keys(&mut keys, &per_user_startup_overlay);
        let (map, decision) = {
            let login = match &user.server_username {
                Some(name) => name.as_str(),
                None => user.username.as_str(),
            };
            build_resolved_startup(
                base_startup_parameters,
                &per_user_startup_overlay,
                login,
                database,
                application_name.as_str(),
            )
        };
        ServerPool {
            address,
            user,
            database: database.to_owned(),
            cleanup_connections,
            cleanup_server_query,
            application_name,
            log_client_parameter_status_changes,
            prepared_statement_cache_size,
            max_concurrent_creates,
            connection_counter: 0,
            lifetime_ms,
            idle_timeout_ms,
            idle_check_timeout_ms,
            connect_timeout_ms,
            query_wait_timeout_ms,
            session_mode,
            fallback,
            pool_state: 0,
            per_user_startup_overlay,
            operator_managed_startup_keys: keys,
            resolved_startup_map: map,
            resolved_startup_decision: decision,
        }
    }

    /// The parameters that clients do not change.
    pub fn operator_managed_startup_keys(&self) -> (r: &Vec<String>)
        ensures
            *r == self.operator_managed_startup_keys,
    {
        &self.operator_managed_startup_keys
    }

    /// Where the pool's backend is.
    pub fn address(&self) -> (r: &Address)
        ensures
            *r == self.address,
    {
        &self.address
    }

    /// How long connections live.
    pub fn lifetime_ms(&self) -> (r: u64)
        ensures
            r == self.lifetime_ms,
    {
        self.lifetime_ms
    }

    /// How long connections may be idle.
    pub fn idle_timeout_ms(&self) -> (r: u64)
        ensures
            r == self.idle_timeout_ms,
    {
        self.idle_timeout_ms
    }

    /// Whether the pool is paused.
    pub fn is_paused(&self) -> (r: bool)
        ensures
            r == paused_in(self.pool_state),
    {
        self.pool_state & PAUSED_BIT != 0
    }

    /// Pauses the pool.
    pub fn pause(&mut self)
        ensures
            *final(self) == (ServerPool {
                pool_state: old(self).pool_state | PAUSED_BIT,
                ..*old(self)
            }),
            paused_in(final(self).pool_state),
            epoch_in(final(self).pool_state) == epoch_in(old(self).pool_state),
    {
        proof {
            pause_and_epoch_are_apart(self.pool_state);
        }
        self.pool_state = self.pool_state | PAUSED_BIT;
    }

    /// Resumes the pool.
    pub fn resume(&mut self)
        ensures
            *final(self) == (ServerPool {
                pool_state: old(self).pool_state & !PAUSED_BIT,
                ..*old(self)
            }),
            !paused_in(final(self).pool_state),
            epoch_in(final(self).pool_state) == epoch_in(old(self).pool_state),
    {
        proof {
            pause_and_epoch_are_apart(self.pool_state);
        }
        self.pool_state = self.pool_state & !PAUSED_BIT;
    }

    /// How often the connections were to be made anew.
    pub fn current_epoch(&self) -> (r: u32)
        ensures
            r == epoch_in(self.pool_state),
    {
        (self.pool_state & EPOCH_MASK) as u32
    }

    /// Has all connections made anew: those of an older epoch are not used
    /// again.
    pub fn bump_epoch(&mut self) -> (r: u32)
        ensures
            r == epoch_in(old(self).pool_state).wrapping_add(1),
            *final(self) == (ServerPool { pool_state: bumped(old(self).pool_state), ..*old(self) }),
            epoch_in(final(self).pool_state) == r,
            paused_in(final(self).pool_state) == paused_in(old(self).pool_state),
    {
        proof {
            pause_and_epoch_are_apart(self.pool_state);
        }
        let next: u32 = self.current_epoch().wrapping_add(1);
        self.pool_state = (self.pool_state & !EPOCH_MASK) | (next as u64);
        next
    }
}

/// What the operator is told when the parameters do not fit.
pub open spec fn budget_text(pool_name: Seq<char>, decision: BudgetDecision) -> Seq<char> {
    match decision {
        BudgetDecision::FullCascade => Seq::empty(),
        BudgetDecision::OverlayDroppedBaselineKept { body_bytes, packet_bytes } => text::join(
            seq![
                "auth_query startup_parameters for pool '"@,
                pool_name,
                "' would exceed the operator budget (merged body "@,
                text::decimal(body_bytes as nat),
                " bytes, full packet "@,
                text::decimal(packet_bytes as nat),
                " bytes; operator budget 9488 bytes, PG StartupMessage cap 10000 bytes). Reduce the per-user startup_parameters row, the pool baseline, or the general baseline."@,
            ],
        ),
        BudgetDecision::EmptyDueToBudget { body_bytes, packet_bytes, .. } => text::join(
            seq![
                "startup_parameters cascade for pool '"@,
                pool_name,
                "' does not fit the operator budget (body "@,
                text::decimal(body_bytes as nat),
                " bytes, full packet "@,
                text::decimal(packet_bytes as nat),
                " bytes; operator budget 9488 bytes, PG StartupMessage cap 10000 bytes). Reduce general or pool startup_parameters."@,
            ],
        ),
    }
}

/// Tells the operator that the parameters of the user do not fit.
fn overlay_text(pool_name: &str, body_bytes: usize, packet_bytes: usize) -> (s: String)
    ensures
        s@ == budget_text(
            pool_name@,
            BudgetDecision::OverlayDroppedBaselineKept { body_bytes, packet_bytes },
        ),
{
    let body = decimal_text(body_bytes as u64);
    let packet = decimal_text(packet_bytes as u64);
    let parts = [
        "auth_query startup_parameters for pool '",
        pool_name,
        "' would exceed the operator budget (merged body ",
        body.as_str(),
        " bytes, full packet ",
        packet.as_str(),
        " bytes; operator budget 9488 bytes, PG StartupMessage cap 10000 bytes). Reduce the per-user startup_parameters row, the pool baseline, or the general baseline.",
    ];
    assert(text::views(parts@) =~= seq![
        "auth_query startup_parameters for pool '"@,
        pool_name@,
        "' would exceed the operator budget (merged body "@,
        body@,
        " bytes, full packet "@,
        packet@,
        " bytes; operator budget 9488 bytes, PG StartupMessage cap 10000 bytes). Reduce the per-user startup_parameters row, the pool baseline, or the general baseline."@,
    ]);
    concat(&parts)
}

/// Tells the operator that the parameters do not fit.
fn cascade_text(pool_name: &str, reason: BudgetReason, body_bytes: usize, packet_bytes: usize) -> (s:
    String)
    ensures
        s@ == budget_text(
            pool_name@,
            BudgetDecision::EmptyDueToBudget { reason, body_bytes, packet_bytes },
        ),
{
    let body = decimal_text(body_bytes as u64);
    let packet = decimal_text(packet_bytes as u64);
    let parts = [
        "startup_parameters cascade for pool '",
        pool_name,
        "' does not fit the operator budget (body ",
        body.as_str(),
        " bytes, full packet ",
        packet.as_str(),
        " bytes; operator budget 9488 bytes, PG StartupMessage cap 10000 bytes). Reduce general or pool startup_parameters.",
    ];
    assert(text::views(parts@) =~= seq![
        "startup_parameters cascade for pool '"@,
        pool_name@,
        "' does not fit the operator budget (body "@,
        body@,
        " bytes, full packet "@,
        packet@,
        " bytes; operator budget 9488 bytes, PG StartupMessage cap 10000 bytes). Reduce general or pool startup_parameters."@,
    ]);
    concat(&parts)
}

impl ServerPool {
    /// The rejection of a session whose parameters do not fit.
    pub open spec fn rejects_with(&self, e: Error) -> bool {
        e matches Error::ServerStartupParameterRejection { sqlstate, message, server_identifier }
            && sqlstate@ == "53400"@ && message@ == budget_text(
            self.address.pool_name@,
            self.resolved_startup_decision,
        ) && server_identifier.username@ == self.user.username@ && server_identifier.database@
            == self.database@ && server_identifier.pool_name@ == self.address.pool_name@
    }

    /// The parameters for the next session. A session does not begin with only
    /// some of them.
    pub fn resolved_startup_parameters(&self) -> (r: Result<&StringMap<String>, Error>)
        ensures
            match r {
                Ok(map) => self.resolved_startup_decision is FullCascade && *map
                    == self.resolved_startup_map,
                Err(e) => !(self.resolved_startup_decision is FullCascade) && self.rejects_with(e),
            },
    {
        let message = match self.resolved_startup_decision {
            BudgetDecision::FullCascade => {
                return Ok(&self.resolved_startup_map);
            },
            BudgetDecision::OverlayDroppedBaselineKept { body_bytes, packet_bytes } => overlay_text(
                self.address.pool_name.as_str(),
                body_bytes,
                packet_bytes,
            ),
            BudgetDecision::EmptyDueToBudget { reason, body_bytes, packet_bytes } => cascade_text(
                self.address.pool_name.as_str(),
                reason,
                body_bytes,
                packet_bytes,
            ),
        };
        Err(
            Error::ServerStartupParameterRejection {
                sqlstate: "53400".to_owned(),
                message,
                server_identifier: ServerIdentifier::new(
                    self.user.username.clone(),
                    self.database.as_str(),
                    self.address.pool_name.as_str(),
                ),
            },
        )
    }

    /// The word under which a session is counted that did not begin because its
    /// parameters do not fit.
    pub fn drop_reason(&self) -> (r: Option<&'static str>)
        ensures
            match r {
                Some(word) => match self.resolved_startup_decision {
                    BudgetDecision::FullCascade => false,
                    BudgetDecision::OverlayDroppedBaselineKept { .. } => word@
                        == "auth_query_overlay_oversize"@,
                    BudgetDecision::EmptyDueToBudget {
                        reason: BudgetReason::CascadeBudgetExceeded,
                        ..
                    } => word@ == "cascade_budget_exceeded"@,
                    BudgetDecision::EmptyDueToBudget {
                        reason: BudgetReason::PacketCapExceeded,
                        ..
                    } => word@ == "packet_cap_exceeded"@,
                },
                None => self.resolved_startup_decision is FullCascade,
            },
    {
        match self.resolved_startup_decision {
            BudgetDecision::FullCascade => None,
            BudgetDecision::OverlayDroppedBaselineKept { .. } => Some("auth_query_overlay_oversize"),
            BudgetDecision::EmptyDueToBudget { reason, .. } => Some(reason.as_str()),
        }
    }

    /// The startup parameters as an operator should see them: what is configured
    /// now, where it comes from, and whether the next session gets it.
    pub fn effective_startup_parameters_with_sources(
        &self,
        general: &StringMap<String>,
        pool: &StringMap<String>,
        auth_query: Option<&StringMap<String>>,
    ) -> (r: StringMap<EffectiveParameter>)
        ensures
            startup_resolver::effective_views(r@) == startup_resolver::effective(
                startup_resolver::configured(
                    string_map::texts(general@),
                    string_map::texts(pool@),
                    startup_resolver::opt_texts(auth_query),
                ),
                string_map::texts(self.resolved_startup_map@),
                string_map::texts(self.per_user_startup_overlay@),
                !(self.resolved_startup_decision is FullCascade),
            ),
    {
        let configured = resolve_with_sources(general, pool, auth_query);
        let rejected = match self.resolved_startup_decision {
            BudgetDecision::FullCascade => false,
            _ => true,
        };
        effective_parameters(
            &configured,
            &self.resolved_startup_map,
            &self.per_user_startup_overlay,
            rejected,
        )
    }
}

/// The backend could not be reached, or does not take sessions.
pub open spec fn unreachable_error(e: Error) -> bool {
    e is ConnectError || e is ServerUnavailableError
}

/// Whether another member of the cluster may help.
pub fn is_backend_unreachable(err: &Error) -> (r: bool)
    ensures
        r == unreachable_error(*err),
{
    match err {
        Error::ConnectError(_) => true,
        Error::ServerUnavailableError(_, _) => true,
        _ => false,
    }
}

/// An error that every member of the cluster would give.
pub open spec fn host_independent(e: Error) -> bool {
    e is ServerStartupParameterRejection || e is ConnectResourceExhausted
}

/// Whether every member of the cluster would give this error.
pub fn is_host_independent_error(e: &Error) -> (r: bool)
    ensures
        r == host_independent(*e),
{
    match e {
        Error::ServerStartupParameterRejection { .. } => true,
        Error::ConnectResourceExhausted(_) => true,
        _ => false,
    }
}

/// No error of a backend is both: what another member may help with, and what it
/// cannot.
pub proof fn fallback_never_hides_local_errors(e: Error)
    ensures
        !(unreachable_error(e) && host_independent(e)),
{
}

/// A backend that refused a plain session is tried again with TLS.
pub open spec fn retries_with_tls(mode: ServerTlsMode, e: Error) -> bool {
    mode == ServerTlsMode::Allow && !unreachable_error(e) && !host_independent(e)
}

/// Whether a backend that refused a plain session is tried again with TLS: only
/// if it answered at all.
pub fn should_tls_retry(mode: ServerTlsMode, err: &Error) -> (r: bool)
    ensures
        r == retries_with_tls(mode, *err),
{
    mode.retries_with_tls() && !is_backend_unreachable(err) && !is_host_independent_error(err)
}

/// The error for a startup that took too long.
pub open spec fn startup_timeout(e: Error, host: Seq<char>, port: u16, ms: u64) -> bool {
    e matches Error::ConnectError(m) && m@ == text::join(
        seq![
            "server startup timed out to "@,
            host,
            ":"@,
            text::decimal(port as nat),
            " after "@,
            text::decimal(ms as nat),
            "ms"@,
        ],
    )
}

/// What becomes of a startup: its own result, or an error if it took too long.
pub fn startup_with_timeout<T>(
    timeout_ms: u64,
    host: &str,
    port: u16,
    result: Option<Result<T, Error>>,
) -> (r: Result<T, Error>)
    ensures
        match result {
            Some(x) => r == x,
            None => r matches Err(e) && startup_timeout(e, host@, port, timeout_ms),
        },
{
    match result {
        Some(x) => x,
        None => {
            let port_text = decimal_text(port as u64);
            let ms = decimal_text(timeout_ms);
            let parts = [
                "server startup timed out to ",
                host,
                ":",
                port_text.as_str(),
                " after ",
                ms.as_str(),
                "ms",
            ];
            assert(text::views(parts@) =~= seq![
                "server startup timed out to "@,
                host@,
                ":"@,
                port_text@,
                " after "@,
                ms@,
                "ms"@,
            ]);
            Err(Error::ConnectError(concat(&parts)))
        },
    }
}

/// A login at a backend.
pub struct Attempt {
    pub address: Address,
    /// A login without TLS was refused there before.
    pub second: bool,
}

/// What has to be done to make a connection.
pub enum CreateStep {
    /// Try the fallback; if it gives no connection go on with `connect`.
    FallbackFirst,
    /// Log in there.
    Connect(Attempt),
    /// The connection is made.
    Made(Server),
    /// Leave the backend alone for a while and try the fallback.
    Fallback(Error),
    /// Wait a little and report the error.
    GiveUp { backoff_ms: u64, error: Error },
}

/// The pause after a backend refused a session.
pub const CREATE_BACKOFF_MS: u64 = 10;

/// An address that insists on TLS.
pub open spec fn with_tls(a: Address) -> Address {
    Address { server_tls: ServerTlsConfig { mode: ServerTlsMode::Require, ..a.server_tls }, ..a }
}

/// An address that insists on TLS.
pub(crate) fn insist_on_tls(a: &Address) -> (r: Address)
    ensures
        r == with_tls(*a),
{
    let mut address = a.clone();
    address.server_tls = ServerTlsConfig {
        mode: ServerTlsMode::Require,
        cert_hash: a.server_tls.cert_hash,
    };
    address
}

impl ServerPool {
    /// Begins to make a connection. A backend that is left alone is passed over;
    /// once that time is up, connections to other members are made anew.
    pub fn create(&mut self, check: BlacklistCheck) -> (step: CreateStep)
        ensures
            if old(self).fallback.is_some() && check == BlacklistCheck::Active {
                step == CreateStep::FallbackFirst && *final(self) == *old(self)
            } else {
                let begun = if old(self).fallback.is_some() && check
                    == BlacklistCheck::JustExpired {
                    bumped(old(self).pool_state)
                } else {
                    old(self).pool_state
                };
                &&& *final(self) == (ServerPool {
                    pool_state: begun,
                    connection_counter: old(self).connection_counter.wrapping_add(1),
                    ..*old(self)
                })
                &&& old(self).connects_with(step)
            },
            create_begun(*old(self), *final(self), check, step),
    {
        if self.fallback.is_some() {
            match check {
                BlacklistCheck::Active => {
                    return CreateStep::FallbackFirst;
                },
                BlacklistCheck::JustExpired => {
                    let _ = self.bump_epoch();
                },
                BlacklistCheck::NotBlacklisted => {},
            }
        }
        self.connect()
    }

    /// What follows when the local backend is tried: a login, or the rejection of
    /// parameters that do not fit.
    pub open spec fn connects_with(&self, step: CreateStep) -> bool {
        if self.resolved_startup_decision is FullCascade {
            step == CreateStep::Connect(Attempt { address: self.address, second: false })
        } else {
            step matches CreateStep::GiveUp { backoff_ms, error } && backoff_ms == 0
                && self.rejects_with(error)
        }
    }

    /// Tries the local backend.
    pub fn connect(&mut self) -> (step: CreateStep)
        ensures
            *final(self) == (ServerPool {
                connection_counter: old(self).connection_counter.wrapping_add(1),
                ..*old(self)
            }),
            old(self).connects_with(step),
    {
        self.connection_counter = self.connection_counter.wrapping_add(1);
        match self.resolved_startup_parameters() {
            Ok(_map) => CreateStep::Connect(
                Attempt { address: self.address.clone(), second: false },
            ),
            Err(error) => CreateStep::GiveUp { backoff_ms: 0, error },
        }
    }

    /// Goes on after a login. A first one that was refused is followed by a second
    /// one with TLS, where the mode asks for that.
    pub fn connected(&self, attempt: &Attempt, result: Result<Server, Error>) -> (step: CreateStep)
        ensures
            match result {
                Ok(server) => step == CreateStep::Made(server),
                Err(e) => if !attempt.second && retries_with_tls(self.address.server_tls.mode, e) {
                    step == CreateStep::Connect(
                        Attempt { address: with_tls(self.address), second: true },
                    )
                } else if unreachable_error(e) && self.fallback.is_some() {
                    step == CreateStep::Fallback(e)
                } else {
                    step == (CreateStep::GiveUp { backoff_ms: CREATE_BACKOFF_MS, error: e })
                },
            },
            login_ended(*self, *attempt, result, step),
    {
        match result {
            Ok(server) => CreateStep::Made(server),
            Err(error) => {
                if !attempt.second && should_tls_retry(self.address.server_tls.mode, &error) {
                    let address = insist_on_tls(&self.address);
                    return CreateStep::Connect(Attempt { address, second: true });
                }
                if is_backend_unreachable(&error) && self.fallback.is_some() {
                    return CreateStep::Fallback(error);
                }
                CreateStep::GiveUp { backoff_ms: CREATE_BACKOFF_MS, error }
            },
        }
    }

    /// A connection with its record. Its lifetime is the pool's unless it has one
    /// of its own.
    pub fn new_object_inner(
        &self,
        obj: Server,
        coordinator_permit: Option<CoordinatorPermit>,
        now_ms: u64,
    ) -> (r: ObjectInner)
        ensures
            r.obj == obj,
            r.coordinator_permit == coordinator_permit,
            r.metrics.created_ms == now_ms,
            r.metrics.recycled_ms.is_none(),
            r.metrics.recycle_count == 0,
            r.metrics.epoch == epoch_in(self.pool_state),
            ({
                let lifetime = match obj.state.override_lifetime_ms {
                    Some(ms) => ms,
                    None => self.lifetime_ms,
                };
                lifetime - types::jitter_of(lifetime) <= r.metrics.lifetime_ms <= lifetime
                    + types::jitter_of(lifetime)
            }),
            self.idle_timeout_ms - types::jitter_of(self.idle_timeout_ms)
                <= r.metrics.idle_timeout_ms <= self.idle_timeout_ms + types::jitter_of(
                self.idle_timeout_ms,
            ),
    {
        let lifetime: u64 = match obj.state.override_lifetime_ms {
            Some(ms) => ms,
            None => self.lifetime_ms,
        };
        let metrics = Metrics::new(lifetime, self.idle_timeout_ms, self.current_epoch(), now_ms);
        ObjectInner { obj, metrics, coordinator_permit }
    }
}

/// The age of a connection that has outlived its time.
pub open spec fn outlived(m: Metrics, skip_lifetime: bool, now_ms: u64) -> Option<u64> {
    let age = types::elapsed(m.created_ms, now_ms);
    if !skip_lifetime && m.lifetime_ms != 0 && age > m.lifetime_ms {
        Some(age)
    } else {
        None
    }
}

/// The age of a connection that has outlived its time, unless every connection
/// is needed.
pub fn lifetime_exceeded(metrics: &Metrics, skip_lifetime: bool, now_ms: u64) -> (r: Option<u64>)
    ensures
        r == outlived(*metrics, skip_lifetime, now_ms),
{
    if skip_lifetime || metrics.lifetime_ms == 0 {
        return None;
    }
    let age: u64 = metrics.age(now_ms);
    if age > metrics.lifetime_ms {
        Some(age)
    } else {
        None
    }
}

/// Why a connection is not used again.
#[derive(Debug, Clone, Copy)]
pub enum RecycleError {
    StaticMessage(&'static str),
}

/// Whether a connection can be used again.
pub enum RecycleStep {
    /// It can.
    Usable,
    /// It can if it gives a sign of life within a time. It was idle for so long.
    CheckAlive { idle_ms: u64, limit_ms: u64 },
    /// It cannot.
    Rejected(RecycleError),
}

/// How long a connection that has to give a sign of life was idle.
pub open spec fn suspicious(p: ServerPool, m: Metrics, now_ms: u64) -> Option<u64> {
    match m.recycled_ms {
        Some(since) => if p.idle_check_timeout_ms > 0 && types::elapsed(since, now_ms)
            > p.idle_check_timeout_ms {
            Some(types::elapsed(since, now_ms))
        } else {
            None
        },
        None => None,
    }
}

/// What is said of a connection, and why it is closed. Nothing else of it
/// changes.
pub open spec fn rejected_for(
    before: Server,
    after: Server,
    step: RecycleStep,
    message: Seq<char>,
    reason: CloseReason,
) -> bool {
    &&& step matches RecycleStep::Rejected(RecycleError::StaticMessage(m)) && m@ == message
    &&& after == (Server { close_reason: Some(reason), ..before })
}

impl ServerPool {
    /// Whether a connection can be used again. It cannot if it was given up, if
    /// it is of an older epoch, or if it has outlived its time and can be spared.
    pub fn recycle(
        &self,
        conn: &mut Server,
        metrics: &Metrics,
        skip_lifetime: bool,
        now_ms: u64,
    ) -> (step: RecycleStep)
        ensures
            if old(conn).state.bad {
                rejected_for(
                    *old(conn),
                    *final(conn),
                    step,
                    "Bad connection"@,
                    CloseReason::Bad,
                )
            } else if metrics.epoch < epoch_in(self.pool_state) {
                rejected_for(
                    *old(conn),
                    *final(conn),
                    step,
                    "Connection outdated (RECONNECT)"@,
                    CloseReason::Outdated,
                )
            } else {
                match outlived(*metrics, skip_lifetime, now_ms) {
                    Some(age) => rejected_for(
                        *old(conn),
                        *final(conn),
                        step,
                        "Connection exceeded lifetime"@,
                        CloseReason::Outlived { age_ms: age, limit_ms: metrics.lifetime_ms },
                    ),
                    None => *final(conn) == *old(conn) && match suspicious(
                        *self,
                        *metrics,
                        now_ms,
                    ) {
                        Some(idle) => step == (RecycleStep::CheckAlive {
                            idle_ms: idle,
                            limit_ms: self.connect_timeout_ms,
                        }),
                        None => step == RecycleStep::Usable,
                    },
                }
            },
            looked_over(
                *self,
                *old(conn),
                *final(conn),
                *metrics,
                skip_lifetime,
                now_ms,
                step,
            ),
    {
        if conn.state.bad {
            conn.close_reason = Some(CloseReason::Bad);
            return RecycleStep::Rejected(RecycleError::StaticMessage("Bad connection"));
        }
        if metrics.epoch < self.current_epoch() {
            conn.close_reason = Some(CloseReason::Outdated);
            return RecycleStep::Rejected(
                RecycleError::StaticMessage("Connection outdated (RECONNECT)"),
            );
        }
        match lifetime_exceeded(metrics, skip_lifetime, now_ms) {
            Some(age) => {
                conn.close_reason = Some(
                    CloseReason::Outlived { age_ms: age, limit_ms: metrics.lifetime_ms },
                );
                return RecycleStep::Rejected(
                    RecycleError::StaticMessage("Connection exceeded lifetime"),
                );
            },
            None => {},
        }
        if self.idle_check_timeout_ms > 0 {
            match metrics.recycled_ms {
                Some(since) => {
                    let idle: u64 = if now_ms >= since {
                        now_ms - since
                    } else {
                        0
                    };
                    if idle > self.idle_check_timeout_ms {
                        return RecycleStep::CheckAlive {
                            idle_ms: idle,
                            limit_ms: self.connect_timeout_ms,
                        };
                    }
                },
                None => {},
            }
        }
        RecycleStep::Usable
    }

    /// Goes on after a connection was asked for a sign of life.
    pub fn alive_checked(conn: &mut Server, alive: bool, idle_ms: u64) -> (step: RecycleStep)
        ensures
            if alive {
                step == RecycleStep::Usable && *final(conn) == *old(conn)
            } else {
                rejected_for(
                    *old(conn),
                    *final(conn),
                    step,
                    "Connection failed alive check"@,
                    CloseReason::Silent { idle_ms },
                )
            },
    {
        if alive {
            return RecycleStep::Usable;
        }
        conn.close_reason = Some(CloseReason::Silent { idle_ms });
        RecycleStep::Rejected(RecycleError::StaticMessage("Connection failed alive check"))
    }
}

/// A connection that every client is waiting for is not closed for its age; but
/// one that was given up or is outdated is closed all the same.
pub proof fn pressure_spares_old_connections(m: Metrics, now_ms: u64)
    ensures
        outlived(m, true, now_ms).is_none(),
        m.lifetime_ms == 0 ==> outlived(m, false, now_ms).is_none(),
{
}

/// What an error of a login leads to. Only a backend that cannot be reached or takes no
/// sessions makes another member of the cluster worth a try, and only one that answered
/// and refused is tried again with TLS, where the mode says so.
pub proof fn errors_lead_to_their_remedy(mode: ServerTlsMode, e: Error)
    ensures
        unreachable_error(e) <==> e is ConnectError || e is ServerUnavailableError,
        host_independent(e) <==> e is ServerStartupParameterRejection
            || e is ConnectResourceExhausted,
        retries_with_tls(mode, e) ==> mode == ServerTlsMode::Allow && !(e is ConnectError) && !(
        e is ServerUnavailableError) && !(e is ServerStartupParameterRejection) && !(
        e is ConnectResourceExhausted),
        mode == ServerTlsMode::Allow && (e is ServerStartupError || e is ProtocolSyncError)
            ==> retries_with_tls(mode, e),
{
}

/// The second login differs from the first in one thing: it insists on TLS.
pub proof fn second_login_insists_on_tls(a: Address)
    ensures
        with_tls(a).server_tls.mode == ServerTlsMode::Require,
        with_tls(a).server_tls.cert_hash == a.server_tls.cert_hash,
        with_tls(a).host == a.host,
        with_tls(a).port == a.port,
        with_tls(a).database == a.database,
        with_tls(a).username == a.username,
        with_tls(a).pool_name == a.pool_name,
{
}

/// A connection has outlived its time exactly if it has a lifetime, is older than that
/// and can be spared.
pub proof fn outlived_means_too_old(m: Metrics, skip_lifetime: bool, now_ms: u64)
    ensures
        outlived(m, skip_lifetime, now_ms).is_some() <==> !skip_lifetime && m.lifetime_ms > 0
            && now_ms - m.created_ms > m.lifetime_ms,
        outlived(m, skip_lifetime, now_ms).is_some() ==> outlived(
            m,
            skip_lifetime,
            now_ms,
        ).unwrap() == now_ms - m.created_ms,
{
}

/// A connection has to give a sign of life exactly if it came back longer ago than the
/// pool allows without one.
pub proof fn long_idle_connections_are_asked(p: ServerPool, m: Metrics, now_ms: u64)
    ensures
        suspicious(p, m, now_ms).is_some() <==> p.idle_check_timeout_ms > 0
            && m.recycled_ms.is_some() && now_ms - m.recycled_ms.unwrap()
            > p.idle_check_timeout_ms,
        suspicious(p, m, now_ms).is_some() ==> suspicious(p, m, now_ms).unwrap() == now_ms
            - m.recycled_ms.unwrap(),
{
}

/// The operator's parameters are sent only if they take no more than 9488 bytes and the
/// whole message no more than 10000; a message that is too long is never sent, and one
/// that fits always is.
pub proof fn budget_is_kept(
    base: Map<Seq<char>, Seq<char>>,
    overlay: Map<Seq<char>, Seq<char>>,
    login: (Seq<char>, Seq<char>, Seq<char>),
)
    ensures
        ({
            let (m, decision) = resolution(base, overlay, login);
            let all = startup_parameters::layered(
                startup_parameters::canonical_layer(base),
                overlay,
            );
            let size = size_with(login, all);
            &&& decision is FullCascade <==> size.1 <= 9488 && size.0 <= 10000
            &&& decision is FullCascade ==> m == all
            &&& decision matches BudgetDecision::EmptyDueToBudget { reason, body_bytes, packet_bytes }
                ==> {
                &&& body_bytes == size.1
                &&& packet_bytes == size.0
                &&& reason == BudgetReason::PacketCapExceeded <==> size.0 > 10000
            }
            &&& decision matches BudgetDecision::OverlayDroppedBaselineKept {
                body_bytes,
                packet_bytes,
            } ==> {
                &&& body_bytes == size.1
                &&& packet_bytes == size.0
                &&& size_with(login, m).1 <= 9488
                &&& size_with(login, m).0 <= 10000
            }
        }),
{
}

/// Where a user's own parameters do not fit but the operator's do, the operator's are
/// sent alone; without any of the user's there is nothing to leave out.
pub proof fn baseline_is_kept_where_it_fits(
    base: Map<Seq<char>, Seq<char>>,
    overlay: Map<Seq<char>, Seq<char>>,
    login: (Seq<char>, Seq<char>, Seq<char>),
)
    ensures
        ({
            let (m, decision) = resolution(base, overlay, login);
            let baseline = startup_parameters::canonical_layer(base);
            let alone = size_with(login, baseline);
            &&& !(decision is FullCascade) && overlay != Map::<Seq<char>, Seq<char>>::empty()
                && alone.1 <= 9488 && alone.0 <= 10000 ==> decision is OverlayDroppedBaselineKept
                && m == baseline
            &&& decision is OverlayDroppedBaselineKept ==> m == baseline && overlay != Map::<
                Seq<char>,
                Seq<char>,
            >::empty()
            &&& decision is EmptyDueToBudget ==> m == Map::<Seq<char>, Seq<char>>::empty() && (
            overlay == Map::<Seq<char>, Seq<char>>::empty() || alone.1 > 9488 || alone.0 > 10000)
        }),
{
}

/// No session is begun with fewer parameters than were configured: unless all of them
/// fit, the login is given up at once, with the error of PostgreSQL for a limit that is
/// exceeded.
pub proof fn no_login_with_missing_parameters(p: ServerPool, step: CreateStep)
    requires
        p.connects_with(step),
    ensures
        step is Connect <==> p.resolved_startup_decision is FullCascade,
        step matches CreateStep::Connect(attempt) ==> attempt.address == p.address
            && !attempt.second,
        step matches CreateStep::GiveUp { backoff_ms, error } ==> backoff_ms == 0
            && error is ServerStartupParameterRejection
            && error->ServerStartupParameterRejection_sqlstate@ == "53400"@,
{
}

/// A name that the operator or the lookup has set is theirs however it is spelled.
pub proof fn managed_names_ignore_the_spelling(
    base: Map<Seq<char>, String>,
    overlay: Map<Seq<char>, String>,
    k: Seq<char>,
)
    ensures
        base.contains_key(k) || overlay.contains_key(k) ==> managed(
            base,
            overlay,
            parameters::canonical_name(k),
        ),
        base == Map::<Seq<char>, String>::empty() && overlay == Map::<Seq<char>, String>::empty()
            ==> !managed(base, overlay, k),
{
    assert(base.contains_key(k) || overlay.contains_key(k) ==> managed(
        base,
        overlay,
        parameters::canonical_name(k),
    ));
}

/// A connection logs in as the user whom the backend is to see, if one is configured.
pub proof fn logins_use_the_configured_name(user: User)
    ensures
        user.server_username matches Some(name) ==> login_of(user) == name@,
        user.server_username.is_none() ==> login_of(user) == user.username@,
{
}

/// What comes of looking over a connection before a client gets it.
pub open spec fn looked_over(
    p: ServerPool,
    before: Server,
    after: Server,
    m: Metrics,
    skip_lifetime: bool,
    now_ms: u64,
    step: RecycleStep,
) -> bool {
    let reason = if before.state.bad {
        Some(CloseReason::Bad)
    } else if m.epoch < epoch_in(p.pool_state) {
        Some(CloseReason::Outdated)
    } else {
        match outlived(m, skip_lifetime, now_ms) {
            Some(age) => Some(CloseReason::Outlived { age_ms: age, limit_ms: m.lifetime_ms }),
            None => None,
        }
    };
    match reason {
        Some(r) => step is Rejected && after == (Server { close_reason: Some(r), ..before }),
        None => after == before && match suspicious(p, m, now_ms) {
            Some(idle) => step == (RecycleStep::CheckAlive {
                idle_ms: idle,
                limit_ms: p.connect_timeout_ms,
            }),
            None => step == RecycleStep::Usable,
        },
    }
}

/// A client gets a connection unasked only if it is sound: it was not given up, was made
/// after the last reconnect, is not too old unless it cannot be spared, and came back not
/// long ago. One that came back long ago has to give a sign of life; any other is closed,
/// and for the reason that it reports.
pub proof fn only_sound_connections_are_reused(
    p: ServerPool,
    before: Server,
    after: Server,
    m: Metrics,
    skip_lifetime: bool,
    now_ms: u64,
    step: RecycleStep,
)
    requires
        looked_over(p, before, after, m, skip_lifetime, now_ms, step),
    ensures
        ({
            let aged = m.lifetime_ms > 0 && !skip_lifetime && now_ms - m.created_ms > m.lifetime_ms;
            let unsound = before.state.bad || m.epoch < epoch_in(p.pool_state) || aged;
            let long_idle = p.idle_check_timeout_ms > 0 && m.recycled_ms.is_some() && now_ms
                - m.recycled_ms.unwrap() > p.idle_check_timeout_ms;
            &&& step is Rejected <==> unsound
            &&& step is CheckAlive <==> !unsound && long_idle
            &&& step is Usable <==> !unsound && !long_idle
            &&& !unsound ==> after == before
            &&& unsound ==> after.close_reason.is_some() && after.state == before.state
            &&& after.close_reason == Some(CloseReason::Bad) && unsound ==> before.state.bad
            &&& after.close_reason == Some(CloseReason::Outdated) && unsound ==> m.epoch < epoch_in(
                p.pool_state,
            )
            &&& unsound && after.close_reason.unwrap() is Outlived ==> aged
        }),
{
}

/// How a connection is begun.
pub open spec fn create_begun(
    before: ServerPool,
    after: ServerPool,
    check: BlacklistCheck,
    step: CreateStep,
) -> bool {
    if before.fallback.is_some() && check == BlacklistCheck::Active {
        step == CreateStep::FallbackFirst && after == before
    } else {
        &&& before.connects_with(step)
        &&& after == (ServerPool {
            pool_state: if before.fallback.is_some() && check == BlacklistCheck::JustExpired {
                bumped(before.pool_state)
            } else {
                before.pool_state
            },
            connection_counter: before.connection_counter.wrapping_add(1),
            ..before
        })
    }
}

/// A local backend that is away is left alone as long as there is another member to ask.
/// Once that time is over the connections of the meantime belong to an older epoch; at any
/// other time the epoch stays, and the pause always does.
pub proof fn away_backends_are_left_alone(
    before: ServerPool,
    after: ServerPool,
    check: BlacklistCheck,
    step: CreateStep,
)
    requires
        create_begun(before, after, check, step),
    ensures
        step is FallbackFirst <==> before.fallback.is_some() && check == BlacklistCheck::Active,
        step is FallbackFirst ==> after == before,
        step is Connect ==> step->Connect_0.address == before.address && !step->Connect_0.second,
        before.fallback.is_some() && check == BlacklistCheck::JustExpired ==> epoch_in(
            after.pool_state,
        ) == epoch_in(before.pool_state).wrapping_add(1),
        before.fallback.is_none() || check != BlacklistCheck::JustExpired ==> epoch_in(
            after.pool_state,
        ) == epoch_in(before.pool_state),
        paused_in(after.pool_state) == paused_in(before.pool_state),
        !(step is FallbackFirst) ==> after.connection_counter
            == before.connection_counter.wrapping_add(1),
{
    pause_and_epoch_are_apart(before.pool_state);
}

/// What follows a login at the local backend.
pub open spec fn login_ended(
    p: ServerPool,
    attempt: Attempt,
    result: Result<Server, Error>,
    step: CreateStep,
) -> bool {
    match result {
        Ok(server) => step == CreateStep::Made(server),
        Err(e) => if !attempt.second && retries_with_tls(p.address.server_tls.mode, e) {
            step == CreateStep::Connect(Attempt { address: with_tls(p.address), second: true })
        } else if unreachable_error(e) && p.fallback.is_some() {
            step == CreateStep::Fallback(e)
        } else {
            step matches CreateStep::GiveUp { error, .. } && error == e
        },
    }
}

/// A login that ends well gives the connection. One that was refused is tried once more
/// with TLS where the mode allows it; a backend that cannot be reached, or takes no
/// sessions, makes way for another member where there is one; any other error is handed
/// on as it is.
pub proof fn failed_logins_find_their_remedy(
    p: ServerPool,
    attempt: Attempt,
    result: Result<Server, Error>,
    step: CreateStep,
)
    requires
        login_ended(p, attempt, result, step),
    ensures
        result matches Ok(server) ==> step == CreateStep::Made(server),
        step is Made ==> result is Ok,
        step is Connect ==> !attempt.second && p.address.server_tls.mode == ServerTlsMode::Allow
            && step->Connect_0.second && step->Connect_0.address.host == p.address.host
            && step->Connect_0.address.port == p.address.port
            && step->Connect_0.address.server_tls.mode == ServerTlsMode::Require,
        result matches Err(e) ==> ((e is ConnectError || e is ServerUnavailableError) ==> (
        step is Fallback <==> p.fallback.is_some())),
        result matches Err(e) ==> (step is Fallback ==> step->Fallback_0 == e),
        result matches Err(e) ==> (step is GiveUp ==> step->GiveUp_error == e),
        result matches Err(e) ==> (e is ServerStartupParameterRejection
            || e is ConnectResourceExhausted ==> step is GiveUp),
        result matches Err(e) ==> (!(e is ConnectError) && !(e is ServerUnavailableError)
            && attempt.second ==> step is GiveUp),
{
}

} // verus!

//! Which layer of the configuration a startup parameter comes from, and whether
//! the next session gets it.
use vstd::prelude::*;
use crate::server::parameters::canonicalize_param_name;
use crate::string_map::StringMap;
use crate::text::same_text;
#[allow(unused_imports)]
use crate::server::parameters;
#[allow(unused_imports)]
use crate::startup_parameters;
#[allow(unused_imports)]
use crate::string_map;

verus! {

/// The layer that sets a parameter.
#[derive(Debug, Clone, Copy, PartialEq, Eq, Structural)]
pub enum ParameterSource {
    /// The general section.
    General,
    /// The section of the pool.
    Pool,
    /// What the authentication query returned for the user.
    AuthQuery,
}

/// What becomes of a parameter.
#[derive(Debug, Clone, Copy, PartialEq, Eq, Structural)]
pub enum ApplicationState {
    /// The next session gets it.
    Applied,
    /// It does not fit into the budget.
    DroppedDueToBudget,
    /// The next session gets an older value.
    Stale,
}

/// A parameter and where it comes from.
#[derive(Debug)]
pub struct ResolvedParameter {
    pub value: String,
    pub source: ParameterSource,
}

/// A parameter, where it comes from and what becomes of it.
#[derive(Debug)]
pub struct EffectiveParameter {
    pub value: String,
    pub source: ParameterSource,
    pub state: ApplicationState,
}

/// Resolved parameters, as the contracts speak of them.
pub open spec fn resolved_views(m: Map<Seq<char>, ResolvedParameter>) -> Map<
    Seq<char>,
    (Seq<char>, ParameterSource),
> {
    m.map_values(|p: ResolvedParameter| (p.value@, p.source))
}

/// Effective parameters, as the contracts speak of them.
pub open spec fn effective_views(m: Map<Seq<char>, EffectiveParameter>) -> Map<
    Seq<char>,
    (Seq<char>, ParameterSource, ApplicationState),
> {
    m.map_values(|p: EffectiveParameter| (p.value@, p.source, p.state))
}

/// Parameters with the entries of a layer put over them, under their canonical
/// names.
pub open spec fn sourced(
    m: Map<Seq<char>, (Seq<char>, ParameterSource)>,
    s: Seq<(Seq<char>, Seq<char>)>,
    source: ParameterSource,
) -> Map<Seq<char>, (Seq<char>, ParameterSource)>
    decreases s.len(),
{
    if s.len() == 0 {
        m
    } else {
        sourced(m, s.drop_last(), source).insert(
            parameters::canonical_name(s.last().0),
            (s.last().1, source),
        )
    }
}

/// Puts a layer over the parameters.
fn put_sourced(
    map: &mut StringMap<ResolvedParameter>,
    layer: &StringMap<String>,
    source: ParameterSource,
)
    ensures
        resolved_views(final(map)@) == sourced(
            resolved_views(old(map)@),
            string_map::in_order(string_map::texts(layer@)),
            source,
        ),
{
    let entries = layer.sorted();
    let ghost start = resolved_views(map@);
    let ghost s = string_map::text_listing(string_map::listing_of(entries@));
    let mut i: usize = 0;
    assert(s.take(0) =~= Seq::<(Seq<char>, Seq<char>)>::empty());
    while i < entries.len()
        invariant
            i <= entries.len(),
            s == string_map::text_listing(string_map::listing_of(entries@)),
            resolved_views(map@) == sourced(start, s.take(i as int), source),
        decreases entries.len() - i,
    {
        let name = canonicalize_param_name(entries[i].0.clone());
        let ghost before = map@;
        let parameter = ResolvedParameter { value: entries[i].1.clone(), source };
        let ghost key = name@;
        let _ = map.insert(name, parameter);
        proof {
            assert(s.take(i + 1).drop_last() =~= s.take(i as int));
            assert(s[i as int] == (entries@[i as int].0@, entries@[i as int].1@));
            assert(resolved_views(map@) =~= resolved_views(before).insert(
                key,
                (entries@[i as int].1@, source),
            ));
        }
        i = i + 1;
    }
    assert(s.take(s.len() as int) =~= s);
}

/// The configured parameters: the pool's win over the general ones, the user's
/// over both.
pub open spec fn configured(
    general: Map<Seq<char>, Seq<char>>,
    pool: Map<Seq<char>, Seq<char>>,
    user: Option<Map<Seq<char>, Seq<char>>>,
) -> Map<Seq<char>, (Seq<char>, ParameterSource)> {
    let base = sourced(
        sourced(Map::empty(), string_map::in_order(general), ParameterSource::General),
        string_map::in_order(pool),
        ParameterSource::Pool,
    );
    match user {
        Some(m) => sourced(base, string_map::in_order(m), ParameterSource::AuthQuery),
        None => base,
    }
}

/// The texts of an optional map.
pub open spec fn opt_texts(m: Option<&StringMap<String>>) -> Option<Map<Seq<char>, Seq<char>>> {
    match m {
        Some(m) => Some(string_map::texts(m@)),
        None => None,
    }
}

/// The configured parameters, each with its source.
pub fn resolve_with_sources(
    general: &StringMap<String>,
    pool: &StringMap<String>,
    auth_query: Option<&StringMap<String>>,
) -> (r: StringMap<ResolvedParameter>)
    ensures
        resolved_views(r@) == configured(
            string_map::texts(general@),
            string_map::texts(pool@),
            opt_texts(auth_query),
        ),
{
    let mut map: StringMap<ResolvedParameter> = StringMap::new();
    assert(resolved_views(map@) =~= Map::empty());
    put_sourced(&mut map, general, ParameterSource::General);
    put_sourced(&mut map, pool, ParameterSource::Pool);
    match auth_query {
        Some(layer) => put_sourced(&mut map, layer, ParameterSource::AuthQuery),
        None => {},
    }
    map
}

/// What becomes of a configured parameter, given what is sent.
pub open spec fn state_of(
    key: Seq<char>,
    value: Seq<char>,
    wire: Map<Seq<char>, Seq<char>>,
    rejected: bool,
) -> ApplicationState {
    if rejected || !wire.contains_key(key) {
        ApplicationState::DroppedDueToBudget
    } else if wire[key] == value {
        ApplicationState::Applied
    } else {
        ApplicationState::Stale
    }
}

/// The configured parameters with what becomes of them.
pub open spec fn labelled(
    m: Map<Seq<char>, (Seq<char>, ParameterSource)>,
    wire: Map<Seq<char>, Seq<char>>,
    rejected: bool,
) -> Map<Seq<char>, (Seq<char>, ParameterSource, ApplicationState)> {
    Map::new(
        |k: Seq<char>| m.contains_key(k),
        |k: Seq<char>| (m[k].0, m[k].1, state_of(k, m[k].0, wire, rejected)),
    )
}

/// All the parameters that an operator should see: the configured ones, and
/// those that are sent but no longer configured.
pub open spec fn effective(
    m: Map<Seq<char>, (Seq<char>, ParameterSource)>,
    wire: Map<Seq<char>, Seq<char>>,
    overlay: Map<Seq<char>, Seq<char>>,
    rejected: bool,
) -> Map<Seq<char>, (Seq<char>, ParameterSource, ApplicationState)> {
    Map::new(
        |k: Seq<char>| m.contains_key(k) || wire.contains_key(k),
        |k: Seq<char>|
            if m.contains_key(k) {
                (m[k].0, m[k].1, state_of(k, m[k].0, wire, rejected))
            } else {
                (
                    wire[k],
                    if overlay.contains_key(k) {
                        ParameterSource::AuthQuery
                    } else {
                        ParameterSource::Pool
                    },
                    if rejected {
                        ApplicationState::DroppedDueToBudget
                    } else {
                        ApplicationState::Stale
                    },
                )
            },
    )
}

/// Says of each configured parameter what becomes of it.
fn label(configured: &StringMap<ResolvedParameter>, wire: &StringMap<String>, rejected: bool) -> (r:
    StringMap<EffectiveParameter>)
    ensures
        effective_views(r@) == labelled(
            resolved_views(configured@),
            string_map::texts(wire@),
            rejected,
        ),
{
    let mut out: StringMap<EffectiveParameter> = StringMap::new();
    let n: usize = configured.len();
    let ghost s = configured.listing();
    let ghost sent = string_map::texts(wire@);
    let mut i: usize = 0;
    proof {
        assert(s.take(0) =~= Seq::<(Seq<char>, ResolvedParameter)>::empty());
        string_map::listed_empty::<Seq<char>, ResolvedParameter>();
        assert(effective_views(out@) =~= labelled(
            resolved_views(string_map::listed(s.take(0))),
            sent,
            rejected,
        ));
    }
    while i < n
        invariant
            i <= n == s.len(),
            s == configured.listing(),
            string_map::unique_keys(s),
            sent == string_map::texts(wire@),
            effective_views(out@) == labelled(
                resolved_views(string_map::listed(s.take(i as int))),
                sent,
                rejected,
            ),
        decreases n - i,
    {
        let key = configured.key(i);
        let parameter = configured.value(i);
        let state = if rejected {
            ApplicationState::DroppedDueToBudget
        } else {
            match wire.get(key.as_str()) {
                Some(value) => {
                    if same_text(value.as_str(), parameter.value.as_str()) {
                        ApplicationState::Applied
                    } else {
                        ApplicationState::Stale
                    }
                },
                None => ApplicationState::DroppedDueToBudget,
            }
        };
        let ghost before = out@;
        let _ = out.insert(
            key.clone(),
            EffectiveParameter { value: parameter.value.clone(), source: parameter.source, state },
        );
        proof {
            string_map::listed_step(s, i as int);
            let part = string_map::listed(s.take(i as int));
            let k = s[i as int].0;
            let p = s[i as int].1;
            assert(resolved_views(part.insert(k, p)) =~= resolved_views(part).insert(
                k,
                (p.value@, p.source),
            ));
            assert(effective_views(out@) =~= effective_views(before).insert(
                k,
                (p.value@, p.source, state),
            ));
            assert(state == state_of(k, p.value@, sent, rejected));
            assert(effective_views(out@) =~= labelled(
                resolved_views(string_map::listed(s.take(i + 1))),
                sent,
                rejected,
            ));
        }
        i = i + 1;
    }
    assert(s.take(n as int) =~= s);
    out
}

/// The parameters of a listing that no map has yet, as the operator sees them.
pub open spec fn leftover(
    out: Map<Seq<char>, (Seq<char>, ParameterSource, ApplicationState)>,
    wire: Map<Seq<char>, Seq<char>>,
    overlay: Map<Seq<char>, Seq<char>>,
    rejected: bool,
) -> Map<Seq<char>, (Seq<char>, ParameterSource, ApplicationState)> {
    Map::new(
        |k: Seq<char>| out.contains_key(k) || wire.contains_key(k),
        |k: Seq<char>|
            if out.contains_key(k) {
                out[k]
            } else {
                (
                    wire[k],
                    if overlay.contains_key(k) {
                        ParameterSource::AuthQuery
                    } else {
                        ParameterSource::Pool
                    },
                    if rejected {
                        ApplicationState::DroppedDueToBudget
                    } else {
                        ApplicationState::Stale
                    },
                )
            },
    )
}

/// Adds what is sent but no longer configured.
fn add_leftover(
    out: &mut StringMap<EffectiveParameter>,
    wire: &StringMap<String>,
    overlay: &StringMap<String>,
    rejected: bool,
)
    ensures
        effective_views(final(out)@) == leftover(
            effective_views(old(out)@),
            string_map::texts(wire@),
            string_map::texts(overlay@),
            rejected,
        ),
{
    let n: usize = wire.len();
    let ghost s = wire.listing();
    let ghost start = effective_views(out@);
    let ghost own = string_map::texts(overlay@);
    let mut i: usize = 0;
    proof {
        assert(s.take(0) =~= Seq::<(Seq<char>, String)>::empty());
        string_map::listed_empty::<Seq<char>, String>();
        assert(start =~= leftover(
            start,
            string_map::texts(string_map::listed(s.take(0))),
            own,
            rejected,
        ));
    }
    while i < n
        invariant
            i <= n == s.len(),
            s == wire.listing(),
            string_map::unique_keys(s),
            own == string_map::texts(overlay@),
            effective_views(out@) == leftover(
                start,
                string_map::texts(string_map::listed(s.take(i as int))),
                own,
                rejected,
            ),
        decreases n - i,
    {
        let key = wire.key(i);
        let ghost before = out@;
        let ghost part = string_map::listed(s.take(i as int));
        proof {
            string_map::listed_step(s, i as int);
            assert(string_map::texts(part.insert(s[i as int].0, s[i as int].1))
                =~= string_map::texts(part).insert(s[i as int].0, s[i as int].1@));
            assert(effective_views(before).contains_key(key@) == before.contains_key(key@));
        }
        if !out.contains_key(key.as_str()) {
            let source = if overlay.contains_key(key.as_str()) {
                ParameterSource::AuthQuery
            } else {
                ParameterSource::Pool
            };
            let state = if rejected {
                ApplicationState::DroppedDueToBudget
            } else {
                ApplicationState::Stale
            };
            let _ = out.insert(
                key.clone(),
                EffectiveParameter { value: wire.value(i).clone(), source, state },
            );
            proof {
                assert(effective_views(out@) =~= effective_views(before).insert(
                    key@,
                    (s[i as int].1@, source, state),
                ));
            }
        }
        assert(effective_views(out@) =~= leftover(
            start,
            string_map::texts(string_map::listed(s.take(i + 1))),
            own,
            rejected,
        ));
        i = i + 1;
    }
    assert(s.take(n as int) =~= s);
}

/// All the parameters that an operator should see.
pub fn effective_parameters(
    configured: &StringMap<ResolvedParameter>,
    wire: &StringMap<String>,
    overlay: &StringMap<String>,
    rejected: bool,
) -> (r: StringMap<EffectiveParameter>)
    ensures
        effective_views(r@) == effective(
            resolved_views(configured@),
            string_map::texts(wire@),
            string_map::texts(overlay@),
            rejected,
        ),
{
    let mut out = label(configured, wire, rejected);
    add_leftover(&mut out, wire, overlay, rejected);
    assert(effective_views(out@) =~= effective(
        resolved_views(configured@),
        string_map::texts(wire@),
        string_map::texts(overlay@),
        rejected,
    ));
    out
}

/// Putting a layer over parameters with and without their sources gives the same
/// values.
proof fn sources_agree(
    m: Map<Seq<char>, (Seq<char>, ParameterSource)>,
    v: Map<Seq<char>, Seq<char>>,
    s: Seq<(Seq<char>, Seq<char>)>,
    source: ParameterSource,
    k: Seq<char>,
)
    requires
        m.contains_key(k) == v.contains_key(k),
        m.contains_key(k) ==> m[k].0 == v[k],
    ensures
        sourced(m, s, source).contains_key(k) == startup_parameters::overlaid(v, s).contains_key(k),
        sourced(m, s, source).contains_key(k) ==> sourced(m, s, source)[k].0
            == startup_parameters::overlaid(v, s)[k],
        sourced(m, s, source).contains_key(k) ==> sourced(m, s, source)[k].1
            == if startup_parameters::spelled_in(s, k) {
            source
        } else {
            m[k].1
        },
        !startup_parameters::spelled_in(s, k) ==> sourced(m, s, source).contains_key(k)
            == m.contains_key(k),
    decreases s.len(),
{
    if s.len() > 0 {
        let front = s.drop_last();
        let n = s.len() - 1;
        sources_agree(m, v, front, source, k);
        assert(s[n] == s.last());
        if startup_parameters::spelled_in(front, k) {
            let i = choose|i: int|
                0 <= i < front.len() && parameters::canonical_name((#[trigger] front[i]).0) == k;
            assert(s[i] == front[i]);
        }
        if parameters::canonical_name(s[n].0) != k && startup_parameters::spelled_in(s, k) {
            let i = choose|i: int|
                0 <= i < s.len() && parameters::canonical_name((#[trigger] s[i]).0) == k;
            assert(front[i] == s[i]);
        }
    }
}

/// What an operator sees as configured is what a session is sent: the user's parameters
/// over the pool's over the general ones, each with the layer that set it.
pub proof fn operators_see_what_is_sent(
    general: Map<Seq<char>, Seq<char>>,
    pool: Map<Seq<char>, Seq<char>>,
    user: Map<Seq<char>, Seq<char>>,
    k: Seq<char>,
)
    ensures
        ({
            let seen = configured(general, pool, Some(user));
            let sent = startup_parameters::layered(
                startup_parameters::cascade(general, pool),
                user,
            );
            &&& seen.contains_key(k) == sent.contains_key(k)
            &&& seen.contains_key(k) ==> seen[k].0 == sent[k]
            &&& seen.contains_key(k) ==> (seen[k].1 == ParameterSource::AuthQuery
                <==> startup_parameters::spelled_in(string_map::in_order(user), k))
            &&& seen.contains_key(k) && seen[k].1 == ParameterSource::General
                ==> !startup_parameters::spelled_in(string_map::in_order(pool), k)
        }),
        ({
            let seen = configured(general, pool, None);
            let sent = startup_parameters::cascade(general, pool);
            &&& seen.contains_key(k) == sent.contains_key(k)
            &&& seen.contains_key(k) ==> seen[k].0 == sent[k]
            &&& seen.contains_key(k) ==> (seen[k].1 == ParameterSource::Pool
                <==> startup_parameters::spelled_in(string_map::in_order(pool), k))
            &&& seen.contains_key(k) ==> seen[k].1 != ParameterSource::AuthQuery
        }),
{
    let g = sourced(Map::empty(), string_map::in_order(general), ParameterSource::General);
    let gp = sourced(g, string_map::in_order(pool), ParameterSource::Pool);
    sources_agree(
        Map::empty(),
        Map::empty(),
        string_map::in_order(general),
        ParameterSource::General,
        k,
    );
    sources_agree(
        g,
        startup_parameters::canonical_layer(general),
        string_map::in_order(pool),
        ParameterSource::Pool,
        k,
    );
    sources_agree(
        gp,
        startup_parameters::cascade(general, pool),
        string_map::in_order(user),
        ParameterSource::AuthQuery,
        k,
    );
}

/// A parameter is shown as applied exactly if the next session gets this value; nothing
/// that is sent or configured is kept from the operator.
pub proof fn states_are_true(
    m: Map<Seq<char>, (Seq<char>, ParameterSource)>,
    wire: Map<Seq<char>, Seq<char>>,
    overlay: Map<Seq<char>, Seq<char>>,
    rejected: bool,
    k: Seq<char>,
)
    ensures
        ({
            let e = effective(m, wire, overlay, rejected);
            &&& e.contains_key(k) <==> m.contains_key(k) || wire.contains_key(k)
            &&& e.contains_key(k) ==> {
                &&& e[k].2 == ApplicationState::Applied <==> m.contains_key(k) && !rejected
                    && wire.contains_key(k) && wire[k] == m[k].0
                &&& rejected ==> e[k].2 == ApplicationState::DroppedDueToBudget
                &&& e[k].2 == ApplicationState::Stale ==> wire.contains_key(k) && (m.contains_key(k)
                    ==> m[k].0 != wire[k])
                &&& m.contains_key(k) ==> e[k].0 == m[k].0 && e[k].1 == m[k].1
                &&& !m.contains_key(k) ==> e[k].0 == wire[k]
            }
        }),
{
}

} // verus!

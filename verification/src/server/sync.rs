//! Bringing a session to the parameters that its next client expects.
use vstd::prelude::*;
use vstd::string::*;
use crate::server::parameters::{ParamAction, ServerParameters};
#[allow(unused_imports)]
use crate::server::parameters::Action;
use crate::server::server_backend::{list_has, Server};
#[allow(unused_imports)]
use crate::server::server_backend::{Session, SessionState};
use crate::string_map::StringMap;
use crate::text::chars_of;
#[allow(unused_imports)]
use crate::server::parameters;
#[allow(unused_imports)]
use crate::server::cleanup;
#[allow(unused_imports)]
use crate::string_map;
#[allow(unused_imports)]
use crate::text;

verus! {

/// A value as it stands between the quotes of a literal: quotes are doubled.
pub open spec fn quoted(s: Seq<char>) -> Seq<char>
    decreases s.len(),
{
    if s.len() == 0 {
        Seq::empty()
    } else if s.last() == '\'' {
        quoted(s.drop_last()).push('\'').push('\'')
    } else {
        quoted(s.drop_last()).push(s.last())
    }
}

/// Every quote in `t` is doubled, so that none of them ends the literal.
pub open spec fn stays_inside(t: Seq<char>) -> bool
    decreases t.len(),
{
    if t.len() == 0 {
        true
    } else if t.last() != '\'' {
        stays_inside(t.drop_last())
    } else {
        t.len() >= 2 && t[t.len() - 2] == '\'' && stays_inside(t.take(t.len() - 2))
    }
}

/// What a literal with this inside means.
pub open spec fn unquoted(t: Seq<char>) -> Seq<char>
    decreases t.len(),
{
    if t.len() == 0 {
        Seq::empty()
    } else if t.last() == '\'' && t.len() >= 2 {
        unquoted(t.take(t.len() - 2)).push('\'')
    } else {
        unquoted(t.drop_last()).push(t.last())
    }
}

/// A quoted value does not end its literal early, and the literal means the
/// value.
pub proof fn quoting_is_safe(s: Seq<char>)
    ensures
        stays_inside(quoted(s)),
        unquoted(quoted(s)) == s,
    decreases s.len(),
{
    if s.len() > 0 {
        quoting_is_safe(s.drop_last());
        let t = quoted(s);
        let inner = quoted(s.drop_last());
        if s.last() == '\'' {
            assert(t.take(t.len() - 2) =~= inner);
        } else {
            assert(t.drop_last() =~= inner);
        }
        assert(unquoted(t) =~= s.drop_last().push(s.last()));
        assert(s =~= s.drop_last().push(s.last()));
    } else {
        assert(unquoted(quoted(s)) =~= s);
    }
}

/// A value as it stands between the quotes of a literal.
fn quote(s: &str) -> (r: String)
    ensures
        r@ == quoted(s@),
{
    let v = chars_of(s);
    let mut r: String = String::new();
    let mut i: usize = 0;
    assert(s@.take(0) =~= Seq::<char>::empty());
    while i < v.len()
        invariant
            i <= v.len(),
            v@ == s@,
            r@ == quoted(s@.take(i as int)),
        decreases v.len() - i,
    {
        assert(s@.take(i + 1).drop_last() =~= s@.take(i as int));
        if v[i] == '\'' {
            r.push('\'');
            r.push('\'');
        } else {
            r.push(v[i]);
        }
        i = i + 1;
    }
    assert(s@.take(s@.len() as int) =~= s@);
    r
}

/// The statement of one action.
pub open spec fn action_statement(key: Seq<char>, action: Action) -> Seq<char> {
    match action {
        Action::SetTo(value) => "SET "@ + key + " TO '"@ + quoted(value) + "';"@,
        Action::Reset => "RESET "@ + key + ";"@,
    }
}

/// The statements of all actions, in the order given.
pub open spec fn sync_query(s: Seq<(Seq<char>, ParamAction)>) -> Seq<char>
    decreases s.len(),
{
    if s.len() == 0 {
        Seq::empty()
    } else {
        sync_query(s.drop_last()) + action_statement(s.last().0, s.last().1@)
    }
}

/// The actions on names that the operator has not set.
pub open spec fn client_actions(
    acts: Map<Seq<char>, Action>,
    operator_keys: Seq<Seq<char>>,
) -> Map<Seq<char>, Action> {
    Map::new(
        |k: Seq<char>| acts.contains_key(k) && !operator_keys.contains(k),
        |k: Seq<char>| acts[k],
    )
}

/// The actions that a checkout has to carry out.
pub open spec fn checkout_actions(
    s: Session,
    client: Map<Seq<char>, Seq<char>>,
) -> Map<Seq<char>, Action> {
    client_actions(parameters::sync_actions(s.parameters, client), s.settings.operator_keys)
}

/// A checkout leaves the session with the client's value for every name that a
/// session may change and the operator has not set, and touches no other name.
pub proof fn checkout_reaches_the_client_state(
    s: Session,
    client: Map<Seq<char>, Seq<char>>,
    k: Seq<char>,
)
    ensures
        ({
            let after = parameters::after_actions(s.parameters, checkout_actions(s, client));
            if parameters::is_forbidden_name(k) || s.settings.operator_keys.contains(k) {
                &&& after.contains_key(k) == s.parameters.contains_key(k)
                &&& after.contains_key(k) ==> after[k] == s.parameters[k]
            } else {
                &&& after.contains_key(k) == client.contains_key(k)
                &&& after.contains_key(k) ==> after[k] == client[k]
            }
        }),
{
}

/// One action mirrored in the snapshot.
pub open spec fn mirror_one(
    m: Map<Seq<char>, Seq<char>>,
    key: Seq<char>,
    action: Action,
) -> Map<Seq<char>, Seq<char>> {
    match action {
        Action::SetTo(value) => parameters::with_param(m, key, value, true),
        Action::Reset => m.remove(parameters::canonical_name(key)),
    }
}

/// All actions mirrored in the snapshot.
pub open spec fn mirrored(
    m: Map<Seq<char>, Seq<char>>,
    s: Seq<(Seq<char>, ParamAction)>,
) -> Map<Seq<char>, Seq<char>>
    decreases s.len(),
{
    if s.len() == 0 {
        m
    } else {
        mirror_one(mirrored(m, s.drop_last()), s.last().0, s.last().1@)
    }
}

/// Mirroring actions on canonical names gives what the actions give.
pub proof fn mirrored_is_after_actions(
    m: Map<Seq<char>, Seq<char>>,
    s: Seq<(Seq<char>, ParamAction)>,
)
    requires
        string_map::unique_keys(s),
        forall|i: int| 0 <= i < s.len() ==> parameters::canonical_name((#[trigger] s[i]).0) == s[i].0,
    ensures
        mirrored(m, s) == parameters::after_actions(m, parameters::actions(string_map::listed(s))),
    decreases s.len(),
{
    if s.len() == 0 {
        assert(parameters::actions(string_map::listed(s)) =~= Map::<Seq<char>, Action>::empty()) by {
            assert forall|k: Seq<char>| !#[trigger] string_map::listed(s).contains_key(k) by {
                assert(!string_map::has_key(s, k));
            }
        }
        assert(mirrored(m, s) =~= parameters::after_actions(m, parameters::actions(string_map::listed(s))));
    } else {
        let p = s.drop_last();
        let n = s.len() - 1;
        let e = s.last();
        assert(string_map::unique_keys(p)) by {
            assert forall|i: int, j: int| 0 <= i < j < p.len() implies (#[trigger] p[i]).0 != (
            #[trigger] p[j]).0 by {
                assert(s[i].0 != s[j].0);
            }
        }
        assert forall|i: int| 0 <= i < p.len() implies parameters::canonical_name((#[trigger] p[i]).0)
            == p[i].0 by {
            assert(p[i] == s[i]);
        }
        mirrored_is_after_actions(m, p);
        assert forall|i: int| !#[trigger] string_map::key_at(p, e.0, i) by {
            if string_map::key_at(p, e.0, i) {
                assert(s[i].0 != s[n].0);
            }
        }
        crate::string_map::listed_push(p, e.0, e.1);
        assert(s =~= p.push(e));
        assert(parameters::canonical_name(s[n].0) == s[n].0);
        let acts = parameters::actions(string_map::listed(p));
        let all = parameters::actions(string_map::listed(s));
        assert(all =~= acts.insert(e.0, e.1@));
        assert(mirrored(m, s) =~= parameters::after_actions(m, all));
    }
}

/// What a checkout has to do before the client gets the session.
pub struct SyncPlan {
    /// The actions.
    pub diff: StringMap<ParamAction>,
    /// The query that carries them out.
    pub query: String,
}

impl Server {
    /// Finds out what has to change in the session for a client with these
    /// parameters; `None` if nothing has.
    pub fn sync_parameters(&self, parameters: &ServerParameters) -> (r: Option<SyncPlan>)
        ensures
            match r {
                Some(plan) => {
                    &&& parameters::actions(plan.diff@) == checkout_actions(self@, parameters@)
                    &&& plan.diff.listing().len() > 0
                    &&& string_map::unique_keys(plan.diff.listing())
                    &&& plan.query@ == sync_query(plan.diff.listing())
                    &&& forall|i: int|
                        0 <= i < plan.diff.listing().len() ==> parameters::canonical_name(
                            (#[trigger] plan.diff.listing()[i]).0,
                        ) == plan.diff.listing()[i].0
                },
                None => checkout_actions(self@, parameters@) == Map::<Seq<char>, Action>::empty(),
            },
    {
        let all = self.server_parameters.compare_params(parameters);
        let keys = &self.settings.operator_managed_startup_keys;
        let ghost whole = all.listing();
        let ghost want = checkout_actions(self@, parameters@);
        let n: usize = all.len();
        let mut diff: StringMap<ParamAction> = StringMap::new();
        let mut query: String = String::new();
        let mut i: usize = 0;
        while i < n
            invariant
                i <= n == whole.len(),
                whole == all.listing(),
                string_map::unique_keys(whole),
                keys@ == self.settings.operator_managed_startup_keys@,
                parameters::actions(string_map::listed(whole)) == parameters::sync_actions(self@.parameters, parameters@),
                want == checkout_actions(self@, parameters@),
                query@ == sync_query(diff.listing()),
                forall|k: Seq<char>| #[trigger]
                    diff@.contains_key(k) <==> want.contains_key(k) && exists|j: int|
                        0 <= j < i && string_map::key_at(whole, k, j),
                forall|k: Seq<char>| #[trigger]
                    diff@.contains_key(k) ==> diff@[k]@ == want[k],
            decreases n - i,
        {
            let key = all.key(i);
            let action = all.value(i);
            let ghost k0 = whole[i as int].0;
            let ghost before = diff@;
            proof {
                string_map::listed_entry(whole, i as int);
                assert(parameters::actions(string_map::listed(whole)).contains_key(k0));
            }
            if !list_has(keys, key.as_str()) {
                proof {
                    assert(!before.contains_key(k0)) by {
                        if before.contains_key(k0) {
                            let j = choose|j: int| 0 <= j < i && string_map::key_at(whole, k0, j);
                            assert(whole[j].0 == whole[i as int].0);
                        }
                    }
                    assert(!string_map::has_key(diff.listing(), k0));
                }
                let ghost list = diff.listing();
                let ghost text = query@;
                match action {
                    ParamAction::SetTo(value) => {
                        query.append("SET ");
                        query.append(key.as_str());
                        query.append(" TO '");
                        query.append(quote(value.as_str()).as_str());
                        query.append("';");
                        assert(query@ =~= text + action_statement(k0, whole[i as int].1@));
                        diff.insert(key.clone(), ParamAction::SetTo(value.clone()));
                    },
                    ParamAction::Reset => {
                        query.append("RESET ");
                        query.append(key.as_str());
                        query.append(";");
                        assert(query@ =~= text + action_statement(k0, whole[i as int].1@));
                        diff.insert(key.clone(), ParamAction::Reset);
                    },
                }
                proof {
                    assert(diff.listing().drop_last() =~= list);
                    assert(diff.listing().last().0 == k0);
                }
            }
            i = i + 1;
            assert forall|k: Seq<char>| #[trigger]
                diff@.contains_key(k) <==> want.contains_key(k) && exists|j: int|
                    0 <= j < i && string_map::key_at(whole, k, j) by {
                let was = exists|j: int| 0 <= j < i - 1 && string_map::key_at(whole, k, j);
                assert(before.contains_key(k) <==> want.contains_key(k) && was);
                if k == k0 {
                    assert(string_map::key_at(whole, k, i - 1));
                    if was {
                        let j = choose|j: int| 0 <= j < i - 1 && string_map::key_at(whole, k, j);
                        assert(whole[j].0 == whole[i - 1].0);
                    }
                } else if exists|j: int| 0 <= j < i && string_map::key_at(whole, k, j) {
                    let j = choose|j: int| 0 <= j < i && string_map::key_at(whole, k, j);
                    assert(0 <= j < i - 1 && string_map::key_at(whole, k, j));
                }
            }
        }
        proof {
            assert forall|k: Seq<char>| #[trigger]
                parameters::actions(diff@).contains_key(k) == want.contains_key(k) by {
                if want.contains_key(k) {
                    assert(parameters::actions(string_map::listed(whole)).contains_key(k));
                    let j = string_map::listed_key(whole, k);
                    assert(0 <= j < n && string_map::key_at(whole, k, j));
                }
                assert(diff@.contains_key(k) == parameters::actions(diff@).contains_key(k));
            }
            assert(parameters::actions(diff@) =~= want);
        }
        let count: usize = diff.len();
        if diff.is_empty() {
            assert(want =~= Map::<Seq<char>, Action>::empty()) by {
                assert forall|k: Seq<char>| !#[trigger] want.contains_key(k) by {
                    assert(!parameters::actions(diff@).contains_key(k));
                }
            }
            return None;
        }
        proof {
            assert forall|i: int| 0 <= i < diff.listing().len() implies parameters::canonical_name(
                (#[trigger] diff.listing()[i]).0,
            ) == diff.listing()[i].0 by {
                let k = diff.listing()[i].0;
                string_map::listed_entry(diff.listing(), i);
                assert(want.contains_key(k));
                assert(self@.parameters.contains_key(k) || parameters@.contains_key(k));
            }
        }
        Some(SyncPlan { diff, query })
    }
}

/// The session after a checkout carried out its actions, or failed to.
pub open spec fn sync_ended(s: Session, diff: Seq<(Seq<char>, ParamAction)>, ok: bool) -> Session {
    if ok {
        Session {
            parameters: mirrored(s.parameters, diff),
            state: SessionState { cleanup: cleanup::clean(), ..s.state },
            ..s
        }
    } else {
        Session { state: SessionState { bad: true, ..s.state }, ..s }
    }
}

impl Server {
    /// Mirrors the actions of a checkout in the snapshot, because the backend
    /// does not report most of them.
    fn mirror(&mut self, diff: &StringMap<ParamAction>)
        ensures
            final(self)@ == (Session {
                parameters: mirrored(old(self)@.parameters, diff.listing()),
                ..old(self)@
            }),
    {
        let ghost start = self@;
        let ghost s = diff.listing();
        let n: usize = diff.len();
        let mut i: usize = 0;
        assert(s.take(0) =~= Seq::<(Seq<char>, ParamAction)>::empty());
        while i < n
            invariant
                i <= n == s.len(),
                s == diff.listing(),
                self@ == (Session {
                    parameters: mirrored(start.parameters, s.take(i as int)),
                    ..start
                }),
            decreases n - i,
        {
            proof {
                assert(s.take(i + 1).drop_last() =~= s.take(i as int));
                assert(s.take(i + 1).last() == s[i as int]);
            }
            let key = diff.key(i);
            match diff.value(i) {
                ParamAction::SetTo(value) => {
                    self.server_parameters.set_param(key.as_str(), value.as_str(), true);
                },
                ParamAction::Reset => {
                    self.server_parameters.remove_param(key.as_str());
                },
            }
            i = i + 1;
        }
        assert(s.take(n as int) =~= s);
    }

    /// Ends a checkout's exchange. If the query failed, what the backend holds
    /// is not known and the connection is given up.
    pub fn finish_sync(&mut self, diff: &StringMap<ParamAction>, ok: bool)
        ensures
            final(self)@ == sync_ended(old(self)@, diff.listing(), ok),
    {
        if ok {
            self.mirror(diff);
            self.state.cleanup.reset();
        } else {
            self.state.bad = true;
        }
    }
}

/// The first place from `from` on where `c` stands; the end if there is none.
pub open spec fn next_of(s: Seq<char>, c: char, from: int) -> int
    decreases s.len() - from,
{
    if from < 0 || from >= s.len() || s[from] == c {
        from
    } else {
        next_of(s, c, from + 1)
    }
}

/// Where a literal ends whose inside begins at `from`: at the first quote that is not
/// doubled.
pub open spec fn literal_end(s: Seq<char>, from: int) -> int
    decreases s.len() - from,
{
    if from < 0 || from >= s.len() {
        from
    } else if s[from] != '\'' {
        literal_end(s, from + 1)
    } else if from + 1 < s.len() && s[from + 1] == '\'' {
        literal_end(s, from + 2)
    } else {
        from
    }
}

/// The parameters of a session after it has run the statements of a query, one after
/// the other, as PostgreSQL understands them: `SET k TO 'v';` gives `k` the value of
/// the literal, `RESET k;` takes its value away. `None` if the query holds anything
/// else.
pub open spec fn carried_out(query: Seq<char>, m: Map<Seq<char>, Seq<char>>) -> Option<
    Map<Seq<char>, Seq<char>>,
>
    decreases query.len(),
{
    if query.len() == 0 {
        Some(m)
    } else if text::starts_with(query, "RESET "@) {
        let end = next_of(query, ';', "RESET "@.len() as int);
        if 0 < end < query.len() {
            carried_out(
                query.skip(end + 1),
                m.remove(query.subrange("RESET "@.len() as int, end)),
            )
        } else {
            None
        }
    } else if text::starts_with(query, "SET "@) {
        let end = next_of(query, ' ', "SET "@.len() as int);
        let inside = end + " TO '"@.len();
        let close = literal_end(query, inside);
        if text::occurs_at(query, " TO '"@, end) && inside <= close && text::occurs_at(
            query,
            "';"@,
            close,
        ) && 0 < close + 2 <= query.len() {
            carried_out(
                query.skip(close + 2),
                m.insert(
                    query.subrange("SET "@.len() as int, end),
                    unquoted(query.subrange(inside, close)),
                ),
            )
        } else {
            None
        }
    } else {
        None
    }
}

/// Where a character first stands.
proof fn next_is(s: Seq<char>, c: char, from: int, end: int)
    requires
        0 <= from <= end < s.len(),
        s[end] == c,
        forall|i: int| from <= i < end ==> s[i] != c,
    ensures
        next_of(s, c, from) == end,
    decreases end - from,
{
    if from < end {
        next_is(s, c, from + 1, end);
    }
}

/// A quoted value from its front.
proof fn quoted_front(v: Seq<char>)
    requires
        v.len() > 0,
    ensures
        quoted(v) == (if v[0] == '\'' {
            seq!['\'', '\'']
        } else {
            seq![v[0]]
        }) + quoted(v.skip(1)),
    decreases v.len(),
{
    let head = if v[0] == '\'' {
        seq!['\'', '\'']
    } else {
        seq![v[0]]
    };
    if v.len() == 1 {
        assert(v.drop_last() =~= Seq::<char>::empty());
        assert(v.skip(1) =~= Seq::<char>::empty());
        assert(quoted(v) =~= head + quoted(v.skip(1)));
    } else {
        quoted_front(v.drop_last());
        assert(v.drop_last().skip(1) =~= v.skip(1).drop_last());
        assert(quoted(v) =~= head + quoted(v.skip(1)));
    }
}

/// A literal ends behind its quoted value.
proof fn literal_ends(s: Seq<char>, from: int, v: Seq<char>)
    requires
        0 <= from,
        from + quoted(v).len() + 1 < s.len(),
        s.subrange(from, from + quoted(v).len()) == quoted(v),
        s[from + quoted(v).len()] == '\'',
        s[from + quoted(v).len() + 1] != '\'',
    ensures
        literal_end(s, from) == from + quoted(v).len(),
    decreases v.len(),
{
    if v.len() > 0 {
        quoted_front(v);
        let q = quoted(v);
        let rest = quoted(v.skip(1));
        let n: int = if v[0] == '\'' {
            2
        } else {
            1
        };
        assert(q.len() == n + rest.len());
        assert(s[from] == q[0]) by {
            assert(s.subrange(from, from + q.len())[0] == q[0]);
        }
        if v[0] == '\'' {
            assert(s[from + 1] == q[1]) by {
                assert(s.subrange(from, from + q.len())[1] == q[1]);
            }
        }
        assert(s.subrange(from + n, from + n + rest.len()) =~= rest) by {
            assert forall|i: int| 0 <= i < rest.len() implies s[from + n + i] == rest[i] by {
                assert(s.subrange(from, from + q.len())[n + i] == q[n + i]);
            }
        }
        literal_ends(s, from + n, v.skip(1));
    }
}

/// Running a query that begins with the statement of an action carries the action out.
proof fn statement_runs(
    key: Seq<char>,
    action: Action,
    rest: Seq<char>,
    m: Map<Seq<char>, Seq<char>>,
)
    requires
        parameters::is_guc_name(key),
    ensures
        carried_out(action_statement(key, action) + rest, m) == carried_out(
            rest,
            match action {
                Action::SetTo(value) => m.insert(key, value),
                Action::Reset => m.remove(key),
            },
        ),
{
    reveal_strlit("RESET ");
    reveal_strlit("SET ");
    reveal_strlit(" TO '");
    reveal_strlit("';");
    reveal_strlit(";");
    let s = action_statement(key, action) + rest;
    let n = key.len() as int;
    assert forall|i: int| 0 <= i < n implies key[i] != ' ' && key[i] != ';' by {
        assert(parameters::is_name_char(key[i]));
    }
    match action {
        Action::Reset => {
            assert(s =~= "RESET "@ + key + ";"@ + rest);
            assert(s.subrange(0, 6) =~= "RESET "@);
            assert(s[6 + n] == ';');
            assert forall|i: int| 6 <= i < 6 + n implies s[i] != ';' by {
                assert(s[i] == key[i - 6]);
            }
            next_is(s, ';', 6, 6 + n);
            assert(s.subrange(6, 6 + n) =~= key);
            assert(s.skip(7 + n) =~= rest);
        },
        Action::SetTo(value) => {
            let q = quoted(value);
            assert(s =~= "SET "@ + key + " TO '"@ + q + "';"@ + rest);
            assert(s[0] == 'S');
            if s.len() >= 6 {
                assert(s.subrange(0, 6)[0] == 'S');
            }
            assert("RESET "@[0] == 'R');
            assert(s.subrange(0, 4) =~= "SET "@);
            assert(s[4 + n] == ' ');
            assert forall|i: int| 4 <= i < 4 + n implies s[i] != ' ' by {
                assert(s[i] == key[i - 4]);
            }
            next_is(s, ' ', 4, 4 + n);
            let inside = 9 + n;
            assert(s.subrange(4 + n, inside) =~= " TO '"@);
            assert(s.subrange(inside, inside + q.len()) =~= q);
            assert(s[inside + q.len()] == '\'');
            assert(s[inside + q.len() + 1] == ';');
            literal_ends(s, inside, value);
            quoting_is_safe(value);
            let close = inside + q.len();
            assert(s.subrange(close, close + 2) =~= "';"@);
            assert(s.subrange(4, 4 + n) =~= key);
            assert(s.skip(close + 2) =~= rest);
        },
    }
}

/// Running the query of a checkout does to the parameters what its actions say.
proof fn query_mirrors(
    m: Map<Seq<char>, Seq<char>>,
    s: Seq<(Seq<char>, ParamAction)>,
    rest: Seq<char>,
)
    requires
        forall|i: int|
            0 <= i < s.len() ==> parameters::canonical_name((#[trigger] s[i]).0) == s[i].0
                && parameters::is_guc_name(s[i].0),
    ensures
        carried_out(sync_query(s) + rest, m) == carried_out(rest, mirrored(m, s)),
    decreases s.len(),
{
    if s.len() == 0 {
        assert(sync_query(s) + rest =~= rest);
    } else {
        let p = s.drop_last();
        let e = s.last();
        assert(s[s.len() - 1] == e);
        assert forall|i: int| 0 <= i < p.len() implies parameters::canonical_name(
            (#[trigger] p[i]).0,
        ) == p[i].0 && parameters::is_guc_name(p[i].0) by {
            assert(p[i] == s[i]);
        }
        let tail = action_statement(e.0, e.1@) + rest;
        assert(sync_query(s) + rest =~= sync_query(p) + tail);
        query_mirrors(m, p, tail);
        statement_runs(e.0, e.1@, rest, mirrored(m, p));
    }
}

/// The query of a checkout, run as PostgreSQL runs it, leaves the session with the
/// client's value for every name that a session may change and the operator has not
/// set, and touches no other name. `diff` holds the actions of the checkout.
pub proof fn sync_query_reaches_the_client_state(
    s: Session,
    client: Map<Seq<char>, Seq<char>>,
    diff: Seq<(Seq<char>, ParamAction)>,
    k: Seq<char>,
)
    requires
        string_map::unique_keys(diff),
        parameters::actions(string_map::listed(diff)) == checkout_actions(s, client),
        forall|i: int|
            0 <= i < diff.len() ==> parameters::canonical_name((#[trigger] diff[i]).0)
                == diff[i].0 && parameters::is_guc_name(diff[i].0),
    ensures
        ({
            let after = carried_out(sync_query(diff), s.parameters);
            &&& after.is_some()
            &&& if parameters::is_forbidden_name(k) || s.settings.operator_keys.contains(k) {
                &&& after.unwrap().contains_key(k) == s.parameters.contains_key(k)
                &&& after.unwrap().contains_key(k) ==> after.unwrap()[k] == s.parameters[k]
            } else {
                &&& after.unwrap().contains_key(k) == client.contains_key(k)
                &&& after.unwrap().contains_key(k) ==> after.unwrap()[k] == client[k]
            }
            &&& sync_ended(s, diff, true).parameters == after.unwrap()
        }),
{
    query_mirrors(s.parameters, diff, Seq::empty());
    assert(sync_query(diff) + Seq::<char>::empty() =~= sync_query(diff));
    mirrored_is_after_actions(s.parameters, diff);
    checkout_reaches_the_client_state(s, client, k);
}

/// Every action of a checkout has its statement in the query, whatever its name: a
/// value that is taken away its `RESET`, a value that is set its `SET` with a literal
/// that means the value.
pub proof fn every_action_has_its_statement(diff: Seq<(Seq<char>, ParamAction)>, i: int)
    requires
        0 <= i < diff.len(),
    ensures
        match diff[i].1@ {
            Action::Reset => text::contains_text(
                sync_query(diff),
                "RESET "@ + diff[i].0 + ";"@,
            ),
            Action::SetTo(value) => exists|inside: Seq<char>| #[trigger]
                stays_inside(inside) && unquoted(inside) == value && text::contains_text(
                    sync_query(diff),
                    "SET "@ + diff[i].0 + " TO '"@ + inside + "';"@,
                ),
        },
    decreases diff.len(),
{
    let p = diff.drop_last();
    let e = diff.last();
    let whole = sync_query(diff);
    let head = sync_query(p);
    let stmt = action_statement(e.0, e.1@);
    assert(whole == head + stmt);
    if i == diff.len() - 1 {
        assert(text::occurs_at(whole, stmt, head.len() as int)) by {
            assert(whole.subrange(head.len() as int, (head.len() + stmt.len()) as int) =~= stmt);
        }
        match e.1@ {
            Action::SetTo(value) => {
                quoting_is_safe(value);
                assert(stays_inside(quoted(value)));
            },
            Action::Reset => {},
        }
    } else {
        every_action_has_its_statement(p, i);
        assert(p[i] == diff[i]);
        match diff[i].1@ {
            Action::Reset => {
                let t = "RESET "@ + diff[i].0 + ";"@;
                let at = choose|at: int| text::occurs_at(head, t, at);
                assert(whole.subrange(at, at + t.len()) =~= head.subrange(at, at + t.len()));
                assert(text::occurs_at(whole, t, at));
            },
            Action::SetTo(value) => {
                let inside = choose|inside: Seq<char>| #[trigger]
                    stays_inside(inside) && unquoted(inside) == value && text::contains_text(
                        head,
                        "SET "@ + diff[i].0 + " TO '"@ + inside + "';"@,
                    );
                let t = "SET "@ + diff[i].0 + " TO '"@ + inside + "';"@;
                let at = choose|at: int| text::occurs_at(head, t, at);
                assert(whole.subrange(at, at + t.len()) =~= head.subrange(at, at + t.len()));
                assert(text::occurs_at(whole, t, at));
            },
        }
    }
}

/// A checkout whose query failed gives the connection up: what the backend holds is not
/// known. One that went well leaves nothing to clean up, and changes nothing but the
/// parameters.
pub proof fn failed_sync_retires(s: Session, diff: Seq<(Seq<char>, ParamAction)>)
    ensures
        sync_ended(s, diff, false).state.bad,
        sync_ended(s, diff, false).parameters == s.parameters,
        sync_ended(s, diff, true).state.bad == s.state.bad,
        !sync_ended(s, diff, true).state.cleanup.needs_cleanup_set,
        !sync_ended(s, diff, true).state.cleanup.needs_cleanup_prepare,
        !sync_ended(s, diff, true).state.cleanup.needs_cleanup_declare,
        sync_ended(s, diff, true).statements == s.statements,
        sync_ended(s, diff, true).settings == s.settings,
{
}

} // verus!

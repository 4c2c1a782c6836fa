//! The parameters that the operator sends along when a session begins.
use vstd::prelude::*;
use crate::server::parameters::canonicalize_param_name;
use crate::string_map::StringMap;
#[allow(unused_imports)]
use crate::messages;
#[allow(unused_imports)]
use crate::server::parameters;
#[allow(unused_imports)]
use crate::string_map;

verus! {

/// How many bytes the operator's parameters may take.
pub const MAX_OPERATOR_BUDGET: usize = 9_488;

/// The longest StartupMessage that PostgreSQL takes.
pub const MAX_STARTUP_PACKET_SIZE: usize = 10_000;

/// A map with the entries of a listing put over it, under their canonical names.
/// A later entry wins.
pub open spec fn overlaid(
    m: Map<Seq<char>, Seq<char>>,
    s: Seq<(Seq<char>, Seq<char>)>,
) -> Map<Seq<char>, Seq<char>>
    decreases s.len(),
{
    if s.len() == 0 {
        m
    } else {
        overlaid(m, s.drop_last()).insert(
            parameters::canonical_name(s.last().0),
            s.last().1,
        )
    }
}

/// One layer put over another, entry by entry in the order of their names.
pub open spec fn layered(
    m: Map<Seq<char>, Seq<char>>,
    layer: Map<Seq<char>, Seq<char>>,
) -> Map<Seq<char>, Seq<char>> {
    overlaid(m, string_map::in_order(layer))
}

/// A layer with canonical names.
pub open spec fn canonical_layer(layer: Map<Seq<char>, Seq<char>>) -> Map<Seq<char>, Seq<char>> {
    layered(Map::empty(), layer)
}

/// Puts a layer over a map.
pub fn put_layer(map: &mut StringMap<String>, layer: &StringMap<String>)
    ensures
        string_map::texts(final(map)@) == layered(
            string_map::texts(old(map)@),
            string_map::texts(layer@),
        ),
{
    broadcast use string_map::texts_insert;

    let entries = layer.sorted();
    let ghost start = string_map::texts(map@);
    let ghost s = string_map::text_listing(string_map::listing_of(entries@));
    let mut i: usize = 0;
    assert(s.take(0) =~= Seq::<(Seq<char>, Seq<char>)>::empty());
    while i < entries.len()
        invariant
            i <= entries.len(),
            s == string_map::text_listing(string_map::listing_of(entries@)),
            string_map::texts(map@) == overlaid(start, s.take(i as int)),
        decreases entries.len() - i,
    {
        let name = canonicalize_param_name(entries[i].0.clone());
        let ghost before = map@;
        let _ = map.insert(name, entries[i].1.clone());
        proof {
            assert(s.take(i + 1).drop_last() =~= s.take(i as int));
            assert(s[i as int] == (entries@[i as int].0@, entries@[i as int].1@));
            assert(string_map::texts(map@) == string_map::texts(before).insert(
                parameters::canonical_name(entries@[i as int].0@),
                entries@[i as int].1@,
            ));
        }
        i = i + 1;
    }
    assert(s.take(s.len() as int) =~= s);
}

/// The cascade of two layers: the second wins over the first.
pub open spec fn cascade(
    general: Map<Seq<char>, Seq<char>>,
    pool: Map<Seq<char>, Seq<char>>,
) -> Map<Seq<char>, Seq<char>> {
    layered(canonical_layer(general), pool)
}

/// The cascade of the general and the pool's parameters.
pub fn cascade_canonical_keys(general: &StringMap<String>, pool: &StringMap<String>) -> (r:
    StringMap<String>)
    ensures
        string_map::texts(r@) == cascade(
            string_map::texts(general@),
            string_map::texts(pool@),
        ),
{
    let mut map: StringMap<String> = StringMap::new();
    assert(string_map::texts(map@) =~= Map::empty());
    put_layer(&mut map, general);
    put_layer(&mut map, pool);
    map
}

/// A size, or the largest one that there is.
pub open spec fn size_of(n: nat) -> usize {
    if n <= usize::MAX {
        n as usize
    } else {
        usize::MAX
    }
}

/// The length of a text with its end.
fn text_size(s: &str) -> (n: usize)
    ensures
        n == size_of(messages::c_string(s@).len()),
{
    let bytes = s.as_bytes();
    bytes.len().saturating_add(1)
}

/// The bytes that a StartupMessage takes, and those of its parameters.
pub open spec fn packet_size(
    username: Seq<char>,
    database: Seq<char>,
    application_name: Seq<char>,
    entries: Seq<(Seq<char>, Seq<char>)>,
) -> (usize, usize) {
    (
        size_of(messages::startup_message(username, database, application_name, entries).len()),
        size_of(messages::startup_entries(entries).len()),
    )
}

/// The bytes that a StartupMessage takes, and those of its parameters.
pub fn packet_and_body_bytes(
    username: &str,
    database: &str,
    application_name: &str,
    map: &StringMap<String>,
) -> (r: (usize, usize))
    ensures
        r == packet_size(
            username@,
            database@,
            application_name@,
            string_map::text_listing(map.listing()),
        ),
{
    let ghost s = string_map::text_listing(map.listing());
    let n: usize = map.len();
    let mut body: usize = 0;
    let mut i: usize = 0;
    assert(s.take(0) =~= Seq::<(Seq<char>, Seq<char>)>::empty());
    while i < n
        invariant
            i <= n == s.len(),
            s == string_map::text_listing(map.listing()),
            body == size_of(messages::startup_entries(s.take(i as int)).len()),
        decreases n - i,
    {
        body = body.saturating_add(text_size(map.key(i).as_str())).saturating_add(
            text_size(map.value(i).as_str()),
        );
        assert(s.take(i + 1).drop_last() =~= s.take(i as int));
        i = i + 1;
    }
    assert(s.take(n as int) =~= s);
    let packet = 9usize.saturating_add(text_size("user")).saturating_add(
        text_size(username),
    ).saturating_add(text_size("database")).saturating_add(text_size(database)).saturating_add(
        text_size("application_name"),
    ).saturating_add(text_size(application_name)).saturating_add(body);
    proof {
        let m = messages::startup_body(username@, database@, application_name@, s);
        assert(m.len() == 5 + messages::c_string("user"@).len() + messages::c_string(
            username@,
        ).len() + messages::c_string("database"@).len() + messages::c_string(database@).len()
            + messages::c_string("application_name"@).len() + messages::c_string(
            application_name@,
        ).len() + messages::startup_entries(s).len());
    }
    (packet, body)
}

/// One of the entries of a listing has this canonical name.
pub open spec fn spelled_in(s: Seq<(Seq<char>, Seq<char>)>, k: Seq<char>) -> bool {
    exists|i: int| 0 <= i < s.len() && parameters::canonical_name((#[trigger] s[i]).0) == k
}

/// Entries that are put over a map.
proof fn overlaid_is_last(
    m: Map<Seq<char>, Seq<char>>,
    s: Seq<(Seq<char>, Seq<char>)>,
    k: Seq<char>,
)
    ensures
        spelled_in(s, k) ==> overlaid(m, s).contains_key(k) && exists|i: int|
            0 <= i < s.len() && parameters::canonical_name((#[trigger] s[i]).0) == k
                && overlaid(m, s)[k] == s[i].1,
        !spelled_in(s, k) ==> overlaid(m, s).contains_key(k) == m.contains_key(k) && (
        m.contains_key(k) ==> overlaid(m, s)[k] == m[k]),
    decreases s.len(),
{
    if s.len() > 0 {
        let front = s.drop_last();
        let n = s.len() - 1;
        overlaid_is_last(m, front, k);
        if spelled_in(front, k) {
            let i = choose|i: int|
                0 <= i < front.len() && parameters::canonical_name((#[trigger] front[i]).0) == k
                    && overlaid(m, front)[k] == front[i].1;
            assert(s[i] == front[i]);
        }
        assert(s[n] == s.last());
        if parameters::canonical_name(s[n].0) != k && spelled_in(s, k) {
            let i = choose|i: int|
                0 <= i < s.len() && parameters::canonical_name((#[trigger] s[i]).0) == k;
            assert(front[i] == s[i]);
        }
    }
}

/// A layer wins over what lies below it, name by name whatever their spelling, and
/// leaves the other names alone. `s` lists the layer in the order of its names.
pub proof fn upper_layer_wins(
    below: Map<Seq<char>, Seq<char>>,
    s: Seq<(Seq<char>, Seq<char>)>,
    k: Seq<char>,
)
    requires
        string_map::ordered(s),
    ensures
        ({
            let both = layered(below, string_map::listed(s));
            &&& spelled_in(s, k) ==> both.contains_key(k) && exists|i: int|
                0 <= i < s.len() && parameters::canonical_name((#[trigger] s[i]).0) == k && both[k]
                    == s[i].1
            &&& !spelled_in(s, k) ==> both.contains_key(k) == below.contains_key(k) && (
            below.contains_key(k) ==> both[k] == below[k])
        }),
{
    string_map::in_order_of(s);
    overlaid_is_last(below, s, k);
}

/// The pool's parameters win over the general ones; names that the pool does not set
/// keep the general value. All names are canonical.
pub proof fn pool_wins_over_general(
    general: Seq<(Seq<char>, Seq<char>)>,
    pool: Seq<(Seq<char>, Seq<char>)>,
    k: Seq<char>,
)
    requires
        string_map::ordered(general),
        string_map::ordered(pool),
    ensures
        ({
            let r = cascade(string_map::listed(general), string_map::listed(pool));
            &&& r.contains_key(k) <==> spelled_in(general, k) || spelled_in(pool, k)
            &&& spelled_in(pool, k) ==> exists|i: int|
                0 <= i < pool.len() && parameters::canonical_name((#[trigger] pool[i]).0) == k
                    && r[k] == pool[i].1
            &&& !spelled_in(pool, k) && spelled_in(general, k) ==> exists|i: int|
                0 <= i < general.len() && parameters::canonical_name((#[trigger] general[i]).0) == k
                    && r[k] == general[i].1
            &&& r.contains_key(k) ==> parameters::canonical_name(k) == k
        }),
{
    upper_layer_wins(Map::empty(), general, k);
    upper_layer_wins(canonical_layer(string_map::listed(general)), pool, k);
    if spelled_in(general, k) {
        let i = choose|i: int|
            0 <= i < general.len() && parameters::canonical_name((#[trigger] general[i]).0) == k;
        parameters::canonical_name_is_stable(general[i].0);
    }
    if spelled_in(pool, k) {
        let i = choose|i: int|
            0 <= i < pool.len() && parameters::canonical_name((#[trigger] pool[i]).0) == k;
        parameters::canonical_name_is_stable(pool[i].0);
    }
}

/// The bytes that are reckoned are the bytes that are sent.
pub proof fn reckoned_bytes_are_sent(
    username: Seq<char>,
    database: Seq<char>,
    application_name: Seq<char>,
    entries: Seq<(Seq<char>, Seq<char>)>,
)
    requires
        messages::startup_message(username, database, application_name, entries).len()
            <= usize::MAX,
    ensures
        packet_size(username, database, application_name, entries).0 == messages::startup_message(
            username,
            database,
            application_name,
            entries,
        ).len(),
        packet_size(username, database, application_name, entries).1 == messages::startup_entries(
            entries,
        ).len(),
{
}

} // verus!

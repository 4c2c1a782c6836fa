//! Session parameters: names, snapshots, and what a checkout has to change.
use bytes::BytesMut;
use vstd::prelude::*;
use vstd::string::*;
use vstd::utf8::encode_utf8;
use crate::string_map::StringMap;
use crate::text::{lowercase, same_text, chars_of};
use crate::wire::{new_buffer, put_byte, put_bytes, put_number};
#[allow(unused_imports)]
use crate::string_map;
#[allow(unused_imports)]
use crate::text;
#[allow(unused_imports)]
use crate::wire;

verus! {

/// The version that the admin console reports.
pub const VERSION: &'static str = "0.1.0";

/// Sentinel for "planner hash not computed yet".
pub const PLANNER_HASH_UNSET: u64 = u64::MAX;

/// Names that PostgreSQL reports in ParameterStatus and that are followed for
/// each session.
pub open spec fn is_tracked_name(name: Seq<char>) -> bool {
    ||| name == "client_encoding"@
    ||| name == "DateStyle"@
    ||| name == "IntervalStyle"@
    ||| name == "TimeZone"@
    ||| name == "standard_conforming_strings"@
    ||| name == "application_name"@
}

/// Names that a checkout never sets or resets: PostgreSQL owns them or rejects
/// changes to them.
pub open spec fn is_forbidden_name(name: Seq<char>) -> bool {
    // Read-only or server-supplied.
    ||| name == "is_superuser"@
    ||| name == "session_authorization"@
    ||| name == "server_version"@
    ||| name == "server_version_num"@
    ||| name == "server_encoding"@
    ||| name == "integer_datetimes"@
    ||| name == "in_hot_standby"@
    ||| name == "session_user"@
    ||| name == "current_user"@
    ||| name == "block_size"@
    ||| name == "wal_block_size"@
    ||| name == "wal_segment_size"@
    ||| name == "max_index_keys"@
    ||| name == "max_identifier_length"@
    ||| name == "max_function_args"@
    ||| name == "data_checksums"@
    ||| name == "data_directory_mode"@
    // Reported by Greengage at startup, fixed for a session.
    ||| name == "gp_server_version"@
    ||| name == "gp_autovacuum_scope"@
    // Fixed for a database.
    ||| name == "lc_collate"@
    ||| name == "lc_ctype"@
    // State of a transaction that has not begun at checkout.
    ||| name == "transaction_isolation"@
    ||| name == "transaction_read_only"@
    ||| name == "transaction_deferrable"@
    // Fields of the StartupMessage.
    ||| is_protocol_field(name)
}

/// Fields of the StartupMessage, which are not session parameters.
pub open spec fn is_protocol_field(name: Seq<char>) -> bool {
    ||| name == "user"@
    ||| name == "database"@
    ||| name == "replication"@
    ||| name == "options"@
}

/// Parameters that change how a statement is planned and that a session may
/// change.
pub open spec fn is_planner_name(name: Seq<char>) -> bool {
    ||| name == "search_path"@
    ||| name == "default_transaction_isolation"@
    ||| name == "default_transaction_read_only"@
    ||| name == "default_text_search_config"@
    ||| name == "role"@
}

/// The spelling under which a parameter is stored: tracked names keep
/// PostgreSQL's spelling, all others are in lower case.
pub open spec fn canonical_name(name: Seq<char>) -> Seq<char> {
    let folded = text::ascii_lower(name);
    if folded == "datestyle"@ {
        "DateStyle"@
    } else if folded == "intervalstyle"@ {
        "IntervalStyle"@
    } else if folded == "timezone"@ {
        "TimeZone"@
    } else {
        folded
    }
}

/// A character that may follow the first one of a parameter name.
pub open spec fn is_name_char(c: char) -> bool {
    text::is_letter(c) || text::is_digit(c) || c == '_' || c == '.'
}

/// The shape of a parameter name: a letter or `_`, then letters, digits, `_`
/// and the dots of extension names.
pub open spec fn is_guc_name(name: Seq<char>) -> bool {
    &&& name.len() > 0
    &&& text::is_letter(name[0]) || name[0] == '_'
    &&& forall|i: int| 0 <= i < name.len() ==> is_name_char(#[trigger] name[i])
}

/// A key of a StartupMessage that may become `SET <key> TO ...`.
pub open spec fn is_safe_startup_name(key: Seq<char>) -> bool {
    &&& is_guc_name(key)
    &&& !text::starts_with(text::ascii_lower(key), "_pq_."@)
    &&& !is_forbidden_name(canonical_name(key))
}

/// Whether a name is tracked through ParameterStatus.
pub fn is_tracked(name: &str) -> (r: bool)
    ensures
        r == is_tracked_name(name@),
{
    same_text(name, "client_encoding") || same_text(name, "DateStyle") || same_text(
        name,
        "IntervalStyle",
    ) || same_text(name, "TimeZone") || same_text(name, "standard_conforming_strings")
        || same_text(name, "application_name")
}

/// True when `name` participates in the prepared-statement planner hash.
pub fn is_planner_key(name: &str) -> (r: bool)
    ensures
        r == is_planner_name(name@),
{
    same_text(name, "search_path") || same_text(name, "default_transaction_isolation")
        || same_text(name, "default_transaction_read_only") || same_text(
        name,
        "default_text_search_config",
    ) || same_text(name, "role")
}

/// Whether `name` is a field of the StartupMessage.
pub fn is_startup_field(name: &str) -> (r: bool)
    ensures
        r == is_protocol_field(name@),
{
    same_text(name, "user") || same_text(name, "database") || same_text(name, "replication")
        || same_text(name, "options")
}

/// True when checkout sync must not emit SET or RESET for this name.
pub fn is_set_forbidden(name: &str) -> (r: bool)
    ensures
        r == is_forbidden_name(name@),
{
    same_text(name, "is_superuser") || same_text(name, "session_authorization") || same_text(
        name,
        "server_version",
    ) || same_text(name, "server_version_num") || same_text(name, "server_encoding") || same_text(
        name,
        "integer_datetimes",
    ) || same_text(name, "in_hot_standby") || same_text(name, "session_user") || same_text(
        name,
        "current_user",
    ) || same_text(name, "block_size") || same_text(name, "wal_block_size") || same_text(
        name,
        "wal_segment_size",
    ) || same_text(name, "max_index_keys") || same_text(name, "max_identifier_length")
        || same_text(name, "max_function_args") || same_text(name, "data_checksums") || same_text(
        name,
        "data_directory_mode",
    ) || same_text(name, "gp_server_version") || same_text(name, "gp_autovacuum_scope")
        || same_text(name, "lc_collate") || same_text(name, "lc_ctype") || same_text(
        name,
        "transaction_isolation",
    ) || same_text(name, "transaction_read_only") || same_text(name, "transaction_deferrable")
        || is_startup_field(name)
}

/// Canonicalises the name of a session parameter.
pub fn canonicalize_param_name(key: String) -> (r: String)
    ensures
        r@ == canonical_name(key@),
{
    let folded = lowercase(key.as_str());
    if same_text(folded.as_str(), "datestyle") {
        "DateStyle".to_owned()
    } else if same_text(folded.as_str(), "intervalstyle") {
        "IntervalStyle".to_owned()
    } else if same_text(folded.as_str(), "timezone") {
        "TimeZone".to_owned()
    } else {
        folded
    }
}

/// Whether `name` has the shape of a parameter name.
pub fn is_valid_guc_name(name: &str) -> (r: bool)
    ensures
        r == is_guc_name(name@),
{
    let v = chars_of(name);
    if v.len() == 0 {
        return false;
    }
    let first = v[0];
    let first_letter = ('a' <= first && first <= 'z') || ('A' <= first && first <= 'Z');
    if !first_letter && first != '_' {
        return false;
    }
    let mut i: usize = 0;
    while i < v.len()
        invariant
            i <= v.len(),
            v@ == name@,
            forall|k: int| 0 <= k < i ==> is_name_char(#[trigger] name@[k]),
        decreases v.len() - i,
    {
        let c = v[i];
        let letter = ('a' <= c && c <= 'z') || ('A' <= c && c <= 'Z');
        if !(letter || ('0' <= c && c <= '9') || c == '_' || c == '.') {
            assert(!is_name_char(name@[i as int]));
            return false;
        }
        i = i + 1;
    }
    true
}

/// Whether a key that a client sent in its StartupMessage may become
/// `SET <key> TO ...` in checkout sync.
pub fn is_safe_client_startup_key(key: &str) -> (r: bool)
    ensures
        r == is_safe_startup_name(key@),
{
    if !is_valid_guc_name(key) {
        return false;
    }
    // Untracked names are folded before SET, so the reserved prefix is looked
    // for in the folded name.
    let folded = lowercase(key);
    if crate::text::has_prefix(folded.as_str(), "_pq_.") {
        return false;
    }
    let canonical = canonicalize_param_name(key.to_owned());
    !is_set_forbidden(canonical.as_str())
}

/// Folding a folded text changes nothing.
proof fn lower_twice(s: Seq<char>)
    ensures
        text::ascii_lower(text::ascii_lower(s)) == text::ascii_lower(s),
{
    assert(text::ascii_lower(text::ascii_lower(s)) =~= text::ascii_lower(s));
}

/// A canonical name is its own canonical form.
pub proof fn canonical_name_is_stable(name: Seq<char>)
    ensures
        canonical_name(canonical_name(name)) == canonical_name(name),
{
    reveal_strlit("datestyle");
    reveal_strlit("intervalstyle");
    reveal_strlit("timezone");
    reveal_strlit("DateStyle");
    reveal_strlit("IntervalStyle");
    reveal_strlit("TimeZone");
    lower_twice(name);
    assert(text::ascii_lower("DateStyle"@) =~= "datestyle"@);
    assert(text::ascii_lower("IntervalStyle"@) =~= "intervalstyle"@);
    assert(text::ascii_lower("TimeZone"@) =~= "timezone"@);
}

/// Two spellings of one name that differ only in ASCII case have one canonical
/// form.
pub proof fn canonical_name_ignores_case(a: Seq<char>, b: Seq<char>)
    requires
        text::ascii_lower(a) == text::ascii_lower(b),
    ensures
        canonical_name(a) == canonical_name(b),
{
}

/// One action produced by `compare_params` for checkout sync.
#[derive(Debug, Clone, PartialEq, Eq)]
pub enum ParamAction {
    /// `SET key TO 'value'`: the value differs or the backend has none.
    SetTo(String),
    /// `RESET key`: the backend has a value, the new client has not.
    Reset,
}

/// What an action asks for.
pub enum Action {
    /// `SET key TO 'value'`.
    SetTo(Seq<char>),
    /// `RESET key`.
    Reset,
}

impl View for ParamAction {
    type V = Action;

    open spec fn view(&self) -> Action {
        match self {
            ParamAction::SetTo(value) => Action::SetTo(value@),
            ParamAction::Reset => Action::Reset,
        }
    }
}

/// What a map of actions asks for.
pub open spec fn actions(m: Map<Seq<char>, ParamAction>) -> Map<Seq<char>, Action> {
    m.map_values(|a: ParamAction| a@)
}

/// The actions that bring a backend with the parameters `backend` to the
/// state `client`, as far as sessions may change it.
pub open spec fn sync_actions(
    backend: Map<Seq<char>, Seq<char>>,
    client: Map<Seq<char>, Seq<char>>,
) -> Map<Seq<char>, Action> {
    Map::new(
        |k: Seq<char>|
            !is_forbidden_name(k) && if client.contains_key(k) {
                !(backend.contains_key(k) && backend[k] == client[k])
            } else {
                backend.contains_key(k)
            },
        |k: Seq<char>|
            if client.contains_key(k) {
                Action::SetTo(client[k])
            } else {
                Action::Reset
            },
    )
}

/// The parameters after the actions were carried out.
pub open spec fn after_actions(
    backend: Map<Seq<char>, Seq<char>>,
    acts: Map<Seq<char>, Action>,
) -> Map<Seq<char>, Seq<char>> {
    Map::new(
        |k: Seq<char>|
            if acts.contains_key(k) {
                acts[k] is SetTo
            } else {
                backend.contains_key(k)
            },
        |k: Seq<char>|
            if acts.contains_key(k) {
                acts[k]->SetTo_0
            } else {
                backend[k]
            },
    )
}

/// The entries whose names a session may change.
pub open spec fn settable(m: Map<Seq<char>, Seq<char>>) -> Map<Seq<char>, Seq<char>> {
    Map::new(|k: Seq<char>| m.contains_key(k) && !is_forbidden_name(k), |k: Seq<char>| m[k])
}

/// Checkout sync leaves the backend with the client's value for every name
/// that a session may change, and touches no other name.
pub proof fn sync_reaches_the_client_state(
    backend: Map<Seq<char>, Seq<char>>,
    client: Map<Seq<char>, Seq<char>>,
)
    ensures
        settable(after_actions(backend, sync_actions(backend, client))) == settable(client),
        forall|k: Seq<char>|
            is_forbidden_name(k) ==> #[trigger] after_actions(
                backend,
                sync_actions(backend, client),
            ).contains_key(k) == backend.contains_key(k),
        sync_actions(after_actions(backend, sync_actions(backend, client)), client) == Map::<
            Seq<char>,
            Action,
        >::empty(),
{
    let after = after_actions(backend, sync_actions(backend, client));
    assert(settable(after) =~= settable(client));
    assert(sync_actions(after, client) =~= Map::<Seq<char>, Action>::empty());
}

/// A backend that holds what the client asks for needs no action.
pub proof fn sync_of_equal_states_is_empty(m: Map<Seq<char>, Seq<char>>)
    ensures
        sync_actions(m, m) == Map::<Seq<char>, Action>::empty(),
{
    assert(sync_actions(m, m) =~= Map::<Seq<char>, Action>::empty());
}

/// The parameters that take part in planning.
pub open spec fn planner_part(m: Map<Seq<char>, Seq<char>>) -> Map<Seq<char>, Seq<char>> {
    Map::new(|k: Seq<char>| m.contains_key(k) && is_planner_name(k), |k: Seq<char>| m[k])
}

/// The bytes over which the planner digest is taken: each name and each value
/// closed by a zero byte, in the order given.
pub open spec fn planner_entry_bytes(s: Seq<(Seq<char>, Seq<char>)>) -> Seq<u8>
    decreases s.len(),
{
    if s.len() == 0 {
        Seq::empty()
    } else {
        planner_entry_bytes(s.drop_last()) + encode_utf8(s.last().0).push(0u8) + encode_utf8(
            s.last().1,
        ).push(0u8)
    }
}

/// The number of entries, as the four bytes that close the digested bytes.
pub open spec fn count_bytes(n: u32) -> Seq<u8> {
    seq![
        (n % 0x100) as u8,
        (n / 0x100 % 0x100) as u8,
        (n / 0x1_0000 % 0x100) as u8,
        (n / 0x100_0000) as u8,
    ]
}

/// `xxhash_rust::xxh3::Xxh3` with its default secret, over all the bytes.
pub uninterp spec fn xxh3_digest(bytes: Seq<u8>) -> u64;

/// `Xxh3::default`, `Xxh3::update` and `Xxh3::digest`: the digest is a function
/// of the bytes handed in.
#[verifier::external_body]
pub(crate) fn xxh3(bytes: &[u8]) -> (h: u64)
    ensures
        h == xxh3_digest(bytes@),
{
    let mut hasher = xxhash_rust::xxh3::Xxh3::default();
    hasher.update(bytes);
    hasher.digest()
}

/// The digest with the two reserved values moved away: 0 stands for "no
/// planner parameters", `PLANNER_HASH_UNSET` for "not computed".
pub open spec fn moved_off_reserved(h: u64) -> u64 {
    if h == 0 {
        1
    } else if h == PLANNER_HASH_UNSET {
        (PLANNER_HASH_UNSET - 1) as u64
    } else {
        h
    }
}

/// The planner hash of a set of parameters.
pub open spec fn planner_hash(m: Map<Seq<char>, Seq<char>>) -> u64 {
    let part = planner_part(m);
    if part == Map::<Seq<char>, Seq<char>>::empty() {
        0
    } else {
        let s = string_map::in_order(part);
        moved_off_reserved(
            xxh3_digest(planner_entry_bytes(s) + count_bytes(s.len() as u32)),
        )
    }
}

/// The planner hash depends on the planner parameters alone.
pub proof fn planner_hash_sees_planner_names_only(
    a: Map<Seq<char>, Seq<char>>,
    b: Map<Seq<char>, Seq<char>>,
)
    requires
        forall|k: Seq<char>|
            is_planner_name(k) ==> (#[trigger] a.contains_key(k) == b.contains_key(k) && (
            a.contains_key(k) ==> a[k] == b[k])),
    ensures
        planner_hash(a) == planner_hash(b),
{
    assert(planner_part(a) =~= planner_part(b));
}

/// The planner hash is 0 exactly when there is no planner parameter, and never
/// the value that marks a missing hash.
pub proof fn planner_hash_reserved_values(m: Map<Seq<char>, Seq<char>>)
    ensures
        planner_hash(m) == 0 <==> (forall|k: Seq<char>|
            is_planner_name(k) ==> !#[trigger] m.contains_key(k)),
        planner_hash(m) != PLANNER_HASH_UNSET,
{
    let part = planner_part(m);
    if part == Map::<Seq<char>, Seq<char>>::empty() {
        assert forall|k: Seq<char>| is_planner_name(k) implies !#[trigger] m.contains_key(k) by {
            assert(!part.contains_key(k));
        }
    } else if forall|k: Seq<char>| is_planner_name(k) ==> !#[trigger] m.contains_key(k) {
        assert(part =~= Map::<Seq<char>, Seq<char>>::empty());
    }
}

/// Moves a digest away from the two reserved values.
pub fn reserve_digest(h: u64) -> (r: u64)
    ensures
        r == moved_off_reserved(h),
{
    if h == 0 {
        1
    } else if h == PLANNER_HASH_UNSET {
        PLANNER_HASH_UNSET - 1
    } else {
        h
    }
}

/// A ParameterStatus message.
pub open spec fn parameter_status(key: Seq<char>, value: Seq<char>) -> Seq<u8> {
    let k = encode_utf8(key);
    let v = encode_utf8(value);
    seq![83u8] + wire::be32((4 + k.len() + 1 + v.len() + 1) as i32) + k.push(0u8) + v.push(0u8)
}

/// The ParameterStatus messages for all entries but the fields of the
/// StartupMessage, in the order given.
pub open spec fn status_messages(s: Seq<(Seq<char>, Seq<char>)>) -> Seq<u8>
    decreases s.len(),
{
    if s.len() == 0 {
        Seq::empty()
    } else if is_protocol_field(s.last().0) {
        status_messages(s.drop_last())
    } else {
        status_messages(s.drop_last()) + parameter_status(s.last().0, s.last().1)
    }
}

/// One parameter set: stored under its canonical name if it is tracked or
/// comes from the startup.
pub open spec fn with_param(
    m: Map<Seq<char>, Seq<char>>,
    key: Seq<char>,
    value: Seq<char>,
    startup: bool,
) -> Map<Seq<char>, Seq<char>> {
    let k = canonical_name(key);
    if is_tracked_name(k) || startup {
        m.insert(k, value)
    } else {
        m
    }
}

/// Whether setting this parameter changes planner state.
pub open spec fn changes_planning(
    m: Map<Seq<char>, Seq<char>>,
    key: Seq<char>,
    value: Seq<char>,
    startup: bool,
) -> bool {
    let k = canonical_name(key);
    &&& is_tracked_name(k) || startup
    &&& is_planner_name(k)
    &&& !(m.contains_key(k) && m[k] == value)
}

/// All the parameters of a listing set one after the other.
pub open spec fn with_params(
    m: Map<Seq<char>, Seq<char>>,
    s: Seq<(Seq<char>, Seq<char>)>,
    startup: bool,
) -> Map<Seq<char>, Seq<char>>
    decreases s.len(),
{
    if s.len() == 0 {
        m
    } else {
        with_param(with_params(m, s.drop_last(), startup), s.last().0, s.last().1, startup)
    }
}

/// Whether one of the steps of `with_params` changes planner state.
pub open spec fn some_changes_planning(
    m: Map<Seq<char>, Seq<char>>,
    s: Seq<(Seq<char>, Seq<char>)>,
    startup: bool,
) -> bool {
    exists|i: int|
        0 <= i < s.len() && changes_planning(
            with_params(m, #[trigger] s.take(i), startup),
            s[i].0,
            s[i].1,
            startup,
        )
}

/// Setting canonical names from the startup sets exactly what is listed.
proof fn listing_is_set(
    m: Map<Seq<char>, Seq<char>>,
    s: Seq<(Seq<char>, Seq<char>)>,
)
    requires
        string_map::unique_keys(s),
        canonical_keys(string_map::listed(s)),
    ensures
        with_params(m, s, true) == m.union_prefer_right(string_map::listed(s)),
    decreases s.len(),
{
    if s.len() == 0 {
        string_map::listed_empty::<Seq<char>, Seq<char>>();
        assert(s =~= Seq::empty());
        assert(m.union_prefer_right(string_map::listed(s)) =~= m);
    } else {
        let front = s.drop_last();
        let (k, v) = s.last();
        assert(s =~= front.push((k, v)));
        assert(!string_map::has_key(front, k)) by {
            if string_map::has_key(front, k) {
                let i = choose|i: int| string_map::key_at(front, k, i);
                assert(s[i].0 != s[s.len() - 1].0);
            }
        }
        assert(string_map::unique_keys(front)) by {
            assert forall|i: int, j: int| 0 <= i < j < front.len() implies (#[trigger] front[i]).0
                != (#[trigger] front[j]).0 by {
                assert(s[i].0 != s[j].0);
            }
        }
        string_map::listed_push(front, k, v);
        let whole = string_map::listed(s);
        assert(whole == string_map::listed(front).insert(k, v));
        assert(whole.contains_key(k));
        assert forall|x: Seq<char>| #[trigger]
            string_map::listed(front).contains_key(x) implies canonical_name(x) == x by {
            assert(whole.contains_key(x));
        }
        listing_is_set(m, front);
        assert(m.union_prefer_right(string_map::listed(front)).insert(k, v)
            =~= m.union_prefer_right(whole));
    }
}

/// Copying the map of a snapshot into an empty one reproduces the snapshot,
/// with the same planner hash. All the names of a snapshot are canonical, and
/// `listing` is the order in which its map holds them.
pub proof fn copy_reproduces_the_snapshot(
    snapshot: Map<Seq<char>, Seq<char>>,
    listing: Seq<(Seq<char>, Seq<char>)>,
)
    requires
        canonical_keys(snapshot),
        string_map::unique_keys(listing),
        string_map::listed(listing) == snapshot,
    ensures
        with_params(Map::empty(), listing, true) == snapshot,
        planner_hash(with_params(Map::empty(), listing, true)) == planner_hash(snapshot),
{
    listing_is_set(Map::empty(), listing);
    assert(Map::<Seq<char>, Seq<char>>::empty().union_prefer_right(snapshot) =~= snapshot);
}

/// All names are canonical.
pub open spec fn canonical_keys(m: Map<Seq<char>, Seq<char>>) -> bool {
    forall|k: Seq<char>| #[trigger] m.contains_key(k) ==> canonical_name(k) == k
}

/// A snapshot of session parameters, under their canonical names.
#[derive(Debug)]
pub struct ServerParameters {
    parameters: StringMap<String>,
    /// Lazy hash of the planner parameters.
    planner_hash_cache: u64,
}

impl View for ServerParameters {
    type V = Map<Seq<char>, Seq<char>>;

    closed spec fn view(&self) -> Map<Seq<char>, Seq<char>> {
        string_map::texts(self.parameters@)
    }
}

impl ServerParameters {
    /// The parameters in the order in which they were first set.
    pub closed spec fn listing(&self) -> Seq<(Seq<char>, Seq<char>)> {
        string_map::text_listing(self.parameters.listing())
    }

    /// The planner hash as far as it is known.
    pub closed spec fn planner_cache(&self) -> u64 {
        self.planner_hash_cache
    }

    #[verifier::type_invariant]
    spec fn is_consistent(self) -> bool {
        &&& canonical_keys(self@)
        &&& self.planner_hash_cache == PLANNER_HASH_UNSET || self.planner_hash_cache
            == planner_hash(self@)
    }

    /// No parameters.
    pub fn new() -> (r: Self)
        ensures
            r@ == Map::<Seq<char>, Seq<char>>::empty(),
            r.listing() == Seq::<(Seq<char>, Seq<char>)>::empty(),
            r.planner_cache() == PLANNER_HASH_UNSET,
    {
        let r = ServerParameters {
            parameters: StringMap::new(),
            planner_hash_cache: PLANNER_HASH_UNSET,
        };
        assert(r@ =~= Map::<Seq<char>, Seq<char>>::empty());
        assert(r.listing() =~= Seq::<(Seq<char>, Seq<char>)>::empty());
        r
    }

    /// Whether there is no parameter.
    pub fn is_empty(&self) -> (r: bool)
        ensures
            r == (self@ == Map::<Seq<char>, Seq<char>>::empty()),
    {
        proof {
            if self@ == Map::<Seq<char>, Seq<char>>::empty() {
                assert(self.parameters@ =~= Map::<Seq<char>, String>::empty()) by {
                    assert forall|k: Seq<char>| !#[trigger] self.parameters@.contains_key(k) by {
                        assert(!self@.contains_key(k));
                    }
                }
            }
            assert(string_map::texts(Map::<Seq<char>, String>::empty()) =~= Map::<
                Seq<char>,
                Seq<char>,
            >::empty());
        }
        self.parameters.is_empty()
    }

    /// The cached planner hash, `PLANNER_HASH_UNSET` when there is none.
    pub fn cached_planner_hash(&self) -> (h: u64)
        ensures
            h == self.planner_cache(),
    {
        self.planner_hash_cache
    }

    /// The value of one parameter.
    pub fn get(&self, name: &str) -> (r: Option<&String>)
        ensures
            match r {
                Some(v) => self@.contains_key(name@) && v@ == self@[name@],
                None => !self@.contains_key(name@),
            },
    {
        self.parameters.get(name)
    }

    /// Sets one parameter. If `startup` is false, only tracked names are kept.
    /// Returns true when a planner parameter changed and the cached planner
    /// hash was dropped.
    pub fn set_param(&mut self, key: &str, value: &str, startup: bool) -> (r: bool)
        ensures
            final(self)@ == with_param(old(self)@, key@, value@, startup),
            r == changes_planning(old(self)@, key@, value@, startup),
            final(self).planner_cache() == if r {
                PLANNER_HASH_UNSET
            } else {
                old(self).planner_cache()
            },
    {
        proof {
            use_type_invariant(&*self);
        }
        let ghost old_key = key@;
        let key = canonicalize_param_name(key.to_owned());
        if is_tracked(key.as_str()) || startup {
            let planner_relevant = is_planner_key(key.as_str());
            let changed = match self.parameters.get(key.as_str()) {
                Some(existing) => !same_text(existing.as_str(), value),
                None => true,
            };
            let ghost k = key@;
            let cache: u64 = self.planner_hash_cache;
            self.planner_hash_cache = PLANNER_HASH_UNSET;
            let mut parameters: StringMap<String> = StringMap::new();
            std::mem::swap(&mut parameters, &mut self.parameters);
            let ghost before = parameters@;
            parameters.insert(key, value.to_owned());
            proof {
                canonical_name_is_stable(old_key);
                assert(string_map::texts(parameters@) =~= string_map::texts(before).insert(k, value@));
            }
            self.parameters = parameters;
            if planner_relevant && changed {
                true
            } else {
                proof {
                    if planner_relevant {
                        assert(string_map::texts(before).insert(k, value@) =~= string_map::texts(before));
                    } else {
                        planner_hash_sees_planner_names_only(string_map::texts(before), self@);
                    }
                }
                self.planner_hash_cache = cache;
                false
            }
        } else {
            false
        }
    }

    /// Sets all the parameters of a map, in its order.
    pub fn set_from_hashmap(&mut self, parameters: &StringMap<String>, startup: bool) -> (r: bool)
        ensures
            final(self)@ == with_params(old(self)@, string_map::text_listing(parameters.listing()), startup),
            r == some_changes_planning(
                old(self)@,
                string_map::text_listing(parameters.listing()),
                startup,
            ),
            final(self).planner_cache() == if r {
                PLANNER_HASH_UNSET
            } else {
                old(self).planner_cache()
            },
    {
        let ghost s = string_map::text_listing(parameters.listing());
        let ghost start = self@;
        let ghost cache = self.planner_cache();
        let n: usize = parameters.len();
        let mut planner_changed = false;
        let mut i: usize = 0;
        assert(s.take(0) =~= Seq::<(Seq<char>, Seq<char>)>::empty());
        while i < n
            invariant
                i <= n == s.len(),
                s == string_map::text_listing(parameters.listing()),
                self@ == with_params(start, s.take(i as int), startup),
                self.planner_cache() == if planner_changed {
                    PLANNER_HASH_UNSET
                } else {
                    cache
                },
                planner_changed == (exists|j: int|
                    0 <= j < i && changes_planning(
                        with_params(start, #[trigger] s.take(j), startup),
                        s[j].0,
                        s[j].1,
                        startup,
                    )),
            decreases n - i,
        {
            let changed = self.set_param(
                parameters.key(i).as_str(),
                parameters.value(i).as_str(),
                startup,
            );
            proof {
                assert(s.take(i + 1).drop_last() =~= s.take(i as int));
                assert(s.take(i + 1).last() == s[i as int]);
            }
            if changed {
                assert(changes_planning(
                    with_params(start, s.take(i as int), startup),
                    s[i as int].0,
                    s[i as int].1,
                    startup,
                ));
                planner_changed = true;
            }
            i = i + 1;
        }
        assert(s.take(s.len() as int) =~= s);
        planner_changed
    }

    /// Drops one entry after a successful `RESET key`.
    pub fn remove_param(&mut self, key: &str)
        ensures
            final(self)@ == old(self)@.remove(canonical_name(key@)),
            final(self).planner_cache() == if old(self)@.contains_key(canonical_name(key@))
                && is_planner_name(canonical_name(key@)) {
                PLANNER_HASH_UNSET
            } else {
                old(self).planner_cache()
            },
    {
        proof {
            use_type_invariant(&*self);
        }
        let canonical = canonicalize_param_name(key.to_owned());
        let cache: u64 = self.planner_hash_cache;
        self.planner_hash_cache = PLANNER_HASH_UNSET;
        let mut parameters: StringMap<String> = StringMap::new();
        std::mem::swap(&mut parameters, &mut self.parameters);
        let ghost before = parameters@;
        let removed = parameters.remove(canonical.as_str());
        proof {
            string_map::texts_remove(before, canonical@);
        }
        self.parameters = parameters;
        if !(removed.is_some() && is_planner_key(canonical.as_str())) {
            proof {
                planner_hash_sees_planner_names_only(string_map::texts(before), self@);
            }
            self.planner_hash_cache = cache;
        }
    }

    /// Keeps only what PostgreSQL reports or owns: a full reset changes the
    /// parameters that are not reported.
    pub fn forget_untracked(&mut self)
        ensures
            final(self)@ == kept_after_reset(old(self)@),
            final(self).planner_cache() == PLANNER_HASH_UNSET,
    {
        proof {
            use_type_invariant(&*self);
        }
        let mut kept: StringMap<String> = StringMap::new();
        let n: usize = self.parameters.len();
        let ghost whole = self.parameters.listing();
        let ghost m = self@;
        proof {
            assert(string_map::texts(kept@) =~= Map::<Seq<char>, Seq<char>>::empty());
        }
        let mut i: usize = 0;
        while i < n
            invariant
                i <= n == whole.len(),
                whole == self.parameters.listing(),
                string_map::unique_keys(whole),
                m == string_map::texts(string_map::listed(whole)),
                forall|k: Seq<char>| #[trigger]
                    string_map::texts(kept@).contains_key(k) <==> (is_tracked_name(k) || is_forbidden_name(k))
                        && exists|j: int| 0 <= j < i && string_map::key_at(whole, k, j),
                forall|k: Seq<char>| #[trigger]
                    string_map::texts(kept@).contains_key(k) ==> string_map::texts(kept@)[k] == m[k],
            decreases n - i,
        {
            let key = self.parameters.key(i);
            let ghost k0 = whole[i as int].0;
            proof {
                string_map::listed_entry(whole, i as int);
            }
            let ghost before = kept@;
            if is_tracked(key.as_str()) || is_set_forbidden(key.as_str()) {
                let value = self.parameters.value(i);
                kept.insert(key.clone(), value.clone());
                proof {
                    string_map::texts_insert(before, k0, whole[i as int].1);
                    assert(string_map::key_at(whole, k0, i as int));
                }
            }
            i = i + 1;
            assert forall|k: Seq<char>| #[trigger]
                string_map::texts(kept@).contains_key(k) <==> (is_tracked_name(k) || is_forbidden_name(k))
                    && exists|j: int| 0 <= j < i && string_map::key_at(whole, k, j) by {
                let was = exists|j: int| 0 <= j < i - 1 && string_map::key_at(whole, k, j);
                let now = exists|j: int| 0 <= j < i && string_map::key_at(whole, k, j);
                assert(string_map::texts(before).contains_key(k) <==> (is_tracked_name(k) || is_forbidden_name(
                    k,
                )) && was);
                if now && k != k0 {
                    let j = choose|j: int| 0 <= j < i && string_map::key_at(whole, k, j);
                    assert(0 <= j < i - 1 && string_map::key_at(whole, k, j));
                }
                if k == k0 {
                    assert(string_map::key_at(whole, k, i - 1));
                }
            }
        }
        proof {
            assert forall|k: Seq<char>| #[trigger]
                string_map::texts(kept@).contains_key(k) == kept_after_reset(m).contains_key(k) by {
                if m.contains_key(k) {
                    let j = string_map::listed_key(whole, k);
                    assert(0 <= j < n && string_map::key_at(whole, k, j));
                }
                if exists|j: int| 0 <= j < n && string_map::key_at(whole, k, j) {
                    let j = choose|j: int| 0 <= j < n && string_map::key_at(whole, k, j);
                    string_map::listed_entry(whole, j);
                }
            }
            assert(string_map::texts(kept@) =~= kept_after_reset(m));
        }
        self.planner_hash_cache = PLANNER_HASH_UNSET;
        self.parameters = kept;
    }

    /// The actions that checkout sync needs to bring a backend with these
    /// parameters to the client's state. Forbidden names are left alone.
    pub fn compare_params(&self, incoming_parameters: &ServerParameters) -> (diff: StringMap<
        ParamAction,
    >)
        ensures
            actions(diff@) == sync_actions(self@, incoming_parameters@),
            canonical_keys(self@),
            canonical_keys(incoming_parameters@),
    {
        proof {
            use_type_invariant(self);
            use_type_invariant(incoming_parameters);
        }
        let mut diff: StringMap<ParamAction> = StringMap::new();
        let ghost want = sync_actions(self@, incoming_parameters@);
        let ghost theirs = incoming_parameters.parameters.listing();
        let n: usize = incoming_parameters.parameters.len();
        let mut i: usize = 0;
        while i < n
            invariant
                i <= n == theirs.len(),
                theirs == incoming_parameters.parameters.listing(),
                string_map::unique_keys(theirs),
                want == sync_actions(self@, incoming_parameters@),
                incoming_parameters@ == string_map::texts(string_map::listed(theirs)),
                forall|k: Seq<char>| #[trigger]
                    diff@.contains_key(k) <==> want.contains_key(k) && exists|j: int|
                        0 <= j < i && string_map::key_at(theirs, k, j),
                forall|k: Seq<char>| #[trigger]
                    diff@.contains_key(k) ==> diff@[k]@ == want[k],
            decreases n - i,
        {
            let key = incoming_parameters.parameters.key(i);
            let client_value = incoming_parameters.parameters.value(i);
            let ghost k0 = theirs[i as int].0;
            let ghost before = diff@;
            proof {
                string_map::listed_entry(theirs, i as int);
            }
            if !is_set_forbidden(key.as_str()) {
                let same = match self.parameters.get(key.as_str()) {
                    Some(backend_value) => same_text(backend_value.as_str(), client_value.as_str()),
                    None => false,
                };
                if !same {
                    diff.insert(key.clone(), ParamAction::SetTo(client_value.clone()));
                }
            }
            i = i + 1;
            assert forall|k: Seq<char>| #[trigger]
                diff@.contains_key(k) <==> want.contains_key(k) && exists|j: int|
                    0 <= j < i && string_map::key_at(theirs, k, j) by {
                let was = exists|j: int| 0 <= j < i - 1 && string_map::key_at(theirs, k, j);
                assert(before.contains_key(k) <==> want.contains_key(k) && was);
                if k == k0 {
                    assert(string_map::key_at(theirs, k, i - 1));
                    if was {
                        let j = choose|j: int| 0 <= j < i - 1 && string_map::key_at(theirs, k, j);
                        assert(theirs[j].0 == theirs[i - 1].0);
                    }
                } else if exists|j: int| 0 <= j < i && string_map::key_at(theirs, k, j) {
                    let j = choose|j: int| 0 <= j < i && string_map::key_at(theirs, k, j);
                    assert(0 <= j < i - 1 && string_map::key_at(theirs, k, j));
                }
            }
        }
        proof {
            assert forall|k: Seq<char>| #[trigger]
                diff@.contains_key(k) <==> want.contains_key(k)
                    && incoming_parameters@.contains_key(k) by {
                if incoming_parameters@.contains_key(k) {
                    let j = string_map::listed_key(theirs, k);
                    assert(0 <= j < n && string_map::key_at(theirs, k, j));
                }
                if exists|j: int| 0 <= j < n && string_map::key_at(theirs, k, j) {
                    let j = choose|j: int| 0 <= j < n && string_map::key_at(theirs, k, j);
                    string_map::listed_entry(theirs, j);
                }
            }
        }
        let ghost ours = self.parameters.listing();
        let m: usize = self.parameters.len();
        let mut i: usize = 0;
        while i < m
            invariant
                i <= m == ours.len(),
                ours == self.parameters.listing(),
                string_map::unique_keys(ours),
                want == sync_actions(self@, incoming_parameters@),
                self@ == string_map::texts(string_map::listed(ours)),
                forall|k: Seq<char>| #[trigger]
                    diff@.contains_key(k) <==> want.contains_key(k) && (
                    incoming_parameters@.contains_key(k) || exists|j: int|
                        0 <= j < i && string_map::key_at(ours, k, j)),
                forall|k: Seq<char>| #[trigger]
                    diff@.contains_key(k) ==> diff@[k]@ == want[k],
            decreases m - i,
        {
            let key = self.parameters.key(i);
            let ghost k0 = ours[i as int].0;
            let ghost before = diff@;
            proof {
                string_map::listed_entry(ours, i as int);
            }
            if !is_set_forbidden(key.as_str()) && !incoming_parameters.parameters.contains_key(
                key.as_str(),
            ) {
                diff.insert(key.clone(), ParamAction::Reset);
            }
            i = i + 1;
            assert forall|k: Seq<char>| #[trigger]
                diff@.contains_key(k) <==> want.contains_key(k) && (
                incoming_parameters@.contains_key(k) || exists|j: int|
                    0 <= j < i && string_map::key_at(ours, k, j)) by {
                let was = exists|j: int| 0 <= j < i - 1 && string_map::key_at(ours, k, j);
                assert(before.contains_key(k) <==> want.contains_key(k) && (
                incoming_parameters@.contains_key(k) || was));
                if k == k0 {
                    assert(string_map::key_at(ours, k, i - 1));
                } else if exists|j: int| 0 <= j < i && string_map::key_at(ours, k, j) {
                    let j = choose|j: int| 0 <= j < i && string_map::key_at(ours, k, j);
                    assert(0 <= j < i - 1 && string_map::key_at(ours, k, j));
                }
            }
        }
        proof {
            assert forall|k: Seq<char>| #[trigger]
                actions(diff@).contains_key(k) == want.contains_key(k) by {
                if want.contains_key(k) && !incoming_parameters@.contains_key(k) {
                    let j = string_map::listed_key(ours, k);
                    assert(0 <= j < m && string_map::key_at(ours, k, j));
                }
                assert(diff@.contains_key(k) == actions(diff@).contains_key(k));
            }
            assert(actions(diff@) =~= want);
        }
        diff
    }

    /// The application name, which every client session has.
    pub fn get_application_name(&self) -> (r: &String)
        requires
            self@.contains_key("application_name"@),
        ensures
            r@ == self@["application_name"@],
    {
        self.parameters.get("application_name").unwrap()
    }

    /// A copy of the parameters.
    pub fn as_hashmap(&self) -> (r: StringMap<String>)
        ensures
            string_map::texts(r@) == self@,
            string_map::text_listing(r.listing()) == self.listing(),
            string_map::unique_keys(self.listing()),
            string_map::listed(self.listing()) == self@,
            canonical_keys(self@),
    {
        proof {
            use_type_invariant(self);
        }
        let r = self.parameters.copy();
        proof {
            string_map::listed_texts(r.listing());
        }
        r
    }

    /// The planner parameters alone.
    fn planner_parameters(&self) -> (r: StringMap<String>)
        ensures
            string_map::texts(r@) == planner_part(self@),
    {
        let mut part: StringMap<String> = StringMap::new();
        let n: usize = self.parameters.len();
        let ghost whole = self.parameters.listing();
        let ghost m = self@;
        proof {
            assert(string_map::texts(part@) =~= Map::<Seq<char>, Seq<char>>::empty());
        }
        let mut i: usize = 0;
        while i < n
            invariant
                i <= n == whole.len(),
                whole == self.parameters.listing(),
                string_map::unique_keys(whole),
                m == string_map::texts(string_map::listed(whole)),
                forall|k: Seq<char>| #[trigger]
                    string_map::texts(part@).contains_key(k) <==> is_planner_name(k) && exists|j: int|
                        0 <= j < i && string_map::key_at(whole, k, j),
                forall|k: Seq<char>| #[trigger]
                    string_map::texts(part@).contains_key(k) ==> string_map::texts(part@)[k] == m[k],
            decreases n - i,
        {
            let key = self.parameters.key(i);
            let ghost k0 = whole[i as int].0;
            proof {
                string_map::listed_entry(whole, i as int);
            }
            let ghost before = part@;
            if is_planner_key(key.as_str()) {
                part.insert(key.clone(), self.parameters.value(i).clone());
                proof {
                    string_map::texts_insert(before, k0, whole[i as int].1);
                }
            }
            i = i + 1;
            assert forall|k: Seq<char>| #[trigger]
                string_map::texts(part@).contains_key(k) <==> is_planner_name(k) && exists|j: int|
                    0 <= j < i && string_map::key_at(whole, k, j) by {
                let was = exists|j: int| 0 <= j < i - 1 && string_map::key_at(whole, k, j);
                assert(string_map::texts(before).contains_key(k) <==> is_planner_name(k) && was);
                if k == k0 {
                    assert(string_map::key_at(whole, k, i - 1));
                } else if exists|j: int| 0 <= j < i && string_map::key_at(whole, k, j) {
                    let j = choose|j: int| 0 <= j < i && string_map::key_at(whole, k, j);
                    assert(0 <= j < i - 1 && string_map::key_at(whole, k, j));
                }
            }
        }
        proof {
            assert forall|k: Seq<char>| #[trigger]
                string_map::texts(part@).contains_key(k) == planner_part(m).contains_key(k) by {
                if m.contains_key(k) {
                    let j = string_map::listed_key(whole, k);
                    assert(0 <= j < n && string_map::key_at(whole, k, j));
                }
                if exists|j: int| 0 <= j < n && string_map::key_at(whole, k, j) {
                    let j = choose|j: int| 0 <= j < n && string_map::key_at(whole, k, j);
                    string_map::listed_entry(whole, j);
                }
            }
            assert(string_map::texts(part@) =~= planner_part(m));
        }
        part
    }

    /// Digest of the planner parameters, 0 when there are none. Entries are
    /// sorted so that the order of insertion cannot change the digest.
    pub fn planner_param_hash(&mut self) -> (h: u64)
        ensures
            h == planner_hash(old(self)@),
            final(self)@ == old(self)@,
            final(self).listing() == old(self).listing(),
            final(self).planner_cache() == h,
    {
        proof {
            use_type_invariant(&*self);
            planner_hash_reserved_values(self@);
        }
        if self.planner_hash_cache != PLANNER_HASH_UNSET {
            return self.planner_hash_cache;
        }
        let part = self.planner_parameters();
        proof {
            if part@ == Map::<Seq<char>, String>::empty() {
                assert(string_map::texts(part@) =~= Map::<Seq<char>, Seq<char>>::empty());
            } else if string_map::texts(part@) == Map::<Seq<char>, Seq<char>>::empty() {
                assert forall|k: Seq<char>| !#[trigger] part@.contains_key(k) by {
                    assert(!string_map::texts(part@).contains_key(k));
                }
                assert(part@ =~= Map::<Seq<char>, String>::empty());
            }
        }
        if part.is_empty() {
            self.planner_hash_cache = 0;
            return 0;
        }
        let entries = part.sorted();
        let bytes = planner_bytes(&entries);
        let h: u64 = reserve_digest(xxh3(bytes.as_slice()));
        self.planner_hash_cache = h;
        h
    }

    /// Appends the ParameterStatus message of one parameter.
    fn add_parameter_message(key: &str, value: &str, buffer: &mut BytesMut)
        requires
            encode_utf8(key@).len() + encode_utf8(value@).len() + 6 <= i32::MAX,
        ensures
            wire::held(*final(buffer)) == wire::held(*old(buffer)) + parameter_status(key@, value@),
    {
        put_byte(buffer, 83u8);
        // The length field itself and the two terminators are counted.
        let len: usize = 4 + key.len() + 1 + value.len() + 1;
        put_number(buffer, len as i32);
        put_bytes(buffer, key.as_bytes());
        put_byte(buffer, 0u8);
        put_bytes(buffer, value.as_bytes());
        put_byte(buffer, 0u8);
        assert(wire::held(*buffer) =~= wire::held(*old(buffer)) + parameter_status(key@, value@));
    }

    /// The ParameterStatus messages for these parameters. The fields of the
    /// StartupMessage are not reported.
    pub fn parameter_status_messages(&self) -> (b: BytesMut)
        requires
            forall|i: int|
                0 <= i < self.listing().len() ==> encode_utf8((#[trigger] self.listing()[i]).0).len()
                    + encode_utf8(self.listing()[i].1).len() + 6 <= i32::MAX,
        ensures
            wire::held(b) == status_messages(self.listing()),
    {
        let mut buffer = new_buffer();
        let n: usize = self.parameters.len();
        let ghost s = self.listing();
        let mut i: usize = 0;
        assert(s.take(0) =~= Seq::<(Seq<char>, Seq<char>)>::empty());
        while i < n
            invariant
                i <= n == s.len(),
                n == self.parameters.listing().len(),
                s == self.listing(),
                forall|i: int|
                    0 <= i < s.len() ==> encode_utf8((#[trigger] s[i]).0).len() + encode_utf8(
                        s[i].1,
                    ).len() + 6 <= i32::MAX,
                wire::held(buffer) == status_messages(s.take(i as int)),
            decreases n - i,
        {
            let key = self.parameters.key(i);
            proof {
                assert(s.take(i + 1).drop_last() =~= s.take(i as int));
                assert(s.take(i + 1).last() == s[i as int]);
            }
            if !is_startup_field(key.as_str()) {
                ServerParameters::add_parameter_message(
                    key.as_str(),
                    self.parameters.value(i).as_str(),
                    &mut buffer,
                );
            }
            i = i + 1;
        }
        assert(s.take(s.len() as int) =~= s);
        buffer
    }

    /// What the admin console reports of itself.
    pub fn admin() -> (r: Self)
        ensures
            r@ == admin_parameters(),
    {
        let mut r = ServerParameters::new();
        proof {
            admin_names();
        }
        r.set_param("client_encoding", "UTF8", false);
        r.set_param("DateStyle", "ISO, MDY", false);
        r.set_param("TimeZone", "Etc/UTC", false);
        r.set_param("server_version", VERSION, true);
        r.set_param("server_encoding", "UTF-8", true);
        r.set_param("standard_conforming_strings", "on", false);
        r.set_param("integer_datetimes", "on", false);
        r.set_param("application_name", "pg_doorman", false);
        r
    }
}

/// The parameters of the admin console. `integer_datetimes` is not tracked and
/// does not come from a startup, so it is not among them.
pub open spec fn admin_parameters() -> Map<Seq<char>, Seq<char>> {
    Map::<Seq<char>, Seq<char>>::empty().insert("client_encoding"@, "UTF8"@).insert(
        "DateStyle"@,
        "ISO, MDY"@,
    ).insert("TimeZone"@, "Etc/UTC"@).insert("server_version"@, VERSION@).insert(
        "server_encoding"@,
        "UTF-8"@,
    ).insert("standard_conforming_strings"@, "on"@).insert("application_name"@, "pg_doorman"@)
}

/// The names that the admin console sets are canonical.
proof fn admin_names()
    ensures
        canonical_name("client_encoding"@) == "client_encoding"@,
        canonical_name("DateStyle"@) == "DateStyle"@,
        canonical_name("TimeZone"@) == "TimeZone"@,
        canonical_name("server_version"@) == "server_version"@,
        canonical_name("server_encoding"@) == "server_encoding"@,
        canonical_name("standard_conforming_strings"@) == "standard_conforming_strings"@,
        canonical_name("integer_datetimes"@) == "integer_datetimes"@,
        !is_tracked_name("integer_datetimes"@),
        canonical_name("application_name"@) == "application_name"@,
{
    reveal_strlit("datestyle");
    reveal_strlit("intervalstyle");
    reveal_strlit("timezone");
    reveal_strlit("DateStyle");
    reveal_strlit("IntervalStyle");
    reveal_strlit("TimeZone");
    reveal_strlit("client_encoding");
    reveal_strlit("server_version");
    reveal_strlit("server_encoding");
    reveal_strlit("standard_conforming_strings");
    reveal_strlit("integer_datetimes");
    reveal_strlit("application_name");
    assert(text::ascii_lower("client_encoding"@) =~= "client_encoding"@);
    assert(text::ascii_lower("DateStyle"@) =~= "datestyle"@);
    assert(text::ascii_lower("TimeZone"@) =~= "timezone"@);
    assert(text::ascii_lower("server_version"@) =~= "server_version"@);
    assert(text::ascii_lower("server_encoding"@) =~= "server_encoding"@);
    assert(text::ascii_lower("standard_conforming_strings"@) =~= "standard_conforming_strings"@);
    assert(text::ascii_lower("integer_datetimes"@) =~= "integer_datetimes"@);
    assert(text::ascii_lower("application_name"@) =~= "application_name"@);
    assert("integer_datetimes"@.len() == 17);
    assert("standard_conforming_strings"@.len() == 27);
    assert("application_name"@.len() == 16);
    assert("client_encoding"@.len() == 15);
    assert("server_version"@.len() == 14);
    assert("server_encoding"@.len() == 15);
    assert("datestyle"@.len() == 9);
    assert("timezone"@.len() == 8);
    assert("intervalstyle"@.len() == 13);
    assert("IntervalStyle"@.len() == 13);
}

/// The digested bytes of the planner parameters.
fn planner_bytes(entries: &Vec<(String, String)>) -> (bytes: Vec<u8>)
    ensures
        bytes@ == ({
            let s = string_map::text_listing(string_map::listing_of(entries@));
            planner_entry_bytes(s) + count_bytes(s.len() as u32)
        }),
{
    let ghost s = string_map::text_listing(string_map::listing_of(entries@));
    let mut bytes: Vec<u8> = Vec::new();
    let mut i: usize = 0;
    assert(s.take(0) =~= Seq::<(Seq<char>, Seq<char>)>::empty());
    while i < entries.len()
        invariant
            i <= entries.len() == s.len(),
            s == string_map::text_listing(string_map::listing_of(entries@)),
            bytes@ == planner_entry_bytes(s.take(i as int)),
        decreases entries.len() - i,
    {
        let mut k = entries[i].0.as_str().as_bytes_vec();
        let mut v = entries[i].1.as_str().as_bytes_vec();
        let ghost before = bytes@;
        bytes.append(&mut k);
        bytes.push(0u8);
        bytes.append(&mut v);
        bytes.push(0u8);
        proof {
            assert(s.take(i + 1).drop_last() =~= s.take(i as int));
            assert(s.take(i + 1).last() == s[i as int]);
            assert(bytes@ =~= before + encode_utf8(s[i as int].0).push(0u8) + encode_utf8(
                s[i as int].1,
            ).push(0u8));
        }
        i = i + 1;
    }
    assert(s.take(s.len() as int) =~= s);
    let n: u32 = entries.len() as u32;
    let ghost body = bytes@;
    bytes.push((n % 0x100) as u8);
    bytes.push((n / 0x100 % 0x100) as u8);
    bytes.push((n / 0x1_0000 % 0x100) as u8);
    bytes.push((n / 0x100_0000) as u8);
    assert(bytes@ =~= body + count_bytes(n));
    bytes
}

/// What stays known after a full reset of the session.
pub open spec fn kept_after_reset(m: Map<Seq<char>, Seq<char>>) -> Map<Seq<char>, Seq<char>> {
    Map::new(
        |k: Seq<char>| m.contains_key(k) && (is_tracked_name(k) || is_forbidden_name(k)),
        |k: Seq<char>| m[k],
    )
}

impl Clone for ServerParameters {
    /// A copy of the parameters, whose planner hash is computed anew.
    fn clone(&self) -> (r: Self)
        ensures
            r@ == self@,
            r.listing() == self.listing(),
            r.planner_cache() == PLANNER_HASH_UNSET,
    {
        proof {
            use_type_invariant(self);
        }
        ServerParameters {
            parameters: self.parameters.copy(),
            planner_hash_cache: PLANNER_HASH_UNSET,
        }
    }
}

impl Default for ServerParameters {
    fn default() -> (r: Self)
        ensures
            r@ == Map::<Seq<char>, Seq<char>>::empty(),
            r.listing() == Seq::<(Seq<char>, Seq<char>)>::empty(),
            r.planner_cache() == PLANNER_HASH_UNSET,
    {
        ServerParameters::new()
    }
}

/// Setting a parameter stores its value under the canonical name where it is reported or
/// comes from the startup, and touches no other name.
pub proof fn one_parameter_is_set(
    m: Map<Seq<char>, Seq<char>>,
    key: Seq<char>,
    value: Seq<char>,
    startup: bool,
    other: Seq<char>,
)
    ensures
        ({
            let t = with_param(m, key, value, startup);
            let k = canonical_name(key);
            &&& startup || is_tracked_name(k) ==> t.contains_key(k) && t[k] == value
            &&& !startup && !is_tracked_name(k) ==> t == m
            &&& other != k ==> t.contains_key(other) == m.contains_key(other) && (m.contains_key(
                other,
            ) ==> t[other] == m[other])
            &&& t != m && is_planner_name(k) ==> changes_planning(m, key, value, startup)
            &&& changes_planning(m, key, value, startup) ==> t != m && is_planner_name(k)
        }),
{
    let k = canonical_name(key);
    if (startup || is_tracked_name(k)) && m.contains_key(k) && m[k] == value {
        assert(with_param(m, key, value, startup) =~= m);
    }
}

/// A change of the planner hash needs a change of a planner parameter, and is announced
/// when one is set.
pub proof fn planner_changes_are_announced(
    m: Map<Seq<char>, Seq<char>>,
    key: Seq<char>,
    value: Seq<char>,
    startup: bool,
)
    ensures
        planner_hash(with_param(m, key, value, startup)) != planner_hash(m) ==> changes_planning(
            m,
            key,
            value,
            startup,
        ),
{
    let k = canonical_name(key);
    let t = with_param(m, key, value, startup);
    if !changes_planning(m, key, value, startup) {
        if is_planner_name(k) {
            if startup || is_tracked_name(k) {
                assert(t =~= m);
            }
        } else {
            planner_hash_sees_planner_names_only(t, m);
        }
    }
}

/// A name that a client may bring to a SET has the shape of a name: no quote, no blank and
/// no semicolon, so that it cannot end the statement, and it does not begin like the
/// names that the protocol reserves.
pub proof fn safe_names_cannot_end_a_statement(key: Seq<char>, i: int)
    requires
        is_safe_startup_name(key),
        0 <= i < key.len(),
    ensures
        key.len() > 0,
        key[i] != '\'' && key[i] != '"' && key[i] != ' ' && key[i] != ';' && key[i] != '\\'
            && key[i] != '-' && key[i] != '\n' && key[i] as int != 0,
        !(('0' <= key[0] && key[0] <= '9') || key[0] == '.'),
        !is_forbidden_name(canonical_name(key)),
        !text::starts_with(text::ascii_lower(key), "_pq_."@),
{
    assert(is_name_char(key[i]));
    assert(is_name_char(key[0]));
}

/// A full reset keeps what PostgreSQL reports or owns, with its value, and forgets the
/// rest.
pub proof fn reset_keeps_what_is_reported(m: Map<Seq<char>, Seq<char>>, k: Seq<char>)
    ensures
        kept_after_reset(m).contains_key(k) <==> m.contains_key(k) && (is_tracked_name(k)
            || is_forbidden_name(k)),
        kept_after_reset(m).contains_key(k) ==> kept_after_reset(m)[k] == m[k],
{
}

/// A ParameterStatus message is an `S` that holds the name and the value, each closed by a
/// zero byte; no field of the StartupMessage is sent to a client, and nothing else is
/// kept back.
pub proof fn status_messages_tell_all(
    s: Seq<(Seq<char>, Seq<char>)>,
    key: Seq<char>,
    value: Seq<char>,
)
    ensures
        ({
            let m = parameter_status(key, value);
            let a = encode_utf8(key).len() as int;
            let b = encode_utf8(value).len() as int;
            &&& m.len() == 7 + a + b
            &&& m[0] as char == 'S'
            &&& m.subrange(1, 5) == wire::be32((6 + a + b) as i32)
            &&& m.subrange(5, 5 + a) == encode_utf8(key)
            &&& m[5 + a] == 0
            &&& m.subrange(6 + a, 6 + a + b) == encode_utf8(value)
            &&& m[6 + a + b] == 0
        }),
        status_messages(Seq::empty()).len() == 0,
        status_messages(s.push((key, value))) == if key == "user"@ || key == "database"@ || key
            == "replication"@ || key == "options"@ {
            status_messages(s)
        } else {
            status_messages(s) + parameter_status(key, value)
        },
{
    let m = parameter_status(key, value);
    let a = encode_utf8(key).len() as int;
    let b = encode_utf8(value).len() as int;
    assert(m.subrange(1, 5) =~= wire::be32((6 + a + b) as i32));
    assert(m.subrange(5, 5 + a) =~= encode_utf8(key));
    assert(m.subrange(6 + a, 6 + a + b) =~= encode_utf8(value));
    assert(s.push((key, value)).drop_last() =~= s);
}

/// A name that a backend owns, that is fixed for a database or a transaction, or that is
/// a field of the StartupMessage is never set or reset at a checkout. Every other name
/// that the client and the backend differ in is brought in line.
pub proof fn fixed_names_are_left_alone(
    backend: Map<Seq<char>, Seq<char>>,
    client: Map<Seq<char>, Seq<char>>,
    k: Seq<char>,
)
    ensures
        ({
            let acts = sync_actions(backend, client);
            let fixed = {
                ||| k == "is_superuser"@
                ||| k == "session_authorization"@
                ||| k == "server_version"@
                ||| k == "server_version_num"@
                ||| k == "server_encoding"@
                ||| k == "integer_datetimes"@
                ||| k == "in_hot_standby"@
                ||| k == "session_user"@
                ||| k == "current_user"@
                ||| k == "block_size"@
                ||| k == "wal_block_size"@
                ||| k == "wal_segment_size"@
                ||| k == "max_index_keys"@
                ||| k == "max_identifier_length"@
                ||| k == "max_function_args"@
                ||| k == "data_checksums"@
                ||| k == "data_directory_mode"@
                ||| k == "gp_server_version"@
                ||| k == "gp_autovacuum_scope"@
                ||| k == "lc_collate"@
                ||| k == "lc_ctype"@
                ||| k == "transaction_isolation"@
                ||| k == "transaction_read_only"@
                ||| k == "transaction_deferrable"@
                ||| k == "user"@
                ||| k == "database"@
                ||| k == "replication"@
                ||| k == "options"@
            };
            &&& fixed ==> !acts.contains_key(k)
            &&& !fixed && client.contains_key(k) && !backend.contains_key(k) ==> acts.contains_key(k)
                && acts[k] == Action::SetTo(client[k])
            &&& !fixed && client.contains_key(k) && backend.contains_key(k) ==> (acts.contains_key(k)
                <==> client[k] != backend[k]) && (client[k] != backend[k] ==> acts[k]
                == Action::SetTo(client[k]))
            &&& !fixed && !client.contains_key(k) && backend.contains_key(k) ==> acts.contains_key(k)
                && acts[k] == Action::Reset
            &&& !client.contains_key(k) && !backend.contains_key(k) ==> !acts.contains_key(k)
        }),
{
}

/// What a backend reports during a session is followed for these names and no others.
pub proof fn reports_are_followed_by_name(
    m: Map<Seq<char>, Seq<char>>,
    key: Seq<char>,
    value: Seq<char>,
)
    ensures
        ({
            let k = canonical_name(key);
            let t = with_param(m, key, value, false);
            if k == "client_encoding"@ || k == "DateStyle"@ || k == "IntervalStyle"@ || k
                == "TimeZone"@ || k == "standard_conforming_strings"@ || k == "application_name"@ {
                t == m.insert(k, value)
            } else {
                t == m
            }
        }),
{
}

/// A change of one of these names changes how statements are planned, and the statements
/// of a backend are told apart by it; no other name does.
pub proof fn planning_depends_on_five_names(
    m: Map<Seq<char>, Seq<char>>,
    key: Seq<char>,
    value: Seq<char>,
)
    requires
        !(m.contains_key(canonical_name(key)) && m[canonical_name(key)] == value),
    ensures
        changes_planning(m, key, value, true) <==> canonical_name(key) == "search_path"@
            || canonical_name(key) == "default_transaction_isolation"@ || canonical_name(key)
            == "default_transaction_read_only"@ || canonical_name(key)
            == "default_text_search_config"@ || canonical_name(key) == "role"@,
        planner_part(m).contains_key(key) <==> m.contains_key(key) && (key == "search_path"@ || key
            == "default_transaction_isolation"@ || key == "default_transaction_read_only"@ || key
            == "default_text_search_config"@ || key == "role"@),
{
}

/// The canonical spelling of a name differs from it in upper and lower case alone.
pub proof fn canonical_names_keep_the_letters(name: Seq<char>)
    ensures
        text::ascii_lower(canonical_name(name)) == text::ascii_lower(name),
        canonical_name(name) == text::ascii_lower(name) || canonical_name(name) == "DateStyle"@
            || canonical_name(name) == "IntervalStyle"@ || canonical_name(name) == "TimeZone"@,
        text::ascii_lower(name) == "timezone"@ ==> canonical_name(name) == "TimeZone"@,
        text::ascii_lower(name) == "datestyle"@ ==> canonical_name(name) == "DateStyle"@,
        text::ascii_lower(name) == "intervalstyle"@ ==> canonical_name(name) == "IntervalStyle"@,
{
    reveal_strlit("datestyle");
    reveal_strlit("DateStyle");
    reveal_strlit("intervalstyle");
    reveal_strlit("IntervalStyle");
    reveal_strlit("timezone");
    reveal_strlit("TimeZone");
    let folded = text::ascii_lower(name);
    assert(text::ascii_lower("DateStyle"@) =~= "datestyle"@);
    assert(text::ascii_lower("IntervalStyle"@) =~= "intervalstyle"@);
    assert(text::ascii_lower("TimeZone"@) =~= "timezone"@);
    assert(text::ascii_lower(folded) =~= folded);
    assert("datestyle"@.len() == 9 && "intervalstyle"@.len() == 13 && "timezone"@.len() == 8);
}

/// Of several values for a name the last one counts.
pub proof fn last_value_counts(
    m: Map<Seq<char>, Seq<char>>,
    s: Seq<(Seq<char>, Seq<char>)>,
    key: Seq<char>,
    value: Seq<char>,
)
    ensures
        with_params(m, s.push((key, value)), true).contains_key(canonical_name(key)),
        with_params(m, s.push((key, value)), true)[canonical_name(key)] == value,
        forall|k: Seq<char>|
            k != canonical_name(key) ==> #[trigger] with_params(
                m,
                s.push((key, value)),
                true,
            ).contains_key(k) == with_params(m, s, true).contains_key(k),
        with_params(m, Seq::empty(), true) == m,
{
    assert(s.push((key, value)).drop_last() =~= s);
}

} // verus!

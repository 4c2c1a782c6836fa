//! Messages of the PostgreSQL protocol.
use bytes::BytesMut;
use vstd::prelude::*;
use vstd::slice::slice_subrange;
use vstd::string::*;
use vstd::utf8::{decode_utf8, encode_utf8, valid_utf8};
use crate::string_map::StringMap;
use crate::wire::{new_buffer, put_byte, put_bytes, put_number};
#[allow(unused_imports)]
use crate::string_map;
#[allow(unused_imports)]
use crate::wire;

verus! {

/// The largest message that is read into memory.
pub const MAX_MESSAGE_SIZE: i32 = 268435456;

/// The version number in a StartupMessage: 3.0.
pub const PROTOCOL_VERSION: i32 = 196608;

/// The number that four bytes stand for, the most significant first.
pub open spec fn number_at(s: Seq<u8>, at: int) -> i32 {
    let u: int = s[at] * 0x100_0000 + s[at + 1] * 0x1_0000 + s[at + 2] * 0x100 + s[at + 3];
    (if u >= 0x8000_0000 {
        u - 0x1_0000_0000
    } else {
        u
    }) as i32
}

/// Reading back a number that was written gives the number.
pub proof fn number_round_trip(n: i32)
    ensures
        number_at(wire::be32(n), 0) == n,
{
    let u: int = if n < 0 {
        n + 0x1_0000_0000
    } else {
        n as int
    };
    let b = wire::be32(n);
    assert(b[0] == u / 0x100_0000);
    assert(b[1] == u / 0x1_0000 % 0x100);
    assert(b[2] == u / 0x100 % 0x100);
    assert(b[3] == u % 0x100);
    assert(u == b[0] * 0x100_0000 + b[1] * 0x1_0000 + b[2] * 0x100 + b[3]);
}

/// Reads the number that stands at `at`.
pub fn read_number(s: &[u8], at: usize) -> (n: i32)
    requires
        at + 4 <= s.len(),
    ensures
        n == number_at(s@, at as int),
{
    let u: i64 = (s[at] as i64) * 0x100_0000 + (s[at + 1] as i64) * 0x1_0000 + (s[at + 2] as i64)
        * 0x100 + (s[at + 3] as i64);
    if u >= 0x8000_0000 {
        (u - 0x1_0000_0000) as i32
    } else {
        u as i32
    }
}

/// A message: its code, the length of what follows the code, and its body.
pub open spec fn frame(code: u8, body: Seq<u8>) -> Seq<u8> {
    seq![code] + wire::be32((body.len() + 4) as i32) + body
}

/// Appends a message to a buffer.
pub fn put_frame(b: &mut BytesMut, code: u8, body: &[u8])
    requires
        body.len() + 4 <= i32::MAX,
    ensures
        wire::held(*final(b)) == wire::held(*old(b)) + frame(code, body@),
{
    put_byte(b, code);
    put_number(b, (body.len() + 4) as i32);
    put_bytes(b, body);
    assert(wire::held(*b) =~= wire::held(*old(b)) + frame(code, body@));
}

/// A text with its terminator.
pub open spec fn c_string(s: Seq<char>) -> Seq<u8> {
    encode_utf8(s).push(0u8)
}

/// Appends a text with its terminator.
fn push_c_string(v: &mut Vec<u8>, s: &str)
    ensures
        final(v)@ == old(v)@ + c_string(s@),
{
    let mut bytes = s.as_bytes_vec();
    v.append(&mut bytes);
    v.push(0u8);
    assert(v@ =~= old(v)@ + c_string(s@));
}

/// A Query message.
pub open spec fn query_message(query: Seq<char>) -> Seq<u8> {
    frame(81u8, c_string(query))
}

/// The Query message for a simple query.
pub fn simple_query(query: &str) -> (b: BytesMut)
    requires
        encode_utf8(query@).len() + 5 <= i32::MAX,
    ensures
        wire::held(b) == query_message(query@),
{
    let mut body: Vec<u8> = Vec::new();
    push_c_string(&mut body, query);
    assert(body@ =~= c_string(query@));
    let mut b = new_buffer();
    put_frame(&mut b, 81u8, body.as_slice());
    assert(wire::held(b) =~= query_message(query@));
    b
}

/// A Sync message.
pub open spec fn sync_message() -> Seq<u8> {
    frame(83u8, Seq::empty())
}

/// Appends a Sync message.
pub fn put_sync(b: &mut BytesMut)
    ensures
        wire::held(*final(b)) == wire::held(*old(b)) + sync_message(),
{
    let body: Vec<u8> = Vec::new();
    assert(body@ =~= Seq::<u8>::empty());
    put_frame(b, 83u8, body.as_slice());
}

/// A Terminate message.
pub open spec fn terminate_message() -> Seq<u8> {
    frame(88u8, Seq::empty())
}

/// The Terminate message.
pub fn terminate() -> (b: BytesMut)
    ensures
        wire::held(b) == terminate_message(),
{
    let body: Vec<u8> = Vec::new();
    assert(body@ =~= Seq::<u8>::empty());
    let mut b = new_buffer();
    put_frame(&mut b, 88u8, body.as_slice());
    assert(wire::held(b) =~= terminate_message());
    b
}

/// The number that marks a CancelRequest.
pub const CANCEL_REQUEST_CODE: i32 = 80877102;

/// A CancelRequest, which has no code in front.
pub open spec fn cancel_message(process_id: i32, secret_key: i32) -> Seq<u8> {
    wire::be32(16) + wire::be32(CANCEL_REQUEST_CODE) + wire::be32(process_id) + wire::be32(secret_key)
}

/// The CancelRequest for the backend process with this key.
pub fn cancel_request(process_id: i32, secret_key: i32) -> (b: BytesMut)
    ensures
        wire::held(b) == cancel_message(process_id, secret_key),
{
    let mut b = new_buffer();
    put_number(&mut b, 16);
    put_number(&mut b, CANCEL_REQUEST_CODE);
    put_number(&mut b, process_id);
    put_number(&mut b, secret_key);
    assert(wire::held(b) =~= cancel_message(process_id, secret_key));
    b
}

/// A Close message for a prepared statement.
pub open spec fn close_message(name: Seq<char>) -> Seq<u8> {
    frame(67u8, seq![83u8] + c_string(name))
}

/// Appends the Close message for a prepared statement.
pub fn put_close(b: &mut BytesMut, name: &str)
    requires
        encode_utf8(name@).len() + 6 <= i32::MAX,
    ensures
        wire::held(*final(b)) == wire::held(*old(b)) + close_message(name@),
{
    let mut body: Vec<u8> = Vec::new();
    body.push(83u8);
    push_c_string(&mut body, name);
    assert(body@ =~= seq![83u8] + c_string(name@));
    put_frame(b, 67u8, body.as_slice());
}

/// The statement of a Parse message.
pub struct Parse {
    /// The text of the query.
    pub query: String,
    /// The object identifiers of the parameter types.
    pub param_types: Vec<i32>,
}

/// Numbers one behind the other.
pub open spec fn numbers(s: Seq<i32>) -> Seq<u8>
    decreases s.len(),
{
    if s.len() == 0 {
        Seq::empty()
    } else {
        numbers(s.drop_last()) + wire::be32(s.last())
    }
}

/// The two bytes of a count.
pub open spec fn count16(n: nat) -> Seq<u8> {
    seq![(n / 0x100) as u8, (n % 0x100) as u8]
}

/// A Parse message under a name of the pooler's choice.
pub open spec fn parse_message(name: Seq<char>, parse: Parse) -> Seq<u8> {
    frame(
        80u8,
        c_string(name) + c_string(parse.query@) + count16(parse.param_types@.len()) + numbers(
            parse.param_types@,
        ),
    )
}

/// Four bytes for each number.
pub proof fn numbers_len(s: Seq<i32>)
    ensures
        numbers(s).len() == 4 * s.len(),
    decreases s.len(),
{
    if s.len() > 0 {
        numbers_len(s.drop_last());
    }
}

/// Appends the four bytes of a number.
fn push_number(v: &mut Vec<u8>, n: i32)
    ensures
        final(v)@ == old(v)@ + wire::be32(n),
{
    let u: i64 = if n < 0 {
        (n as i64) + 0x1_0000_0000
    } else {
        n as i64
    };
    v.push((u / 0x100_0000) as u8);
    v.push((u / 0x1_0000 % 0x100) as u8);
    v.push((u / 0x100 % 0x100) as u8);
    v.push((u % 0x100) as u8);
    assert(v@ =~= old(v)@ + wire::be32(n));
}

impl Parse {
    /// Appends the Parse message under `name`.
    pub fn put_with_name(&self, b: &mut BytesMut, name: &str)
        requires
            self.param_types.len() <= 0x7fff,
            encode_utf8(name@).len() + encode_utf8(self.query@).len() + 4
                * self.param_types.len() + 8 <= i32::MAX,
        ensures
            wire::held(*final(b)) == wire::held(*old(b)) + parse_message(name@, *self),
    {
        let mut body: Vec<u8> = Vec::new();
        push_c_string(&mut body, name);
        push_c_string(&mut body, self.query.as_str());
        let n: usize = self.param_types.len();
        body.push((n / 0x100) as u8);
        body.push((n % 0x100) as u8);
        let ghost head = c_string(name@) + c_string(self.query@) + count16(n as nat);
        assert(body@ =~= head);
        let mut i: usize = 0;
        assert(self.param_types@.take(0) =~= Seq::<i32>::empty());
        assert(body@ =~= head + numbers(self.param_types@.take(0)));
        while i < n
            invariant
                i <= n == self.param_types.len(),
                body@ == head + numbers(self.param_types@.take(i as int)),
            decreases n - i,
        {
            push_number(&mut body, self.param_types[i]);
            proof {
                let t = self.param_types@;
                assert(t.take(i + 1).drop_last() =~= t.take(i as int));
                assert(body@ =~= head + numbers(t.take(i + 1)));
            }
            i = i + 1;
        }
        proof {
            assert(self.param_types@.take(n as int) =~= self.param_types@);
            numbers_len(self.param_types@);
        }
        put_frame(b, 80u8, body.as_slice());
    }
}

/// The entries of a StartupMessage that the operator configured.
pub open spec fn startup_entries(s: Seq<(Seq<char>, Seq<char>)>) -> Seq<u8>
    decreases s.len(),
{
    if s.len() == 0 {
        Seq::empty()
    } else {
        startup_entries(s.drop_last()) + c_string(s.last().0) + c_string(s.last().1)
    }
}

/// The body of a StartupMessage, after its length.
pub open spec fn startup_body(
    username: Seq<char>,
    database: Seq<char>,
    application_name: Seq<char>,
    parameters: Seq<(Seq<char>, Seq<char>)>,
) -> Seq<u8> {
    (wire::be32(PROTOCOL_VERSION) + c_string("user"@) + c_string(username) + c_string("database"@)
        + c_string(database) + c_string("application_name"@) + c_string(application_name)
        + startup_entries(parameters)).push(0u8)
}

/// A StartupMessage: its length and its body.
pub open spec fn startup_message(
    username: Seq<char>,
    database: Seq<char>,
    application_name: Seq<char>,
    parameters: Seq<(Seq<char>, Seq<char>)>,
) -> Seq<u8> {
    let body = startup_body(username, database, application_name, parameters);
    wire::be32((body.len() + 4) as i32) + body
}

/// The StartupMessage for a login, `None` if it is longer than a message can
/// be.
pub fn startup(
    username: &str,
    database: &str,
    application_name: &str,
    parameters: &StringMap<String>,
) -> (r: Option<BytesMut>)
    ensures
        match r {
            Some(b) => wire::held(b) == startup_message(
                username@,
                database@,
                application_name@,
                string_map::text_listing(parameters.listing()),
            ),
            None => startup_body(
                username@,
                database@,
                application_name@,
                string_map::text_listing(parameters.listing()),
            ).len() + 4 > i32::MAX,
        },
{
    let ghost s = string_map::text_listing(parameters.listing());
    let mut body: Vec<u8> = Vec::new();
    push_number(&mut body, PROTOCOL_VERSION);
    push_c_string(&mut body, "user");
    push_c_string(&mut body, username);
    push_c_string(&mut body, "database");
    push_c_string(&mut body, database);
    push_c_string(&mut body, "application_name");
    push_c_string(&mut body, application_name);
    let ghost head = body@;
    let n: usize = parameters.len();
    let mut i: usize = 0;
    proof {
        assert(s.take(0) =~= Seq::<(Seq<char>, Seq<char>)>::empty());
        assert(body@ =~= head + startup_entries(s.take(0)));
    }
    while i < n
        invariant
            i <= n == s.len(),
            s == string_map::text_listing(parameters.listing()),
            body@ == head + startup_entries(s.take(i as int)),
        decreases n - i,
    {
        push_c_string(&mut body, parameters.key(i).as_str());
        push_c_string(&mut body, parameters.value(i).as_str());
        proof {
            assert(s.take(i + 1).drop_last() =~= s.take(i as int));
            assert(body@ =~= head + startup_entries(s.take(i + 1)));
        }
        i = i + 1;
    }
    body.push(0u8);
    proof {
        assert(s.take(n as int) =~= s);
        assert(body@ =~= startup_body(username@, database@, application_name@, s));
    }
    if body.len() > 0x7fff_fffb {
        return None;
    }
    let mut b = new_buffer();
    put_number(&mut b, (body.len() + 4) as i32);
    put_bytes(&mut b, body.as_slice());
    assert(wire::held(b) =~= startup_message(username@, database@, application_name@, s));
    Some(b)
}

/// `String::from_utf8_lossy`: the text of bytes, with U+FFFD where they are no
/// UTF-8.
pub uninterp spec fn lossy_text(bytes: Seq<u8>) -> Seq<char>;

/// `String::from_utf8_lossy`: bytes that are UTF-8 give their text, the result
/// is a function of the bytes in any case.
#[verifier::external_body]
pub(crate) fn decode_lossy(bytes: &[u8]) -> (s: String)
    ensures
        s@ == lossy_text(bytes@),
        valid_utf8(bytes@) ==> s@ == decode_utf8(bytes@),
{
    String::from_utf8_lossy(bytes).into_owned()
}

/// The place of the first zero byte at or after `from`, the end if there is
/// none.
pub open spec fn zero_from(s: Seq<u8>, from: int) -> int
    decreases s.len() - from,
{
    if from >= s.len() || from < 0 {
        s.len() as int
    } else if s[from] == 0 {
        from
    } else {
        zero_from(s, from + 1)
    }
}

/// Where `zero_from` lies.
pub proof fn zero_from_bounds(s: Seq<u8>, from: int)
    requires
        0 <= from <= s.len(),
    ensures
        from <= zero_from(s, from) <= s.len(),
    decreases s.len() - from,
{
    if from < s.len() && s[from] != 0 {
        zero_from_bounds(s, from + 1);
    }
}

/// Finds the first zero byte at or after `from`.
fn find_zero(s: &[u8], from: usize) -> (r: usize)
    requires
        from <= s.len(),
    ensures
        r == zero_from(s@, from as int),
        from <= r <= s.len(),
{
    let mut i: usize = from;
    while i < s.len() && s[i] != 0
        invariant
            from <= i <= s.len(),
            zero_from(s@, i as int) == zero_from(s@, from as int),
        decreases s.len() - i,
    {
        i = i + 1;
    }
    i
}

/// The text that begins at `from` and ends before the next zero byte, and the
/// place behind that byte.
pub open spec fn text_at(s: Seq<u8>, from: int) -> Option<(Seq<char>, int)> {
    let end = zero_from(s, from);
    if end < s.len() {
        Some((lossy_text(s.subrange(from, end)), end + 1))
    } else {
        None
    }
}

/// Reads the text that begins at `from`.
pub fn read_string(s: &[u8], from: usize) -> (r: Option<(String, usize)>)
    requires
        from <= s.len(),
    ensures
        match r {
            Some((t, next)) => text_at(s@, from as int) == Some((t@, next as int)) && from < next
                <= s.len(),
            None => text_at(s@, from as int).is_none(),
        },
{
    let end = find_zero(s, from);
    if end < s.len() {
        Some((decode_lossy(slice_subrange(s, from, end)), end + 1))
    } else {
        None
    }
}

/// The two texts of a ParameterStatus message.
pub open spec fn status_of(body: Seq<u8>) -> Option<(Seq<char>, Seq<char>)> {
    match text_at(body, 0) {
        Some((key, next)) => match text_at(body, next) {
            Some((value, _)) => Some((key, value)),
            None => None,
        },
        None => None,
    }
}

/// Reads the body of a ParameterStatus message.
pub fn read_parameter_status(body: &[u8]) -> (r: Option<(String, String)>)
    ensures
        match r {
            Some((k, v)) => status_of(body@) == Some((k@, v@)),
            None => status_of(body@).is_none(),
        },
{
    match read_string(body, 0) {
        Some((key, next)) => {
            match read_string(body, next) {
                Some((value, _end)) => Some((key, value)),
                None => None,
            }
        },
        None => None,
    }
}

/// The fields of an ErrorResponse or NoticeResponse, each with its tag; `None`
/// if the list is not closed.
pub open spec fn error_fields(s: Seq<u8>) -> Option<Seq<(u8, Seq<u8>)>>
    decreases s.len(),
{
    if s.len() == 0 {
        None
    } else if s[0] == 0 {
        Some(Seq::empty())
    } else {
        let end = zero_from(s, 1);
        if end < 1 || end >= s.len() {
            None
        } else {
            match error_fields(s.skip(end + 1)) {
                Some(rest) => Some(seq![(s[0], s.subrange(1, end))] + rest),
                None => None,
            }
        }
    }
}

/// The text of the last field with this tag.
pub open spec fn field_text(fields: Seq<(u8, Seq<u8>)>, tag: u8) -> Option<Seq<char>>
    decreases fields.len(),
{
    if fields.len() == 0 {
        None
    } else if fields.last().0 == tag {
        Some(lossy_text(fields.last().1))
    } else {
        field_text(fields.drop_last(), tag)
    }
}

/// A text, or the empty one.
pub open spec fn or_empty(t: Option<Seq<char>>) -> Seq<char> {
    match t {
        Some(x) => x,
        None => Seq::empty(),
    }
}

/// What a backend reports in an ErrorResponse or a NoticeResponse.
#[derive(Debug)]
pub struct PgErrorMsg {
    pub severity: String,
    pub code: String,
    pub message: String,
    pub hint: Option<String>,
    pub detail: Option<String>,
}

/// The text of an optional string.
pub open spec fn opt_text(s: Option<String>) -> Option<Seq<char>> {
    match s {
        Some(t) => Some(t@),
        None => None,
    }
}

/// `m` says what the fields say.
pub open spec fn reports(m: PgErrorMsg, fields: Seq<(u8, Seq<u8>)>) -> bool {
    &&& m.severity@ == or_empty(field_text(fields, 83u8))
    &&& m.code@ == or_empty(field_text(fields, 67u8))
    &&& m.message@ == or_empty(field_text(fields, 77u8))
    &&& opt_text(m.hint) == field_text(fields, 72u8)
    &&& opt_text(m.detail) == field_text(fields, 68u8)
}

impl PgErrorMsg {
    /// Reads the body of an ErrorResponse or NoticeResponse.
    pub fn parse(body: &[u8]) -> (r: Option<PgErrorMsg>)
        ensures
            match r {
                Some(m) => error_fields(body@).is_some() && reports(
                    m,
                    error_fields(body@).unwrap(),
                ),
                None => error_fields(body@).is_none(),
            },
    {
        let mut m = PgErrorMsg {
            severity: String::new(),
            code: String::new(),
            message: String::new(),
            hint: None,
            detail: None,
        };
        let ghost mut done: Seq<(u8, Seq<u8>)> = Seq::empty();
        let mut at: usize = 0;
        proof {
            assert(body@.skip(0) =~= body@);
            assert(forall|x: Seq<(u8, Seq<u8>)>| #[trigger] (done + x) =~= x);
        }
        while at < body.len()
            invariant
                at <= body.len(),
                reports(m, done),
                error_fields(body@) == (match error_fields(body@.skip(at as int)) {
                    Some(rest) => Some(done + rest),
                    None => None,
                }),
            decreases body.len() - at,
        {
            let ghost here = body@.skip(at as int);
            let tag: u8 = body[at];
            if tag == 0 {
                assert(done + Seq::<(u8, Seq<u8>)>::empty() =~= done);
                return Some(m);
            }
            let end = find_zero(body, at + 1);
            proof {
                zero_from_skip(body@, at as int, at + 1);
            }
            if end >= body.len() {
                return None;
            }
            let text = decode_lossy(slice_subrange(body, at + 1, end));
            proof {
                let f = (tag, body@.subrange(at + 1, end as int));
                assert(here.subrange(1, end - at) =~= body@.subrange(at + 1, end as int));
                assert(here.skip(end - at + 1) =~= body@.skip(end + 1));
                assert(done.push(f).drop_last() =~= done);
                assert(done.push(f).last() == f);
                match error_fields(body@.skip(end + 1)) {
                    Some(rest) => {
                        assert(done + (seq![f] + rest) =~= done.push(f) + rest);
                    },
                    None => {},
                }
                done = done.push(f);
            }
            if tag == 83 {
                m.severity = text;
            } else if tag == 67 {
                m.code = text;
            } else if tag == 77 {
                m.message = text;
            } else if tag == 72 {
                m.hint = Some(text);
            } else if tag == 68 {
                m.detail = Some(text);
            }
            at = end + 1;
        }
        None
    }
}

/// Finding a zero byte in a tail is finding it in the whole.
pub proof fn zero_from_skip(s: Seq<u8>, at: int, from: int)
    requires
        0 <= at <= from <= s.len(),
    ensures
        zero_from(s.skip(at), from - at) == zero_from(s, from) - at,
    decreases s.len() - from,
{
    if from < s.len() && s[from] != 0 {
        zero_from_skip(s, at, from + 1);
    }
}

/// A message says how long it is: behind its code stands the number of bytes that
/// follow, itself included, and then its body.
pub proof fn frames_tell_their_length(code: u8, body: Seq<u8>)
    requires
        body.len() + 4 <= i32::MAX,
    ensures
        frame(code, body).len() == body.len() + 5,
        frame(code, body)[0] == code,
        number_at(frame(code, body), 1) == frame(code, body).len() - 1,
        frame(code, body).skip(5) == body,
{
    let f = frame(code, body);
    let n = (body.len() + 4) as i32;
    number_round_trip(n);
    let b = wire::be32(n);
    assert(f[1] == b[0] && f[2] == b[1] && f[3] == b[2] && f[4] == b[3]);
    assert(f.skip(5) =~= body);
}

/// A Query message is a `Q` with the text of the query and a zero byte.
pub proof fn query_message_holds_the_query(query: Seq<char>)
    requires
        encode_utf8(query).len() + 5 <= i32::MAX,
    ensures
        ({
            let m = query_message(query);
            let n = encode_utf8(query).len() as int;
            &&& m.len() == n + 6
            &&& m[0] as char == 'Q'
            &&& number_at(m, 1) == n + 5
            &&& m.subrange(5, 5 + n) == encode_utf8(query)
            &&& m[5 + n] == 0
        }),
{
    frames_tell_their_length(81u8, c_string(query));
    let m = query_message(query);
    let n = encode_utf8(query).len() as int;
    assert(m.skip(5)[n] == 0);
    assert(m.subrange(5, 5 + n) =~= m.skip(5).subrange(0, n));
    assert(c_string(query).subrange(0, n) =~= encode_utf8(query));
}

/// A Close message is a `C` that names a statement, with an `S` in front of the name.
pub proof fn close_message_names_the_statement(name: Seq<char>)
    requires
        encode_utf8(name).len() + 6 <= i32::MAX,
    ensures
        ({
            let m = close_message(name);
            let n = encode_utf8(name).len() as int;
            &&& m.len() == n + 7
            &&& m[0] as char == 'C'
            &&& number_at(m, 1) == n + 6
            &&& m[5] as char == 'S'
            &&& m.subrange(6, 6 + n) == encode_utf8(name)
            &&& m[6 + n] == 0
        }),
{
    let body = seq![83u8] + c_string(name);
    frames_tell_their_length(67u8, body);
    let m = close_message(name);
    let n = encode_utf8(name).len() as int;
    assert(m.skip(5)[0] == 83u8);
    assert(m.skip(5)[n + 1] == 0);
    assert(m.subrange(6, 6 + n) =~= m.skip(5).subrange(1, 1 + n));
    assert(body.subrange(1, 1 + n) =~= encode_utf8(name));
}

/// A Parse message is a `P` with the name, the query, the number of the parameter types
/// and the types themselves.
pub proof fn parse_message_holds_the_statement(name: Seq<char>, parse: Parse)
    requires
        parse.param_types@.len() <= 0x7fff,
        encode_utf8(name).len() + encode_utf8(parse.query@).len() + 4 * parse.param_types@.len() + 8
            <= i32::MAX,
    ensures
        ({
            let m = parse_message(name, parse);
            let a = encode_utf8(name).len() as int;
            let b = encode_utf8(parse.query@).len() as int;
            let k = parse.param_types@.len() as int;
            let types = 9 + a + b;
            &&& m[0] as char == 'P'
            &&& m.len() == types + 4 * k
            &&& number_at(m, 1) == m.len() - 1
            &&& m.subrange(5, 5 + a) == encode_utf8(name)
            &&& m[5 + a] == 0
            &&& m.subrange(6 + a, 6 + a + b) == encode_utf8(parse.query@)
            &&& m[6 + a + b] == 0
            &&& m[7 + a + b] * 0x100 + m[8 + a + b] == k
            &&& forall|i: int|
                0 <= i < k ==> #[trigger] number_at(m.skip(types), 4 * i) == parse.param_types@[i]
        }),
{
    let types = numbers(parse.param_types@);
    let head = c_string(name) + c_string(parse.query@) + count16(parse.param_types@.len());
    let body = head + types;
    assert(body =~= c_string(name) + c_string(parse.query@) + count16(parse.param_types@.len())
        + types);
    numbers_len(parse.param_types@);
    frames_tell_their_length(80u8, body);
    let m = parse_message(name, parse);
    let a = encode_utf8(name).len() as int;
    let b = encode_utf8(parse.query@).len() as int;
    let k = parse.param_types@.len() as int;
    assert(m.skip(5) == body);
    assert(m.subrange(5, 5 + a) =~= encode_utf8(name)) by {
        assert forall|i: int| 0 <= i < a implies m[5 + i] == encode_utf8(name)[i] by {
            assert(m.skip(5)[i] == body[i]);
        }
    }
    assert(m.skip(5)[a] == body[a]);
    assert(m.subrange(6 + a, 6 + a + b) =~= encode_utf8(parse.query@)) by {
        assert forall|i: int| 0 <= i < b implies m[6 + a + i] == encode_utf8(parse.query@)[i] by {
            assert(m.skip(5)[a + 1 + i] == body[a + 1 + i]);
        }
    }
    assert(m.skip(5)[1 + a + b] == body[1 + a + b]);
    assert(m.skip(5)[2 + a + b] == body[2 + a + b]);
    assert(m.skip(5)[3 + a + b] == body[3 + a + b]);
    assert(m.skip(9 + a + b) =~= types) by {
        assert forall|i: int| 0 <= i < types.len() implies m[9 + a + b + i] == types[i] by {
            assert(m.skip(5)[4 + a + b + i] == body[4 + a + b + i]);
        }
    }
    assert forall|i: int| 0 <= i < k implies #[trigger] number_at(m.skip(9 + a + b), 4 * i)
        == parse.param_types@[i] by {
        numbers_read_back(parse.param_types@, i);
    }
}

/// Each of a row of numbers can be read back.
proof fn numbers_read_back(s: Seq<i32>, i: int)
    requires
        0 <= i < s.len(),
    ensures
        number_at(numbers(s), 4 * i) == s[i],
    decreases s.len(),
{
    numbers_len(s.drop_last());
    let front = numbers(s.drop_last());
    let all = numbers(s);
    let b = wire::be32(s.last());
    if i == s.len() - 1 {
        number_round_trip(s.last());
        assert(all[4 * i] == b[0] && all[4 * i + 1] == b[1] && all[4 * i + 2] == b[2] && all[4 * i
            + 3] == b[3]);
    } else {
        numbers_read_back(s.drop_last(), i);
        assert(all[4 * i] == front[4 * i] && all[4 * i + 1] == front[4 * i + 1] && all[4 * i + 2]
            == front[4 * i + 2] && all[4 * i + 3] == front[4 * i + 3]);
    }
}

/// Sync and Terminate are an `S` and an `X` without a body.
pub proof fn short_messages_are_bare()
    ensures
        sync_message().len() == 5,
        sync_message()[0] as char == 'S',
        number_at(sync_message(), 1) == 4,
        terminate_message().len() == 5,
        terminate_message()[0] as char == 'X',
        number_at(terminate_message(), 1) == 4,
{
    frames_tell_their_length(83u8, Seq::empty());
    frames_tell_their_length(88u8, Seq::empty());
}

/// A CancelRequest holds its length, the number that marks it, the process and its key,
/// in this order.
pub proof fn cancel_message_names_the_process(process_id: i32, secret_key: i32)
    ensures
        ({
            let m = cancel_message(process_id, secret_key);
            &&& m.len() == 16
            &&& number_at(m, 0) == 16
            &&& number_at(m, 4) == 80877102
            &&& number_at(m, 8) == process_id
            &&& number_at(m, 12) == secret_key
        }),
{
    number_round_trip(16);
    number_round_trip(80877102);
    number_round_trip(process_id);
    number_round_trip(secret_key);
    let m = cancel_message(process_id, secret_key);
    let a = wire::be32(16);
    let b = wire::be32(80877102);
    let c = wire::be32(process_id);
    let d = wire::be32(secret_key);
    assert(m[0] == a[0] && m[1] == a[1] && m[2] == a[2] && m[3] == a[3]);
    assert(m[4] == b[0] && m[5] == b[1] && m[6] == b[2] && m[7] == b[3]);
    assert(m[8] == c[0] && m[9] == c[1] && m[10] == c[2] && m[11] == c[3]);
    assert(m[12] == d[0] && m[13] == d[1] && m[14] == d[2] && m[15] == d[3]);
}

/// A StartupMessage holds its length and the version of the protocol, then texts in
/// pairs: the user, the database and the application name under their names, each
/// configured parameter under its own, in their order; a zero byte closes it.
pub proof fn startup_message_names_the_login(
    username: Seq<char>,
    database: Seq<char>,
    application_name: Seq<char>,
    parameters: Seq<(Seq<char>, Seq<char>)>,
)
    requires
        startup_body(username, database, application_name, parameters).len() + 4 <= i32::MAX,
    ensures
        ({
            let m = startup_message(username, database, application_name, parameters);
            &&& number_at(m, 0) == m.len()
            &&& number_at(m, 4) == 0x3_0000
            &&& m.last() == 0
            &&& m.skip(8) == (c_string("user"@) + c_string(username) + c_string("database"@)
                + c_string(database) + c_string("application_name"@) + c_string(application_name)
                + startup_entries(parameters)).push(0u8)
        }),
        parameters.len() == 0 ==> startup_entries(parameters).len() == 0,
        forall|k: Seq<char>, v: Seq<char>| #[trigger]
            startup_entries(parameters.push((k, v))) == startup_entries(parameters) + c_string(k)
                + c_string(v),
{
    let body = startup_body(username, database, application_name, parameters);
    let n = (body.len() + 4) as i32;
    let m = startup_message(username, database, application_name, parameters);
    number_round_trip(n);
    number_round_trip(PROTOCOL_VERSION);
    let a = wire::be32(n);
    let b = wire::be32(PROTOCOL_VERSION);
    assert(m[0] == a[0] && m[1] == a[1] && m[2] == a[2] && m[3] == a[3]);
    assert(m[4] == body[0] && m[5] == body[1] && m[6] == body[2] && m[7] == body[3]);
    assert(body[0] == b[0] && body[1] == b[1] && body[2] == b[2] && body[3] == b[3]);
    assert(m.skip(8) =~= (c_string("user"@) + c_string(username) + c_string("database"@) + c_string(
        database,
    ) + c_string("application_name"@) + c_string(application_name) + startup_entries(
        parameters,
    )).push(0u8));
    assert forall|k: Seq<char>, v: Seq<char>| #[trigger]
        startup_entries(parameters.push((k, v))) == startup_entries(parameters) + c_string(k)
            + c_string(v) by {
        assert(parameters.push((k, v)).drop_last() =~= parameters);
    }
}

/// The place of the first zero byte.
pub proof fn zero_from_is_first(s: Seq<u8>, from: int, end: int)
    requires
        0 <= from <= end < s.len(),
        s[end] == 0,
        forall|i: int| from <= i < end ==> s[i] != 0,
    ensures
        zero_from(s, from) == end,
    decreases end - from,
{
    if from < end {
        zero_from_is_first(s, from + 1, end);
    }
}

/// The fields of an error are read as they were written: each is a tag, its bytes and a
/// zero byte, and a zero byte closes the list.
pub proof fn error_fields_are_read_back(tag: u8, bytes: Seq<u8>, rest: Seq<u8>)
    requires
        tag != 0,
        forall|i: int| 0 <= i < bytes.len() ==> bytes[i] != 0,
    ensures
        error_fields(seq![0u8] + rest) == Some(Seq::<(u8, Seq<u8>)>::empty()),
        error_fields(seq![tag] + bytes + seq![0u8] + rest) == match error_fields(rest) {
            Some(fields) => Some(seq![(tag, bytes)] + fields),
            None => None,
        },
        error_fields(seq![tag] + bytes).is_none(),
{
    let s = seq![tag] + bytes + seq![0u8] + rest;
    let end = 1 + bytes.len() as int;
    assert forall|i: int| 1 <= i < end implies s[i] != 0 by {
        assert(s[i] == bytes[i - 1]);
    }
    zero_from_is_first(s, 1, end);
    assert(s.skip(end + 1) =~= rest);
    assert(s.subrange(1, end) =~= bytes);
    let open = seq![tag] + bytes;
    zero_from_bounds(open, 1);
    no_zero(open, 1);
}

/// Where there is no zero byte none is found.
proof fn no_zero(s: Seq<u8>, from: int)
    requires
        0 <= from <= s.len(),
        forall|i: int| from <= i < s.len() ==> s[i] != 0,
    ensures
        zero_from(s, from) == s.len(),
    decreases s.len() - from,
{
    if from < s.len() {
        no_zero(s, from + 1);
    }
}

/// The text of a field is that of the last one with its tag, and there is none without
/// such a field.
pub proof fn last_field_counts(fields: Seq<(u8, Seq<u8>)>, tag: u8, bytes: Seq<u8>, other: u8)
    ensures
        field_text(fields.push((tag, bytes)), tag) == Some(lossy_text(bytes)),
        other != tag ==> field_text(fields.push((tag, bytes)), other) == field_text(fields, other),
        field_text(Seq::empty(), other).is_none(),
{
    assert(fields.push((tag, bytes)).drop_last() =~= fields);
}

/// A ParameterStatus holds two texts, each closed by a zero byte.
pub proof fn status_is_read_back(key: Seq<u8>, value: Seq<u8>)
    requires
        forall|i: int| 0 <= i < key.len() ==> key[i] != 0,
        forall|i: int| 0 <= i < value.len() ==> value[i] != 0,
    ensures
        status_of(key.push(0u8) + value.push(0u8)) == Some((lossy_text(key), lossy_text(value))),
{
    let s = key.push(0u8) + value.push(0u8);
    let a = key.len() as int;
    let b = a + 1 + value.len();
    assert forall|i: int| 0 <= i < a implies s[i] != 0 by {
        assert(s[i] == key[i]);
    }
    zero_from_is_first(s, 0, a);
    assert forall|i: int| a + 1 <= i < b implies s[i] != 0 by {
        assert(s[i] == value[i - a - 1]);
    }
    zero_from_is_first(s, a + 1, b);
    assert(s.subrange(0, a) =~= key);
    assert(s.subrange(a + 1, b) =~= value);
}

} // verus!

//! Digests of configuration values: two configurations with the same digest are
//! taken for the same.
use std::collections::hash_map::DefaultHasher;
use std::hash::Hasher;
use vstd::prelude::*;
#[allow(unused_imports)]
use vstd::std_specs::hash::*;
use crate::string_map::StringMap;
#[allow(unused_imports)]
use crate::messages;
#[allow(unused_imports)]
use crate::string_map;

verus! {

/// The digest of what was written.
pub open spec fn digest_of(writes: Seq<Seq<u8>>) -> u64 {
    DefaultHasher::spec_finish(writes)
}

/// How a number is written.
pub open spec fn number_writes(n: u64) -> Seq<Seq<u8>> {
    seq![vstd::bytes::spec_u64_to_le_bytes(n)]
}

/// How a flag is written.
pub open spec fn flag_writes(b: bool) -> Seq<Seq<u8>> {
    seq![seq![
        if b {
            1u8
        } else {
            0u8
        },
    ]]
}

/// How a text is written: its bytes and an end that no text holds.
pub open spec fn text_writes(s: Seq<char>) -> Seq<Seq<u8>> {
    seq![vstd::utf8::encode_utf8(s), seq![0xffu8]]
}

/// How a text that may be missing is written.
pub open spec fn opt_text_writes(s: Option<Seq<char>>) -> Seq<Seq<u8>> {
    match s {
        Some(t) => number_writes(1) + text_writes(t),
        None => number_writes(0),
    }
}

/// How a number that may be missing is written.
pub open spec fn opt_number_writes(n: Option<u64>) -> Seq<Seq<u8>> {
    match n {
        Some(n) => number_writes(1) + number_writes(n),
        None => number_writes(0),
    }
}

/// How the entries of a listing are written.
pub open spec fn entries_writes(s: Seq<(Seq<char>, Seq<char>)>) -> Seq<Seq<u8>>
    decreases s.len(),
{
    if s.len() == 0 {
        Seq::empty()
    } else {
        entries_writes(s.drop_last()) + text_writes(s.last().0) + text_writes(s.last().1)
    }
}

/// How a map is written: the number of its entries, and the entries in the
/// order of their keys.
pub open spec fn map_writes(m: Map<Seq<char>, Seq<char>>) -> Seq<Seq<u8>> {
    let s = string_map::in_order(m);
    number_writes(s.len() as u64) + entries_writes(s)
}

/// How a list of texts is written.
pub open spec fn list_writes(s: Seq<Seq<char>>) -> Seq<Seq<u8>>
    decreases s.len(),
{
    if s.len() == 0 {
        Seq::empty()
    } else {
        list_writes(s.drop_last()) + text_writes(s.last())
    }
}

/// Writes a number.
pub fn write_number(h: &mut DefaultHasher, n: u64)
    ensures
        final(h)@ == old(h)@ + number_writes(n),
{
    let bytes = vstd::bytes::u64_to_le_bytes(n);
    h.write(bytes.as_slice());
    assert(h@ =~= old(h)@ + number_writes(n));
}

/// Writes a flag.
pub fn write_flag(h: &mut DefaultHasher, b: bool)
    ensures
        final(h)@ == old(h)@ + flag_writes(b),
{
    let bytes: [u8; 1] = [if b {
            1u8
        } else {
            0u8
        }];
    h.write(&bytes);
    proof {
        assert(bytes@ =~= flag_writes(b)[0]);
        assert(h@ =~= old(h)@ + flag_writes(b));
    }
}

/// Writes a text.
pub fn write_text(h: &mut DefaultHasher, s: &str)
    ensures
        final(h)@ == old(h)@ + text_writes(s@),
{
    h.write(s.as_bytes());
    let end: [u8; 1] = [0xffu8];
    h.write(&end);
    proof {
        assert(end@ =~= seq![0xffu8]);
        assert(h@ =~= old(h)@ + text_writes(s@));
    }
}

/// Writes a text that may be missing.
pub fn write_opt_text(h: &mut DefaultHasher, s: &Option<String>)
    ensures
        final(h)@ == old(h)@ + opt_text_writes(messages::opt_text(*s)),
{
    match s {
        Some(t) => {
            write_number(h, 1);
            write_text(h, t.as_str());
            assert(h@ =~= old(h)@ + opt_text_writes(messages::opt_text(*s)));
        },
        None => write_number(h, 0),
    }
}

/// Writes a number that may be missing.
pub fn write_opt_number(h: &mut DefaultHasher, n: Option<u64>)
    ensures
        final(h)@ == old(h)@ + opt_number_writes(n),
{
    match n {
        Some(n) => {
            write_number(h, 1);
            write_number(h, n);
            assert(h@ =~= old(h)@ + opt_number_writes(Some(n)));
        },
        None => write_number(h, 0),
    }
}

/// Writes a map.
pub fn write_map(h: &mut DefaultHasher, m: &StringMap<String>)
    ensures
        final(h)@ == old(h)@ + map_writes(string_map::texts(m@)),
{
    let entries = m.sorted();
    let ghost s = string_map::text_listing(string_map::listing_of(entries@));
    let len: usize = entries.len();
    write_number(h, len as u64);
    let ghost head = h@;
    let mut i: usize = 0;
    proof {
        assert(s.take(0) =~= Seq::<(Seq<char>, Seq<char>)>::empty());
        assert(head =~= head + entries_writes(s.take(0)));
    }
    while i < len
        invariant
            i <= len == s.len(),
            len == entries@.len(),
            s == string_map::text_listing(string_map::listing_of(entries@)),
            h@ == head + entries_writes(s.take(i as int)),
        decreases len - i,
    {
        write_text(h, entries[i].0.as_str());
        write_text(h, entries[i].1.as_str());
        proof {
            assert(s.take(i + 1).drop_last() =~= s.take(i as int));
            assert(h@ =~= head + entries_writes(s.take(i + 1)));
        }
        i = i + 1;
    }
    proof {
        assert(s.take(len as int) =~= s);
        assert(h@ =~= old(h)@ + map_writes(string_map::texts(m@)));
    }
}

/// The texts of a list.
pub open spec fn list_texts(list: Seq<String>) -> Seq<Seq<char>> {
    Seq::new(list.len(), |i: int| list[i]@)
}

/// How a list that may be missing is written.
pub open spec fn opt_list_writes(list: Option<Vec<String>>) -> Seq<Seq<u8>> {
    match list {
        Some(v) => number_writes(1) + number_writes(v@.len() as u64) + list_writes(
            list_texts(v@),
        ),
        None => number_writes(0),
    }
}

/// Writes a list that may be missing.
pub fn write_opt_list(h: &mut DefaultHasher, list: &Option<Vec<String>>)
    ensures
        final(h)@ == old(h)@ + opt_list_writes(*list),
{
    match list {
        Some(v) => {
            let len: usize = v.len();
            write_number(h, 1);
            write_number(h, len as u64);
            let ghost head = h@;
            let ghost s = list_texts(v@);
            let mut i: usize = 0;
            proof {
                assert(s.take(0) =~= Seq::<Seq<char>>::empty());
                assert(head =~= head + list_writes(s.take(0)));
            }
            while i < len
                invariant
                    i <= len == s.len(),
                    len == v@.len(),
                    s == list_texts(v@),
                    h@ == head + list_writes(s.take(i as int)),
                decreases len - i,
            {
                write_text(h, v[i].as_str());
                proof {
                    assert(s.take(i + 1).drop_last() =~= s.take(i as int));
                    assert(h@ =~= head + list_writes(s.take(i + 1)));
                }
                i = i + 1;
            }
            proof {
                assert(s.take(len as int) =~= s);
                assert(h@ =~= old(h)@ + opt_list_writes(*list));
            }
        },
        None => write_number(h, 0),
    }
}

/// The digest of a map of parameters.
pub fn map_digest(m: &StringMap<String>) -> (r: u64)
    ensures
        r == digest_of(map_writes(string_map::texts(m@))),
{
    let mut h = DefaultHasher::new();
    write_map(&mut h, m);
    assert(h@ =~= map_writes(string_map::texts(m@)));
    h.finish()
}

/// These writes stand among all writes from this place on.
#[verifier::opaque]
pub open spec fn stands_at(w: Seq<Seq<u8>>, at: int, x: Seq<Seq<u8>>) -> bool {
    0 <= at && at + x.len() <= w.len() && w.subrange(at, at + x.len()) == x
}

/// Two parts, one behind the other.
pub proof fn parts_stand(w: Seq<Seq<u8>>, at: int, x: Seq<Seq<u8>>, y: Seq<Seq<u8>>)
    requires
        stands_at(w, at, x + y),
    ensures
        stands_at(w, at, x),
        stands_at(w, at + x.len(), y),
{
    reveal(stands_at);
    let z = w.subrange(at, at + x.len() + y.len());
    assert(z == x + y);
    assert(w.subrange(at, at + x.len()) =~= x) by {
        assert forall|i: int| 0 <= i < x.len() implies w[at + i] == x[i] by {
            assert(z[i] == (x + y)[i]);
        }
    }
    assert(w.subrange(at + x.len(), at + x.len() + y.len()) =~= y) by {
        assert forall|i: int| 0 <= i < y.len() implies w[at + x.len() + i] == y[i] by {
            assert(z[x.len() + i] == (x + y)[x.len() + i]);
        }
    }
}

/// All writes stand at the beginning.
pub proof fn whole_stands(w: Seq<Seq<u8>>)
    ensures
        stands_at(w, 0, w),
{
    reveal(stands_at);
    assert(w.subrange(0, w.len() as int) =~= w);
}

/// What stands at a place.
proof fn write_stands(w: Seq<Seq<u8>>, at: int, x: Seq<Seq<u8>>, i: int)
    requires
        stands_at(w, at, x),
        0 <= i < x.len(),
    ensures
        w[at + i] == x[i],
{
    reveal(stands_at);
    assert(w.subrange(at, at + x.len())[i] == x[i]);
}

/// The bytes of a number tell the number.
proof fn number_bytes_tell(a: u64, b: u64)
    ensures
        vstd::bytes::spec_u64_to_le_bytes(a) == vstd::bytes::spec_u64_to_le_bytes(b) ==> a == b,
{
    vstd::bytes::lemma_auto_spec_u64_to_from_le_bytes();
}

/// The bytes of a text tell the text.
proof fn text_bytes_tell(a: Seq<char>, b: Seq<char>)
    ensures
        vstd::utf8::encode_utf8(a) == vstd::utf8::encode_utf8(b) ==> a == b,
{
    vstd::utf8::encode_utf8_decode_utf8(a);
    vstd::utf8::encode_utf8_decode_utf8(b);
}

/// A written number tells the number.
pub proof fn numbers_tell(w: Seq<Seq<u8>>, at: int, a: u64, b: u64)
    requires
        stands_at(w, at, number_writes(a)),
        stands_at(w, at, number_writes(b)),
    ensures
        a == b,
{
    write_stands(w, at, number_writes(a), 0);
    write_stands(w, at, number_writes(b), 0);
    number_bytes_tell(a, b);
}

/// A written flag tells the flag.
pub proof fn flags_tell(w: Seq<Seq<u8>>, at: int, a: bool, b: bool)
    requires
        stands_at(w, at, flag_writes(a)),
        stands_at(w, at, flag_writes(b)),
    ensures
        a == b,
{
    write_stands(w, at, flag_writes(a), 0);
    write_stands(w, at, flag_writes(b), 0);
    assert(flag_writes(a)[0][0] == flag_writes(b)[0][0]);
}

/// A written text tells the text.
pub proof fn texts_tell(w: Seq<Seq<u8>>, at: int, a: Seq<char>, b: Seq<char>)
    requires
        stands_at(w, at, text_writes(a)),
        stands_at(w, at, text_writes(b)),
    ensures
        a == b,
{
    write_stands(w, at, text_writes(a), 0);
    write_stands(w, at, text_writes(b), 0);
    text_bytes_tell(a, b);
}

/// A written number that may be missing tells whether it is, and which it is.
pub proof fn opt_numbers_tell(w: Seq<Seq<u8>>, at: int, a: Option<u64>, b: Option<u64>)
    requires
        stands_at(w, at, opt_number_writes(a)),
        stands_at(w, at, opt_number_writes(b)),
    ensures
        a == b,
{
    write_stands(w, at, opt_number_writes(a), 0);
    write_stands(w, at, opt_number_writes(b), 0);
    number_bytes_tell(0, 1);
    if a.is_some() && b.is_some() {
        write_stands(w, at, opt_number_writes(a), 1);
        write_stands(w, at, opt_number_writes(b), 1);
        number_bytes_tell(a.unwrap(), b.unwrap());
    }
}

/// A written text that may be missing tells whether it is, and which it is.
pub proof fn opt_texts_tell(w: Seq<Seq<u8>>, at: int, a: Option<Seq<char>>, b: Option<Seq<char>>)
    requires
        stands_at(w, at, opt_text_writes(a)),
        stands_at(w, at, opt_text_writes(b)),
    ensures
        a == b,
{
    write_stands(w, at, opt_text_writes(a), 0);
    write_stands(w, at, opt_text_writes(b), 0);
    number_bytes_tell(0, 1);
    if a.is_some() && b.is_some() {
        write_stands(w, at, opt_text_writes(a), 1);
        write_stands(w, at, opt_text_writes(b), 1);
        text_bytes_tell(a.unwrap(), b.unwrap());
    }
}

/// Written entries, as many of them, tell the entries.
proof fn entries_tell(
    w: Seq<Seq<u8>>,
    at: int,
    s: Seq<(Seq<char>, Seq<char>)>,
    t: Seq<(Seq<char>, Seq<char>)>,
)
    requires
        s.len() == t.len(),
        stands_at(w, at, entries_writes(s)),
        stands_at(w, at, entries_writes(t)),
    ensures
        s == t,
        entries_writes(s).len() == 4 * s.len(),
    decreases s.len(),
{
    if s.len() > 0 {
        let a = s.drop_last();
        let b = t.drop_last();
        let x = s.last();
        let y = t.last();
        parts_stand(w, at, entries_writes(a) + text_writes(x.0), text_writes(x.1));
        parts_stand(w, at, entries_writes(b) + text_writes(y.0), text_writes(y.1));
        parts_stand(w, at, entries_writes(a), text_writes(x.0));
        parts_stand(w, at, entries_writes(b), text_writes(y.0));
        entries_tell(w, at, a, b);
        let k = at + entries_writes(a).len();
        texts_tell(w, k, x.0, y.0);
        texts_tell(w, k + 2, x.1, y.1);
        assert(s =~= a.push(x));
        assert(t =~= b.push(y));
    } else {
        assert(s =~= t);
    }
}

/// Written maps tell their entries.
pub proof fn maps_tell(
    w: Seq<Seq<u8>>,
    at: int,
    m: Map<Seq<char>, Seq<char>>,
    n: Map<Seq<char>, Seq<char>>,
)
    requires
        string_map::in_order(m).len() <= u64::MAX,
        string_map::in_order(n).len() <= u64::MAX,
        stands_at(w, at, map_writes(m)),
        stands_at(w, at, map_writes(n)),
    ensures
        string_map::in_order(m) == string_map::in_order(n),
{
    let s = string_map::in_order(m);
    let t = string_map::in_order(n);
    parts_stand(w, at, number_writes(s.len() as u64), entries_writes(s));
    parts_stand(w, at, number_writes(t.len() as u64), entries_writes(t));
    numbers_tell(w, at, s.len() as u64, t.len() as u64);
    entries_tell(w, at + 1, s, t);
}

/// Written lists, as long as each other, tell their texts.
proof fn lists_tell(w: Seq<Seq<u8>>, at: int, s: Seq<Seq<char>>, t: Seq<Seq<char>>)
    requires
        s.len() == t.len(),
        stands_at(w, at, list_writes(s)),
        stands_at(w, at, list_writes(t)),
    ensures
        s == t,
    decreases s.len(),
{
    if s.len() > 0 {
        let a = s.drop_last();
        let b = t.drop_last();
        parts_stand(w, at, list_writes(a), text_writes(s.last()));
        parts_stand(w, at, list_writes(b), text_writes(t.last()));
        lists_tell(w, at, a, b);
        texts_tell(w, at + list_writes(a).len(), s.last(), t.last());
        assert(s =~= a.push(s.last()));
        assert(t =~= b.push(t.last()));
    } else {
        assert(s =~= t);
    }
}

/// Written lists that may be missing tell whether they are, and their texts.
pub proof fn opt_lists_tell(w: Seq<Seq<u8>>, at: int, a: Option<Vec<String>>, b: Option<Vec<String>>)
    requires
        a.is_some() ==> a.unwrap()@.len() <= u64::MAX,
        b.is_some() ==> b.unwrap()@.len() <= u64::MAX,
        stands_at(w, at, opt_list_writes(a)),
        stands_at(w, at, opt_list_writes(b)),
    ensures
        a.is_some() == b.is_some(),
        a.is_some() ==> list_texts(a.unwrap()@) == list_texts(b.unwrap()@),
{
    write_stands(w, at, opt_list_writes(a), 0);
    write_stands(w, at, opt_list_writes(b), 0);
    number_bytes_tell(0, 1);
    if a.is_some() && b.is_some() {
        let x = a.unwrap()@;
        let y = b.unwrap()@;
        parts_stand(
            w,
            at,
            number_writes(1) + number_writes(x.len() as u64),
            list_writes(list_texts(x)),
        );
        parts_stand(
            w,
            at,
            number_writes(1) + number_writes(y.len() as u64),
            list_writes(list_texts(y)),
        );
        parts_stand(w, at, number_writes(1), number_writes(x.len() as u64));
        parts_stand(w, at, number_writes(1), number_writes(y.len() as u64));
        numbers_tell(w, at + 1, x.len() as u64, y.len() as u64);
        lists_tell(w, at + 2, list_texts(x), list_texts(y));
    }
}

} // verus!

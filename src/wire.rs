//! Primitive wire readers over a forward-only cursor, and their models.
//!
//! Each reader has a model `spec_*` that takes the whole buffer and the
//! position of the cursor, and gives either the decoded value with the
//! position after it, or the error the reader fails with.
use vstd::prelude::*;
use vstd::utf8::{decode_utf8, valid_utf8};

use crate::error::Error;

verus! {

/// Big-endian unsigned value of two bytes.
pub open spec fn be_u16(b0: u8, b1: u8) -> int {
    b0 as int * 256 + b1 as int
}

/// Big-endian unsigned value of four bytes.
pub open spec fn be_u32(b0: u8, b1: u8, b2: u8, b3: u8) -> int {
    b0 as int * 16777216 + b1 as int * 65536 + b2 as int * 256 + b3 as int
}

/// Big-endian two's complement value of four bytes.
pub open spec fn be_i32(b0: u8, b1: u8, b2: u8, b3: u8) -> int {
    let u = be_u32(b0, b1, b2, b3);
    if u >= 0x8000_0000 {
        u - 0x1_0000_0000
    } else {
        u
    }
}

/// A read position over an immutable byte buffer.
pub struct Cursor<'a> {
    pub buf: &'a [u8],
    pub pos: usize,
}

impl<'a> Cursor<'a> {
    /// The position lies within the buffer.
    pub open spec fn wf(&self) -> bool {
        self.pos <= self.buf@.len()
    }

    /// A cursor at the start of `buf`.
    pub fn new(buf: &'a [u8]) -> (r: Cursor<'a>)
        ensures
            r.wf(),
            r.buf@ == buf@,
            r.pos == 0,
    {
        Cursor { buf, pos: 0 }
    }

    /// The number of bytes not yet consumed.
    pub fn remaining(&self) -> (r: usize)
        requires
            self.wf(),
        ensures
            r == self.buf@.len() - self.pos,
    {
        self.buf.len() - self.pos
    }
}

/// Model of `read_int`.
pub open spec fn spec_int(s: Seq<u8>, p: int) -> Result<(i32, int), Error> {
    if p + 4 <= s.len() {
        Ok((be_i32(s[p], s[p + 1], s[p + 2], s[p + 3]) as i32, p + 4))
    } else {
        Err(Error::Io)
    }
}

/// Model of `read_int_length`.
pub open spec fn spec_int_length(s: Seq<u8>, p: int) -> Result<(int, int), Error> {
    match spec_int(s, p) {
        Ok((v, q)) => if v < 0 {
            Err(Error::MalformedLength)
        } else {
            Ok((v as int, q))
        },
        Err(e) => Err(e),
    }
}

/// Model of `read_short`.
pub open spec fn spec_short(s: Seq<u8>, p: int) -> Result<(u16, int), Error> {
    if p + 2 <= s.len() {
        Ok((be_u16(s[p], s[p + 1]) as u16, p + 2))
    } else {
        Err(Error::Io)
    }
}

/// Model of `read_short_length`.
pub open spec fn spec_short_length(s: Seq<u8>, p: int) -> Result<(int, int), Error> {
    match spec_short(s, p) {
        Ok((v, q)) => Ok((v as int, q)),
        Err(e) => Err(e),
    }
}

/// Model of `read_raw_bytes`.
pub open spec fn spec_raw(s: Seq<u8>, p: int, n: int) -> Result<(Seq<u8>, int), Error> {
    if p + n <= s.len() {
        Ok((s.subrange(p, p + n), p + n))
    } else {
        Err(Error::Io)
    }
}

/// Model of `read_bytes`: an int length, then that many bytes.
pub open spec fn spec_bytes(s: Seq<u8>, p: int) -> Result<(Seq<u8>, int), Error> {
    match spec_int_length(s, p) {
        Ok((n, q)) => spec_raw(s, q, n),
        Err(e) => Err(e),
    }
}

/// Model of `read_string`: a short length, then that many bytes of UTF-8.
pub open spec fn spec_string(s: Seq<u8>, p: int) -> Result<(Seq<char>, int), Error> {
    match spec_short_length(s, p) {
        Ok((n, q)) => match spec_raw(s, q, n) {
            Ok((b, q2)) => if valid_utf8(b) {
                Ok((decode_utf8(b), q2))
            } else {
                Err(Error::Encoding)
            },
            Err(e) => Err(e),
        },
        Err(e) => Err(e),
    }
}

/// The first `n` strings of a string list whose items start at `p`.
pub open spec fn spec_strings(s: Seq<u8>, p: int, n: nat) -> Result<(Seq<Seq<char>>, int), Error>
    decreases n,
{
    if n == 0 {
        Ok((seq![], p))
    } else {
        match spec_strings(s, p, (n - 1) as nat) {
            Ok((xs, q)) => match spec_string(s, q) {
                Ok((x, q2)) => Ok((xs.push(x), q2)),
                Err(e) => Err(e),
            },
            Err(e) => Err(e),
        }
    }
}

/// Model of `read_string_list`: a short count, then that many strings.
pub open spec fn spec_string_list(s: Seq<u8>, p: int) -> Result<(Seq<Seq<char>>, int), Error> {
    match spec_short_length(s, p) {
        Ok((n, q)) => spec_strings(s, q, n as nat),
        Err(e) => Err(e),
    }
}

/// The first `n` (string, bytes) entries of a map whose entries start at `p`,
/// in wire order.
pub open spec fn spec_entries(s: Seq<u8>, p: int, n: nat) -> Result<
    (Seq<(Seq<char>, Seq<u8>)>, int),
    Error,
>
    decreases n,
{
    if n == 0 {
        Ok((seq![], p))
    } else {
        match spec_entries(s, p, (n - 1) as nat) {
            Ok((es, q)) => match spec_string(s, q) {
                Ok((k, q2)) => match spec_bytes(s, q2) {
                    Ok((v, q3)) => Ok((es.push((k, v)), q3)),
                    Err(e) => Err(e),
                },
                Err(e) => Err(e),
            },
            Err(e) => Err(e),
        }
    }
}

/// No key occurs twice.
pub open spec fn keys_unique(es: Seq<(Seq<char>, Seq<u8>)>) -> bool {
    forall|i: int, j: int|
        0 <= i < es.len() && 0 <= j < es.len() && #[trigger] es[i].0 == #[trigger] es[j].0 ==> i
            == j
}

/// Sets `k` to `v`: the entry of key `k` is replaced in place if there is one,
/// else the entry is appended.
pub open spec fn upsert(es: Seq<(Seq<char>, Seq<u8>)>, k: Seq<char>, v: Seq<u8>) -> Seq<
    (Seq<char>, Seq<u8>),
> {
    if exists|i: int| 0 <= i < es.len() && es[i].0 == k {
        let i = choose|i: int| 0 <= i < es.len() && es[i].0 == k;
        es.update(i, (k, v))
    } else {
        es.push((k, v))
    }
}

/// The mapping built by setting each entry in turn: keys in order of first
/// occurrence, each with the value of its last occurrence.
pub open spec fn upsert_all(es: Seq<(Seq<char>, Seq<u8>)>) -> Seq<(Seq<char>, Seq<u8>)>
    decreases es.len(),
{
    if es.len() == 0 {
        seq![]
    } else {
        upsert(upsert_all(es.drop_last()), es.last().0, es.last().1)
    }
}

/// Model of `read_bytes_map`: a short count, then that many entries, folded
/// into a mapping with unique keys.
pub open spec fn spec_bytes_map(s: Seq<u8>, p: int) -> Result<
    (Seq<(Seq<char>, Seq<u8>)>, int),
    Error,
> {
    match spec_short_length(s, p) {
        Ok((n, q)) => match spec_entries(s, q, n as nat) {
            Ok((es, q2)) => Ok((upsert_all(es), q2)),
            Err(e) => Err(e),
        },
        Err(e) => Err(e),
    }
}

/// The (key, value) views of a decoded mapping.
pub open spec fn pairs_view(v: Seq<(String, Vec<u8>)>) -> Seq<(Seq<char>, Seq<u8>)> {
    v.map_values(|e: (String, Vec<u8>)| (e.0@, e.1@))
}

/// What a reader whose model is `m` owes: the same value on success with the
/// cursor moved to the model's end position, the same error on failure, and
/// the buffer untouched either way.
pub open spec fn reads_as<T>(
    m: Result<(T, int), Error>,
    r: Result<T, Error>,
    before: Cursor,
    after: Cursor,
) -> bool {
    &&& after.wf()
    &&& after.buf@ == before.buf@
    &&& match m {
        Ok((v, q)) => r == Ok::<T, Error>(v) && after.pos == q,
        Err(e) => r == Err::<T, Error>(e),
    }
}

/// Reads a big-endian signed 32-bit integer.
pub fn read_int(cursor: &mut Cursor) -> (r: Result<i32, Error>)
    requires
        old(cursor).wf(),
    ensures
        reads_as(spec_int(old(cursor).buf@, old(cursor).pos as int), r, *old(cursor), *final(cursor)),
{
    if cursor.buf.len() - cursor.pos < 4 {
        return Err(Error::Io);
    }
    let p = cursor.pos;
    let u: u32 = cursor.buf[p] as u32 * 16777216 + cursor.buf[p + 1] as u32 * 65536
        + cursor.buf[p + 2] as u32 * 256 + cursor.buf[p + 3] as u32;
    let v: i32 = if u >= 0x8000_0000 {
        (u as i64 - 0x1_0000_0000i64) as i32
    } else {
        u as i32
    };
    cursor.pos = p + 4;
    Ok(v)
}

/// Reads a big-endian signed 32-bit integer that must not be negative.
pub fn read_int_length(cursor: &mut Cursor) -> (r: Result<usize, Error>)
    requires
        old(cursor).wf(),
    ensures
        final(cursor).wf(),
        final(cursor).buf@ == old(cursor).buf@,
        match spec_int_length(old(cursor).buf@, old(cursor).pos as int) {
            Ok((n, q)) => r == Ok::<usize, Error>(n as usize) && final(cursor).pos == q,
            Err(e) => r == Err::<usize, Error>(e),
        },
{
    let v = read_int(cursor)?;
    if v < 0 {
        return Err(Error::MalformedLength);
    }
    Ok(v as usize)
}

/// Reads a big-endian unsigned 16-bit integer.
pub fn read_short(cursor: &mut Cursor) -> (r: Result<u16, Error>)
    requires
        old(cursor).wf(),
    ensures
        reads_as(spec_short(old(cursor).buf@, old(cursor).pos as int), r, *old(cursor), *final(cursor)),
{
    if cursor.buf.len() - cursor.pos < 2 {
        return Err(Error::Io);
    }
    let p = cursor.pos;
    let v: u16 = cursor.buf[p] as u16 * 256 + cursor.buf[p + 1] as u16;
    cursor.pos = p + 2;
    Ok(v)
}

/// Reads a big-endian unsigned 16-bit integer as a length.
pub fn read_short_length(cursor: &mut Cursor) -> (r: Result<usize, Error>)
    requires
        old(cursor).wf(),
    ensures
        final(cursor).wf(),
        final(cursor).buf@ == old(cursor).buf@,
        match spec_short_length(old(cursor).buf@, old(cursor).pos as int) {
            Ok((n, q)) => r == Ok::<usize, Error>(n as usize) && final(cursor).pos == q,
            Err(e) => r == Err::<usize, Error>(e),
        },
{
    let v = read_short(cursor)?;
    Ok(v as usize)
}

/// Reads exactly `count` bytes, failing if fewer remain.
pub fn read_raw_bytes(count: usize, cursor: &mut Cursor) -> (r: Result<Vec<u8>, Error>)
    requires
        old(cursor).wf(),
    ensures
        final(cursor).wf(),
        final(cursor).buf@ == old(cursor).buf@,
        match spec_raw(old(cursor).buf@, old(cursor).pos as int, count as int) {
            Ok((b, q)) => r is Ok && r->Ok_0@ == b && final(cursor).pos == q,
            Err(e) => r == Err::<Vec<u8>, Error>(e),
        },
{
    if cursor.buf.len() - cursor.pos < count {
        return Err(Error::Io);
    }
    let p = cursor.pos;
    let len = cursor.buf.len();
    let mut out: Vec<u8> = Vec::new();
    let mut i: usize = 0;
    while i < count
        invariant
            cursor.wf(),
            len == cursor.buf@.len(),
            cursor.pos == p,
            p + count <= cursor.buf@.len(),
            i <= count,
            out@ == cursor.buf@.subrange(p as int, p + i),
        decreases count - i,
    {
        out.push(cursor.buf[p + i]);
        i = i + 1;
    }
    cursor.pos = p + count;
    Ok(out)
}

/// Reads an int length, then that many bytes.
pub fn read_bytes(cursor: &mut Cursor) -> (r: Result<Vec<u8>, Error>)
    requires
        old(cursor).wf(),
    ensures
        final(cursor).wf(),
        final(cursor).buf@ == old(cursor).buf@,
        match spec_bytes(old(cursor).buf@, old(cursor).pos as int) {
            Ok((b, q)) => r is Ok && r->Ok_0@ == b && final(cursor).pos == q,
            Err(e) => r == Err::<Vec<u8>, Error>(e),
        },
{
    let n = read_int_length(cursor)?;
    read_raw_bytes(n, cursor)
}

/// Relies on `String::from_utf8`: it accepts exactly the byte sequences that
/// are valid UTF-8, and the string holds the characters they encode.
#[verifier::external_body]
fn string_from_utf8(b: Vec<u8>) -> (r: Option<String>)
    ensures
        r is Some <==> valid_utf8(b@),
        r is Some ==> r->Some_0@ == decode_utf8(b@),
{
    String::from_utf8(b).ok()
}

/// Reads a short length, then that many bytes, which must be valid UTF-8.
pub fn read_string(cursor: &mut Cursor) -> (r: Result<String, Error>)
    requires
        old(cursor).wf(),
    ensures
        final(cursor).wf(),
        final(cursor).buf@ == old(cursor).buf@,
        match spec_string(old(cursor).buf@, old(cursor).pos as int) {
            Ok((x, q)) => r is Ok && r->Ok_0@ == x && final(cursor).pos == q,
            Err(e) => r == Err::<String, Error>(e),
        },
{
    let n = read_short_length(cursor)?;
    let raw = read_raw_bytes(n, cursor)?;
    match string_from_utf8(raw) {
        Some(v) => Ok(v),
        None => Err(Error::Encoding),
    }
}

/// Once the first `i` items of a string list fail, so do the first `n`.
proof fn lemma_strings_err(s: Seq<u8>, p: int, i: nat, n: nat)
    requires
        i <= n,
        spec_strings(s, p, i) is Err,
    ensures
        spec_strings(s, p, n) == spec_strings(s, p, i),
    decreases n,
{
    if n > i {
        lemma_strings_err(s, p, i, (n - 1) as nat);
    }
}

/// Once the first `i` entries of a map fail, so do the first `n`.
proof fn lemma_entries_err(s: Seq<u8>, p: int, i: nat, n: nat)
    requires
        i <= n,
        spec_entries(s, p, i) is Err,
    ensures
        spec_entries(s, p, n) == spec_entries(s, p, i),
    decreases n,
{
    if n > i {
        lemma_entries_err(s, p, i, (n - 1) as nat);
    }
}

/// Reads a short count, then that many strings.
pub fn read_string_list(cursor: &mut Cursor) -> (r: Result<Vec<String>, Error>)
    requires
        old(cursor).wf(),
    ensures
        final(cursor).wf(),
        final(cursor).buf@ == old(cursor).buf@,
        match spec_string_list(old(cursor).buf@, old(cursor).pos as int) {
            Ok((xs, q)) => r is Ok && r->Ok_0@.map_values(|x: String| x@) == xs
                && final(cursor).pos == q,
            Err(e) => r == Err::<Vec<String>, Error>(e),
        },
{
    let ghost s = cursor.buf@;
    let n = read_short_length(cursor)?;
    let ghost p = cursor.pos as int;
    let mut out: Vec<String> = Vec::new();
    assert(out@.map_values(|x: String| x@) =~= Seq::<Seq<char>>::empty());
    let mut i: usize = 0;
    while i < n
        invariant
            cursor.wf(),
            cursor.buf@ == s,
            s == old(cursor).buf@,
            spec_short_length(s, old(cursor).pos as int) == Ok::<(int, int), Error>((n as int, p)),
            i <= n,
            spec_strings(s, p, i as nat) == Ok::<(Seq<Seq<char>>, int), Error>(
                (out@.map_values(|x: String| x@), cursor.pos as int),
            ),
        decreases n - i,
    {
        let x = match read_string(cursor) {
            Ok(x) => x,
            Err(e) => {
                proof {
                    assert(spec_strings(s, p, (i + 1) as nat) == Err::<(Seq<Seq<char>>, int), Error>(e));
                    lemma_strings_err(s, p, (i + 1) as nat, n as nat);
                }
                return Err(e);
            },
        };
        let ghost before = out@.map_values(|x: String| x@);
        out.push(x);
        proof {
            assert(out@.map_values(|x: String| x@) =~= before.push(x@));
        }
        i = i + 1;
    }
    Ok(out)
}

/// Sets `key` to `val` in a mapping held as a vector of entries with unique
/// keys.
pub fn set_entry(out: &mut Vec<(String, Vec<u8>)>, key: String, val: Vec<u8>)
    requires
        keys_unique(pairs_view(old(out)@)),
    ensures
        pairs_view(final(out)@) == upsert(pairs_view(old(out)@), key@, val@),
        keys_unique(pairs_view(final(out)@)),
{
    let ghost pv = pairs_view(out@);
    let ghost k = key@;
    let mut j: usize = 0;
    while j < out.len()
        invariant
            pv == pairs_view(out@),
            out@ == old(out)@,
            k == key@,
            keys_unique(pv),
            j <= out@.len(),
            forall|jj: int| 0 <= jj < j ==> #[trigger] pv[jj].0 != k,
        decreases out@.len() - j,
    {
        if out[j].0 == key {
            proof {
                assert(pv[j as int].0 == k);
                let c = choose|i: int| 0 <= i < pv.len() && pv[i].0 == k;
                assert(pv[c].0 == pv[j as int].0);
                assert(c == j);
            }
            out.set(j, (key, val));
            proof {
                assert(pairs_view(out@) =~= pv.update(j as int, (k, val@)));
                assert(upsert(pv, k, val@) == pv.update(j as int, (k, val@)));
            }
            return;
        }
        j = j + 1;
    }
    out.push((key, val));
    proof {
        assert(pairs_view(out@) =~= pv.push((k, val@)));
        assert(!exists|i: int| 0 <= i < pv.len() && pv[i].0 == k);
        let pv2 = pairs_view(out@);
        assert forall|a: int, b: int|
            0 <= a < pv2.len() && 0 <= b < pv2.len() && #[trigger] pv2[a].0 == #[trigger] pv2[b].0
            implies a == b by {
            if a < pv.len() && b < pv.len() {
                assert(pv[a].0 == pv[b].0);
            } else if a < pv.len() {
                assert(pv[a].0 == k);
            } else if b < pv.len() {
                assert(pv[b].0 == k);
            }
        }
    }
}

/// Reads a short count, then that many (string, bytes) entries into a mapping:
/// keys in order of first occurrence, a repeated key keeping its last value.
pub fn read_bytes_map(cursor: &mut Cursor) -> (r: Result<Vec<(String, Vec<u8>)>, Error>)
    requires
        old(cursor).wf(),
    ensures
        final(cursor).wf(),
        final(cursor).buf@ == old(cursor).buf@,
        match spec_bytes_map(old(cursor).buf@, old(cursor).pos as int) {
            Ok((m, q)) => r is Ok && pairs_view(r->Ok_0@) == m && final(cursor).pos == q,
            Err(e) => r == Err::<Vec<(String, Vec<u8>)>, Error>(e),
        },
        r is Ok ==> keys_unique(pairs_view(r->Ok_0@)),
{
    let ghost s = cursor.buf@;
    let n = read_short_length(cursor)?;
    let ghost p = cursor.pos as int;
    let mut out: Vec<(String, Vec<u8>)> = Vec::new();
    let ghost mut es: Seq<(Seq<char>, Seq<u8>)> = seq![];
    assert(pairs_view(out@) =~= upsert_all(es));
    let mut i: usize = 0;
    while i < n
        invariant
            cursor.wf(),
            cursor.buf@ == s,
            s == old(cursor).buf@,
            spec_short_length(s, old(cursor).pos as int) == Ok::<(int, int), Error>((n as int, p)),
            i <= n,
            spec_entries(s, p, i as nat) == Ok::<(Seq<(Seq<char>, Seq<u8>)>, int), Error>(
                (es, cursor.pos as int),
            ),
            pairs_view(out@) == upsert_all(es),
            keys_unique(pairs_view(out@)),
        decreases n - i,
    {
        let key = match read_string(cursor) {
            Ok(x) => x,
            Err(e) => {
                proof {
                    assert(spec_entries(s, p, (i + 1) as nat) == Err::<
                        (Seq<(Seq<char>, Seq<u8>)>, int),
                        Error,
                    >(e));
                    lemma_entries_err(s, p, (i + 1) as nat, n as nat);
                }
                return Err(e);
            },
        };
        let val = match read_bytes(cursor) {
            Ok(x) => x,
            Err(e) => {
                proof {
                    assert(spec_entries(s, p, (i + 1) as nat) == Err::<
                        (Seq<(Seq<char>, Seq<u8>)>, int),
                        Error,
                    >(e));
                    lemma_entries_err(s, p, (i + 1) as nat, n as nat);
                }
                return Err(e);
            },
        };
        let ghost entry = (key@, val@);
        set_entry(&mut out, key, val);
        proof {
            assert(es.push(entry).drop_last() =~= es);
            es = es.push(entry);
        }
        i = i + 1;
    }
    Ok(out)
}

} // verus!

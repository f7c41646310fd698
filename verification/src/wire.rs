//! Length-prefixed byte strings of the SSH binary format (RFC 4251, section 5).
//!
//! A `string` is a big-endian `uint32` length followed by that many bytes.
//! Lengths above [`MAX_FIELD_LEN`] are refused in both directions.

use vstd::prelude::*;

verus! {

/// Largest length that a length prefix may announce.
pub const MAX_FIELD_LEN: usize = 0xF_FFFF;

/// The four bytes of `n` in network byte order.
pub open spec fn be_u32(n: int) -> Seq<u8> {
    seq![
        ((n / 0x100_0000) % 0x100) as u8,
        ((n / 0x1_0000) % 0x100) as u8,
        ((n / 0x100) % 0x100) as u8,
        (n % 0x100) as u8,
    ]
}

/// The number that the first four bytes of `bytes` spell in network byte order.
pub open spec fn be_value(bytes: Seq<u8>) -> int
    recommends
        bytes.len() >= 4,
{
    bytes[0] as int * 0x100_0000 + bytes[1] as int * 0x1_0000 + bytes[2] as int * 0x100
        + bytes[3] as int
}

/// The encoding of `data` as a `string`: its length, then its bytes.
pub open spec fn string(data: Seq<u8>) -> Seq<u8> {
    be_u32(data.len() as int) + data
}

/// Reads one `string` from the front of `bytes`: its contents and the number
/// of bytes it occupies, or `None` where the prefix is cut short, announces
/// more than [`MAX_FIELD_LEN`] bytes, or more than are left.
pub open spec fn parse_string(bytes: Seq<u8>) -> Option<(Seq<u8>, int)> {
    if bytes.len() < 4 {
        None
    } else {
        let n = be_value(bytes);
        if n > MAX_FIELD_LEN || bytes.len() < 4 + n {
            None
        } else {
            Some((bytes.subrange(4, 4 + n), 4 + n))
        }
    }
}

/// The encodings of `fields` as `string`s, one after the other.
pub open spec fn strings(fields: Seq<Seq<u8>>) -> Seq<u8>
    decreases fields.len(),
{
    if fields.len() == 0 {
        Seq::empty()
    } else {
        strings(fields.drop_last()) + string(fields.last())
    }
}

/// Reads `n` `string`s from the front of `bytes`: their contents in order and
/// the number of bytes they occupy together.
pub open spec fn parse_strings(bytes: Seq<u8>, n: nat) -> Option<(Seq<Seq<u8>>, int)>
    decreases n,
{
    if n == 0 {
        Some((Seq::empty(), 0))
    } else {
        match parse_strings(bytes, (n - 1) as nat) {
            None => None,
            Some((fields, used)) => match parse_string(bytes.skip(used)) {
                None => None,
                Some((field, more)) => Some((fields.push(field), used + more)),
            },
        }
    }
}

/// A length prefix is read back as the length it was written for.
pub proof fn lemma_be_round_trip(n: int)
    requires
        0 <= n <= MAX_FIELD_LEN,
    ensures
        be_u32(n).len() == 4,
        be_value(be_u32(n)) == n,
{
}

/// A `string` that was written is read back whole, whatever follows it.
pub proof fn lemma_string_round_trip(data: Seq<u8>, rest: Seq<u8>)
    requires
        data.len() <= MAX_FIELD_LEN,
    ensures
        parse_string(string(data) + rest) == Some((data, 4 + data.len() as int)),
{
    let n = data.len() as int;
    lemma_be_round_trip(n);
    let all = string(data) + rest;
    assert(all[0] == be_u32(n)[0] && all[1] == be_u32(n)[1] && all[2] == be_u32(n)[2] && all[3]
        == be_u32(n)[3]);
    assert(be_value(all) == n);
    assert(all.subrange(4, 4 + n) =~= data);
}

/// What `parse_string` accepts spans at least its prefix and lies within the input.
pub proof fn lemma_parse_string_bounds(bytes: Seq<u8>)
    ensures
        parse_string(bytes) matches Some((data, used)) ==> 4 <= used <= bytes.len() && data.len()
            == used - 4 && data.len() <= MAX_FIELD_LEN,
{
}

/// What `parse_strings` accepts lies within the input, one field per request.
pub proof fn lemma_parse_strings_bounds(bytes: Seq<u8>, n: nat)
    ensures
        parse_strings(bytes, n) matches Some((fields, used)) ==> 0 <= used <= bytes.len()
            && fields.len() == n && forall|i: int|
            0 <= i < n ==> (#[trigger] fields[i]).len() <= MAX_FIELD_LEN,
    decreases n,
{
    if n > 0 {
        lemma_parse_strings_bounds(bytes, (n - 1) as nat);
        if let Some((fields, used)) = parse_strings(bytes, (n - 1) as nat) {
            lemma_parse_string_bounds(bytes.skip(used));
        }
    }
}

/// `strings` of a list with one more field is the shorter encoding followed by that field.
pub proof fn lemma_strings_push(fields: Seq<Seq<u8>>, field: Seq<u8>)
    ensures
        strings(fields.push(field)) == strings(fields) + string(field),
{
    assert(fields.push(field).drop_last() =~= fields);
}

/// Fields that were written are read back whole, whatever follows them.
pub proof fn lemma_strings_round_trip(fields: Seq<Seq<u8>>, rest: Seq<u8>)
    requires
        forall|i: int| 0 <= i < fields.len() ==> (#[trigger] fields[i]).len() <= MAX_FIELD_LEN,
    ensures
        parse_strings(strings(fields) + rest, fields.len()) == Some(
            (fields, strings(fields).len() as int),
        ),
    decreases fields.len(),
{
    if fields.len() > 0 {
        let head = fields.drop_last();
        let last = fields.last();
        let bytes = strings(fields) + rest;
        let tail = string(last) + rest;
        let n = fields.len();
        assert(strings(fields) == strings(head) + string(last));
        assert(bytes == strings(head) + tail) by {
            assert(bytes =~= strings(head) + tail);
        }
        assert(parse_strings(bytes, (n - 1) as nat) == Some((head, strings(head).len() as int)))
            by {
            lemma_strings_round_trip(head, tail);
        }
        assert(bytes.skip(strings(head).len() as int) == tail) by {
            assert(bytes.skip(strings(head).len() as int) =~= tail);
        }
        assert(parse_string(tail) == Some((last, 4 + last.len() as int))) by {
            lemma_string_round_trip(last, rest);
        }
        assert(head.push(last) == fields) by {
            assert(head.push(last) =~= fields);
        }
        assert(strings(fields).len() == strings(head).len() + 4 + last.len()) by {
            lemma_be_round_trip(last.len() as int);
        }
    }
}

/// Reads one `string` from the front of `bytes`.
pub fn read_string(bytes: &[u8]) -> (r: Option<(Vec<u8>, usize)>)
    ensures
        match parse_string(bytes@) {
            Some((data, used)) => r matches Some((v, n)) && v@ == data && n == used,
            None => r is None,
        },
{
    if bytes.len() < 4 {
        return None;
    }
    let b0: usize = bytes[0] as usize;
    let b1: usize = bytes[1] as usize;
    let b2: usize = bytes[2] as usize;
    let b3: usize = bytes[3] as usize;
    if b0 != 0 || b1 > 0xF {
        return None;
    }
    let n: usize = b1 * 0x1_0000 + b2 * 0x100 + b3;
    if bytes.len() - 4 < n {
        return None;
    }
    let data = vstd::slice::slice_to_vec(vstd::slice::slice_subrange(bytes, 4, 4 + n));
    Some((data, 4 + n))
}

/// Appends `data` to `out` as one `string`.
pub fn write_string(out: &mut Vec<u8>, data: &[u8])
    requires
        data@.len() <= MAX_FIELD_LEN,
    ensures
        final(out)@ == old(out)@ + string(data@),
{
    let n: usize = data.len();
    out.push(0u8);
    out.push((n / 0x1_0000) as u8);
    out.push(((n / 0x100) % 0x100) as u8);
    out.push((n % 0x100) as u8);
    let mut i: usize = 0;
    while i < n
        invariant
            n == data@.len(),
            i <= n,
            out@ == old(out)@ + be_u32(n as int) + data@.subrange(0, i as int),
        decreases n - i,
    {
        out.push(data[i]);
        assert(data@.subrange(0, i as int).push(data@[i as int]) =~= data@.subrange(0, i + 1));
        i += 1;
    }
    assert(data@.subrange(0, n as int) =~= data@);
}

/// A `string` that is read stands at the front of the input as it would be
/// written.
pub proof fn lemma_parse_string_exact(bytes: Seq<u8>)
    ensures
        parse_string(bytes) matches Some((data, used)) ==> bytes.subrange(0, used) == string(data),
{
    if let Some((data, used)) = parse_string(bytes) {
        let n = data.len() as int;
        assert(n == be_value(bytes));
        assert(bytes[0] == 0u8);
        assert(be_u32(n) =~= bytes.subrange(0, 4));
        assert(bytes.subrange(0, used) =~= string(data));
    }
}

/// `string`s that are read stand at the front of the input as they would be
/// written.
pub proof fn lemma_parse_strings_exact(bytes: Seq<u8>, n: nat)
    ensures
        parse_strings(bytes, n) matches Some((fields, used)) ==> bytes.subrange(0, used)
            == strings(fields),
    decreases n,
{
    if n > 0 {
        lemma_parse_strings_exact(bytes, (n - 1) as nat);
        lemma_parse_strings_bounds(bytes, (n - 1) as nat);
        if let Some((head, used)) = parse_strings(bytes, (n - 1) as nat) {
            let rest = bytes.skip(used);
            lemma_parse_string_exact(rest);
            lemma_parse_string_bounds(rest);
            if let Some((field, more)) = parse_string(rest) {
                lemma_strings_push(head, field);
                assert(bytes.subrange(0, used + more) =~= bytes.subrange(0, used) + rest.subrange(
                    0,
                    more,
                ));
            }
        }
    } else {
        assert(bytes.subrange(0, 0) =~= strings(Seq::<Seq<u8>>::empty()));
    }
}

/// The contents of `fields`, each as a sequence of bytes.
pub open spec fn views(fields: Seq<Vec<u8>>) -> Seq<Seq<u8>> {
    Seq::new(fields.len(), |i: int| fields[i]@)
}

/// Once `parse_strings` fails for some number of fields, it fails for every larger one.
pub proof fn lemma_parse_strings_fails(bytes: Seq<u8>, m: nat, n: nat)
    requires
        m <= n,
        parse_strings(bytes, m) is None,
    ensures
        parse_strings(bytes, n) is None,
    decreases n,
{
    if m < n {
        lemma_parse_strings_fails(bytes, m, (n - 1) as nat);
    }
}

/// Reads `n` `string`s from the front of `bytes`.
pub fn read_strings(bytes: &[u8], n: usize) -> (r: Option<(Vec<Vec<u8>>, usize)>)
    ensures
        match parse_strings(bytes@, n as nat) {
            Some((fields, used)) => r matches Some((v, k)) && views(v@) == fields && k == used,
            None => r is None,
        },
{
    let mut fields: Vec<Vec<u8>> = Vec::new();
    let mut pos: usize = 0;
    let mut i: usize = 0;
    assert(views(fields@) =~= Seq::<Seq<u8>>::empty());
    while i < n
        invariant
            i <= n,
            pos <= bytes@.len(),
            parse_strings(bytes@, i as nat) == Some((views(fields@), pos as int)),
        decreases n - i,
    {
        let rest = vstd::slice::slice_subrange(bytes, pos, bytes.len());
        assert(rest@ == bytes@.skip(pos as int));
        match read_string(rest) {
            None => {
                proof {
                    lemma_parse_strings_fails(bytes@, (i + 1) as nat, n as nat);
                }
                return None;
            },
            Some((field, more)) => {
                proof {
                    lemma_parse_string_bounds(rest@);
                    assert(views(fields@.push(field)) =~= views(fields@).push(field@));
                }
                fields.push(field);
                pos = pos + more;
                i += 1;
            },
        }
    }
    Some((fields, pos))
}

/// Appends each of `fields` to `out` as a `string`, in order.
pub fn write_strings(out: &mut Vec<u8>, fields: &Vec<Vec<u8>>)
    requires
        forall|i: int| 0 <= i < fields@.len() ==> (#[trigger] fields@[i])@.len() <= MAX_FIELD_LEN,
    ensures
        final(out)@ == old(out)@ + strings(views(fields@)),
{
    let mut i: usize = 0;
    assert(views(fields@).take(0) =~= Seq::<Seq<u8>>::empty());
    assert(out@ =~= old(out)@ + strings(views(fields@).take(0)));
    while i < fields.len()
        invariant
            i <= fields@.len(),
            forall|j: int| 0 <= j < fields@.len() ==> (#[trigger] fields@[j])@.len() <= MAX_FIELD_LEN,
            out@ == old(out)@ + strings(views(fields@).take(i as int)),
        decreases fields@.len() - i,
    {
        proof {
            let done = views(fields@).take(i as int);
            lemma_strings_push(done, fields@[i as int]@);
            assert(done.push(fields@[i as int]@) =~= views(fields@).take(i + 1));
        }
        write_string(out, fields[i].as_slice());
        i += 1;
    }
    assert(views(fields@).take(fields@.len() as int) =~= views(fields@));
}

} // verus!

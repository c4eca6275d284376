//! The deterministic binary encoding of commands, responses and server
//! errors.
//!
//! Every multi-byte integer is little-endian; every variable-length field is
//! length-prefixed with a `u32`; every enum is tagged by one byte holding its
//! variant index in declaration order; strings travel as their UTF-8 bytes.
//! Decoding consumes a prefix of the input and returns the remainder, so the
//! same functions serve the wire and the log.

use vstd::bytes::{
    lemma_auto_spec_u32_to_from_le_bytes, spec_u32_from_le_bytes, spec_u32_to_le_bytes,
    u32_from_le_bytes, u32_to_le_bytes,
};
use vstd::prelude::*;
use vstd::slice::{slice_index_get, slice_subrange, slice_to_vec};
use vstd::utf8::{
    decode_utf8, encode_utf8, encode_utf8_decode_utf8, encode_utf8_valid_utf8, valid_utf8,
};

use crate::error::{ServerError, ServerErrorV};
use crate::proto::{Command, CommandV, Response, ResponseV};

verus! {

/// A string whose UTF-8 form fits behind a `u32` length prefix.
pub open spec fn str_encodable(s: Seq<char>) -> bool {
    encode_utf8(s).len() <= u32::MAX
}

/// A byte field that fits behind a `u32` length prefix.
pub open spec fn bytes_encodable(b: Seq<u8>) -> bool {
    b.len() <= u32::MAX
}

pub open spec fn spec_enc_u32(n: u32) -> Seq<u8> {
    spec_u32_to_le_bytes(n)
}

pub open spec fn spec_enc_bytes(b: Seq<u8>) -> Seq<u8> {
    spec_enc_u32(b.len() as u32) + b
}

pub open spec fn spec_enc_str(s: Seq<char>) -> Seq<u8> {
    spec_enc_bytes(encode_utf8(s))
}

pub open spec fn spec_enc_strs(l: Seq<Seq<char>>) -> Seq<u8>
    decreases l.len(),
{
    if l.len() == 0 {
        Seq::empty()
    } else {
        spec_enc_str(l[0]) + spec_enc_strs(l.skip(1))
    }
}

pub open spec fn spec_enc_str_list(l: Seq<Seq<char>>) -> Seq<u8> {
    spec_enc_u32(l.len() as u32) + spec_enc_strs(l)
}

pub open spec fn spec_dec_u32(s: Seq<u8>) -> Option<(u32, Seq<u8>)> {
    if s.len() >= 4 {
        Some((spec_u32_from_le_bytes(s.take(4)), s.skip(4)))
    } else {
        None
    }
}

pub open spec fn spec_dec_bytes(s: Seq<u8>) -> Option<(Seq<u8>, Seq<u8>)> {
    match spec_dec_u32(s) {
        Some((n, r)) => if r.len() >= n {
            Some((r.take(n as int), r.skip(n as int)))
        } else {
            None
        },
        None => None,
    }
}

pub open spec fn spec_dec_str(s: Seq<u8>) -> Option<(Seq<char>, Seq<u8>)> {
    match spec_dec_bytes(s) {
        Some((b, r)) => if valid_utf8(b) {
            Some((decode_utf8(b), r))
        } else {
            None
        },
        None => None,
    }
}

pub open spec fn spec_dec_strs(s: Seq<u8>, n: nat) -> Option<(Seq<Seq<char>>, Seq<u8>)>
    decreases n,
{
    if n == 0 {
        Some((Seq::empty(), s))
    } else {
        match spec_dec_str(s) {
            Some((x, r)) => match spec_dec_strs(r, (n - 1) as nat) {
                Some((xs, r2)) => Some((seq![x] + xs, r2)),
                None => None,
            },
            None => None,
        }
    }
}

pub open spec fn spec_dec_str_list(s: Seq<u8>) -> Option<(Seq<Seq<char>>, Seq<u8>)> {
    match spec_dec_u32(s) {
        Some((n, r)) => spec_dec_strs(r, n as nat),
        None => None,
    }
}

pub proof fn lemma_dec_u32_enc(n: u32, rest: Seq<u8>)
    ensures
        spec_dec_u32(spec_enc_u32(n) + rest) == Some((n, rest)),
{
    lemma_auto_spec_u32_to_from_le_bytes();
    assert((spec_enc_u32(n) + rest).take(4) =~= spec_enc_u32(n));
    assert((spec_enc_u32(n) + rest).skip(4) =~= rest);
}

pub proof fn lemma_dec_bytes_enc(b: Seq<u8>, rest: Seq<u8>)
    requires
        bytes_encodable(b),
    ensures
        spec_dec_bytes(spec_enc_bytes(b) + rest) == Some((b, rest)),
{
    lemma_dec_u32_enc(b.len() as u32, b + rest);
    assert(spec_enc_bytes(b) + rest =~= spec_enc_u32(b.len() as u32) + (b + rest));
    assert((b + rest).take(b.len() as int) =~= b);
    assert((b + rest).skip(b.len() as int) =~= rest);
}

pub proof fn lemma_dec_str_enc(s: Seq<char>, rest: Seq<u8>)
    requires
        str_encodable(s),
    ensures
        spec_dec_str(spec_enc_str(s) + rest) == Some((s, rest)),
{
    lemma_dec_bytes_enc(encode_utf8(s), rest);
    encode_utf8_valid_utf8(s);
    encode_utf8_decode_utf8(s);
}

pub open spec fn strs_encodable(l: Seq<Seq<char>>) -> bool {
    &&& l.len() <= u32::MAX
    &&& forall|i: int| 0 <= i < l.len() ==> str_encodable(#[trigger] l[i])
}

pub proof fn lemma_dec_strs_enc(l: Seq<Seq<char>>, rest: Seq<u8>)
    requires
        forall|i: int| 0 <= i < l.len() ==> str_encodable(#[trigger] l[i]),
    ensures
        spec_dec_strs(spec_enc_strs(l) + rest, l.len() as nat) == Some((l, rest)),
    decreases l.len(),
{
    if l.len() == 0 {
        assert(spec_enc_strs(l) + rest =~= rest);
        assert(spec_dec_strs(rest, 0) == Some((Seq::<Seq<char>>::empty(), rest)));
        assert(l =~= Seq::<Seq<char>>::empty());
    } else {
        lemma_dec_strs_enc(l.skip(1), rest);
        lemma_dec_str_enc(l[0], spec_enc_strs(l.skip(1)) + rest);
        assert(spec_enc_strs(l) + rest =~= spec_enc_str(l[0]) + (spec_enc_strs(l.skip(1))
            + rest));
        assert(seq![l[0]] + l.skip(1) =~= l);
    }
}

pub proof fn lemma_dec_str_list_enc(l: Seq<Seq<char>>, rest: Seq<u8>)
    requires
        strs_encodable(l),
    ensures
        spec_dec_str_list(spec_enc_str_list(l) + rest) == Some((l, rest)),
{
    lemma_dec_u32_enc(l.len() as u32, spec_enc_strs(l) + rest);
    assert(spec_enc_str_list(l) + rest =~= spec_enc_u32(l.len() as u32) + (spec_enc_strs(l)
        + rest));
    lemma_dec_strs_enc(l, rest);
}

/// Concatenation distributes over string-sequence encoding.
pub proof fn lemma_enc_strs_concat(a: Seq<Seq<char>>, b: Seq<Seq<char>>)
    ensures
        spec_enc_strs(a + b) == spec_enc_strs(a) + spec_enc_strs(b),
    decreases a.len(),
{
    if a.len() == 0 {
        assert(a + b =~= b);
        assert(spec_enc_strs(a) + spec_enc_strs(b) =~= spec_enc_strs(b));
    } else {
        lemma_enc_strs_concat(a.skip(1), b);
        assert((a + b).skip(1) =~= a.skip(1) + b);
        assert((a + b)[0] == a[0]);
        assert(spec_enc_str(a[0]) + (spec_enc_strs(a.skip(1)) + spec_enc_strs(b)) =~= (
        spec_enc_str(a[0]) + spec_enc_strs(a.skip(1))) + spec_enc_strs(b));
    }
}

/// Relies on `String::from_utf8`: it returns the string those bytes encode in
/// UTF-8, and refuses exactly the byte sequences that are not valid UTF-8.
#[verifier::external_body]
pub(crate) fn bytes_to_string(bytes: Vec<u8>) -> (r: Option<String>)
    ensures
        match r {
            Some(s) => valid_utf8(bytes@) && s@ == decode_utf8(bytes@),
            None => !valid_utf8(bytes@),
        },
{
    match String::from_utf8(bytes) {
        Ok(s) => Some(s),
        Err(_) => None,
    }
}

fn write_u32(out: &mut Vec<u8>, n: u32)
    ensures
        final(out)@ == old(out)@ + spec_enc_u32(n),
{
    let mut b = u32_to_le_bytes(n);
    out.append(&mut b);
}

fn write_slice(out: &mut Vec<u8>, b: &[u8])
    ensures
        final(out)@ == old(out)@ + b@,
{
    let ghost base = out@;
    let mut i: usize = 0;
    while i < b.len()
        invariant
            i <= b@.len(),
            out@ == base + b@.take(i as int),
        decreases b@.len() - i,
    {
        out.push(*slice_index_get(b, i));
        proof {
            assert(base + b@.take(i as int + 1) =~= (base + b@.take(i as int)).push(b@[i as int]));
        }
        i = i + 1;
    }
    proof {
        assert(base + b@.take(b@.len() as int) =~= base + b@);
    }
}

fn write_bytes(out: &mut Vec<u8>, b: &Vec<u8>)
    requires
        bytes_encodable(b@),
    ensures
        final(out)@ == old(out)@ + spec_enc_bytes(b@),
{
    let ghost base = out@;
    write_u32(out, b.len() as u32);
    write_slice(out, b.as_slice());
    proof {
        assert(base + spec_enc_bytes(b@) =~= (base + spec_enc_u32(b@.len() as u32)) + b@);
    }
}

fn write_str(out: &mut Vec<u8>, s: &String)
    requires
        str_encodable(s@),
    ensures
        final(out)@ == old(out)@ + spec_enc_str(s@),
{
    let ghost base = out@;
    let bs = s.as_str().as_bytes();
    write_u32(out, bs.len() as u32);
    write_slice(out, bs);
    proof {
        assert(base + spec_enc_str(s@) =~= (base + spec_enc_u32(encode_utf8(s@).len() as u32))
            + encode_utf8(s@));
    }
}

fn write_str_list(out: &mut Vec<u8>, l: &Vec<String>)
    requires
        strs_encodable(l.deep_view()),
    ensures
        final(out)@ == old(out)@ + spec_enc_str_list(l.deep_view()),
{
    let ghost base = out@;
    let ghost lv = l.deep_view();
    write_u32(out, l.len() as u32);
    let mut i: usize = 0;
    while i < l.len()
        invariant
            i <= l@.len(),
            lv == l.deep_view(),
            lv.len() == l@.len(),
            forall|j: int| 0 <= j < l@.len() ==> lv[j] == l@[j]@,
            strs_encodable(lv),
            out@ == base + spec_enc_u32(lv.len() as u32) + spec_enc_strs(lv.take(i as int)),
        decreases l@.len() - i,
    {
        proof {
            assert(str_encodable(lv[i as int]));
        }
        write_str(out, &l[i]);
        proof {
            let x = lv[i as int];
            assert(lv.take(i as int + 1) =~= lv.take(i as int) + seq![x]);
            lemma_enc_strs_concat(lv.take(i as int), seq![x]);
            assert(seq![x][0] == x);
            assert(seq![x].skip(1) =~= Seq::<Seq<char>>::empty());
            assert(spec_enc_strs(seq![x]) == spec_enc_str(x) + spec_enc_strs(
                Seq::<Seq<char>>::empty(),
            ));
            assert(spec_enc_str(x) + Seq::<u8>::empty() =~= spec_enc_str(x));
            assert(out@ =~= base + spec_enc_u32(lv.len() as u32) + spec_enc_strs(
                lv.take(i as int + 1),
            ));
        }
        i = i + 1;
    }
    proof {
        assert(lv.take(lv.len() as int) =~= lv);
        assert(base + spec_enc_str_list(lv) =~= base + spec_enc_u32(lv.len() as u32)
            + spec_enc_strs(lv));
    }
}

fn read_u32(buf: &[u8], pos: usize) -> (r: Option<(u32, usize)>)
    requires
        pos <= buf@.len(),
    ensures
        match r {
            Some(p) => pos <= p.1 <= buf@.len() && spec_dec_u32(buf@.skip(pos as int)) == Some(
                (p.0, buf@.skip(p.1 as int)),
            ),
            None => spec_dec_u32(buf@.skip(pos as int)) is None,
        },
{
    if buf.len() - pos >= 4 {
        let s = slice_subrange(buf, pos, pos + 4);
        let n = u32_from_le_bytes(s);
        proof {
            assert(buf@.skip(pos as int).take(4) =~= buf@.subrange(pos as int, pos as int + 4));
            assert(buf@.skip(pos as int).skip(4) =~= buf@.skip(pos as int + 4));
        }
        Some((n, pos + 4))
    } else {
        None
    }
}

fn read_bytes(buf: &[u8], pos: usize) -> (r: Option<(Vec<u8>, usize)>)
    requires
        pos <= buf@.len(),
    ensures
        match r {
            Some(p) => pos <= p.1 <= buf@.len() && spec_dec_bytes(buf@.skip(pos as int)) == Some(
                (p.0@, buf@.skip(p.1 as int)),
            ),
            None => spec_dec_bytes(buf@.skip(pos as int)) is None,
        },
{
    match read_u32(buf, pos) {
        Some(p) => {
            let n = p.0;
            let p1 = p.1;
            if buf.len() - p1 >= n as usize {
                let s = slice_subrange(buf, p1, p1 + n as usize);
                let v = slice_to_vec(s);
                proof {
                    assert(buf@.skip(p1 as int).take(n as int) =~= buf@.subrange(
                        p1 as int,
                        p1 as int + n as int,
                    ));
                    assert(buf@.skip(p1 as int).skip(n as int) =~= buf@.skip(p1 as int + n as int));
                }
                Some((v, p1 + n as usize))
            } else {
                None
            }
        },
        None => None,
    }
}

fn read_str(buf: &[u8], pos: usize) -> (r: Option<(String, usize)>)
    requires
        pos <= buf@.len(),
    ensures
        match r {
            Some(p) => pos <= p.1 <= buf@.len() && spec_dec_str(buf@.skip(pos as int)) == Some(
                (p.0@, buf@.skip(p.1 as int)),
            ),
            None => spec_dec_str(buf@.skip(pos as int)) is None,
        },
{
    match read_bytes(buf, pos) {
        Some(p) => match bytes_to_string(p.0) {
            Some(s) => Some((s, p.1)),
            None => None,
        },
        None => None,
    }
}

fn read_str_list(buf: &[u8], pos: usize) -> (r: Option<(Vec<String>, usize)>)
    requires
        pos <= buf@.len(),
    ensures
        match r {
            Some(p) => pos <= p.1 <= buf@.len() && spec_dec_str_list(buf@.skip(pos as int))
                == Some((p.0.deep_view(), buf@.skip(p.1 as int))),
            None => spec_dec_str_list(buf@.skip(pos as int)) is None,
        },
{
    match read_u32(buf, pos) {
        Some(h) => {
            let n = h.0;
            let mut pos2 = h.1;
            let mut acc: Vec<String> = Vec::new();
            let mut remaining = n;
            loop
                invariant
                    h.1 <= pos2 <= buf@.len(),
                    pos <= h.1,
                    remaining <= n,
                    spec_dec_strs(buf@.skip(h.1 as int), n as nat) == (match spec_dec_strs(
                        buf@.skip(pos2 as int),
                        remaining as nat,
                    ) {
                        Some(q) => Some::<(Seq<Seq<char>>, Seq<u8>)>(
                            (acc.deep_view() + q.0, q.1),
                        ),
                        None => None::<(Seq<Seq<char>>, Seq<u8>)>,
                    }),
                    spec_dec_u32(buf@.skip(pos as int)) == Some((n, buf@.skip(h.1 as int))),
                decreases remaining,
            {
                if remaining == 0 {
                    proof {
                        assert(spec_dec_strs(buf@.skip(pos2 as int), 0) == Some(
                            (Seq::<Seq<char>>::empty(), buf@.skip(pos2 as int)),
                        ));
                        assert(acc.deep_view() + Seq::<Seq<char>>::empty() =~= acc.deep_view());
                    }
                    return Some((acc, pos2));
                }
                match read_str(buf, pos2) {
                    Some(p) => {
                        let ghost acc0 = acc.deep_view();
                        let ghost x = p.0@;
                        let ghost rem0 = remaining;
                        let ghost pos0 = pos2;
                        acc.push(p.0);
                        pos2 = p.1;
                        remaining = remaining - 1;
                        proof {
                            assert(acc.deep_view() =~= acc0 + seq![x]);
                            let tail = spec_dec_strs(
                                buf@.skip(pos2 as int),
                                (rem0 - 1) as nat,
                            );
                            assert(spec_dec_str(buf@.skip(pos0 as int)) == Some(
                                (x, buf@.skip(pos2 as int)),
                            ));
                            if tail is Some {
                                let q = tail->Some_0;
                                assert(acc0 + (seq![x] + q.0) =~= (acc0 + seq![x]) + q.0);
                                assert(spec_dec_strs(buf@.skip(pos0 as int), rem0 as nat) == Some(
                                    ((seq![x] + q.0), q.1),
                                ));
                            } else {
                                assert(spec_dec_strs(buf@.skip(pos0 as int), rem0 as nat) is None);
                            }
                        }
                    },
                    None => {
                        proof {
                            assert(spec_dec_strs(buf@.skip(pos2 as int), remaining as nat)
                                is None);
                        }
                        return None;
                    },
                }
            }
        },
        None => None,
    }
}

/// A command every one of whose fields fits behind its length prefix.
pub open spec fn command_encodable(c: CommandV) -> bool {
    match c {
        CommandV::Get { space, key } => str_encodable(space) && str_encodable(key),
        CommandV::SetValue { space, key, value } => str_encodable(space) && str_encodable(key)
            && bytes_encodable(value),
        CommandV::Delete { space, key } => str_encodable(space) && str_encodable(key),
        CommandV::ListSpaces => true,
        CommandV::ListKeys { space } => str_encodable(space),
        CommandV::DeleteSpace { space } => str_encodable(space),
        CommandV::CreateSpace { space } => str_encodable(space),
        CommandV::IsSpaceExists { space } => str_encodable(space),
    }
}

/// The bytes that encode a command: a tag byte in declaration order, then the
/// fields in declaration order.
pub open spec fn spec_encode_command(c: CommandV) -> Seq<u8> {
    match c {
        CommandV::Get { space, key } => seq![0u8] + spec_enc_str(space) + spec_enc_str(key),
        CommandV::SetValue { space, key, value } => seq![1u8] + spec_enc_str(space) + spec_enc_str(
            key,
        ) + spec_enc_bytes(value),
        CommandV::Delete { space, key } => seq![2u8] + spec_enc_str(space) + spec_enc_str(key),
        CommandV::ListSpaces => seq![3u8],
        CommandV::ListKeys { space } => seq![4u8] + spec_enc_str(space),
        CommandV::DeleteSpace { space } => seq![5u8] + spec_enc_str(space),
        CommandV::CreateSpace { space } => seq![6u8] + spec_enc_str(space),
        CommandV::IsSpaceExists { space } => seq![7u8] + spec_enc_str(space),
    }
}

/// What a byte sequence decodes to as a command, with the bytes left over.
/// Unknown tags and short fields decode to nothing.
pub open spec fn spec_decode_command(s: Seq<u8>) -> Option<(CommandV, Seq<u8>)> {
    if s.len() == 0 {
        None
    } else {
        let t = s.skip(1);
        if s[0] == 0 {
            match spec_dec_str(t) {
                Some((space, r1)) => match spec_dec_str(r1) {
                    Some((key, r2)) => Some((CommandV::Get { space, key }, r2)),
                    None => None,
                },
                None => None,
            }
        } else if s[0] == 1 {
            match spec_dec_str(t) {
                Some((space, r1)) => match spec_dec_str(r1) {
                    Some((key, r2)) => match spec_dec_bytes(r2) {
                        Some((value, r3)) => Some((CommandV::SetValue { space, key, value }, r3)),
                        None => None,
                    },
                    None => None,
                },
                None => None,
            }
        } else if s[0] == 2 {
            match spec_dec_str(t) {
                Some((space, r1)) => match spec_dec_str(r1) {
                    Some((key, r2)) => Some((CommandV::Delete { space, key }, r2)),
                    None => None,
                },
                None => None,
            }
        } else if s[0] == 3 {
            Some((CommandV::ListSpaces, t))
        } else if s[0] == 4 {
            match spec_dec_str(t) {
                Some((space, r1)) => Some((CommandV::ListKeys { space }, r1)),
                None => None,
            }
        } else if s[0] == 5 {
            match spec_dec_str(t) {
                Some((space, r1)) => Some((CommandV::DeleteSpace { space }, r1)),
                None => None,
            }
        } else if s[0] == 6 {
            match spec_dec_str(t) {
                Some((space, r1)) => Some((CommandV::CreateSpace { space }, r1)),
                None => None,
            }
        } else if s[0] == 7 {
            match spec_dec_str(t) {
                Some((space, r1)) => Some((CommandV::IsSpaceExists { space }, r1)),
                None => None,
            }
        } else {
            None
        }
    }
}

/// Encode one command.
pub fn encode_command(command: &Command) -> (r: Vec<u8>)
    requires
        command_encodable(command@),
    ensures
        r@ == spec_encode_command(command@),
{
    let mut out: Vec<u8> = Vec::new();
    match command {
        Command::Get { space, key } => {
            out.push(0u8);
            write_str(&mut out, space);
            write_str(&mut out, key);
            proof {
                assert(out@ =~= spec_encode_command(command@));
            }
        },
        Command::SetValue { space, key, value } => {
            out.push(1u8);
            write_str(&mut out, space);
            write_str(&mut out, key);
            write_bytes(&mut out, value);
            proof {
                assert(out@ =~= spec_encode_command(command@));
            }
        },
        Command::Delete { space, key } => {
            out.push(2u8);
            write_str(&mut out, space);
            write_str(&mut out, key);
            proof {
                assert(out@ =~= spec_encode_command(command@));
            }
        },
        Command::ListSpaces => {
            out.push(3u8);
            proof {
                assert(out@ =~= spec_encode_command(command@));
            }
        },
        Command::ListKeys { space } => {
            out.push(4u8);
            write_str(&mut out, space);
            proof {
                assert(out@ =~= spec_encode_command(command@));
            }
        },
        Command::DeleteSpace { space } => {
            out.push(5u8);
            write_str(&mut out, space);
            proof {
                assert(out@ =~= spec_encode_command(command@));
            }
        },
        Command::CreateSpace { space } => {
            out.push(6u8);
            write_str(&mut out, space);
            proof {
                assert(out@ =~= spec_encode_command(command@));
            }
        },
        Command::IsSpaceExists { space } => {
            out.push(7u8);
            write_str(&mut out, space);
            proof {
                assert(out@ =~= spec_encode_command(command@));
            }
        },
    }
    out
}

/// Decode one command from the front of the buffer; bytes after the command
/// are ignored, as a journal reader must tolerate.
pub fn decode_command(buf: &[u8]) -> (r: Option<Command>)
    ensures
        match (r, spec_decode_command(buf@)) {
            (Some(c), Some(p)) => c@ == p.0,
            (None, None) => true,
            _ => false,
        },
{
    if buf.len() == 0 {
        return None;
    }
    let tag = *slice_index_get(buf, 0);
    proof {
        assert(buf@[0] == tag);
    }
    if tag == 0 {
        match read_str(buf, 1) {
            Some(p1) => match read_str(buf, p1.1) {
                Some(p2) => Some(Command::Get { space: p1.0, key: p2.0 }),
                None => None,
            },
            None => None,
        }
    } else if tag == 1 {
        match read_str(buf, 1) {
            Some(p1) => match read_str(buf, p1.1) {
                Some(p2) => match read_bytes(buf, p2.1) {
                    Some(p3) => Some(
                        Command::SetValue { space: p1.0, key: p2.0, value: p3.0 },
                    ),
                    None => None,
                },
                None => None,
            },
            None => None,
        }
    } else if tag == 2 {
        match read_str(buf, 1) {
            Some(p1) => match read_str(buf, p1.1) {
                Some(p2) => Some(Command::Delete { space: p1.0, key: p2.0 }),
                None => None,
            },
            None => None,
        }
    } else if tag == 3 {
        Some(Command::ListSpaces)
    } else if tag == 4 {
        match read_str(buf, 1) {
            Some(p1) => Some(Command::ListKeys { space: p1.0 }),
            None => None,
        }
    } else if tag == 5 {
        match read_str(buf, 1) {
            Some(p1) => Some(Command::DeleteSpace { space: p1.0 }),
            None => None,
        }
    } else if tag == 6 {
        match read_str(buf, 1) {
            Some(p1) => Some(Command::CreateSpace { space: p1.0 }),
            None => None,
        }
    } else if tag == 7 {
        match read_str(buf, 1) {
            Some(p1) => Some(Command::IsSpaceExists { space: p1.0 }),
            None => None,
        }
    } else {
        None
    }
}

/// A command decodes back to itself: the encoding round-trips, with nothing
/// left over.
pub proof fn lemma_command_round_trip(c: CommandV)
    requires
        command_encodable(c),
    ensures
        spec_decode_command(spec_encode_command(c)) == Some((c, Seq::<u8>::empty())),
{
    let e = spec_encode_command(c);
    let empty = Seq::<u8>::empty();
    match c {
        CommandV::Get { space, key } => {
            assert(e.skip(1) =~= spec_enc_str(space) + (spec_enc_str(key) + empty));
            lemma_dec_str_enc(space, spec_enc_str(key) + empty);
            lemma_dec_str_enc(key, empty);
            assert(spec_enc_str(key) + empty =~= spec_enc_str(key));
            assert(spec_enc_str(key) =~= spec_enc_str(key) + empty);
        },
        CommandV::SetValue { space, key, value } => {
            assert(e.skip(1) =~= spec_enc_str(space) + (spec_enc_str(key) + (spec_enc_bytes(value)
                + empty)));
            lemma_dec_str_enc(space, spec_enc_str(key) + (spec_enc_bytes(value) + empty));
            lemma_dec_str_enc(key, spec_enc_bytes(value) + empty);
            lemma_dec_bytes_enc(value, empty);
            assert(spec_enc_bytes(value) + empty =~= spec_enc_bytes(value));
            assert(spec_enc_bytes(value) =~= spec_enc_bytes(value) + empty);
        },
        CommandV::Delete { space, key } => {
            assert(e.skip(1) =~= spec_enc_str(space) + (spec_enc_str(key) + empty));
            lemma_dec_str_enc(space, spec_enc_str(key) + empty);
            lemma_dec_str_enc(key, empty);
            assert(spec_enc_str(key) + empty =~= spec_enc_str(key));
            assert(spec_enc_str(key) =~= spec_enc_str(key) + empty);
        },
        CommandV::ListSpaces => {
            assert(e.skip(1) =~= empty);
        },
        CommandV::ListKeys { space } => {
            assert(e.skip(1) =~= spec_enc_str(space) + empty);
            lemma_dec_str_enc(space, empty);
        },
        CommandV::DeleteSpace { space } => {
            assert(e.skip(1) =~= spec_enc_str(space) + empty);
            lemma_dec_str_enc(space, empty);
        },
        CommandV::CreateSpace { space } => {
            assert(e.skip(1) =~= spec_enc_str(space) + empty);
            lemma_dec_str_enc(space, empty);
        },
        CommandV::IsSpaceExists { space } => {
            assert(e.skip(1) =~= spec_enc_str(space) + empty);
            lemma_dec_str_enc(space, empty);
        },
    }
}

/// A server error every one of whose fields fits behind its length prefix.
pub open spec fn error_encodable(e: ServerErrorV) -> bool {
    match e {
        ServerErrorV::SpaceNotFound(s) => str_encodable(s),
        ServerErrorV::KeyNotFound(k, s) => str_encodable(k) && str_encodable(s),
        ServerErrorV::SpaceAlreadyExists(s) => str_encodable(s),
        ServerErrorV::AofWriteFailed => true,
        ServerErrorV::AofReadFailed => true,
        ServerErrorV::InvalidKey(s) => str_encodable(s),
        ServerErrorV::InvalidSpaceName => true,
        ServerErrorV::ValueTooLarge => true,
    }
}

/// The bytes that encode a server error.
pub open spec fn spec_encode_error(e: ServerErrorV) -> Seq<u8> {
    match e {
        ServerErrorV::SpaceNotFound(s) => seq![0u8] + spec_enc_str(s),
        ServerErrorV::KeyNotFound(k, s) => seq![1u8] + spec_enc_str(k) + spec_enc_str(s),
        ServerErrorV::SpaceAlreadyExists(s) => seq![2u8] + spec_enc_str(s),
        ServerErrorV::AofWriteFailed => seq![3u8],
        ServerErrorV::AofReadFailed => seq![4u8],
        ServerErrorV::InvalidKey(s) => seq![5u8] + spec_enc_str(s),
        ServerErrorV::InvalidSpaceName => seq![6u8],
        ServerErrorV::ValueTooLarge => seq![7u8],
    }
}

/// What a byte sequence decodes to as a server error.
pub open spec fn spec_decode_error(s: Seq<u8>) -> Option<(ServerErrorV, Seq<u8>)> {
    if s.len() == 0 {
        None
    } else {
        let t = s.skip(1);
        if s[0] == 0 {
            match spec_dec_str(t) {
                Some((n, r)) => Some((ServerErrorV::SpaceNotFound(n), r)),
                None => None,
            }
        } else if s[0] == 1 {
            match spec_dec_str(t) {
                Some((k, r1)) => match spec_dec_str(r1) {
                    Some((n, r2)) => Some((ServerErrorV::KeyNotFound(k, n), r2)),
                    None => None,
                },
                None => None,
            }
        } else if s[0] == 2 {
            match spec_dec_str(t) {
                Some((n, r)) => Some((ServerErrorV::SpaceAlreadyExists(n), r)),
                None => None,
            }
        } else if s[0] == 3 {
            Some((ServerErrorV::AofWriteFailed, t))
        } else if s[0] == 4 {
            Some((ServerErrorV::AofReadFailed, t))
        } else if s[0] == 5 {
            match spec_dec_str(t) {
                Some((n, r)) => Some((ServerErrorV::InvalidKey(n), r)),
                None => None,
            }
        } else if s[0] == 6 {
            Some((ServerErrorV::InvalidSpaceName, t))
        } else if s[0] == 7 {
            Some((ServerErrorV::ValueTooLarge, t))
        } else {
            None
        }
    }
}

/// A response every one of whose fields fits behind its length prefix.
pub open spec fn response_encodable(r: ResponseV) -> bool {
    match r {
        ResponseV::Done => true,
        ResponseV::Value(v) => match v {
            Some(b) => bytes_encodable(b),
            None => true,
        },
        ResponseV::Keys(l) => strs_encodable(l),
        ResponseV::Spaces(l) => strs_encodable(l),
        ResponseV::Bool(_) => true,
        ResponseV::Error(e) => error_encodable(e),
    }
}

/// The bytes that encode a response: a tag byte in declaration order, then
/// the fields; an optional value carries one presence byte.
pub open spec fn spec_encode_response(r: ResponseV) -> Seq<u8> {
    match r {
        ResponseV::Done => seq![0u8],
        ResponseV::Value(v) => match v {
            None => seq![1u8, 0u8],
            Some(b) => seq![1u8, 1u8] + spec_enc_bytes(b),
        },
        ResponseV::Keys(l) => seq![2u8] + spec_enc_str_list(l),
        ResponseV::Spaces(l) => seq![3u8] + spec_enc_str_list(l),
        ResponseV::Bool(b) => seq![
            4u8,
            if b {
                1u8
            } else {
                0u8
            },
        ],
        ResponseV::Error(e) => seq![5u8] + spec_encode_error(e),
    }
}

/// What a byte sequence decodes to as a response.
pub open spec fn spec_decode_response(s: Seq<u8>) -> Option<(ResponseV, Seq<u8>)> {
    if s.len() == 0 {
        None
    } else {
        let t = s.skip(1);
        if s[0] == 0 {
            Some((ResponseV::Done, t))
        } else if s[0] == 1 {
            if t.len() == 0 {
                None
            } else if t[0] == 0 {
                Some((ResponseV::Value(None), t.skip(1)))
            } else if t[0] == 1 {
                match spec_dec_bytes(t.skip(1)) {
                    Some((b, r)) => Some((ResponseV::Value(Some(b)), r)),
                    None => None,
                }
            } else {
                None
            }
        } else if s[0] == 2 {
            match spec_dec_str_list(t) {
                Some((l, r)) => Some((ResponseV::Keys(l), r)),
                None => None,
            }
        } else if s[0] == 3 {
            match spec_dec_str_list(t) {
                Some((l, r)) => Some((ResponseV::Spaces(l), r)),
                None => None,
            }
        } else if s[0] == 4 {
            if t.len() == 0 {
                None
            } else if t[0] == 0 {
                Some((ResponseV::Bool(false), t.skip(1)))
            } else if t[0] == 1 {
                Some((ResponseV::Bool(true), t.skip(1)))
            } else {
                None
            }
        } else if s[0] == 5 {
            match spec_decode_error(t) {
                Some((e, r)) => Some((ResponseV::Error(e), r)),
                None => None,
            }
        } else {
            None
        }
    }
}

fn encode_error_into(out: &mut Vec<u8>, e: &ServerError)
    requires
        error_encodable(e@),
    ensures
        final(out)@ == old(out)@ + spec_encode_error(e@),
{
    match e {
        ServerError::SpaceNotFound(n) => {
            out.push(0u8);
            write_str(out, n);
            proof {
                assert(final(out)@ =~= old(out)@ + spec_encode_error(e@));
            }
        },
        ServerError::KeyNotFound(k, n) => {
            out.push(1u8);
            write_str(out, k);
            write_str(out, n);
            proof {
                assert(final(out)@ =~= old(out)@ + spec_encode_error(e@));
            }
        },
        ServerError::SpaceAlreadyExists(n) => {
            out.push(2u8);
            write_str(out, n);
            proof {
                assert(final(out)@ =~= old(out)@ + spec_encode_error(e@));
            }
        },
        ServerError::AofWriteFailed => {
            out.push(3u8);
            proof {
                assert(final(out)@ =~= old(out)@ + spec_encode_error(e@));
            }
        },
        ServerError::AofReadFailed => {
            out.push(4u8);
            proof {
                assert(final(out)@ =~= old(out)@ + spec_encode_error(e@));
            }
        },
        ServerError::InvalidKey(n) => {
            out.push(5u8);
            write_str(out, n);
            proof {
                assert(final(out)@ =~= old(out)@ + spec_encode_error(e@));
            }
        },
        ServerError::InvalidSpaceName => {
            out.push(6u8);
            proof {
                assert(final(out)@ =~= old(out)@ + spec_encode_error(e@));
            }
        },
        ServerError::ValueTooLarge => {
            out.push(7u8);
            proof {
                assert(final(out)@ =~= old(out)@ + spec_encode_error(e@));
            }
        },
    }
}

fn decode_error_at(buf: &[u8], pos: usize) -> (r: Option<(ServerError, usize)>)
    requires
        pos <= buf@.len(),
    ensures
        match r {
            Some(p) => pos <= p.1 <= buf@.len() && spec_decode_error(buf@.skip(pos as int))
                == Some((p.0@, buf@.skip(p.1 as int))),
            None => spec_decode_error(buf@.skip(pos as int)) is None,
        },
{
    if buf.len() - pos == 0 {
        return None;
    }
    let tag = *slice_index_get(buf, pos);
    proof {
        assert(buf@.skip(pos as int)[0] == buf@[pos as int]);
        assert(buf@.skip(pos as int).skip(1) =~= buf@.skip(pos as int + 1));
    }
    if tag == 0 {
        match read_str(buf, pos + 1) {
            Some(p) => Some((ServerError::SpaceNotFound(p.0), p.1)),
            None => None,
        }
    } else if tag == 1 {
        match read_str(buf, pos + 1) {
            Some(p1) => match read_str(buf, p1.1) {
                Some(p2) => Some((ServerError::KeyNotFound(p1.0, p2.0), p2.1)),
                None => None,
            },
            None => None,
        }
    } else if tag == 2 {
        match read_str(buf, pos + 1) {
            Some(p) => Some((ServerError::SpaceAlreadyExists(p.0), p.1)),
            None => None,
        }
    } else if tag == 3 {
        Some((ServerError::AofWriteFailed, pos + 1))
    } else if tag == 4 {
        Some((ServerError::AofReadFailed, pos + 1))
    } else if tag == 5 {
        match read_str(buf, pos + 1) {
            Some(p) => Some((ServerError::InvalidKey(p.0), p.1)),
            None => None,
        }
    } else if tag == 6 {
        Some((ServerError::InvalidSpaceName, pos + 1))
    } else if tag == 7 {
        Some((ServerError::ValueTooLarge, pos + 1))
    } else {
        None
    }
}

/// Encode one response.
pub fn encode_response(response: &Response) -> (r: Vec<u8>)
    requires
        response_encodable(response@),
    ensures
        r@ == spec_encode_response(response@),
{
    let mut out: Vec<u8> = Vec::new();
    match response {
        Response::Done => {
            out.push(0u8);
            proof {
                assert(out@ =~= spec_encode_response(response@));
            }
        },
        Response::Value(v) => {
            out.push(1u8);
            match v {
                None => {
                    out.push(0u8);
                    proof {
                        assert(out@ =~= spec_encode_response(response@));
                    }
                },
                Some(b) => {
                    out.push(1u8);
                    write_bytes(&mut out, b);
                    proof {
                        assert(out@ =~= spec_encode_response(response@));
                    }
                },
            }
        },
        Response::Keys(l) => {
            out.push(2u8);
            write_str_list(&mut out, l);
            proof {
                assert(out@ =~= spec_encode_response(response@));
            }
        },
        Response::Spaces(l) => {
            out.push(3u8);
            write_str_list(&mut out, l);
            proof {
                assert(out@ =~= spec_encode_response(response@));
            }
        },
        Response::Bool(b) => {
            out.push(4u8);
            if *b {
                out.push(1u8);
            } else {
                out.push(0u8);
            }
            proof {
                assert(out@ =~= spec_encode_response(response@));
            }
        },
        Response::Error(e) => {
            out.push(5u8);
            encode_error_into(&mut out, e);
            proof {
                assert(out@ =~= spec_encode_response(response@));
            }
        },
    }
    out
}

/// Decode one response from the front of the buffer; trailing bytes are
/// ignored.
pub fn decode_response(buf: &[u8]) -> (r: Option<Response>)
    ensures
        match (r, spec_decode_response(buf@)) {
            (Some(resp), Some(p)) => resp@ == p.0,
            (None, None) => true,
            _ => false,
        },
{
    if buf.len() == 0 {
        return None;
    }
    let tag = *slice_index_get(buf, 0);
    if tag == 0 {
        Some(Response::Done)
    } else if tag == 1 {
        if buf.len() < 2 {
            return None;
        }
        let presence = *slice_index_get(buf, 1);
        proof {
            assert(buf@.skip(1)[0] == buf@[1]);
            assert(buf@.skip(1).skip(1) =~= buf@.skip(2));
        }
        if presence == 0 {
            Some(Response::Value(None))
        } else if presence == 1 {
            match read_bytes(buf, 2) {
                Some(p) => Some(Response::Value(Some(p.0))),
                None => None,
            }
        } else {
            None
        }
    } else if tag == 2 {
        match read_str_list(buf, 1) {
            Some(p) => Some(Response::Keys(p.0)),
            None => None,
        }
    } else if tag == 3 {
        match read_str_list(buf, 1) {
            Some(p) => Some(Response::Spaces(p.0)),
            None => None,
        }
    } else if tag == 4 {
        if buf.len() < 2 {
            return None;
        }
        let presence = *slice_index_get(buf, 1);
        proof {
            assert(buf@.skip(1)[0] == buf@[1]);
        }
        if presence == 0 {
            Some(Response::Bool(false))
        } else if presence == 1 {
            Some(Response::Bool(true))
        } else {
            None
        }
    } else if tag == 5 {
        match decode_error_at(buf, 1) {
            Some(p) => Some(Response::Error(p.0)),
            None => None,
        }
    } else {
        None
    }
}

/// A server error decodes back to itself, with the remainder untouched.
pub proof fn lemma_error_round_trip(e: ServerErrorV, rest: Seq<u8>)
    requires
        error_encodable(e),
    ensures
        spec_decode_error(spec_encode_error(e) + rest) == Some((e, rest)),
{
    let s = spec_encode_error(e) + rest;
    match e {
        ServerErrorV::SpaceNotFound(n) => {
            assert(s.skip(1) =~= spec_enc_str(n) + rest);
            lemma_dec_str_enc(n, rest);
        },
        ServerErrorV::KeyNotFound(k, n) => {
            assert(s.skip(1) =~= spec_enc_str(k) + (spec_enc_str(n) + rest));
            lemma_dec_str_enc(k, spec_enc_str(n) + rest);
            lemma_dec_str_enc(n, rest);
        },
        ServerErrorV::SpaceAlreadyExists(n) => {
            assert(s.skip(1) =~= spec_enc_str(n) + rest);
            lemma_dec_str_enc(n, rest);
        },
        ServerErrorV::AofWriteFailed => {
            assert(s.skip(1) =~= rest);
        },
        ServerErrorV::AofReadFailed => {
            assert(s.skip(1) =~= rest);
        },
        ServerErrorV::InvalidKey(n) => {
            assert(s.skip(1) =~= spec_enc_str(n) + rest);
            lemma_dec_str_enc(n, rest);
        },
        ServerErrorV::InvalidSpaceName => {
            assert(s.skip(1) =~= rest);
        },
        ServerErrorV::ValueTooLarge => {
            assert(s.skip(1) =~= rest);
        },
    }
}

/// A response decodes back to itself: the encoding round-trips, with nothing
/// left over.
pub proof fn lemma_response_round_trip(r: ResponseV)
    requires
        response_encodable(r),
    ensures
        spec_decode_response(spec_encode_response(r)) == Some((r, Seq::<u8>::empty())),
{
    let e = spec_encode_response(r);
    let empty = Seq::<u8>::empty();
    match r {
        ResponseV::Done => {
            assert(e.skip(1) =~= empty);
        },
        ResponseV::Value(v) => {
            match v {
                None => {
                    assert(e.skip(1)[0] == 0u8);
                    assert(e.skip(1).skip(1) =~= empty);
                },
                Some(b) => {
                    assert(e.skip(1)[0] == 1u8);
                    assert(e.skip(1).skip(1) =~= spec_enc_bytes(b) + empty);
                    lemma_dec_bytes_enc(b, empty);
                },
            }
        },
        ResponseV::Keys(l) => {
            assert(e.skip(1) =~= spec_enc_str_list(l) + empty);
            lemma_dec_str_list_enc(l, empty);
        },
        ResponseV::Spaces(l) => {
            assert(e.skip(1) =~= spec_enc_str_list(l) + empty);
            lemma_dec_str_list_enc(l, empty);
        },
        ResponseV::Bool(b) => {
            assert(e.skip(1)[0] == if b {
                1u8
            } else {
                0u8
            });
            assert(e.skip(1).skip(1) =~= empty);
        },
        ResponseV::Error(err) => {
            assert(e.skip(1) =~= spec_encode_error(err) + empty);
            lemma_error_round_trip(err, empty);
        },
    }
}

} // verus!

//! The append-only log: how journal records are laid out, and how a log's
//! bytes fold back into a store at startup.
//!
//! A record is one frame holding one encoded command. Restoration walks the
//! bytes front to back: a missing or short length prefix ends the walk (a
//! cleanly closed or truncated log), a short payload ends it too (a record
//! cut mid-write), and a payload that does not decode is skipped; everything
//! read before that point stays applied.

use vstd::bytes::{lemma_auto_spec_u32_to_from_le_bytes, spec_u32_from_le_bytes};
use vstd::prelude::*;
use vstd::slice::slice_subrange;

use crate::codec::{
    command_encodable, decode_command, encode_command, lemma_command_round_trip,
    spec_decode_command, spec_enc_u32, spec_encode_command,
};
use crate::engine::{apply_command_to_store, spec_apply_replay, spec_fold_replay};
use crate::frame::{encode_frame, spec_frame};
use crate::proto::{Command, CommandV};
use crate::store::{Store, StoreMapV};

verus! {

/// A command whose encoding fits in one journal record.
pub open spec fn record_encodable(c: CommandV) -> bool {
    &&& command_encodable(c)
    &&& spec_encode_command(c).len() <= u32::MAX
}

/// The bytes of one journal record: a frame holding the encoded command.
pub open spec fn spec_aof_record(c: CommandV) -> Seq<u8> {
    spec_frame(spec_encode_command(c))
}

/// Encode one journal record, as the log writer appends it.
pub fn encode_aof_record(command: &Command) -> (r: Vec<u8>)
    requires
        record_encodable(command@),
    ensures
        r@ == spec_aof_record(command@),
{
    let payload = encode_command(command);
    encode_frame(&payload)
}

/// What a log's bytes leave of a store, walking front to back.
pub open spec fn spec_restore_from(bytes: Seq<u8>, m: StoreMapV) -> StoreMapV
    decreases bytes.len(),
{
    if bytes.len() < 4 {
        m
    } else {
        let n = spec_u32_from_le_bytes(bytes.take(4));
        if bytes.len() < 4 + n {
            m
        } else {
            let payload = bytes.subrange(4, 4 + n);
            let m2 = match spec_decode_command(payload) {
                Some(p) => spec_apply_replay(m, p.0),
                None => m,
            };
            spec_restore_from(bytes.skip(4 + n), m2)
        }
    }
}

/// The store a log reconstructs from nothing.
pub open spec fn spec_restore(bytes: Seq<u8>) -> StoreMapV {
    spec_restore_from(bytes, Map::empty())
}

/// Rebuild the store from the log's bytes. Never fails: a trailing partial
/// record is skipped and an undecodable record is passed over, with every
/// record before it applied.
pub fn restore_from_aof(bytes: &Vec<u8>) -> (r: Store)
    ensures
        r.wf(),
        r@ == spec_restore(bytes@),
{
    let mut store = Store::new();
    let buf = bytes.as_slice();
    let mut pos: usize = 0;
    proof {
        assert(buf@.skip(0) =~= bytes@);
    }
    loop
        invariant
            pos <= buf@.len(),
            buf@ == bytes@,
            store.wf(),
            spec_restore(bytes@) == spec_restore_from(buf@.skip(pos as int), store@),
        decreases buf@.len() - pos,
    {
        if buf.len() - pos < 4 {
            return store;
        }
        let len_slice = slice_subrange(buf, pos, pos + 4);
        let n = vstd::bytes::u32_from_le_bytes(len_slice);
        proof {
            assert(buf@.skip(pos as int).take(4) =~= buf@.subrange(pos as int, pos as int + 4));
        }
        if buf.len() - pos - 4 < n as usize {
            return store;
        }
        let payload = slice_subrange(buf, pos + 4, pos + 4 + n as usize);
        proof {
            assert(payload@ =~= buf@.skip(pos as int).subrange(4, 4 + n as int));
            assert(buf@.skip(pos as int).skip(4 + n as int) =~= buf@.skip(
                pos as int + 4 + n as int,
            ));
        }
        match decode_command(payload) {
            Some(cmd) => {
                store = apply_command_to_store(store, &cmd);
            },
            None => {},
        }
        pos = pos + 4 + n as usize;
    }
}

/// The journal a command sequence leaves behind: its records, oldest first.
pub open spec fn spec_aof_bytes(cs: Seq<CommandV>) -> Seq<u8>
    decreases cs.len(),
{
    if cs.len() == 0 {
        Seq::empty()
    } else {
        spec_aof_record(cs[0]) + spec_aof_bytes(cs.skip(1))
    }
}

/// Trailing bytes that restoration stops at: too short for a length prefix,
/// or announcing more payload than follows.
pub open spec fn is_partial_record(partial: Seq<u8>) -> bool {
    ||| partial.len() < 4
    ||| partial.len() < 4 + spec_u32_from_le_bytes(partial.take(4))
}

/// Restoring a journal applies exactly the journalled commands in write
/// order, even when the log was cut mid-record: the replayed store is the
/// replay fold of the commands, and the trailing partial record is skipped.
pub proof fn lemma_restore_replays_journal(cs: Seq<CommandV>, partial: Seq<u8>, m: StoreMapV)
    requires
        forall|i: int| 0 <= i < cs.len() ==> record_encodable(#[trigger] cs[i]),
        is_partial_record(partial),
    ensures
        spec_restore_from(spec_aof_bytes(cs) + partial, m) == spec_fold_replay(m, cs),
    decreases cs.len(),
{
    lemma_auto_spec_u32_to_from_le_bytes();
    if cs.len() == 0 {
        assert(spec_aof_bytes(cs) + partial =~= partial);
        if partial.len() >= 4 {
            assert(partial.len() < 4 + spec_u32_from_le_bytes(partial.take(4)));
        }
    } else {
        let c = cs[0];
        let e = spec_encode_command(c);
        let tail = spec_aof_bytes(cs.skip(1)) + partial;
        let s = spec_aof_bytes(cs) + partial;
        assert(s =~= (spec_enc_u32(e.len() as u32) + e) + tail);
        assert(s.take(4) =~= spec_enc_u32(e.len() as u32));
        assert(spec_u32_from_le_bytes(s.take(4)) == e.len());
        assert(s.len() >= 4 + e.len());
        assert(s.subrange(4, 4 + e.len() as int) =~= e);
        lemma_command_round_trip(c);
        assert(s.skip(4 + e.len() as int) =~= tail);
        lemma_restore_replays_journal(cs.skip(1), partial, spec_apply_replay(m, c));
    }
}

/// After a restart with the same log, the reconstructed store equals the
/// fold of all journalled commands in write order.
pub proof fn lemma_restore_equals_fold(cs: Seq<CommandV>)
    requires
        forall|i: int| 0 <= i < cs.len() ==> record_encodable(#[trigger] cs[i]),
    ensures
        spec_restore(spec_aof_bytes(cs)) == spec_fold_replay(Map::empty(), cs),
{
    lemma_restore_replays_journal(cs, Seq::empty(), Map::empty());
    assert(spec_aof_bytes(cs) + Seq::<u8>::empty() =~= spec_aof_bytes(cs));
}

} // verus!

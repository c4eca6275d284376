//! The storage engine's command semantics.
//!
//! Every command denotes a function of the store's mathematical map: reads
//! leave it unchanged, writes either step it or return an error. The live
//! path validates first and refuses writes against missing or duplicate
//! spaces; the replay path (used when the log is folded back at startup) is
//! deliberately laxer, so that journalled-but-refused writes are tolerated.

use vstd::prelude::*;

use crate::error::{ServerError, ServerErrorV};
use crate::hashed_key::HashedKey;
use crate::proto::{Command, CommandV, Response, ResponseV};
use crate::store::{SpaceData, Store, StoreMapV};
use crate::{MAX_SPACE_NAME_LEN, MAX_VALUE_LEN};

verus! {

/// Copy a byte vector; the copy's view equals the source's.
pub fn clone_bytes(v: &Vec<u8>) -> (r: Vec<u8>)
    ensures
        r@ == v@,
{
    let mut r: Vec<u8> = Vec::new();
    let mut i: usize = 0;
    while i < v.len()
        invariant
            i <= v@.len(),
            r@ == v@.take(i as int),
        decreases v@.len() - i,
    {
        r.push(v[i]);
        proof {
            assert(r@ =~= v@.take(i + 1));
        }
        i = i + 1;
    }
    proof {
        assert(v@.take(v@.len() as int) =~= v@);
    }
    r
}

/// The commands that only read the store.
pub open spec fn is_read_command(c: CommandV) -> bool {
    match c {
        CommandV::Get { .. } => true,
        CommandV::ListKeys { .. } => true,
        CommandV::ListSpaces => true,
        CommandV::IsSpaceExists { .. } => true,
        _ => false,
    }
}

/// The commands that change the store and are journalled.
pub open spec fn is_write_command(c: CommandV) -> bool {
    match c {
        CommandV::SetValue { .. } => true,
        CommandV::Delete { .. } => true,
        CommandV::DeleteSpace { .. } => true,
        CommandV::CreateSpace { .. } => true,
        _ => false,
    }
}

/// Whether the command mutates the store (and so must be journalled).
pub fn is_mutating(command: &Command) -> (r: bool)
    ensures
        r == is_write_command(command@),
        r == !is_read_command(command@),
{
    match command {
        Command::SetValue { .. } => true,
        Command::Delete { .. } => true,
        Command::DeleteSpace { .. } => true,
        Command::CreateSpace { .. } => true,
        _ => false,
    }
}

/// The validation verdict on a command: `None` means acceptable. Only `Set`
/// and `CreateSpace` carry conditions; space-name length is measured in bytes
/// of its UTF-8 form, as the wire does.
pub open spec fn spec_validate(c: CommandV) -> Option<ServerErrorV> {
    match c {
        CommandV::SetValue { space, key, value } => if key.len() == 0 {
            Some(ServerErrorV::InvalidKey("Key cannot be empty"@))
        } else if value.len() > MAX_VALUE_LEN {
            Some(ServerErrorV::ValueTooLarge)
        } else {
            None
        },
        CommandV::CreateSpace { space } => if space.len() == 0 || vstd::utf8::encode_utf8(
            space,
        ).len() > MAX_SPACE_NAME_LEN {
            Some(ServerErrorV::InvalidSpaceName)
        } else {
            None
        },
        _ => None,
    }
}

/// Check a command before journalling or applying it. Exactly the commands
/// `spec_validate` accepts pass; the error returned is the one it names.
pub fn validate_command(command: &Command) -> (r: Result<(), ServerError>)
    ensures
        match r {
            Ok(()) => spec_validate(command@) is None,
            Err(e) => spec_validate(command@) == Some(e@),
        },
{
    match command {
        Command::SetValue { space: _, key, value } => {
            if key.as_str().is_empty() {
                Err(ServerError::InvalidKey(String::from_str("Key cannot be empty")))
            } else if value.len() > MAX_VALUE_LEN {
                Err(ServerError::ValueTooLarge)
            } else {
                Ok(())
            }
        },
        Command::CreateSpace { space } => {
            if space.as_str().is_empty() || space.as_str().as_bytes().len() > MAX_SPACE_NAME_LEN {
                Err(ServerError::InvalidSpaceName)
            } else {
                Ok(())
            }
        },
        _ => Ok(()),
    }
}

/// Replay semantics: how a journalled command folds into a store being
/// rebuilt. Missing targets are tolerated and `CreateSpace` overwrites.
pub open spec fn spec_apply_replay(m: StoreMapV, c: CommandV) -> StoreMapV {
    match c {
        CommandV::SetValue { space, key, value } => m.insert(
            space,
            Store::space_or_empty(m, space).insert(key, value),
        ),
        CommandV::Delete { space, key } => if m.contains_key(space) {
            m.insert(space, m[space].remove(key))
        } else {
            m
        },
        CommandV::CreateSpace { space } => m.insert(space, Map::empty()),
        CommandV::DeleteSpace { space } => m.remove(space),
        _ => m,
    }
}

/// Live-write semantics: how the engine steps the store for a validated
/// write, or which error it returns instead.
pub open spec fn spec_apply_write(m: StoreMapV, c: CommandV) -> Result<StoreMapV, ServerErrorV> {
    match c {
        CommandV::SetValue { space, key, value } => Ok(
            m.insert(space, Store::space_or_empty(m, space).insert(key, value)),
        ),
        CommandV::Delete { space, key } => if m.contains_key(space) {
            Ok(m.insert(space, m[space].remove(key)))
        } else {
            Err(ServerErrorV::SpaceNotFound(space))
        },
        CommandV::DeleteSpace { space } => if m.contains_key(space) {
            Ok(m.remove(space))
        } else {
            Err(ServerErrorV::SpaceNotFound(space))
        },
        CommandV::CreateSpace { space } => if m.contains_key(space) {
            Err(ServerErrorV::SpaceAlreadyExists(space))
        } else {
            Ok(m.insert(space, Map::empty()))
        },
        _ => Ok(m),
    }
}

/// Fold one journalled command into a store being rebuilt.
pub fn apply_command_to_store(store: Store, command: &Command) -> (r: Store)
    requires
        store.wf(),
    ensures
        r.wf(),
        r@ == spec_apply_replay(store@, command@),
{
    let mut store = store;
    match command {
        Command::SetValue { space, key, value } => {
            store.set_value(space.clone(), HashedKey::new(key.clone()), clone_bytes(value));
        },
        Command::Delete { space, key } => {
            store.delete_value(space, key);
        },
        Command::CreateSpace { space } => {
            store.insert_space(space.clone(), SpaceData::new());
        },
        Command::DeleteSpace { space } => {
            store.remove_space(space);
        },
        _ => {},
    }
    store
}

/// Apply a write to the store in place. On an error the store is unchanged.
/// Validation is the caller's step; this is the publish step's semantics.
pub fn apply_write(store: &mut Store, command: &Command) -> (r: Result<(), ServerError>)
    requires
        old(store).wf(),
    ensures
        final(store).wf(),
        match r {
            Ok(()) => spec_apply_write(old(store)@, command@) == Ok::<StoreMapV, ServerErrorV>(
                final(store)@,
            ),
            Err(e) => final(store)@ == old(store)@ && spec_apply_write(old(store)@, command@)
                == Err::<StoreMapV, ServerErrorV>(e@),
        },
{
    match command {
        Command::SetValue { space, key, value } => {
            store.set_value(space.clone(), HashedKey::new(key.clone()), clone_bytes(value));
            Ok(())
        },
        Command::Delete { space, key } => {
            if store.delete_value(space, key) {
                Ok(())
            } else {
                Err(ServerError::SpaceNotFound(space.clone()))
            }
        },
        Command::DeleteSpace { space } => {
            if store.contains_space(space) {
                store.remove_space(space);
                Ok(())
            } else {
                Err(ServerError::SpaceNotFound(space.clone()))
            }
        },
        Command::CreateSpace { space } => {
            if store.contains_space(space) {
                Err(ServerError::SpaceAlreadyExists(space.clone()))
            } else {
                store.insert_space(space.clone(), SpaceData::new());
                Ok(())
            }
        },
        _ => Ok(()),
    }
}

/// The response a `Get` earns against a given store.
pub open spec fn spec_get_response(m: StoreMapV, space: Seq<char>, key: Seq<char>) -> ResponseV {
    if m.contains_key(space) {
        ResponseV::Value(
            if m[space].contains_key(key) {
                Some(m[space][key])
            } else {
                None
            },
        )
    } else {
        ResponseV::Error(ServerErrorV::SpaceNotFound(space))
    }
}

/// What a `ListKeys` response must look like: the keys of the space, each
/// once, in some order; or `SpaceNotFound` if the space is absent.
pub open spec fn spec_keys_response_ok(m: StoreMapV, space: Seq<char>, r: ResponseV) -> bool {
    if m.contains_key(space) {
        match r {
            ResponseV::Keys(ks) => ks.no_duplicates() && (forall|k: Seq<char>|
                #[trigger] ks.contains(k) <==> m[space].contains_key(k)),
            _ => false,
        }
    } else {
        r == ResponseV::Error(ServerErrorV::SpaceNotFound(space))
    }
}

/// What a `ListSpaces` response must look like: every space name, once each.
pub open spec fn spec_spaces_response_ok(m: StoreMapV, r: ResponseV) -> bool {
    match r {
        ResponseV::Spaces(ss) => ss.no_duplicates() && (forall|k: Seq<char>|
            #[trigger] ss.contains(k) <==> m.contains_key(k)),
        _ => false,
    }
}

/// What any read command's response must look like against a given store.
pub open spec fn spec_read_response_ok(m: StoreMapV, c: CommandV, r: ResponseV) -> bool {
    match c {
        CommandV::Get { space, key } => r == spec_get_response(m, space, key),
        CommandV::ListKeys { space } => spec_keys_response_ok(m, space, r),
        CommandV::ListSpaces => spec_spaces_response_ok(m, r),
        CommandV::IsSpaceExists { space } => r == ResponseV::Bool(m.contains_key(space)),
        _ => false,
    }
}

/// Serve a read command from a snapshot of the store.
pub fn execute_read(store: &Store, command: &Command) -> (r: Response)
    requires
        store.wf(),
        is_read_command(command@),
    ensures
        spec_read_response_ok(store@, command@, r@),
{
    match command {
        Command::Get { space, key } => {
            match store.get_space(space) {
                Some(data) => match data.get(key) {
                    Some(v) => Response::Value(Some(clone_bytes(v))),
                    None => Response::Value(None),
                },
                None => Response::Error(ServerError::SpaceNotFound(space.clone())),
            }
        },
        Command::ListKeys { space } => {
            match store.get_space(space) {
                Some(data) => Response::Keys(data.key_strings()),
                None => Response::Error(ServerError::SpaceNotFound(space.clone())),
            }
        },
        Command::ListSpaces => Response::Spaces(store.space_names()),
        Command::IsSpaceExists { space } => Response::Bool(store.contains_space(space)),
        _ => {
            proof {
                assert(false);
            }
            Response::Bool(false)
        },
    }
}

/// The complete single-snapshot semantics of one command: the response owed
/// and the store it leaves behind. Reads leave the store as it was; writes
/// are validated, then applied; every failure is reported in the response,
/// never by a fault.
pub open spec fn spec_step_result(m: StoreMapV, c: CommandV, r: ResponseV, m2: StoreMapV) -> bool {
    if is_read_command(c) {
        m2 == m && spec_read_response_ok(m, c, r)
    } else {
        match spec_validate(c) {
            Some(e) => m2 == m && r == ResponseV::Error(e),
            None => match spec_apply_write(m, c) {
                Ok(m3) => m2 == m3 && r == ResponseV::Done,
                Err(e) => m2 == m && r == ResponseV::Error(e),
            },
        }
    }
}

/// Execute one command against the store: the whole engine, less journalling.
/// This is what the embedded backend runs, and what the server runs per
/// request once the journal enqueue (the caller's step) has succeeded.
pub fn execute_step(store: &mut Store, command: &Command) -> (r: Response)
    requires
        old(store).wf(),
    ensures
        final(store).wf(),
        spec_step_result(old(store)@, command@, r@, final(store)@),
{
    if is_mutating(command) {
        match validate_command(command) {
            Err(e) => Response::Error(e),
            Ok(()) => match apply_write(store, command) {
                Ok(()) => Response::Done,
                Err(e) => Response::Error(e),
            },
        }
    } else {
        execute_read(store, command)
    }
}

/// How one command leaves the store: reads and refused writes leave it as it
/// was, accepted writes step it.
pub open spec fn spec_step_store(m: StoreMapV, c: CommandV) -> StoreMapV {
    if is_read_command(c) {
        m
    } else if spec_validate(c) is Some {
        m
    } else {
        match spec_apply_write(m, c) {
            Ok(m2) => m2,
            Err(_) => m,
        }
    }
}

/// Fold a command sequence into a store, oldest first, live semantics.
pub open spec fn spec_fold_steps(m: StoreMapV, cs: Seq<CommandV>) -> StoreMapV
    decreases cs.len(),
{
    if cs.len() == 0 {
        m
    } else {
        spec_fold_steps(spec_step_store(m, cs[0]), cs.skip(1))
    }
}

/// Fold a command sequence into a store, oldest first, replay semantics.
pub open spec fn spec_fold_replay(m: StoreMapV, cs: Seq<CommandV>) -> StoreMapV
    decreases cs.len(),
{
    if cs.len() == 0 {
        m
    } else {
        spec_fold_replay(spec_apply_replay(m, cs[0]), cs.skip(1))
    }
}

/// Every command of the sequence is a write that validates and applies
/// without error, each against the store the ones before it left.
pub open spec fn spec_writes_all_succeed(m: StoreMapV, cs: Seq<CommandV>) -> bool
    decreases cs.len(),
{
    if cs.len() == 0 {
        true
    } else {
        &&& is_write_command(cs[0])
        &&& spec_validate(cs[0]) is None
        &&& spec_apply_write(m, cs[0]) is Ok
        &&& spec_writes_all_succeed(spec_apply_write(m, cs[0])->Ok_0, cs.skip(1))
    }
}

/// A write the live engine accepts changes the store exactly as replay does.
pub proof fn lemma_accepted_write_matches_replay(m: StoreMapV, c: CommandV)
    requires
        spec_apply_write(m, c) is Ok,
    ensures
        spec_apply_replay(m, c) == spec_apply_write(m, c)->Ok_0,
{
}

/// After a sequence of writes that all validate and apply without error, the
/// live store is exactly their replay fold.
pub proof fn lemma_write_fold_matches_replay_fold(m: StoreMapV, cs: Seq<CommandV>)
    requires
        spec_writes_all_succeed(m, cs),
    ensures
        spec_fold_steps(m, cs) == spec_fold_replay(m, cs),
    decreases cs.len(),
{
    if cs.len() > 0 {
        lemma_accepted_write_matches_replay(m, cs[0]);
        lemma_write_fold_matches_replay_fold(spec_apply_write(m, cs[0])->Ok_0, cs.skip(1));
    }
}

/// Responses agree when they are equal, listing order aside.
pub open spec fn responses_equivalent(r1: ResponseV, r2: ResponseV) -> bool {
    match (r1, r2) {
        (ResponseV::Keys(a), ResponseV::Keys(b)) => forall|k: Seq<char>|
            #[trigger] a.contains(k) <==> #[trigger] b.contains(k),
        (ResponseV::Spaces(a), ResponseV::Spaces(b)) => forall|k: Seq<char>|
            #[trigger] a.contains(k) <==> #[trigger] b.contains(k),
        _ => r1 == r2,
    }
}

/// A read is determined by the snapshot it runs against: two responses that
/// both conform to the read relation over the same store agree, listing
/// order aside.
pub proof fn lemma_read_determined_by_snapshot(
    m: StoreMapV,
    c: CommandV,
    r1: ResponseV,
    r2: ResponseV,
)
    requires
        is_read_command(c),
        spec_read_response_ok(m, c, r1),
        spec_read_response_ok(m, c, r2),
    ensures
        responses_equivalent(r1, r2),
{
}

/// Reads see exactly the fold of the writes before them: after a burst of
/// writes that all succeed, a conforming read response against the live store
/// is a conforming response against the replay fold of those writes, and any
/// two conforming responses agree.
pub proof fn lemma_reads_reflect_writes(
    m: StoreMapV,
    ws: Seq<CommandV>,
    c: CommandV,
    r: ResponseV,
)
    requires
        spec_writes_all_succeed(m, ws),
        is_read_command(c),
        spec_read_response_ok(spec_fold_steps(m, ws), c, r),
    ensures
        spec_read_response_ok(spec_fold_replay(m, ws), c, r),
{
    lemma_write_fold_matches_replay_fold(m, ws);
}

/// After a `Set` of `space`/`key`, a `Get` of them returns the value; after a
/// further `Delete` of the key it returns no value; after a `DeleteSpace` of
/// the space instead, it reports the space as missing.
pub proof fn lemma_set_then_get(m: StoreMapV, space: Seq<char>, key: Seq<char>, value: Seq<u8>)
    ensures
        ({
            let set_cmd = CommandV::SetValue { space, key, value };
            let m1 = spec_apply_write(m, set_cmd)->Ok_0;
            &&& spec_apply_write(m, set_cmd) is Ok
            &&& spec_get_response(m1, space, key) == ResponseV::Value(Some(value))
            &&& spec_apply_write(m1, CommandV::Delete { space, key }) is Ok
            &&& spec_get_response(
                spec_apply_write(m1, CommandV::Delete { space, key })->Ok_0,
                space,
                key,
            ) == ResponseV::Value(None::<Seq<u8>>)
            &&& spec_apply_write(m1, CommandV::DeleteSpace { space }) is Ok
            &&& spec_get_response(
                spec_apply_write(m1, CommandV::DeleteSpace { space })->Ok_0,
                space,
                key,
            ) == ResponseV::Error(ServerErrorV::SpaceNotFound(space))
        }),
{
}

/// A command that does not set or delete `space`/`key`, nor delete the space,
/// leaves a `Get` of them unchanged: the value stands until its own delete.
pub proof fn lemma_get_survives_unrelated_command(
    m: StoreMapV,
    c: CommandV,
    space: Seq<char>,
    key: Seq<char>,
)
    requires
        m.contains_key(space),
        m[space].contains_key(key),
        !(c matches CommandV::SetValue { space: s2, key: k2, .. } && s2 == space && k2 == key),
        !(c matches CommandV::Delete { space: s2, key: k2 } && s2 == space && k2 == key),
        !(c matches CommandV::DeleteSpace { space: s2 } && s2 == space),
    ensures
        spec_get_response(spec_step_store(m, c), space, key) == spec_get_response(m, space, key),
{
}

} // verus!

//! The volume propagator: copying one sink's volume onto another.
//!
//! One propagation `sync(from, to)` is two server round-trips decided
//! here: first a fresh by-index query for `from`'s current volume — never
//! a cached value — then, when the query found the sink, a write of that
//! value, verbatim, to `to`.  When `from` and `to` are the same sink the
//! whole operation is a no-op that touches the server neither to read nor
//! to write; when the query comes back empty the sink was removed in the
//! meantime, an expected race, and the operation is abandoned silently.
//!
//! The volume value itself is opaque to the propagator: it is carried
//! through unchanged, so it stands here as a type parameter.
//!
//! A propagation's own write makes the server report a change of the
//! target in turn.  The dispatcher rules out the one echo the library can
//! decide about — no sink is ever a target of its own change — and the
//! write of an already-equal volume is left to the server to treat as it
//! sees fit; the value is never compared or withheld here.

use vstd::prelude::*;

verus! {

/// One volume write for the caller to issue to the server: set `target`'s
/// volume to `volume`.
#[derive(Clone, Copy, Debug, PartialEq, Eq)]
pub struct VolumeWrite<V> {
    pub target: u32,
    pub volume: V,
}

/// Begins one propagation: names the sink whose current volume must be
/// fetched by a fresh query, or nothing when source and destination are
/// the same sink.  A propagation of a sink onto itself issues no server
/// read — and no write either, since only a fetched value is ever written.
pub fn sync_begin(from: u32, to: u32) -> (r: Option<u32>)
    ensures
        from == to ==> r is None,
        from != to ==> r == Some(from),
{
    if from == to {
        None
    } else {
        Some(from)
    }
}

/// Finishes one propagation, given what the fresh query returned: the
/// fetched volume is written to `to` exactly as it came back, and an empty
/// query result — the source sink vanished meanwhile — abandons the
/// operation without a write.
pub fn sync_apply<V>(from: u32, to: u32, fetched: Option<V>) -> (r: Option<VolumeWrite<V>>)
    requires
        from != to,
    ensures
        fetched matches Some(v) ==> r == Some(VolumeWrite { target: to, volume: v }),
        fetched is None ==> r is None,
{
    match fetched {
        Some(v) => Some(VolumeWrite { target: to, volume: v }),
        None => None,
    }
}

/// The server's sink volumes, modelled as a map from index to volume,
/// after a sequence of writes has been applied in order.
pub open spec fn apply_writes<V>(server: Map<u32, V>, writes: Seq<VolumeWrite<V>>) -> Map<u32, V>
    decreases writes.len(),
{
    if writes.len() == 0 {
        server
    } else {
        apply_writes(server.insert(writes[0].target, writes[0].volume), writes.drop_first())
    }
}

/// The sinks a sequence of writes touches.
pub open spec fn write_targets<V>(writes: Seq<VolumeWrite<V>>) -> Set<u32> {
    Set::new(|t: u32| exists|k: int| 0 <= k < writes.len() && writes[k].target == t)
}

/// Writes that all carry one value `v` leave every touched sink at `v` and
/// every other sink untouched.
proof fn lemma_apply_writes_const<V>(server: Map<u32, V>, writes: Seq<VolumeWrite<V>>, v: V)
    requires
        forall|k: int| 0 <= k < writes.len() ==> writes[k].volume == v,
    ensures
        forall|t: u32| #[trigger]
            write_targets(writes).contains(t) ==> apply_writes(server, writes).dom().contains(t)
                && apply_writes(server, writes)[t] == v,
        forall|t: u32|
            !(#[trigger] write_targets(writes).contains(t)) && server.dom().contains(t)
                ==> apply_writes(server, writes).dom().contains(t) && apply_writes(
                server,
                writes,
            )[t] == server[t],
        forall|t: u32|
            !(#[trigger] write_targets(writes).contains(t)) && !server.dom().contains(t)
                ==> !apply_writes(server, writes).dom().contains(t),
    decreases writes.len(),
{
    if writes.len() > 0 {
        let first = writes[0];
        let rest = writes.drop_first();
        let stepped = server.insert(first.target, first.volume);
        lemma_apply_writes_const(stepped, rest, v);
        assert(apply_writes(server, writes) == apply_writes(stepped, rest));
        assert forall|t: u32| #[trigger] write_targets(writes).contains(t) implies apply_writes(
            server,
            writes,
        ).dom().contains(t) && apply_writes(server, writes)[t] == v by {
            let k = choose|k: int| 0 <= k < writes.len() && writes[k].target == t;
            if k == 0 {
                if write_targets(rest).contains(t) {
                } else {
                    assert(stepped.dom().contains(t) && stepped[t] == v);
                }
            } else {
                assert(rest[k - 1].target == t);
                assert(write_targets(rest).contains(t));
            }
        }
        assert forall|t: u32|
            !(#[trigger] write_targets(writes).contains(t)) && server.dom().contains(
                t,
            ) implies apply_writes(server, writes).dom().contains(t) && apply_writes(
            server,
            writes,
        )[t] == server[t] by {
            assert(first.target != t);
            assert forall|k: int| 0 <= k < rest.len() implies rest[k].target != t by {
                assert(writes[k + 1].target == rest[k].target);
            }
            assert(!write_targets(rest).contains(t));
            assert(stepped.dom().contains(t) && stepped[t] == server[t]);
        }
        assert forall|t: u32|
            !write_targets(writes).contains(t) && !server.dom().contains(
                t,
            ) implies !apply_writes(server, writes).dom().contains(t) by {
            assert(first.target != t);
            assert forall|k: int| 0 <= k < rest.len() implies rest[k].target != t by {
                assert(writes[k + 1].target == rest[k].target);
            }
            assert(!write_targets(rest).contains(t));
            assert(!stepped.dom().contains(t));
        }
    }
}

/// Convergence: take any set of tracked sinks the server knows, and let
/// sink `from` among them change.  Processing that one event propagates to
/// the other tracked sinks, in some duplicate-free order `targets`, one
/// write each of the volume the event's fresh query fetched for `from` —
/// `server[from]`, its volume at the time of the event.  Afterwards every
/// tracked sink's volume equals that value, and no other sink has moved.
pub proof fn lemma_convergence<V>(
    server: Map<u32, V>,
    tracked_sinks: Set<u32>,
    from: u32,
    targets: Seq<u32>,
    writes: Seq<VolumeWrite<V>>,
)
    requires
        tracked_sinks.contains(from),
        forall|t: u32| #[trigger] tracked_sinks.contains(t) ==> server.dom().contains(t),
        targets.to_set() == tracked_sinks.remove(from),
        writes.len() == targets.len(),
        forall|k: int| 0 <= k < writes.len() ==> writes[k] == (VolumeWrite {
            target: targets[k],
            volume: server[from],
        }),
    ensures
        forall|t: u32| #[trigger]
            tracked_sinks.contains(t) ==> apply_writes(server, writes).dom().contains(t)
                && apply_writes(server, writes)[t] == server[from],
        forall|t: u32|
            !tracked_sinks.contains(t) && server.dom().contains(t) ==> apply_writes(
                server,
                writes,
            ).dom().contains(t) && apply_writes(server, writes)[t] == server[t],
{
    lemma_apply_writes_const(server, writes, server[from]);
    assert forall|t: u32| write_targets(writes).contains(t) implies targets.to_set().contains(
        t,
    ) by {
        let k = choose|k: int| 0 <= k < writes.len() && writes[k].target == t;
        assert(targets[k] == t);
    }
    assert forall|t: u32| targets.to_set().contains(t) implies write_targets(writes).contains(
        t,
    ) by {
        let k = choose|k: int| 0 <= k < targets.len() && targets[k] == t;
        assert(writes[k].target == t);
    }
    assert(write_targets(writes) =~= targets.to_set());
    assert(!targets.to_set().contains(from));
    assert forall|t: u32| #[trigger] tracked_sinks.contains(t) implies apply_writes(
        server,
        writes,
    ).dom().contains(t) && apply_writes(server, writes)[t] == server[from] by {
        if t == from {
            assert(!write_targets(writes).contains(t));
            assert(server.dom().contains(t));
        } else {
            assert(targets.to_set().contains(t));
            assert(write_targets(writes).contains(t));
        }
    }
    assert forall|t: u32|
        !tracked_sinks.contains(t) && server.dom().contains(t) implies apply_writes(
        server,
        writes,
    ).dom().contains(t) && apply_writes(server, writes)[t] == server[t] by {
        assert(!targets.to_set().contains(t));
        assert(!write_targets(writes).contains(t));
    }
}

} // verus!

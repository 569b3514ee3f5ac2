//! Typed events, and the decisions that turn raw notifications into them.
//!
//! Server callbacks and the filesystem watcher do nothing but translate a
//! notification into one of these values and enqueue it; every stateful
//! step happens in the single consumer that drains the queue.

use vstd::prelude::*;

verus! {

/// A sink as the audio server reports it: a server-assigned index and a
/// stable name.
#[derive(Clone, Debug, PartialEq, Eq)]
pub struct SinkDetails {
    pub index: u32,
    pub name: String,
}

/// One event on the dispatcher's queue, in arrival order: a sink appeared,
/// a sink's properties changed, a sink went away, or the configuration
/// file changed on disk.
#[derive(Clone, Debug, PartialEq, Eq)]
pub enum VolumeSyncEvent {
    SinkNew(SinkDetails),
    SinkChanged(u32),
    SinkRemoved(u32),
    ConfigChanged,
}

/// What a sink subscription callback reports about one sink.
#[derive(Clone, Copy, Debug, PartialEq, Eq, Structural)]
pub enum SinkOperation {
    New,
    Changed,
    Removed,
}

/// Builds the details of a freshly reported sink: the index is kept, and a
/// sink whose name the server left out is recorded under the empty name.
pub fn sink_details_from_info(index: u32, name: Option<String>) -> (r: SinkDetails)
    ensures
        r.index == index,
        name matches Some(n) ==> r.name == n,
        name is None ==> r.name@ == Seq::<char>::empty(),
{
    match name {
        Some(n) => SinkDetails { index, name: n },
        None => SinkDetails { index, name: String::new() },
    }
}

/// Translates one subscription notification into the event to enqueue.
/// A change or a removal carries its index directly.  A new sink needs its
/// name, fetched by a fresh lookup before this call; when that lookup came
/// back empty — the sink vanished again, an expected race — no event is
/// raised.
pub fn subscription_event(op: SinkOperation, index: u32, fetched_name: Option<String>) -> (r:
    Option<VolumeSyncEvent>)
    ensures
        op is Changed ==> r == Some(VolumeSyncEvent::SinkChanged(index)),
        op is Removed ==> r == Some(VolumeSyncEvent::SinkRemoved(index)),
        op is New ==> (fetched_name matches Some(n) ==> r == Some(
            VolumeSyncEvent::SinkNew(SinkDetails { index, name: n }),
        )),
        op is New && fetched_name is None ==> r is None,
{
    match op {
        SinkOperation::Changed => Some(VolumeSyncEvent::SinkChanged(index)),
        SinkOperation::Removed => Some(VolumeSyncEvent::SinkRemoved(index)),
        SinkOperation::New => match fetched_name {
            Some(n) => Some(VolumeSyncEvent::SinkNew(SinkDetails { index, name: n })),
            None => None,
        },
    }
}

/// The connection's lifecycle: entered once at startup, never re-entered.
#[derive(Clone, Copy, Debug, PartialEq, Eq, Structural)]
pub enum ConnectionState {
    Disconnected,
    Connecting,
    Ready,
    Failed,
    Terminated,
}

/// What to do after observing the connection's state.
#[derive(Clone, Copy, Debug, PartialEq, Eq, Structural)]
pub enum ConnectionPoll {
    Subscribe,
    Abort,
    Wait,
}

/// Decides the next move while waiting for the connection: subscribe to
/// sink events once the connection is ready, give up for good on a failed
/// or terminated connection — fatal, never retried — and keep waiting in
/// every earlier state.
pub fn poll_connection(state: ConnectionState) -> (r: ConnectionPoll)
    ensures
        r is Subscribe <==> state is Ready,
        r is Abort <==> (state is Failed || state is Terminated),
        r is Wait <==> (state is Disconnected || state is Connecting),
{
    match state {
        ConnectionState::Ready => ConnectionPoll::Subscribe,
        ConnectionState::Failed => ConnectionPoll::Abort,
        ConnectionState::Terminated => ConnectionPoll::Abort,
        ConnectionState::Disconnected => ConnectionPoll::Wait,
        ConnectionState::Connecting => ConnectionPoll::Wait,
    }
}

/// A filesystem event in the configuration file's directory, reduced to
/// the kinds the reload rule distinguishes.
#[derive(Clone, Copy, Debug, PartialEq, Eq, Structural)]
pub enum FileEventKind {
    Created,
    RenamedInto,
    DataModified,
    Removed,
    Other,
}

/// Decides whether a filesystem event asks for a configuration reload: it
/// must touch the configuration file's own path, and it must create the
/// file, rename something into it, modify its data, or remove it.  Every
/// other event in the watched directory is ignored.
pub fn is_config_reload_event(event_path: &String, config_path: &String, kind: FileEventKind) -> (r:
    bool)
    ensures
        r == (event_path@ == config_path@ && (kind is Created || kind is RenamedInto
            || kind is DataModified || kind is Removed)),
{
    match kind {
        FileEventKind::Created => event_path.eq(config_path),
        FileEventKind::RenamedInto => event_path.eq(config_path),
        FileEventKind::DataModified => event_path.eq(config_path),
        FileEventKind::Removed => event_path.eq(config_path),
        FileEventKind::Other => false,
    }
}

} // verus!

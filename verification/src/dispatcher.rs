//! The event dispatcher: the single consumer of the event queue.
//!
//! All mutation of the tracked set and the configuration happens here,
//! one event at a time in arrival order, so a change event always
//! observes the registry as every earlier event left it.  Dispatching
//! decides; the caller carries the decided action out — issues the
//! propagations of a `Propagate`, or re-reads the configuration file and
//! re-enumerates the sinks for a `ReloadConfig` and hands both back to
//! `finish_reload` — before it dispatches the next event.

use vstd::prelude::*;

use crate::config::{effective_level, Config, LogLevel};
use crate::events::{SinkDetails, VolumeSyncEvent};
use crate::registry::{
    lemma_no_dup_prefix_excludes, tracked_index_set, tracked_name, SinkRegistry,
};

verus! {

broadcast use vstd::seq_lib::group_seq_properties;

/// What the consumer must do after one event was dispatched: nothing,
/// propagate the changed sink's volume to the listed targets, or reload
/// the configuration and re-enumerate the sinks.
#[derive(Debug, PartialEq, Eq)]
pub enum Action {
    Idle,
    Propagate { from: u32, targets: Vec<u32> },
    ReloadConfig,
}

/// The indices one change event propagates to: every tracked sink but the
/// changed one itself.
pub open spec fn propagation_targets(tracked_sinks: Set<u32>, from: u32) -> Set<u32> {
    tracked_sinks.remove(from)
}

/// The duplicate-free vector `v` without the value `x`.
fn excluding(v: &Vec<u32>, x: u32) -> (r: Vec<u32>)
    requires
        v@.no_duplicates(),
    ensures
        r@.no_duplicates(),
        r@.to_set() == v@.to_set().remove(x),
        !r@.contains(x),
{
    let mut kept: Vec<u32> = Vec::new();
    let mut i: usize = 0;
    while i < v.len()
        invariant
            i <= v.len(),
            v@.no_duplicates(),
            kept@.no_duplicates(),
            kept@.to_set() == v@.take(i as int).to_set().remove(x),
            !kept@.contains(x),
        decreases v.len() - i,
    {
        let c = v[i];
        proof {
            v@.lemma_take_succ_push(i as int);
            v@.take(i as int).lemma_push_to_set_commute(c);
            lemma_no_dup_prefix_excludes(v@, i as int);
        }
        if c != x {
            let ghost prev = kept@;
            kept.push(c);
            proof {
                prev.lemma_push_to_set_commute(c);
                assert(!v@.take(i as int).to_set().contains(c));
                assert(!prev.to_set().contains(c));
                assert(!prev.contains(c));
                assert(kept@.no_duplicates());
                assert(kept@.to_set() =~= v@.take(i + 1).to_set().remove(x));
            }
        } else {
            proof {
                assert(kept@.to_set() =~= v@.take(i + 1).to_set().remove(x));
            }
        }
        i += 1;
    }
    proof {
        assert(v@.take(v@.len() as int) =~= v@);
    }
    kept
}

/// The single consumer's whole state: the registry of tracked indices and
/// the configuration currently in force.
pub struct Dispatcher {
    pub registry: SinkRegistry,
    pub config: Config,
}

impl Dispatcher {
    /// A dispatcher before anything was loaded or enumerated: default
    /// configuration, nothing tracked.
    pub fn new() -> (d: Dispatcher)
        ensures
            d.registry@ == Set::<u32>::empty(),
            d.config.sinks@ == Seq::<String>::empty(),
            d.config.log_level == Some(LogLevel::Info),
    {
        Dispatcher { registry: SinkRegistry::new(), config: Config::default() }
    }

    /// Dispatches one event, in arrival order.
    ///
    /// A new sink joins the registry iff its name is configured; a removed
    /// sink leaves unconditionally.  A change of a tracked sink asks for
    /// exactly one propagation to each other tracked sink — never to the
    /// changed sink itself — while a change of an untracked sink is
    /// ignored.  A configuration-file change asks the caller to reload.
    pub fn step(&mut self, event: VolumeSyncEvent) -> (r: Action)
        ensures
            final(self).config == old(self).config,
            event matches VolumeSyncEvent::SinkNew(d) ==> {
                &&& r is Idle
                &&& tracked_name(old(self).config.sinks@, d.name@) ==> final(self).registry@
                    == old(self).registry@.insert(d.index)
                &&& !tracked_name(old(self).config.sinks@, d.name@) ==> final(self).registry@
                    == old(self).registry@
            },
            event matches VolumeSyncEvent::SinkChanged(i) ==> {
                &&& final(self).registry@ == old(self).registry@
                &&& old(self).registry@.contains(i) ==> (r matches Action::Propagate {
                    from,
                    targets,
                } && from == i && targets@.to_set() == propagation_targets(
                    old(self).registry@,
                    i,
                ) && targets@.no_duplicates() && !targets@.contains(i))
                &&& !old(self).registry@.contains(i) ==> r is Idle
            },
            event matches VolumeSyncEvent::SinkRemoved(i) ==> (r is Idle && final(self).registry@
                == old(self).registry@.remove(i)),
            event is ConfigChanged ==> (r is ReloadConfig && final(self).registry@
                == old(self).registry@),
    {
        match event {
            VolumeSyncEvent::SinkNew(d) => {
                self.registry.note_appeared(d.index, &d.name, &self.config.sinks);
                Action::Idle
            },
            VolumeSyncEvent::SinkChanged(index) => {
                if self.registry.contains(index) {
                    let snap = self.registry.snapshot();
                    let targets = excluding(&snap, index);
                    Action::Propagate { from: index, targets }
                } else {
                    Action::Idle
                }
            },
            VolumeSyncEvent::SinkRemoved(index) => {
                self.registry.note_removed(index);
                Action::Idle
            },
            VolumeSyncEvent::ConfigChanged => Action::ReloadConfig,
        }
    }

    /// Installs a freshly read configuration and rebuilds the registry
    /// against a fresh full sink listing; this serves startup and the
    /// reload a `ReloadConfig` action asks for.  A configuration that
    /// could not be read or parsed — `None` — falls back to the default:
    /// an empty tracked set, until the file is corrected.  The replacement
    /// is wholesale; no part of the old configuration survives.
    pub fn finish_reload(&mut self, loaded: Option<Config>, sinks: &Vec<SinkDetails>)
        ensures
            loaded matches Some(c) ==> final(self).config.sinks == c.sinks && final(self).config.log_level == Some(effective_level(c.log_level)),
            loaded is None ==> final(self).config.sinks@ == Seq::<String>::empty() && final(self).config.log_level == Some(LogLevel::Info),
            final(self).registry@ == tracked_index_set(sinks@, final(self).config.sinks@),
    {
        let c = match loaded {
            Some(c) => c,
            None => Config::default(),
        };
        let level = match c.log_level {
            Some(l) => l,
            None => LogLevel::Info,
        };
        self.config = Config { sinks: c.sinks, log_level: Some(level) };
        self.registry.rebuild(sinks, &self.config.sinks);
    }
}

/// No self-propagation: when exactly the two sinks `a` and `b` are
/// tracked, dispatching a change event for `a` decides a target list of
/// exactly one entry, `b` — one propagation from `a` to `b`, and never
/// one from `a` onto `a` itself.
pub proof fn lemma_no_self_propagation(a: u32, b: u32, targets: Seq<u32>)
    requires
        a != b,
        targets.no_duplicates(),
        targets.to_set() == propagation_targets(set![a, b], a),
    ensures
        targets == seq![b],
        !targets.contains(a),
{
    assert(targets.to_set() =~= set![b]);
    assert(set![b].contains(b));
    assert(targets.contains(b));
    assert forall|k: int| 0 <= k < targets.len() implies targets[k] == b by {
        assert(targets.contains(targets[k]));
        assert(targets.to_set().contains(targets[k]));
    }
    if targets.len() > 1 {
        assert(targets[0] == b && targets[1] == b);
        assert(false);
    }
    assert(targets =~= seq![b]);
}

/// Removal purges tracking: a removal event takes `a` out of the tracked
/// set, so a change event for `a` dispatched afterwards finds it
/// untracked and asks for no propagation at all.
pub proof fn lemma_removal_purges_tracking(tracked_sinks: Set<u32>, a: u32)
    ensures
        !tracked_sinks.remove(a).contains(a),
{
}

} // verus!

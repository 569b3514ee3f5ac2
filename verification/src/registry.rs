//! The sink registry: which sink indices are currently tracked.
//!
//! The registry is the only shared mutable state of the system.  It is a
//! set of sink indices — every sink the server most recently reported as
//! present whose name is one of the configured names — held as a
//! duplicate-free vector and viewed as a `Set<u32>`.  Callers only ever
//! iterate over a point-in-time copy handed out by `snapshot`, never over
//! the live contents.

use vstd::prelude::*;

use crate::events::SinkDetails;

verus! {

broadcast use vstd::seq_lib::group_seq_properties;

/// Whether `n` is one of the configured sink names.
pub open spec fn tracked_name(names: Seq<String>, n: Seq<char>) -> bool {
    exists|i: int| 0 <= i < names.len() && names[i]@ == n
}

/// The indices a full rebuild yields: every reported sink whose name is
/// one of the configured names.
pub open spec fn tracked_index_set(sinks: Seq<SinkDetails>, names: Seq<String>) -> Set<u32> {
    Set::new(
        |x: u32|
            exists|k: int|
                0 <= k < sinks.len() && sinks[k].index == x && tracked_name(names, sinks[k].name@),
    )
}

/// Whether `name` is one of the configured names.
pub fn contains_name(names: &Vec<String>, name: &String) -> (r: bool)
    ensures
        r == tracked_name(names@, name@),
{
    let mut i: usize = 0;
    while i < names.len()
        invariant
            i <= names.len(),
            forall|k: int| 0 <= k < i ==> names@[k]@ != name@,
        decreases names.len() - i,
    {
        if names[i].eq(name) {
            return true;
        }
        i += 1;
    }
    false
}

fn index_in(v: &Vec<u32>, x: u32) -> (r: bool)
    ensures
        r == v@.contains(x),
{
    let mut i: usize = 0;
    while i < v.len()
        invariant
            i <= v.len(),
            forall|k: int| 0 <= k < i ==> v@[k] != x,
        decreases v.len() - i,
    {
        if v[i] == x {
            return true;
        }
        i += 1;
    }
    false
}

/// A duplicate-free sequence never holds its element `i` among the first
/// `i` elements.
pub(crate) proof fn lemma_no_dup_prefix_excludes(s: Seq<u32>, i: int)
    requires
        s.no_duplicates(),
        0 <= i < s.len(),
    ensures
        !s.take(i).contains(s[i]),
{
    if s.take(i).contains(s[i]) {
        let j = choose|j: int| 0 <= j < s.take(i).len() && s.take(i)[j] == s[i];
        assert(s[j] == s[i]);
        assert(false);
    }
}

/// The registry of tracked sink indices.
pub struct SinkRegistry {
    indices: Vec<u32>,
}

impl View for SinkRegistry {
    type V = Set<u32>;

    closed spec fn view(&self) -> Set<u32> {
        self.indices@.to_set()
    }
}

impl SinkRegistry {
    #[verifier::type_invariant]
    spec fn inv(self) -> bool {
        self.indices@.no_duplicates()
    }

    /// An empty registry: no sink is tracked yet.
    pub fn new() -> (r: SinkRegistry)
        ensures
            r@ == Set::<u32>::empty(),
    {
        let r = SinkRegistry { indices: Vec::new() };
        proof {
            assert(r@ =~= Set::<u32>::empty());
        }
        r
    }

    /// Whether `index` is currently tracked.
    pub fn contains(&self, index: u32) -> (r: bool)
        ensures
            r == self@.contains(index),
    {
        index_in(&self.indices, index)
    }

    /// Notes a sink the server reports as newly present: its index joins
    /// the registry iff its name is one of the configured names.
    /// Idempotent — a second report of the same sink changes nothing.
    pub fn note_appeared(&mut self, index: u32, name: &String, names: &Vec<String>)
        ensures
            tracked_name(names@, name@) ==> final(self)@ == old(self)@.insert(index),
            !tracked_name(names@, name@) ==> final(self)@ == old(self)@,
    {
        proof {
            use_type_invariant(&*self);
        }
        if contains_name(names, name) {
            if !self.contains(index) {
                let ghost before = self.indices@;
                let mut v: Vec<u32> = Vec::new();
                std::mem::swap(&mut v, &mut self.indices);
                v.push(index);
                self.indices = v;
                proof {
                    before.lemma_push_to_set_commute(index);
                    assert(self@ =~= old(self)@.insert(index));
                }
            } else {
                proof {
                    assert(self@ =~= self@.insert(index));
                }
            }
        }
    }

    /// Notes a sink the server reports as gone: its index leaves the
    /// registry unconditionally, and nothing happens when it was absent.
    pub fn note_removed(&mut self, index: u32)
        ensures
            final(self)@ == old(self)@.remove(index),
    {
        proof {
            use_type_invariant(&*self);
        }
        let mut kept: Vec<u32> = Vec::new();
        let mut i: usize = 0;
        while i < self.indices.len()
            invariant
                i <= self.indices.len(),
                self.indices@.no_duplicates(),
                kept@.no_duplicates(),
                kept@.to_set() == self.indices@.take(i as int).to_set().remove(index),
                !kept@.contains(index),
            decreases self.indices.len() - i,
        {
            let v = self.indices[i];
            proof {
                self.indices@.lemma_take_succ_push(i as int);
                self.indices@.take(i as int).lemma_push_to_set_commute(v);
                lemma_no_dup_prefix_excludes(self.indices@, i as int);
            }
            if v != index {
                let ghost prev = kept@;
                kept.push(v);
                proof {
                    prev.lemma_push_to_set_commute(v);
                    assert(!self.indices@.take(i as int).to_set().contains(v));
                    assert(!prev.to_set().contains(v));
                    assert(!prev.contains(v));
                    assert(kept@.no_duplicates());
                    assert(kept@.to_set() =~= self.indices@.take(i + 1).to_set().remove(index));
                }
            } else {
                proof {
                    assert(kept@.to_set() =~= self.indices@.take(i + 1).to_set().remove(index));
                }
            }
            i += 1;
        }
        proof {
            assert(self.indices@.take(self.indices@.len() as int) =~= self.indices@);
        }
        self.indices = kept;
    }

    /// Clears the registry and repopulates it from a full sink listing:
    /// afterwards it holds exactly the indices of the listed sinks whose
    /// name is one of the configured names.
    pub fn rebuild(&mut self, sinks: &Vec<SinkDetails>, names: &Vec<String>)
        ensures
            final(self)@ == tracked_index_set(sinks@, names@),
    {
        let mut acc: Vec<u32> = Vec::new();
        let mut k: usize = 0;
        while k < sinks.len()
            invariant
                k <= sinks.len(),
                acc@.no_duplicates(),
                acc@.to_set() == tracked_index_set(sinks@.take(k as int), names@),
            decreases sinks.len() - k,
        {
            proof {
                sinks@.lemma_take_succ_push(k as int);
                lemma_tracked_push(sinks@.take(k as int), names@, sinks@[k as int]);
            }
            if contains_name(names, &sinks[k].name) {
                if !index_in(&acc, sinks[k].index) {
                    let ghost before = acc@;
                    acc.push(sinks[k].index);
                    proof {
                        before.lemma_push_to_set_commute(sinks@[k as int].index);
                        assert(acc@.no_duplicates());
                        assert(acc@.to_set() =~= tracked_index_set(sinks@.take(k + 1), names@));
                    }
                } else {
                    proof {
                        assert(acc@.to_set() =~= tracked_index_set(sinks@.take(k + 1), names@));
                    }
                }
            } else {
                proof {
                    assert(acc@.to_set() =~= tracked_index_set(sinks@.take(k + 1), names@));
                }
            }
            k += 1;
        }
        proof {
            assert(sinks@.take(sinks@.len() as int) =~= sinks@);
        }
        self.indices = acc;
    }

    /// A point-in-time copy of the tracked indices, free of duplicates,
    /// for iteration that must not race with later changes.
    pub fn snapshot(&self) -> (r: Vec<u32>)
        ensures
            r@.to_set() == self@,
            r@.no_duplicates(),
    {
        proof {
            use_type_invariant(&*self);
        }
        let mut out: Vec<u32> = Vec::new();
        let mut i: usize = 0;
        while i < self.indices.len()
            invariant
                i <= self.indices.len(),
                self.indices@.no_duplicates(),
                out@ == self.indices@.take(i as int),
            decreases self.indices.len() - i,
        {
            out.push(self.indices[i]);
            proof {
                self.indices@.lemma_take_succ_push(i as int);
            }
            i += 1;
        }
        proof {
            assert(self.indices@.take(self.indices@.len() as int) =~= self.indices@);
        }
        out
    }
}

/// Registry consistency, incrementally: when one more sink is reported,
/// the fully rebuilt set changes exactly as `note_appeared` changes the
/// registry — the new index joins iff its name is configured — so an
/// appearance needs no full rebuild.
pub proof fn lemma_tracked_push(sinks: Seq<SinkDetails>, names: Seq<String>, d: SinkDetails)
    ensures
        tracked_name(names, d.name@) ==> tracked_index_set(sinks.push(d), names)
            == tracked_index_set(sinks, names).insert(d.index),
        !tracked_name(names, d.name@) ==> tracked_index_set(sinks.push(d), names)
            == tracked_index_set(sinks, names),
{
    let extended = sinks.push(d);
    assert forall|x: u32| tracked_index_set(extended, names).contains(x) implies (
    tracked_index_set(sinks, names).contains(x) || (x == d.index && tracked_name(
        names,
        d.name@,
    ))) by {
        let k = choose|k: int|
            0 <= k < extended.len() && extended[k].index == x && tracked_name(
                names,
                extended[k].name@,
            );
        if k < sinks.len() {
            assert(extended[k] == sinks[k]);
            assert(tracked_index_set(sinks, names).contains(x));
        } else {
            assert(extended[k] == d);
        }
    }
    assert forall|x: u32| tracked_index_set(sinks, names).contains(x) implies tracked_index_set(
        extended,
        names,
    ).contains(x) by {
        let k = choose|k: int|
            0 <= k < sinks.len() && sinks[k].index == x && tracked_name(names, sinks[k].name@);
        assert(extended[k] == sinks[k]);
    }
    if tracked_name(names, d.name@) {
        assert(extended[sinks.len() as int] == d);
        assert(tracked_index_set(extended, names).contains(d.index));
        assert(tracked_index_set(extended, names) =~= tracked_index_set(sinks, names).insert(
            d.index,
        ));
    } else {
        assert(tracked_index_set(extended, names) =~= tracked_index_set(sinks, names));
    }
}

/// Whether a sink listing reports each index at most once, as a server
/// enumeration does.
pub open spec fn distinct_indices(sinks: Seq<SinkDetails>) -> bool {
    forall|i: int, j: int|
        0 <= i < sinks.len() && 0 <= j < sinks.len() && i != j ==> sinks[i].index != sinks[j].index
}

/// Registry consistency, incrementally: when the sink at position `k` of a
/// duplicate-free listing goes away, the fully rebuilt set changes exactly
/// as `note_removed` changes the registry — that one index leaves — so a
/// removal needs no full rebuild.
pub proof fn lemma_tracked_remove(sinks: Seq<SinkDetails>, names: Seq<String>, k: int)
    requires
        distinct_indices(sinks),
        0 <= k < sinks.len(),
    ensures
        tracked_index_set(sinks.remove(k), names) == tracked_index_set(sinks, names).remove(
            sinks[k].index,
        ),
{
    let shortened = sinks.remove(k);
    sinks.remove_ensures(k);
    assert forall|x: u32| tracked_index_set(shortened, names).contains(x) implies (
    tracked_index_set(sinks, names).contains(x) && x != sinks[k].index) by {
        let j = choose|j: int|
            0 <= j < shortened.len() && shortened[j].index == x && tracked_name(
                names,
                shortened[j].name@,
            );
        let j_orig = if j < k {
            j
        } else {
            j + 1
        };
        assert(shortened[j] == sinks[j_orig]);
        assert(tracked_index_set(sinks, names).contains(x));
        assert(sinks[j_orig].index != sinks[k].index);
    }
    assert forall|x: u32|
        tracked_index_set(sinks, names).contains(x) && x != sinks[k].index
            implies tracked_index_set(shortened, names).contains(x) by {
        let j = choose|j: int|
            0 <= j < sinks.len() && sinks[j].index == x && tracked_name(names, sinks[j].name@);
        let j_short = if j < k {
            j
        } else {
            j - 1
        };
        assert(j != k);
        assert(shortened[j_short] == sinks[j]);
    }
    assert(tracked_index_set(shortened, names) =~= tracked_index_set(sinks, names).remove(
        sinks[k].index,
    ));
}

} // verus!

//! The follow registry: which files are followed, and the wake fan-out.
//!
//! One control loop owns the registry. On every directory event it filters
//! the event's candidate names through the glob pattern, adopts matching
//! names not yet followed — each at most once, ever — and then signals every
//! followed file's wake slot. The fan-out runs after every loop round,
//! event-driven or timeout-driven, because platform events cannot be trusted
//! to name exactly the files whose content grew: waking everyone is what
//! keeps every follower live.

use vstd::prelude::*;

use crate::event::ChangeEvent;
use crate::event::kind_adopts;
use crate::pattern::Pattern;
use crate::wake::WakeSlot;

verus! {

/// One followed file: its identity (bare file name) and its wake slot.
pub struct FollowEntry {
    name: Vec<u8>,
    wake: WakeSlot,
}

/// The registry: the compiled pattern and the files adopted so far.
pub struct FollowRegistry {
    pattern: Pattern,
    entries: Vec<FollowEntry>,
}

/// The views of a sequence of byte-string names.
pub open spec fn names_view(names: Seq<Vec<u8>>) -> Seq<Seq<u8>> {
    names.map_values(|n: Vec<u8>| n@)
}

impl FollowRegistry {
    /// The pattern the registry filters candidates through.
    pub closed spec fn pattern_of(self) -> Pattern {
        self.pattern
    }

    /// The identities followed, in adoption order.
    pub closed spec fn names(self) -> Seq<Seq<u8>> {
        self.entries@.map_values(|e: FollowEntry| e.name@)
    }

    /// The wake slots' states, in adoption order.
    pub closed spec fn wakes(self) -> Seq<bool> {
        self.entries@.map_values(|e: FollowEntry| e.wake.is_full())
    }

    /// Whether `name` is already followed.
    pub open spec fn followed(self, name: Seq<u8>) -> bool {
        self.names().contains(name)
    }

    /// Whether `name` should be adopted: it matches the pattern and is not
    /// yet followed.
    pub open spec fn adoptable(self, name: Seq<u8>) -> bool {
        self.pattern_of().spec_matches(name) && !self.followed(name)
    }

    /// Well-formedness: one entry per identity.
    pub open spec fn wf(self) -> bool {
        forall|i: int, j: int|
            0 <= i < j < self.names().len() ==> self.names()[i] != self.names()[j]
    }

    /// `chosen` is exactly the adoption work of an event that offered
    /// `offered`: only adoptable names drawn from the offer, each once, and
    /// none of the offer's adoptable names left out.
    pub open spec fn adoption_set(self, offered: Seq<Seq<u8>>, chosen: Seq<Seq<u8>>) -> bool {
        &&& forall|j: int| 0 <= j < chosen.len() ==> self.adoptable(#[trigger] chosen[j])
        &&& forall|j: int| 0 <= j < chosen.len() ==> offered.contains(#[trigger] chosen[j])
        &&& forall|j: int, k: int| 0 <= j < k < chosen.len() ==> chosen[j] != chosen[k]
        &&& forall|i: int|
            0 <= i < offered.len() && self.adoptable(#[trigger] offered[i]) ==> chosen.contains(
                offered[i],
            )
    }

    /// A registry following nothing yet.
    pub fn new(pattern: Pattern) -> (reg: FollowRegistry)
        ensures
            reg.wf(),
            reg.pattern_of() == pattern,
            reg.names() == Seq::<Seq<u8>>::empty(),
    {
        let reg = FollowRegistry { pattern, entries: Vec::new() };
        proof {
            assert(reg.names() =~= Seq::<Seq<u8>>::empty());
        }
        reg
    }

    /// How many files are followed.
    pub fn len(&self) -> (n: usize)
        ensures
            n == self.names().len(),
    {
        self.entries.len()
    }

    /// The identity of the `i`-th followed file, in adoption order.
    pub fn name_at(&self, i: usize) -> (name: &Vec<u8>)
        requires
            i < self.names().len(),
        ensures
            name@ == self.names()[i as int],
    {
        &self.entries[i].name
    }

    /// Whether `name` is already followed.
    pub fn is_followed(&self, name: &Vec<u8>) -> (r: bool)
        ensures
            r == self.followed(name@),
    {
        let mut i: usize = 0;
        while i < self.entries.len()
            invariant
                i <= self.entries.len(),
                forall|k: int| 0 <= k < i ==> self.names()[k] != name@,
            decreases self.entries.len() - i,
        {
            if bytes_eq(&self.entries[i].name, name) {
                proof {
                    assert(self.names()[i as int] == name@);
                }
                return true;
            }
            i = i + 1;
        }
        proof {
            if self.followed(name@) {
                let w = choose|k: int| 0 <= k < self.names().len() && self.names()[k] == name@;
                assert(self.names()[w] != name@);
            }
        }
        false
    }

    /// Whether `name` matches the pattern and is not yet followed.
    pub fn should_adopt(&self, name: &Vec<u8>) -> (r: bool)
        ensures
            r == self.adoptable(name@),
    {
        self.pattern.matches(name) && !self.is_followed(name)
    }

    /// Adopt `name`: append its entry, wake slot empty. The caller adopts
    /// only after the file was opened, and only names not yet followed, so
    /// no identity is ever followed twice.
    pub fn adopt(&mut self, name: Vec<u8>)
        requires
            old(self).wf(),
            !old(self).followed(name@),
        ensures
            final(self).wf(),
            final(self).pattern_of() == old(self).pattern_of(),
            final(self).names() == old(self).names().push(name@),
            final(self).wakes() == old(self).wakes().push(false),
    {
        let ghost named = name@;
        self.entries.push(FollowEntry { name, wake: WakeSlot::new() });
        proof {
            assert(self.names() =~= old(self).names().push(named));
            assert(self.wakes() =~= old(self).wakes().push(false));
            assert forall|i: int, j: int|
                0 <= i < j < self.names().len() implies self.names()[i] != self.names()[j] by {
                if j == self.names().len() - 1 {
                    assert(!old(self).names().contains(named));
                    assert(old(self).names()[i] == self.names()[i]);
                }
            }
        }
    }

    /// The fan-out: signal every followed file's wake slot. Runs after every
    /// control-loop round, so no follower can stall waiting for a wake that
    /// never names its file.
    pub fn wake_all(&mut self)
        requires
            old(self).wf(),
        ensures
            final(self).wf(),
            final(self).pattern_of() == old(self).pattern_of(),
            final(self).names() == old(self).names(),
            final(self).wakes().len() == old(self).wakes().len(),
            forall|i: int| 0 <= i < final(self).wakes().len() ==> final(self).wakes()[i],
    {
        let n = self.entries.len();
        let mut i: usize = 0;
        while i < n
            invariant
                i <= n,
                n == self.entries.len(),
                old(self).wakes().len() == n,
                self.pattern == old(self).pattern,
                self.names() =~= old(self).names(),
                forall|k: int| 0 <= k < i ==> self.wakes()[k],
                forall|k: int| i <= k < n ==> self.entries@[k] == old(self).entries@[k],
            decreases n - i,
        {
            let ghost pre = *self;
            self.entries[i].wake.signal();
            proof {
                assert(self.entries@[i as int].name == pre.entries@[i as int].name);
                assert(self.entries@[i as int].wake.is_full());
                assert forall|k: int| 0 <= k < n && k != i implies self.entries@[k]
                    == pre.entries@[k] by {}
                assert(self.names() =~= pre.names());
                assert forall|k: int| 0 <= k < i + 1 implies self.wakes()[k] by {
                    assert(self.wakes()[k] == self.entries@[k].wake.is_full());
                    if k < i {
                        assert(self.entries@[k] == pre.entries@[k]);
                        assert(pre.wakes()[k] == pre.entries@[k].wake.is_full());
                        assert(pre.wakes()[k]);
                    }
                }
            }
            i = i + 1;
        }
    }

    /// Drain the `i`-th wake slot, reporting whether a wake was pending.
    pub fn take_wake(&mut self, i: usize) -> (was_full: bool)
        requires
            old(self).wf(),
            i < old(self).names().len(),
        ensures
            final(self).wf(),
            final(self).pattern_of() == old(self).pattern_of(),
            final(self).names() == old(self).names(),
            final(self).wakes() == old(self).wakes().update(i as int, false),
            was_full == old(self).wakes()[i as int],
    {
        let r = self.entries[i].wake.take();
        proof {
            assert(self.names() =~= old(self).names());
            assert(self.wakes() =~= old(self).wakes().update(i as int, false));
        }
        r
    }

    /// The adoption work of one offer of candidate names: those that match
    /// the pattern and are not yet followed, first occurrences only.
    pub fn candidates(&self, offered: &Vec<Vec<u8>>) -> (chosen: Vec<Vec<u8>>)
        ensures
            self.adoption_set(names_view(offered@), names_view(chosen@)),
    {
        let mut out: Vec<Vec<u8>> = Vec::new();
        let mut i: usize = 0;
        proof {
            assert(names_view(out@) =~= Seq::<Seq<u8>>::empty());
        }
        while i < offered.len()
            invariant
                i <= offered.len(),
                forall|j: int|
                    0 <= j < out@.len() ==> self.adoptable(#[trigger] names_view(out@)[j]),
                forall|j: int|
                    0 <= j < out@.len() ==> names_view(offered@).contains(
                        #[trigger] names_view(out@)[j],
                    ),
                forall|j: int, k: int|
                    0 <= j < k < out@.len() ==> names_view(out@)[j] != names_view(out@)[k],
                forall|k: int|
                    0 <= k < i && self.adoptable(#[trigger] names_view(offered@)[k])
                        ==> names_view(out@).contains(names_view(offered@)[k]),
            decreases offered.len() - i,
        {
            let cand = &offered[i];
            proof {
                assert(names_view(offered@)[i as int] == cand@);
            }
            if self.should_adopt(cand) && !holds_name(&out, cand) {
                let ghost old_out = out@;
                out.push(copy_bytes(cand));
                proof {
                    assert(names_view(out@) =~= names_view(old_out).push(cand@));
                    assert(names_view(offered@).contains(cand@)) by {
                        assert(names_view(offered@)[i as int] == cand@);
                    }
                    assert forall|k: int|
                        0 <= k < i + 1 && self.adoptable(
                            #[trigger] names_view(offered@)[k],
                        ) implies names_view(out@).contains(names_view(offered@)[k]) by {
                        if k < i {
                            assert(names_view(old_out).contains(names_view(offered@)[k]));
                            let w = choose|m: int|
                                0 <= m < names_view(old_out).len() && names_view(old_out)[m]
                                    == names_view(offered@)[k];
                            assert(names_view(out@)[w] == names_view(offered@)[k]);
                        } else {
                            assert(names_view(out@)[names_view(out@).len() - 1] == cand@);
                        }
                    }
                }
            } else {
                proof {
                    if self.adoptable(cand@) {
                        assert(names_view(out@).contains(cand@));
                    }
                }
            }
            i = i + 1;
        }
        out
    }

    /// The adoption work of one directory event: its candidate names when
    /// the event's kind can introduce files, nothing otherwise.
    pub fn process_event(&self, ev: &ChangeEvent) -> (chosen: Vec<Vec<u8>>)
        ensures
            kind_adopts(ev.kind) ==> self.adoption_set(names_view(ev.names@), names_view(chosen@)),
            !kind_adopts(ev.kind) ==> chosen@.len() == 0,
    {
        if matches!(ev.kind, crate::event::ChangeKind::Created | crate::event::ChangeKind::Modified) {
            self.candidates(&ev.names)
        } else {
            Vec::new()
        }
    }
}

/// Byte-for-byte equality of two byte strings.
fn bytes_eq(a: &Vec<u8>, b: &Vec<u8>) -> (r: bool)
    ensures
        r == (a@ == b@),
{
    if a.len() != b.len() {
        proof {
            assert(a@ != b@);
        }
        return false;
    }
    let mut i: usize = 0;
    while i < a.len()
        invariant
            i <= a.len(),
            a@.len() == b@.len(),
            forall|k: int| 0 <= k < i ==> a@[k] == b@[k],
        decreases a.len() - i,
    {
        if a[i] != b[i] {
            proof {
                assert(a@[i as int] != b@[i as int]);
            }
            return false;
        }
        i = i + 1;
    }
    proof {
        assert(a@ =~= b@);
    }
    true
}

/// An owned copy of a byte string.
fn copy_bytes(v: &Vec<u8>) -> (r: Vec<u8>)
    ensures
        r@ == v@,
{
    let mut out: Vec<u8> = Vec::new();
    let mut i: usize = 0;
    while i < v.len()
        invariant
            i <= v.len(),
            out@ =~= v@.take(i as int),
        decreases v.len() - i,
    {
        out.push(v[i]);
        proof {
            assert(out@ =~= v@.take(i as int + 1));
        }
        i = i + 1;
    }
    proof {
        assert(v@.take(v@.len() as int) =~= v@);
    }
    out
}

/// Whether `names` already holds `name`, byte for byte.
fn holds_name(names: &Vec<Vec<u8>>, name: &Vec<u8>) -> (r: bool)
    ensures
        r == names_view(names@).contains(name@),
{
    let mut i: usize = 0;
    while i < names.len()
        invariant
            i <= names.len(),
            forall|k: int| 0 <= k < i ==> names_view(names@)[k] != name@,
        decreases names.len() - i,
    {
        if bytes_eq(&names[i], name) {
            proof {
                assert(names_view(names@)[i as int] == name@);
            }
            return true;
        }
        i = i + 1;
    }
    proof {
        if names_view(names@).contains(name@) {
            let w = choose|k: int|
                0 <= k < names_view(names@).len() && names_view(names@)[k] == name@;
            assert(names_view(names@)[w] != name@);
        }
    }
    false
}

} // verus!

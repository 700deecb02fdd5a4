//! A registry of named workers, meant to be shared between tasks behind one
//! lock: each worker enrols under its name when it starts and withdraws when
//! it ends, so that the registry holds exactly the workers that are at work.

use vstd::prelude::*;
use rand::Rng;

verus! {

/// The named counters of the workers that are at work.
pub struct Registry {
    names: Vec<String>,
    values: Vec<u32>,
}

impl View for Registry {
    type V = Map<Seq<char>, u32>;

    closed spec fn view(&self) -> Map<Seq<char>, u32> {
        Map::new(
            |k: Seq<char>| self.keys().contains(k),
            |k: Seq<char>| self.values[self.keys().index_of(k)],
        )
    }
}

impl Registry {
    /// The names enrolled, in no particular order.
    pub closed spec fn keys(&self) -> Seq<Seq<char>> {
        Seq::new(self.names.len() as nat, |i: int| self.names[i]@)
    }

    /// The registry's invariant: one value for each name, and no name twice.
    pub closed spec fn wf(&self) -> bool {
        &&& self.values.len() == self.names.len()
        &&& self.keys().no_duplicates()
    }

    /// What the invariant says of the public view: the names enrolled are
    /// the keys of the map, each once.
    pub proof fn lemma_wf(&self)
        requires
            self.wf(),
        ensures
            self.keys().no_duplicates(),
            self@.dom() == self.keys().to_set(),
            self@.dom().finite(),
            self@.dom().len() == self.keys().len(),
    {
        assert(self@.dom() =~= self.keys().to_set());
        vstd::seq_lib::seq_to_set_is_finite(self.keys());
        self.keys().unique_seq_to_set();
    }

    proof fn lemma_slot(&self, i: int)
        requires
            self.wf(),
            0 <= i < self.names.len(),
        ensures
            self.keys().index_of(self.names[i]@) == i,
            self@.contains_key(self.names[i]@),
            self@[self.names[i]@] == self.values[i],
    {
        let k = self.names[i]@;
        assert(self.keys()[i] == k);
        let j = self.keys().index_of(k);
        assert(0 <= j < self.keys().len() && self.keys()[j] == k);
    }

    /// An empty registry.
    pub fn new() -> (r: Registry)
        ensures
            r.wf(),
            r@ == Map::<Seq<char>, u32>::empty(),
    {
        let r = Registry { names: Vec::new(), values: Vec::new() };
        assert(r@ =~= Map::<Seq<char>, u32>::empty());
        r
    }

    /// The number of names enrolled.
    pub fn len(&self) -> (r: usize)
        requires
            self.wf(),
        ensures
            self@.dom().finite(),
            r == self@.dom().len(),
    {
        proof {
            self.lemma_wf();
        }
        self.names.len()
    }

    fn find(&self, name: &String) -> (r: Option<usize>)
        requires
            self.wf(),
        ensures
            r is Some <==> self@.contains_key(name@),
            r matches Some(i) ==> i < self.names.len() && self.names[i as int]@ == name@,
    {
        let mut i: usize = 0;
        while i < self.names.len()
            invariant
                i <= self.names.len(),
                forall|k: int| 0 <= k < i ==> self.keys()[k] != name@,
            decreases self.names.len() - i,
        {
            if self.names[i] == *name {
                assert(self.keys()[i as int] == name@);
                return Some(i);
            }
            i = i + 1;
        }
        None
    }

    /// The value enrolled under `name`, if there is one.
    pub fn get(&self, name: &String) -> (r: Option<u32>)
        requires
            self.wf(),
        ensures
            r == if self@.contains_key(name@) {
                Some(self@[name@])
            } else {
                None
            },
    {
        match self.find(name) {
            Some(i) => {
                proof {
                    self.lemma_slot(i as int);
                }
                Some(self.values[i])
            },
            None => None,
        }
    }

    /// Enrols `value` under `name`, in place of what was enrolled under that
    /// name, which is returned.
    pub fn insert(&mut self, name: String, value: u32) -> (r: Option<u32>)
        requires
            old(self).wf(),
        ensures
            final(self).wf(),
            final(self)@ == old(self)@.insert(name@, value),
            r == if old(self)@.contains_key(name@) {
                Some(old(self)@[name@])
            } else {
                None
            },
    {
        match self.find(&name) {
            Some(i) => {
                proof {
                    self.lemma_slot(i as int);
                }
                let before = self.values[i];
                self.values.set(i, value);
                proof {
                    assert(self.keys() =~= old(self).keys());
                    assert forall|k: Seq<char>| self@.contains_key(k) implies #[trigger] self@[k]
                        == old(self)@.insert(name@, value)[k] by {
                        let j = self.keys().index_of(k);
                        assert(self.keys()[j] == k);
                        if j != i {
                            assert(self.keys()[i as int] == name@);
                        }
                    }
                    assert(self@ =~= old(self)@.insert(name@, value));
                }
                Some(before)
            },
            None => {
                let ghost text = name@;
                self.names.push(name);
                self.values.push(value);
                proof {
                    let n = old(self).names.len() as int;
                    assert(self.keys() =~= old(self).keys().push(text));
                    assert forall|a: int, b: int|
                        0 <= a < self.keys().len() && 0 <= b < self.keys().len() && a
                            != b implies self.keys()[a] != self.keys()[b] by {
                        if a < n && b < n {
                            assert(old(self).keys()[a] != old(self).keys()[b]);
                        } else if a < n {
                            assert(old(self).keys().contains(old(self).keys()[a]));
                        } else {
                            assert(old(self).keys().contains(old(self).keys()[b]));
                        }
                    }
                    assert forall|k: Seq<char>| self@.contains_key(k) <==> old(self)@.insert(
                        text,
                        value,
                    ).contains_key(k) by {
                        if self.keys().contains(k) {
                            let j = self.keys().index_of(k);
                            assert(self.keys()[j] == k);
                            if j < n {
                                assert(old(self).keys()[j] == k);
                            }
                        }
                        if old(self).keys().contains(k) {
                            let j = old(self).keys().index_of(k);
                            assert(self.keys()[j] == k);
                        }
                        if k == text {
                            assert(self.keys()[n] == k);
                        }
                    }
                    assert forall|k: Seq<char>| self@.contains_key(k) implies #[trigger] self@[k]
                        == old(self)@.insert(text, value)[k] by {
                        let j = self.keys().index_of(k);
                        assert(self.keys()[j] == k);
                        if j < n {
                            assert(old(self).keys()[j] == k);
                            let j0 = old(self).keys().index_of(k);
                            assert(old(self).keys()[j0] == k);
                            assert(self.keys()[j0] == k);
                        } else {
                            assert(self.keys()[n] == text);
                        }
                    }
                    assert(self@ =~= old(self)@.insert(text, value));
                }
                None
            },
        }
    }

    /// Withdraws `name`, and returns what was enrolled under it.
    pub fn remove(&mut self, name: &String) -> (r: Option<u32>)
        requires
            old(self).wf(),
        ensures
            final(self).wf(),
            final(self)@ == old(self)@.remove(name@),
            r == if old(self)@.contains_key(name@) {
                Some(old(self)@[name@])
            } else {
                None
            },
    {
        match self.find(name) {
            Some(i) => {
                proof {
                    self.lemma_slot(i as int);
                }
                self.names.remove(i);
                let before = self.values.remove(i);
                proof {
                    let n = old(self).names.len() as int;
                    let was = old(self).keys();
                    assert(self.keys() =~= was.remove(i as int));
                    assert forall|a: int, b: int|
                        0 <= a < self.keys().len() && 0 <= b < self.keys().len() && a
                            != b implies self.keys()[a] != self.keys()[b] by {
                        let a0 = if a < i { a } else { a + 1 };
                        let b0 = if b < i { b } else { b + 1 };
                        assert(was[a0] != was[b0]);
                    }
                    assert forall|k: Seq<char>| self@.contains_key(k) <==> old(self)@.remove(
                        name@,
                    ).contains_key(k) by {
                        if self.keys().contains(k) {
                            let j = self.keys().index_of(k);
                            assert(self.keys()[j] == k);
                            let j0 = if j < i { j } else { j + 1 };
                            assert(was[j0] == k);
                            assert(was[i as int] == name@);
                        }
                        if was.contains(k) && k != name@ {
                            let j0 = was.index_of(k);
                            assert(was[j0] == k);
                            let j = if j0 < i { j0 } else { j0 - 1 };
                            assert(self.keys()[j] == k);
                        }
                    }
                    assert forall|k: Seq<char>| self@.contains_key(k) implies #[trigger] self@[k]
                        == old(self)@.remove(name@)[k] by {
                        let j = self.keys().index_of(k);
                        assert(self.keys()[j] == k);
                        let j0 = if j < i { j } else { j + 1 };
                        assert(was[j0] == k);
                        let j1 = was.index_of(k);
                        assert(was[j1] == k);
                    }
                    assert(self@ =~= old(self)@.remove(name@));
                }
                Some(before)
            },
            None => {
                assert(self@ =~= old(self)@.remove(name@));
                None
            },
        }
    }
}

/// The number of rounds that a worker works before it withdraws.
pub const ROUNDS: u32 = 10;

/// The least factor that a pause can have.
pub const PAUSE_LOW: u64 = 10;

/// The bound that the factor of a pause stays below.
pub const PAUSE_HIGH: u64 = 40;

/// `rand::thread_rng` with `rand::Rng::gen_range` on a half-open range of
/// `u64`: a number drawn at random by the generator of the calling thread.
/// Which number comes is open; every draw lies in the range. The call panics
/// on an empty range, which the precondition leaves out.
#[verifier::external_body]
fn draw_between(low: u64, high: u64) -> (r: u64)
    requires
        low < high,
    ensures
        low <= r < high,
{
    rand::thread_rng().gen_range(low..high)
}

/// A worker that is known to the registry by its name.
pub struct Worker {
    name: String,
}

impl View for Worker {
    type V = Seq<char>;

    closed spec fn view(&self) -> Seq<char> {
        self.name@
    }
}

impl Worker {
    /// A worker of the given name.
    pub fn new(name: &str) -> (r: Worker)
        ensures
            r@ == name@,
    {
        Worker { name: name.to_owned() }
    }

    /// The worker's name.
    pub fn name(&self) -> (r: &String)
        ensures
            r@ == self@,
    {
        &self.name
    }

    /// Enrols the worker with a count of zero: its first step.
    pub fn enrol(&self, registry: &mut Registry)
        requires
            old(registry).wf(),
        ensures
            final(registry).wf(),
            final(registry)@ == old(registry)@.insert(self@, 0),
    {
        registry.insert(self.name.clone(), 0);
    }

    /// Withdraws the worker: its last step.
    pub fn withdraw(&self, registry: &mut Registry)
        requires
            old(registry).wf(),
        ensures
            final(registry).wf(),
            final(registry)@ == old(registry)@.remove(self@),
    {
        registry.remove(&self.name);
    }

    /// The pause, in milliseconds, that belongs to the factor `draw`.
    pub fn pause_millis(draw: u64) -> (r: u64)
        requires
            draw * 10 <= u64::MAX,
        ensures
            r == draw * 10,
    {
        draw * 10
    }

    /// A pause between two rounds, in milliseconds: a factor drawn at random,
    /// times ten. Whatever is drawn, the pause is a multiple of ten from 100
    /// up to 390.
    pub fn next_pause() -> (r: u64)
        ensures
            100 <= r <= 390,
            r % 10 == 0,
    {
        let draw = draw_between(PAUSE_LOW, PAUSE_HIGH);
        Worker::pause_millis(draw)
    }
}

/// Coming and going: once a worker has enrolled and withdrawn, its name is
/// gone from the registry and every other entry is as it was; a registry that
/// did not hold the name is as before.
pub proof fn law_enrol_then_withdraw(reg: Map<Seq<char>, u32>, name: Seq<char>)
    ensures
        reg.insert(name, 0).remove(name) == reg.remove(name),
        !reg.contains_key(name) ==> reg.insert(name, 0).remove(name) == reg,
{
    assert(reg.insert(name, 0).remove(name) =~= reg.remove(name));
    if !reg.contains_key(name) {
        assert(reg.remove(name) =~= reg);
    }
}

} // verus!

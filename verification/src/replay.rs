//! Step replay: checkpoint naming and the per-run checkpoint cache.
//!
//! Each call of a step with a given name increments a per-name counter and
//! produces a checkpoint key: `name`, `name#2`, `name#3`, and so on, so that
//! a handler calling the same step in a loop maps each call to its own
//! checkpoint. A key already handed out in the run (a step may itself be
//! named `a#2`) is passed over for the next count, so no two calls ever share
//! a key. Checkpoints already recorded for the run are cached so that replay
//! is served from memory.

use crate::error::str_equal;
use crate::text::{decimal, decimal_string, digit_char, join3};
use vstd::prelude::*;

verus! {

/// The checkpoint key for the `count`-th use of step name `name`.
pub open spec fn checkpoint_name(name: Seq<char>, count: nat) -> Seq<char> {
    if count == 1 {
        name
    } else {
        name + "#"@ + decimal(count)
    }
}

/// Whether `k` is the first count from `from` on whose checkpoint key for
/// `name` is not in `issued`: every count in between is taken.
pub open spec fn is_fresh_count(issued: Set<Seq<char>>, name: Seq<char>, from: nat, k: nat) -> bool {
    &&& from <= k
    &&& !issued.contains(checkpoint_name(name, k))
    &&& forall|j: nat| from <= j < k ==> issued.contains(#[trigger] checkpoint_name(name, j))
}

/// The first count from `from` on whose checkpoint key for `name` has not
/// been handed out yet.
pub open spec fn fresh_count(issued: Set<Seq<char>>, name: Seq<char>, from: nat) -> nat {
    choose|k: nat| is_fresh_count(issued, name, from, k)
}

/// The count that a step call of `name` takes when `used` is its use count
/// so far and `issued` the keys already handed out: the next count whose key
/// is still free.
pub open spec fn next_use(issued: Set<Seq<char>>, name: Seq<char>, used: nat) -> nat {
    fresh_count(issued, name, used + 1)
}

/// The replay state of one task run: the count each step name has reached,
/// the checkpoint keys handed out so far, and the checkpoint values known for
/// the run.
pub struct ReplayState<V> {
    step_names: Vec<String>,
    step_counts: Vec<usize>,
    issued_keys: Vec<String>,
    saved_names: Vec<String>,
    saved_values: Vec<V>,
    uses: Ghost<Map<Seq<char>, nat>>,
    issued: Ghost<Set<Seq<char>>>,
    saved: Ghost<Map<Seq<char>, V>>,
}

impl<V> ReplayState<V> {
    /// The internal consistency of the state: one entry per name and per
    /// key, and the ghost maps and set agree with the entries.
    pub closed spec fn wf(&self) -> bool {
        &&& self.step_names@.len() == self.step_counts@.len()
        &&& self.saved_names@.len() == self.saved_values@.len()
        &&& forall|i: int, j: int|
            0 <= i < j < self.step_names@.len() ==> self.step_names@[i]@
                != self.step_names@[j]@
        &&& forall|i: int, j: int|
            0 <= i < j < self.saved_names@.len() ==> self.saved_names@[i]@
                != self.saved_names@[j]@
        &&& forall|i: int|
            0 <= i < self.step_names@.len() ==> self.uses@.contains_key(
                #[trigger] self.step_names@[i]@,
            ) && self.uses@[self.step_names@[i]@] == self.step_counts@[i]
        &&& forall|k: Seq<char>|
            #[trigger] self.uses@.contains_key(k) ==> exists|i: int|
                0 <= i < self.step_names@.len() && self.step_names@[i]@ == k
        &&& forall|i: int|
            0 <= i < self.saved_names@.len() ==> self.saved@.contains_key(
                #[trigger] self.saved_names@[i]@,
            ) && self.saved@[self.saved_names@[i]@] == self.saved_values@[i]
        &&& forall|k: Seq<char>|
            #[trigger] self.saved@.contains_key(k) ==> exists|i: int|
                0 <= i < self.saved_names@.len() && self.saved_names@[i]@ == k
        &&& self.issued@.finite()
        &&& self.issued@.len() == self.issued_keys@.len()
        &&& forall|i: int|
            0 <= i < self.issued_keys@.len() ==> self.issued@.contains(
                #[trigger] self.issued_keys@[i]@,
            )
        &&& forall|k: Seq<char>|
            #[trigger] self.issued@.contains(k) ==> exists|i: int|
                0 <= i < self.issued_keys@.len() && self.issued_keys@[i]@ == k
    }

    /// The count each step name has reached: that of the last key it was
    /// handed.
    pub closed spec fn uses(&self) -> Map<Seq<char>, nat> {
        self.uses@
    }

    /// The checkpoint keys handed out so far in this run.
    pub closed spec fn issued(&self) -> Set<Seq<char>> {
        self.issued@
    }

    /// The checkpoint values known for the run, by checkpoint key.
    pub closed spec fn saved(&self) -> Map<Seq<char>, V> {
        self.saved@
    }

    /// The count step name `name` has reached so far.
    pub open spec fn use_count(&self, name: Seq<char>) -> nat {
        count_in(self.uses(), name)
    }

    /// A fresh state: no step used, no key handed out, no checkpoint known.
    pub fn new() -> (r: Self)
        ensures
            r.wf(),
            r.uses() == Map::<Seq<char>, nat>::empty(),
            r.issued() == Set::<Seq<char>>::empty(),
            r.saved() == Map::<Seq<char>, V>::empty(),
    {
        ReplayState {
            step_names: Vec::new(),
            step_counts: Vec::new(),
            issued_keys: Vec::new(),
            saved_names: Vec::new(),
            saved_values: Vec::new(),
            uses: Ghost(Map::empty()),
            issued: Ghost(Set::empty()),
            saved: Ghost(Map::empty()),
        }
    }

    fn step_index(&self, name: &str) -> (r: Option<usize>)
        requires
            self.wf(),
        ensures
            match r {
                Some(i) => i < self.step_names@.len() && self.step_names@[i as int]@ == name@,
                None => forall|i: int|
                    0 <= i < self.step_names@.len() ==> self.step_names@[i]@ != name@,
            },
    {
        let mut i: usize = 0;
        while i < self.step_names.len()
            invariant
                i <= self.step_names@.len(),
                forall|j: int| 0 <= j < i ==> self.step_names@[j]@ != name@,
            decreases self.step_names@.len() - i,
        {
            if str_equal(self.step_names[i].as_str(), name) {
                return Some(i);
            }
            i = i + 1;
        }
        None
    }

    fn saved_index(&self, name: &str) -> (r: Option<usize>)
        requires
            self.wf(),
        ensures
            match r {
                Some(i) => i < self.saved_names@.len() && self.saved_names@[i as int]@ == name@,
                None => forall|i: int|
                    0 <= i < self.saved_names@.len() ==> self.saved_names@[i]@ != name@,
            },
    {
        let mut i: usize = 0;
        while i < self.saved_names.len()
            invariant
                i <= self.saved_names@.len(),
                forall|j: int| 0 <= j < i ==> self.saved_names@[j]@ != name@,
            decreases self.saved_names@.len() - i,
        {
            if str_equal(self.saved_names[i].as_str(), name) {
                return Some(i);
            }
            i = i + 1;
        }
        None
    }

    /// Whether checkpoint key `key` has been handed out in this run.
    fn key_issued(&self, key: &str) -> (r: bool)
        requires
            self.wf(),
        ensures
            r == self.issued().contains(key@),
    {
        let mut i: usize = 0;
        while i < self.issued_keys.len()
            invariant
                self.wf(),
                i <= self.issued_keys@.len(),
                forall|j: int| 0 <= j < i ==> self.issued_keys@[j]@ != key@,
            decreases self.issued_keys@.len() - i,
        {
            if str_equal(self.issued_keys[i].as_str(), key) {
                assert(self.issued@.contains(self.issued_keys@[i as int]@));
                return true;
            }
            i = i + 1;
        }
        false
    }

    /// The count step name `name` has reached so far.
    pub fn use_count_of(&self, name: &str) -> (r: usize)
        requires
            self.wf(),
        ensures
            r == self.use_count(name@),
    {
        match self.step_index(name) {
            Some(i) => self.step_counts[i],
            None => {
                assert(!self.uses@.contains_key(name@));
                0
            },
        }
    }

    /// How many checkpoint keys have been handed out so far.
    pub fn issued_count(&self) -> (r: usize)
        requires
            self.wf(),
        ensures
            r == self.issued().len(),
    {
        self.issued_keys.len()
    }

    /// Set the count of step name `name` to `count`.
    fn set_use(&mut self, name: &str, count: usize)
        requires
            old(self).wf(),
        ensures
            final(self).wf(),
            final(self).uses() == old(self).uses().insert(name@, count as nat),
            final(self).issued() == old(self).issued(),
            final(self).saved() == old(self).saved(),
    {
        match self.step_index(name) {
            Some(i) => {
                self.step_counts.set(i, count);
                proof {
                    self.uses@ = self.uses@.insert(name@, count as nat);
                    assert forall|k: Seq<char>| #[trigger] self.uses@.contains_key(k) implies exists|
                        j: int,
                    | 0 <= j < self.step_names@.len() && self.step_names@[j]@ == k by {
                        if k == name@ {
                            assert(self.step_names@[i as int]@ == k);
                        } else {
                            let j = choose|j: int|
                                0 <= j < old(self).step_names@.len() && old(
                                    self,
                                ).step_names@[j]@ == k;
                            assert(self.step_names@[j]@ == k);
                        }
                    }
                }
            },
            None => {
                assert(!self.uses@.contains_key(name@));
                self.step_names.push(String::from_str(name));
                self.step_counts.push(count);
                proof {
                    self.uses@ = self.uses@.insert(name@, count as nat);
                    let n = self.step_names@.len() - 1;
                    assert forall|a: int, b: int|
                        0 <= a < b < self.step_names@.len() implies self.step_names@[a]@
                        != self.step_names@[b]@ by {
                        assert(self.step_names@[a] == old(self).step_names@[a]);
                        if b < n {
                            assert(self.step_names@[b] == old(self).step_names@[b]);
                        }
                    }
                    assert forall|k: Seq<char>| #[trigger] self.uses@.contains_key(k) implies exists|
                        i: int,
                    | 0 <= i < self.step_names@.len() && self.step_names@[i]@ == k by {
                        if k == name@ {
                            assert(self.step_names@[self.step_names@.len() - 1]@ == k);
                        } else {
                            let i = choose|i: int|
                                0 <= i < old(self).step_names@.len() && old(
                                    self,
                                ).step_names@[i]@ == k;
                            assert(self.step_names@[i] == old(self).step_names@[i]);
                        }
                    }
                }
            },
        }
        proof {
            assert forall|i: int|
                0 <= i < self.step_names@.len() implies self.uses@.contains_key(
                #[trigger] self.step_names@[i]@,
            ) && self.uses@[self.step_names@[i]@] == self.step_counts@[i] by {
                if self.step_names@[i]@ != name@ {
                    assert(self.step_names@[i] == old(self).step_names@[i]);
                    assert(self.step_counts@[i] == old(self).step_counts@[i]);
                }
            }
            assert(self.saved_names == old(self).saved_names);
            assert(self.saved_values == old(self).saved_values);
            assert(self.issued_keys == old(self).issued_keys);
            assert(forall|k: Seq<char>|
                #[trigger] self.saved@.contains_key(k) ==> exists|j: int|
                    0 <= j < self.saved_names@.len() && self.saved_names@[j]@ == k);
            assert(forall|k: Seq<char>|
                #[trigger] self.issued@.contains(k) ==> exists|j: int|
                    0 <= j < self.issued_keys@.len() && self.issued_keys@[j]@ == k);
            assert(forall|a: int, b: int|
                0 <= a < b < self.step_names@.len() ==> self.step_names@[a]@
                    != self.step_names@[b]@);
        }
    }

    /// Record `key` as handed out.
    fn add_issued(&mut self, key: &str)
        requires
            old(self).wf(),
            !old(self).issued().contains(key@),
        ensures
            final(self).wf(),
            final(self).issued() == old(self).issued().insert(key@),
            final(self).uses() == old(self).uses(),
            final(self).saved() == old(self).saved(),
    {
        self.issued_keys.push(String::from_str(key));
        proof {
            assert(self.step_names == old(self).step_names);
            assert(self.saved_names == old(self).saved_names);
            assert(self.uses == old(self).uses);
            assert(self.saved == old(self).saved);
            self.issued@ = self.issued@.insert(key@);
            let n = self.issued_keys@.len() - 1;
            assert forall|i: int| 0 <= i < self.issued_keys@.len() implies self.issued@.contains(
                #[trigger] self.issued_keys@[i]@,
            ) by {
                if i < n {
                    assert(self.issued_keys@[i] == old(self).issued_keys@[i]);
                }
            }
            assert forall|k: Seq<char>| #[trigger] self.issued@.contains(k) implies exists|i: int|
                0 <= i < self.issued_keys@.len() && self.issued_keys@[i]@ == k by {
                if k == key@ {
                    assert(self.issued_keys@[n]@ == k);
                } else {
                    let i = choose|i: int|
                        0 <= i < old(self).issued_keys@.len() && old(self).issued_keys@[i]@ == k;
                    assert(self.issued_keys@[i] == old(self).issued_keys@[i]);
                }
            }
        }
    }

    /// Hand out the checkpoint key of the next call of step `name`: the key
    /// for the count after the one `name` has reached (`name` for the first,
    /// `name#n` for the n-th), moving on past any count whose key was already
    /// handed out in this run, so that no two calls share a key.
    pub fn next_checkpoint_name(&mut self, name: &str) -> (r: String)
        requires
            old(self).wf(),
            old(self).use_count(name@) + old(self).issued().len() < usize::MAX,
        ensures
            final(self).wf(),
            r@ == checkpoint_name(
                name@,
                next_use(old(self).issued(), name@, old(self).use_count(name@)),
            ),
            !old(self).issued().contains(r@),
            final(self).issued() == old(self).issued().insert(r@),
            final(self).uses() == old(self).uses().insert(
                name@,
                next_use(old(self).issued(), name@, old(self).use_count(name@)),
            ),
            final(self).saved() == old(self).saved(),
    {
        let from: usize = self.use_count_of(name) + 1;
        let ghost issued = self.issued();
        let ghost kstar = fresh_count(issued, name@, from as nat);
        proof {
            lemma_fresh_count(issued, name@, from as nat);
        }
        let mut count: usize = from;
        let mut key = checkpoint_key(name, count);
        while self.key_issued(key.as_str())
            invariant
                self.wf(),
                self.issued() == issued,
                issued.finite(),
                1 <= from <= count <= kstar,
                kstar <= usize::MAX,
                key@ == checkpoint_name(name@, count as nat),
                is_fresh_count(issued, name@, from as nat, kstar),
                forall|j: nat| from <= j < count ==> issued.contains(#[trigger] checkpoint_name(name@, j)),
            decreases kstar - count,
        {
            count = count + 1;
            key = checkpoint_key(name, count);
        }
        proof {
            assert(is_fresh_count(issued, name@, from as nat, count as nat));
            lemma_fresh_count_unique(issued, name@, from as nat, count as nat, kstar);
        }
        self.set_use(name, count);
        self.add_issued(key.as_str());
        key
    }

    /// The checkpoint value known for key `name`, if any.
    pub fn lookup(&self, name: &str) -> (r: Option<&V>)
        requires
            self.wf(),
        ensures
            match r {
                Some(v) => self.saved().contains_key(name@) && *v == self.saved()[name@],
                None => !self.saved().contains_key(name@),
            },
    {
        match self.saved_index(name) {
            Some(i) => Some(&self.saved_values[i]),
            None => None,
        }
    }

    /// Record the checkpoint value `value` for key `name`, replacing any
    /// earlier value.
    pub fn record(&mut self, name: &str, value: V)
        requires
            old(self).wf(),
        ensures
            final(self).wf(),
            final(self).saved() == old(self).saved().insert(name@, value),
            final(self).uses() == old(self).uses(),
            final(self).issued() == old(self).issued(),
    {
        match self.saved_index(name) {
            Some(i) => {
                self.saved_values.set(i, value);
                proof {
                    self.saved@ = self.saved@.insert(name@, self.saved_values@[i as int]);
                    assert forall|j: int|
                        0 <= j < self.saved_names@.len() implies self.saved@.contains_key(
                        #[trigger] self.saved_names@[j]@,
                    ) && self.saved@[self.saved_names@[j]@] == self.saved_values@[j] by {
                        if j != i {
                            assert(self.saved_values@[j] == old(self).saved_values@[j]);
                        }
                    }
                }
            },
            None => {
                let ghost v = value;
                self.saved_names.push(String::from_str(name));
                self.saved_values.push(value);
                proof {
                    self.saved@ = self.saved@.insert(name@, v);
                    let n = self.saved_names@.len() - 1;
                    assert forall|j: int|
                        0 <= j < self.saved_names@.len() implies self.saved@.contains_key(
                        #[trigger] self.saved_names@[j]@,
                    ) && self.saved@[self.saved_names@[j]@] == self.saved_values@[j] by {
                        if j < n {
                            assert(self.saved_names@[j] == old(self).saved_names@[j]);
                            assert(self.saved_values@[j] == old(self).saved_values@[j]);
                        }
                    }
                    assert forall|k: Seq<char>| #[trigger] self.saved@.contains_key(k) implies exists|
                        j: int,
                    | 0 <= j < self.saved_names@.len() && self.saved_names@[j]@ == k by {
                        if k == name@ {
                            assert(self.saved_names@[n]@ == k);
                        } else {
                            let j = choose|j: int|
                                0 <= j < old(self).saved_names@.len() && old(
                                    self,
                                ).saved_names@[j]@ == k;
                            assert(self.saved_names@[j] == old(self).saved_names@[j]);
                        }
                    }
                }
            },
        }
    }
}

/// Whether `c` is one of the ten decimal digit characters.
pub open spec fn is_digit_char(c: char) -> bool {
    '0' <= c && c <= '9'
}

proof fn lemma_decimal_digits(n: nat)
    ensures
        decimal(n).len() >= 1,
        n >= 10 ==> decimal(n).len() >= 2,
        forall|i: int| 0 <= i < decimal(n).len() ==> is_digit_char(#[trigger] decimal(n)[i]),
    decreases n,
{
    if n >= 10 {
        lemma_decimal_digits(n / 10);
        let d = decimal(n);
        assert forall|i: int| 0 <= i < d.len() implies is_digit_char(#[trigger] d[i]) by {
            if i < d.len() - 1 {
                assert(d[i] == decimal(n / 10)[i]);
            }
        }
    }
}

proof fn lemma_digit_char_injective(a: nat, b: nat)
    requires
        a < 10,
        b < 10,
        digit_char(a) == digit_char(b),
    ensures
        a == b,
{
}

proof fn lemma_decimal_injective(a: nat, b: nat)
    requires
        decimal(a) == decimal(b),
    ensures
        a == b,
    decreases a,
{
    lemma_decimal_digits(a);
    lemma_decimal_digits(b);
    if a < 10 && b < 10 {
        assert(decimal(a) == seq![digit_char(a)]);
        assert(decimal(b) == seq![digit_char(b)]);
        assert(decimal(a)[0] == digit_char(a));
        assert(decimal(b)[0] == digit_char(b));
        lemma_digit_char_injective(a, b);
    } else if a >= 10 && b >= 10 {
        let da = decimal(a);
        let db = decimal(b);
        assert(da.last() == digit_char(a % 10));
        assert(db.last() == digit_char(b % 10));
        lemma_digit_char_injective(a % 10, b % 10);
        assert(decimal(a / 10) =~= da.drop_last());
        assert(decimal(b / 10) =~= db.drop_last());
        lemma_decimal_injective(a / 10, b / 10);
    }
}

/// Whether `name` holds no `#`, the character that separates a step name
/// from its use count.
pub open spec fn plain_step_name(name: Seq<char>) -> bool {
    !name.contains('#')
}

proof fn lemma_hash_position(n1: Seq<char>, d1: Seq<char>, n2: Seq<char>, d2: Seq<char>)
    requires
        plain_step_name(n1),
        plain_step_name(n2),
        n1 + "#"@ + d1 == n2 + "#"@ + d2,
    ensures
        n1 == n2,
        d1 == d2,
{
    reveal_strlit("#");
    let s = n1 + "#"@ + d1;
    assert(s[n1.len() as int] == '#');
    assert((n2 + "#"@ + d2)[n2.len() as int] == '#');
    if n1.len() < n2.len() {
        assert((n2 + "#"@ + d2)[n1.len() as int] == n2[n1.len() as int]);
        assert(n2.contains('#'));
    } else if n2.len() < n1.len() {
        assert(s[n2.len() as int] == n1[n2.len() as int]);
        assert(n1.contains('#'));
    }
    assert(n1 =~= s.subrange(0, n1.len() as int));
    assert(n2 =~= (n2 + "#"@ + d2).subrange(0, n2.len() as int));
    assert(d1 =~= s.subrange(n1.len() + 1int, s.len() as int));
    assert(d2 =~= (n2 + "#"@ + d2).subrange(n2.len() + 1int, s.len() as int));
}

/// Distinct uses of plain step names get distinct checkpoint keys: the key
/// determines both the step name and which use of it the key belongs to.
pub proof fn law_checkpoint_names_distinct(n1: Seq<char>, k1: nat, n2: Seq<char>, k2: nat)
    requires
        plain_step_name(n1),
        plain_step_name(n2),
        k1 >= 1,
        k2 >= 1,
        checkpoint_name(n1, k1) == checkpoint_name(n2, k2),
    ensures
        n1 == n2,
        k1 == k2,
{
    reveal_strlit("#");
    if k1 == 1 && k2 == 1 {
    } else if k1 == 1 {
        assert(checkpoint_name(n2, k2)[n2.len() as int] == '#');
        assert(n1[n2.len() as int] == '#');
        assert(n1.contains('#'));
    } else if k2 == 1 {
        assert(checkpoint_name(n1, k1)[n1.len() as int] == '#');
        assert(n2[n1.len() as int] == '#');
        assert(n2.contains('#'));
    } else {
        lemma_hash_position(n1, decimal(k1), n2, decimal(k2));
        lemma_decimal_injective(k1, k2);
    }
}

/// A recorded checkpoint is what a later lookup of its key returns, and
/// recording leaves every other key as it was.
pub proof fn law_recorded_checkpoint_replays<V>(
    before: Map<Seq<char>, V>,
    name: Seq<char>,
    value: V,
    other: Seq<char>,
)
    ensures
        before.insert(name, value).contains_key(name),
        before.insert(name, value)[name] == value,
        other != name ==> before.insert(name, value).contains_key(other) == before.contains_key(
            other,
        ),
        other != name && before.contains_key(other) ==> before.insert(name, value)[other]
            == before[other],
{
}

/// How many times `n` occurs in `names`.
pub open spec fn occurrences(names: Seq<Seq<char>>, n: Seq<char>) -> nat
    decreases names.len(),
{
    if names.len() == 0 {
        0
    } else {
        occurrences(names.drop_last(), n) + if names.last() == n {
            1nat
        } else {
            0nat
        }
    }
}

/// The count that `uses` records for `n`.
pub open spec fn count_in(uses: Map<Seq<char>, nat>, n: Seq<char>) -> nat {
    if uses.contains_key(n) {
        uses[n]
    } else {
        0
    }
}

/// The counts reached and the keys handed out after a run has called the
/// steps `names`, in order, from a fresh state (each call does what
/// `next_checkpoint_name` does to them).
pub open spec fn replay_after(names: Seq<Seq<char>>) -> (Map<Seq<char>, nat>, Set<Seq<char>>)
    decreases names.len(),
{
    if names.len() == 0 {
        (Map::empty(), Set::empty())
    } else {
        let before = replay_after(names.drop_last());
        let n = names.last();
        let k = next_use(before.1, n, count_in(before.0, n));
        (before.0.insert(n, k), before.1.insert(checkpoint_name(n, k)))
    }
}

/// The checkpoint keys a run gets for calling the steps `names`, in order,
/// from a fresh state.
pub open spec fn run_keys(names: Seq<Seq<char>>) -> Seq<Seq<char>>
    decreases names.len(),
{
    if names.len() == 0 {
        seq![]
    } else {
        let before = replay_after(names.drop_last());
        let n = names.last();
        run_keys(names.drop_last()).push(
            checkpoint_name(n, next_use(before.1, n, count_in(before.0, n))),
        )
    }
}

/// The checkpoint key of the `count`-th use of `name`, as a string.
fn checkpoint_key(name: &str, count: usize) -> (r: String)
    requires
        count >= 1,
    ensures
        r@ == checkpoint_name(name@, count as nat),
{
    if count == 1 {
        String::from_str(name)
    } else {
        let digits = decimal_string(count as u64);
        join3(name, "#", digits.as_str())
    }
}

proof fn lemma_checkpoint_name_injective(name: Seq<char>, a: nat, b: nat)
    requires
        a >= 1,
        b >= 1,
        a != b,
    ensures
        checkpoint_name(name, a) != checkpoint_name(name, b),
{
    reveal_strlit("#");
    lemma_decimal_digits(a);
    lemma_decimal_digits(b);
    if a == 1 {
        assert(checkpoint_name(name, b).len() > name.len());
    } else if b == 1 {
        assert(checkpoint_name(name, a).len() > name.len());
    } else {
        let sa = checkpoint_name(name, a);
        let sb = checkpoint_name(name, b);
        if sa == sb {
            assert(decimal(a) =~= sa.subrange(name.len() + 1int, sa.len() as int));
            assert(decimal(b) =~= sb.subrange(name.len() + 1int, sb.len() as int));
            lemma_decimal_injective(a, b);
        }
    }
}

proof fn lemma_fresh_exists(issued: Set<Seq<char>>, name: Seq<char>, from: nat) -> (k: nat)
    requires
        issued.finite(),
        from >= 1,
    ensures
        is_fresh_count(issued, name, from, k),
        k <= from + issued.len(),
    decreases issued.len(),
{
    if !issued.contains(checkpoint_name(name, from)) {
        from
    } else {
        let rest = issued.remove(checkpoint_name(name, from));
        let k = lemma_fresh_exists(rest, name, from + 1);
        lemma_checkpoint_name_injective(name, k, from);
        assert forall|j: nat| from <= j < k implies issued.contains(
            #[trigger] checkpoint_name(name, j),
        ) by {
            if j > from {
                assert(rest.contains(checkpoint_name(name, j)));
            }
        }
        k
    }
}

proof fn lemma_fresh_count_unique(issued: Set<Seq<char>>, name: Seq<char>, from: nat, a: nat, b: nat)
    requires
        is_fresh_count(issued, name, from, a),
        is_fresh_count(issued, name, from, b),
    ensures
        a == b,
{
    if a < b {
        assert(issued.contains(checkpoint_name(name, a)));
    } else if b < a {
        assert(issued.contains(checkpoint_name(name, b)));
    }
}

/// There is always a free count, at most the number of keys handed out
/// past the count searched from, and `fresh_count` is it.
proof fn lemma_fresh_count(issued: Set<Seq<char>>, name: Seq<char>, from: nat)
    requires
        issued.finite(),
        from >= 1,
    ensures
        is_fresh_count(issued, name, from, fresh_count(issued, name, from)),
        fresh_count(issued, name, from) <= from + issued.len(),
{
    let k = lemma_fresh_exists(issued, name, from);
    lemma_fresh_count_unique(issued, name, from, k, fresh_count(issued, name, from));
}

proof fn lemma_replay_issued(names: Seq<Seq<char>>)
    ensures
        replay_after(names).1.finite(),
        run_keys(names).len() == names.len(),
        forall|x: Seq<char>|
            #[trigger] replay_after(names).1.contains(x) <==> exists|i: int|
                0 <= i < names.len() && run_keys(names)[i] == x,
        forall|i: int, j: int|
            0 <= i < j < names.len() ==> run_keys(names)[i] != run_keys(names)[j],
    decreases names.len(),
{
    if names.len() > 0 {
        let init = names.drop_last();
        lemma_replay_issued(init);
        let before = replay_after(init);
        let n = names.last();
        let from = count_in(before.0, n) + 1;
        lemma_fresh_count(before.1, n, from);
        let key = checkpoint_name(n, next_use(before.1, n, count_in(before.0, n)));
        let keys = run_keys(names);
        assert(keys == run_keys(init).push(key));
        assert(replay_after(names).1 == before.1.insert(key));
        assert forall|x: Seq<char>| #[trigger] replay_after(names).1.contains(x) <==> exists|i: int|
            0 <= i < names.len() && keys[i] == x by {
            if x == key {
                assert(keys[init.len() as int] == x);
            }
            if before.1.contains(x) {
                let i = choose|i: int| 0 <= i < init.len() && run_keys(init)[i] == x;
                assert(keys[i] == x);
            }
            if exists|i: int| 0 <= i < names.len() && keys[i] == x {
                let i = choose|i: int| 0 <= i < names.len() && keys[i] == x;
                if i < init.len() {
                    assert(run_keys(init)[i] == x);
                }
            }
        }
        assert forall|i: int, j: int| 0 <= i < j < names.len() implies keys[i] != keys[j] by {
            assert(keys[i] == run_keys(init)[i]);
            if j < init.len() {
                assert(keys[j] == run_keys(init)[j]);
            } else {
                assert(before.1.contains(run_keys(init)[i]));
            }
        }
    }
}

/// No two step calls of a run share a checkpoint key, whatever the step
/// names: each call maps to its own checkpoint.
pub proof fn law_run_keys_distinct(names: Seq<Seq<char>>, i: int, j: int)
    requires
        0 <= i < j < names.len(),
    ensures
        run_keys(names)[i] != run_keys(names)[j],
{
    lemma_replay_issued(names);
}

/// `next_checkpoint_name` steps the run's counts and keys as `replay_after`
/// does and returns the key `run_keys` gives: from a fresh state, the keys a
/// run receives are `run_keys` of the step names it called, so a replay that
/// calls the same steps in the same order meets the same keys.
pub proof fn law_namer_follows_run_keys(names: Seq<Seq<char>>, name: Seq<char>)
    ensures
        ({
            let before = replay_after(names);
            let k = next_use(before.1, name, count_in(before.0, name));
            &&& (before.0.insert(name, k), before.1.insert(checkpoint_name(name, k)))
                == replay_after(names.push(name))
            &&& checkpoint_name(name, k) == run_keys(names.push(name)).last()
        }),
        replay_after(seq![]) == (Map::<Seq<char>, nat>::empty(), Set::<Seq<char>>::empty()),
{
    assert(names.push(name).drop_last() =~= names);
}

proof fn lemma_occurrences_grow(names: Seq<Seq<char>>, n: Seq<char>, a: int, b: int)
    requires
        0 <= a <= b <= names.len(),
    ensures
        occurrences(names.take(a), n) <= occurrences(names.take(b), n),
        a < b && names[b - 1] == n ==> occurrences(names.take(a), n) < occurrences(names.take(b), n),
    decreases b - a,
{
    if a < b {
        lemma_occurrences_grow(names, n, a, b - 1);
        assert(names.take(b).drop_last() =~= names.take(b - 1));
    }
}

/// The key that the `i`-th call gets when no name holds a `#`.
pub open spec fn plain_key(names: Seq<Seq<char>>, i: int) -> Seq<char> {
    checkpoint_name(names[i], occurrences(names.take(i + 1), names[i]))
}

/// What a run of plain step names has reached: the counts are the numbers
/// of calls, and the keys handed out are the plain keys of the calls.
pub open spec fn plain_replay_facts(names: Seq<Seq<char>>) -> bool {
    &&& forall|n: Seq<char>| #[trigger] count_in(replay_after(names).0, n) == occurrences(names, n)
    &&& forall|x: Seq<char>|
        #[trigger] replay_after(names).1.contains(x) <==> exists|i: int|
            0 <= i < names.len() && plain_key(names, i) == x
    &&& run_keys(names).len() == names.len()
    &&& forall|k: int| 0 <= k < names.len() ==> #[trigger] run_keys(names)[k] == plain_key(names, k)
}

proof fn lemma_plain_no_collision(init: Seq<Seq<char>>, n: Seq<char>)
    requires
        forall|k: int| 0 <= k < init.len() ==> plain_step_name(#[trigger] init[k]),
        plain_step_name(n),
        plain_replay_facts(init),
    ensures
        !replay_after(init).1.contains(checkpoint_name(n, occurrences(init, n) + 1)),
{
    let from = occurrences(init, n) + 1;
    if replay_after(init).1.contains(checkpoint_name(n, from)) {
        let i = choose|i: int| 0 <= i < init.len() && plain_key(init, i) == checkpoint_name(n, from);
        let ci = occurrences(init.take(i + 1), init[i]);
        lemma_occurrences_grow(init, init[i], 0, i + 1);
        assert(init.take(0) =~= Seq::<Seq<char>>::empty());
        law_checkpoint_names_distinct(init[i], ci, n, from);
        lemma_occurrences_grow(init, n, i + 1, init.len() as int);
        assert(init.take(init.len() as int) =~= init);
    }
}

proof fn lemma_plain_step(init: Seq<Seq<char>>, n: Seq<char>)
    requires
        forall|k: int| 0 <= k < init.len() ==> plain_step_name(#[trigger] init[k]),
        plain_step_name(n),
        plain_replay_facts(init),
    ensures
        plain_replay_facts(init.push(n)),
{
    let names = init.push(n);
    assert(names.drop_last() =~= init);
    lemma_replay_issued(init);
    lemma_plain_no_collision(init, n);
    let before = replay_after(init);
    let last = init.len() as int;
    let from = count_in(before.0, n) + 1;
    assert(from == occurrences(init, n) + 1);
    assert(is_fresh_count(before.1, n, from, from));
    lemma_fresh_count(before.1, n, from);
    lemma_fresh_count_unique(before.1, n, from, from, fresh_count(before.1, n, from));
    assert(names.take(last + 1) =~= names);
    assert(plain_key(names, last) == checkpoint_name(n, from));
    assert forall|i: int| 0 <= i < init.len() implies #[trigger] plain_key(init, i) == plain_key(
        names,
        i,
    ) by {
        assert(init.take(i + 1) =~= names.take(i + 1));
    }
    assert(replay_after(names).0 == before.0.insert(n, from));
    assert(replay_after(names).1 == before.1.insert(plain_key(names, last)));
    assert forall|m: Seq<char>| #[trigger] count_in(replay_after(names).0, m) == occurrences(
        names,
        m,
    ) by {
        assert(count_in(before.0, m) == occurrences(init, m));
    }
    assert forall|x: Seq<char>| #[trigger] replay_after(names).1.contains(x) <==> exists|i: int|
        0 <= i < names.len() && plain_key(names, i) == x by {
        if before.1.contains(x) {
            let i = choose|i: int| 0 <= i < init.len() && plain_key(init, i) == x;
            assert(plain_key(names, i) == x);
        }
        if exists|i: int| 0 <= i < names.len() && plain_key(names, i) == x {
            let i = choose|i: int| 0 <= i < names.len() && plain_key(names, i) == x;
            if i < init.len() {
                assert(plain_key(init, i) == x);
            }
        }
    }
    assert forall|k: int| 0 <= k < names.len() implies #[trigger] run_keys(names)[k] == plain_key(
        names,
        k,
    ) by {
        if k < init.len() {
            assert(run_keys(names)[k] == run_keys(init)[k]);
        }
    }
}

proof fn lemma_plain_replay(names: Seq<Seq<char>>)
    requires
        forall|k: int| 0 <= k < names.len() ==> plain_step_name(#[trigger] names[k]),
    ensures
        plain_replay_facts(names),
    decreases names.len(),
{
    if names.len() > 0 {
        let init = names.drop_last();
        assert forall|k: int| 0 <= k < init.len() implies plain_step_name(#[trigger] init[k]) by {
            assert(init[k] == names[k]);
        }
        lemma_plain_replay(init);
        assert(init.push(names.last()) =~= names);
        lemma_plain_step(init, names.last());
    } else {
        assert(replay_after(names).1 =~= Set::<Seq<char>>::empty());
    }
}

/// When no step name holds a `#`, no count is ever passed over: the k-th
/// call of a run gets the key for the n-th use of its name, where n counts
/// that name among the first k+1 calls (`name`, `name#2`, `name#3`, ...).
pub proof fn law_plain_keys_count_uses(names: Seq<Seq<char>>, k: int)
    requires
        forall|i: int| 0 <= i < names.len() ==> plain_step_name(#[trigger] names[i]),
        0 <= k < names.len(),
    ensures
        run_keys(names)[k] == checkpoint_name(names[k], occurrences(names.take(k + 1), names[k])),
{
    lemma_plain_replay(names);
}

/// One operation of a run on its replay state: hand out the key of a step
/// call, or record a checkpoint value under some key.
pub enum ReplayOp {
    Name(Seq<char>),
    Record(Seq<char>),
}

/// The step names of the naming operations among `ops`, in order.
pub open spec fn named_steps(ops: Seq<ReplayOp>) -> Seq<Seq<char>>
    decreases ops.len(),
{
    if ops.len() == 0 {
        seq![]
    } else {
        let before = named_steps(ops.drop_last());
        match ops.last() {
            ReplayOp::Name(n) => before.push(n),
            ReplayOp::Record(_) => before,
        }
    }
}

/// The counts and handed-out keys after the operations `ops`, from a fresh
/// state: `next_checkpoint_name` steps them as `replay_after` does, and
/// `record` leaves them as they were.
pub open spec fn replay_after_ops(ops: Seq<ReplayOp>) -> (Map<Seq<char>, nat>, Set<Seq<char>>)
    decreases ops.len(),
{
    if ops.len() == 0 {
        (Map::empty(), Set::empty())
    } else {
        let before = replay_after_ops(ops.drop_last());
        match ops.last() {
            ReplayOp::Name(n) => {
                let k = next_use(before.1, n, count_in(before.0, n));
                (before.0.insert(n, k), before.1.insert(checkpoint_name(n, k)))
            },
            ReplayOp::Record(_) => before,
        }
    }
}

/// The keys handed out by the naming operations among `ops`, in order.
pub open spec fn op_keys(ops: Seq<ReplayOp>) -> Seq<Seq<char>>
    decreases ops.len(),
{
    if ops.len() == 0 {
        seq![]
    } else {
        let before = replay_after_ops(ops.drop_last());
        match ops.last() {
            ReplayOp::Name(n) => op_keys(ops.drop_last()).push(
                checkpoint_name(n, next_use(before.1, n, count_in(before.0, n))),
            ),
            ReplayOp::Record(_) => op_keys(ops.drop_last()),
        }
    }
}

proof fn lemma_ops_follow_names(ops: Seq<ReplayOp>)
    ensures
        replay_after_ops(ops) == replay_after(named_steps(ops)),
        op_keys(ops) == run_keys(named_steps(ops)),
    decreases ops.len(),
{
    if ops.len() > 0 {
        let init = ops.drop_last();
        lemma_ops_follow_names(init);
        match ops.last() {
            ReplayOp::Name(n) => {
                assert(named_steps(ops).drop_last() =~= named_steps(init));
            },
            ReplayOp::Record(_) => {},
        }
    }
}

/// Recording checkpoints between step calls changes no key: a run that
/// interleaves naming and recording hands out exactly the keys of its step
/// calls alone, and no two of them are equal.
pub proof fn law_interleaved_keys_distinct(ops: Seq<ReplayOp>, i: int, j: int)
    requires
        0 <= i < j < op_keys(ops).len(),
    ensures
        op_keys(ops) == run_keys(named_steps(ops)),
        replay_after_ops(ops) == replay_after(named_steps(ops)),
        op_keys(ops)[i] != op_keys(ops)[j],
{
    lemma_ops_follow_names(ops);
    lemma_replay_issued(named_steps(ops));
}

/// Each operation steps the state as the run's methods do: naming `name`
/// takes the next free count and hands out its key (as `next_checkpoint_name`
/// ensures), and recording under `key` leaves the counts and handed-out keys
/// as they were (as `record` ensures).
pub proof fn law_ops_step(ops: Seq<ReplayOp>, name: Seq<char>, key: Seq<char>)
    ensures
        ({
            let before = replay_after_ops(ops);
            let k = next_use(before.1, name, count_in(before.0, name));
            &&& replay_after_ops(ops.push(ReplayOp::Name(name))) == (
                before.0.insert(name, k),
                before.1.insert(checkpoint_name(name, k)),
            )
            &&& op_keys(ops.push(ReplayOp::Name(name))) == op_keys(ops).push(checkpoint_name(name, k))
            &&& replay_after_ops(ops.push(ReplayOp::Record(key))) == before
            &&& op_keys(ops.push(ReplayOp::Record(key))) == op_keys(ops)
        }),
{
    assert(ops.push(ReplayOp::Name(name)).drop_last() =~= ops);
    assert(ops.push(ReplayOp::Record(key)).drop_last() =~= ops);
}

} // verus!

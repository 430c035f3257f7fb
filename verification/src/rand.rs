use vstd::prelude::*;

use crate::algorithm::RandomAlgorithm;
use crate::algorithm::model_after;
use crate::algorithm::raw_at;
use crate::values::NumRange;
use crate::values::NumRangeInclusive;
use crate::values::ValidRandomNumber;
use crate::values::ValidRandomRange;

verus! {

/// The sequence with the elements at positions `a` and `b` exchanged.
pub open spec fn swap_seq<G>(s: Seq<G>, a: int, b: int) -> Seq<G> {
    s.update(a, s[b]).update(b, s[a])
}

/// The Fisher–Yates shuffle of `s` driven by the raw stream that starts at
/// abstract generator state `m`, with the movable boundary walking from
/// `items` down to 1: at boundary `i` the position drawn as `raw mod
/// (i + 1)` changes places with position `i`.
pub open spec fn spec_shuffle<T: RandomAlgorithm, G>(s: Seq<G>, m: T::Model, items: nat) -> Seq<G>
    decreases items,
{
    if items == 0 {
        s
    } else {
        let pos = (T::raw_from(m) as int) % (items + 1) as int;
        spec_shuffle::<T, G>(swap_seq(s, pos, items as int), T::step_model(m), (items - 1) as nat)
    }
}

/// Exchanging two elements keeps the length and the multiset of elements.
pub proof fn lemma_swap_seq_multiset<G>(s: Seq<G>, a: int, b: int)
    requires
        0 <= a < s.len(),
        0 <= b < s.len(),
    ensures
        swap_seq(s, a, b).len() == s.len(),
        swap_seq(s, a, b).to_multiset() == s.to_multiset(),
{
    broadcast use vstd::seq_lib::group_to_multiset_ensures;
    broadcast use vstd::seq_lib::to_multiset_update;

    if a == b {
        assert(swap_seq(s, a, b) =~= s);
    } else {
        let s1 = s.update(a, s[b]);
        assert(s.contains(s[a]) && s.contains(s[b]));
        assert(s1.contains(s1[b]));
        assert(swap_seq(s, a, b).to_multiset() =~= s.to_multiset());
    }
}

/// Every Fisher–Yates shuffle is a permutation: it keeps the length and
/// the multiset of elements of the sequence, whatever the generator state.
pub proof fn lemma_spec_shuffle_permutes<T: RandomAlgorithm, G>(s: Seq<G>, m: T::Model, items: nat)
    requires
        items < s.len(),
    ensures
        spec_shuffle::<T, G>(s, m, items).len() == s.len(),
        spec_shuffle::<T, G>(s, m, items).to_multiset() == s.to_multiset(),
    decreases items,
{
    if items > 0 {
        let pos = (T::raw_from(m) as int) % (items + 1) as int;
        lemma_swap_seq_multiset(s, pos, items as int);
        lemma_spec_shuffle_permutes::<T, G>(
            swap_seq(s, pos, items as int),
            T::step_model(m),
            (items - 1) as nat,
        );
    }
}

/// The positions in `p` are strictly increasing, hence pairwise distinct.
pub open spec fn strictly_increasing(p: Seq<usize>) -> bool {
    forall|i: int, j: int| 0 <= i < j < p.len() ==> p[i] < p[j]
}

/// `p` lists, in increasing order, distinct positions of `src` at which the
/// references in `sel` point: `sel` is a sample of `sel.len()` elements of
/// `src` taken at pairwise distinct positions.
pub open spec fn sample_positions_of<G>(sel: Seq<&G>, src: Seq<G>, p: Seq<usize>) -> bool {
    &&& strictly_increasing(p)
    &&& p.len() == sel.len()
    &&& (forall|i: int| 0 <= i < p.len() ==> p[i] < src.len())
    &&& (forall|i: int| 0 <= i < p.len() ==> *sel[i] == src[p[i] as int])
}

/// The rejection sampling recursion: starting at abstract generator state
/// `m`, positions are drawn in `[0, len)` one draw per round and
/// accumulated, duplicates falling together, until `amount` distinct
/// positions are collected or the draw budget runs out. Yields the chosen
/// set of positions and the state the generator is left in.
pub open spec fn spec_sample_set<T: RandomAlgorithm>(
    m: T::Model,
    len: nat,
    amount: nat,
    budget: nat,
    chosen: Set<usize>,
) -> (Set<usize>, T::Model)
    decreases budget,
{
    if chosen.len() >= amount || budget == 0 {
        (chosen, m)
    } else {
        let pos = (T::raw_from(m) % len) as usize;
        spec_sample_set::<T>(T::step_model(m), len, amount, (budget - 1) as nat, chosen.insert(pos))
    }
}

/// The positions that rejection sampling chooses from state `m`, under the
/// draw budget the implementation grants, together with the generator
/// state left behind. The budget is so large that no feasible run
/// exhausts it: whenever the chosen set reaches `amount` members, this is
/// exactly the sample that the raw stream dictates.
pub open spec fn sample_outcome<T: RandomAlgorithm>(m: T::Model, len: nat, amount: nat) -> (
    Set<usize>,
    T::Model,
) {
    spec_sample_set::<T>(m, len, amount, u64::MAX as nat, Set::empty())
}

/// The full promise kept by a successful sample: `p` lists the distinct
/// positions behind the returned references, and whenever the rejection
/// sampling recursion from the caller's generator state reaches `amount`
/// distinct positions within the draw budget, `p` holds exactly that
/// chosen set — the sample is the one the raw stream dictates.
pub open spec fn sample_result_pinned<T: RandomAlgorithm, G>(
    sel: Seq<&G>,
    src: Seq<G>,
    m: T::Model,
    amount: nat,
    p: Seq<usize>,
) -> bool {
    &&& sample_positions_of(sel, src, p)
    &&& (sample_outcome::<T>(m, src.len(), amount).0.len() == amount ==> p.to_set()
        == sample_outcome::<T>(m, src.len(), amount).0)
}

/// Inserts `pos` into a strictly increasing vector of positions, keeping
/// the order, unless it is already present; says whether it was added.
fn insert_position(positions: &mut Vec<usize>, pos: usize) -> (added: bool)
    requires
        strictly_increasing(old(positions)@),
    ensures
        strictly_increasing(final(positions)@),
        added == !old(positions)@.contains(pos),
        forall|x: usize|
            final(positions)@.contains(x) <==> (old(positions)@.contains(x) || x == pos),
        final(positions)@.len() == old(positions)@.len() + (if old(positions)@.contains(pos) {
            0int
        } else {
            1int
        }),
{
    let ghost p0 = positions@;
    let mut k: usize = 0;
    while k < positions.len() && positions[k] < pos
        invariant
            positions@ == p0,
            strictly_increasing(positions@),
            k <= positions@.len(),
            forall|i: int| 0 <= i < k ==> positions@[i] < pos,
        decreases positions@.len() - k,
    {
        k += 1;
    }
    if k < positions.len() && positions[k] == pos {
        proof {
            assert(p0.contains(pos));
        }
        return false;
    }
    proof {
        assert forall|i: int| 0 <= i < p0.len() implies p0[i] != pos by {
            if i >= k {
                assert(p0[k as int] <= p0[i]);
            }
        }
        assert(!p0.contains(pos));
    }
    positions.insert(k, pos);
    proof {
        p0.insert_ensures(k as int, pos);
        let p1 = positions@;
        assert forall|i: int, j: int| 0 <= i < j < p1.len() implies p1[i] < p1[j] by {
            if j < k {
            } else if i < k && j == k {
                assert(p1[i] == p0[i] && p0[i] < pos);
            } else if i < k && j > k {
                assert(p1[i] == p0[i] && p1[j] == p0[j - 1] && p0[i] < pos);
                assert(pos < p0[k as int] <= p0[j - 1]);
            } else if i == k {
                assert(p1[j] == p0[j - 1] && pos < p0[k as int] <= p0[j - 1]);
            } else {
                assert(p1[i] == p0[i - 1] && p1[j] == p0[j - 1]);
            }
        }
        assert forall|x: usize| p1.contains(x) <==> (p0.contains(x) || x == pos) by {
            if p1.contains(x) {
                let i = choose|i: int| 0 <= i < p1.len() && p1[i] == x;
                if i < k {
                    assert(p0[i] == x);
                } else if i == k {
                } else {
                    assert(p0[i - 1] == x);
                }
            }
            if p0.contains(x) {
                let i = choose|i: int| 0 <= i < p0.len() && p0[i] == x;
                if i < k {
                    assert(p1[i] == x);
                } else {
                    assert(p1[i + 1] == x);
                }
            }
            if x == pos {
                assert(p1[k as int] == x);
            }
        }
    }
    true
}

/// Relies on slice::swap: the elements at the two positions change places
/// and every other element stays where it was.
#[verifier::external_body]
fn vec_swap<G>(vector: &mut Vec<G>, a: usize, b: usize)
    requires
        a < old(vector)@.len(),
        b < old(vector)@.len(),
    ensures
        final(vector)@ == old(vector)@.update(a as int, old(vector)@[b as int]).update(
            b as int,
            old(vector)@[a as int],
        ),
{
    vector.swap(a, b);
}

/// Struct `Random`, used to generate multiple random values with the given
/// algorithm, or to use them for derived operations such as a shuffle.
///
/// It owns exactly one generator; every operation advances that generator
/// by a known number of draws, and the contracts pin each produced value to
/// the generator's raw stream.
pub struct Random<T: RandomAlgorithm> {
    algorithm: T,
}

impl<T: RandomAlgorithm> Random<T> {
    /// The owned generator's state is well formed.
    pub closed spec fn wf(&self) -> bool {
        self.algorithm.wf()
    }

    /// The abstract state of the owned generator.
    pub closed spec fn model(&self) -> T::Model {
        self.algorithm.model()
    }

    /// Creates a new `Random` struct with a given seed for the underlying
    /// algorithm. Construction fails exactly on the seeds the algorithm
    /// rejects.
    pub fn seed(seed: T::Seed) -> (r: Result<Random<T>, &'static str>)
        ensures
            (r is Ok) == T::seed_ok(seed),
            r is Ok ==> (r->Ok_0).wf() && (r->Ok_0).model() == T::seed_model(seed),
    {
        match T::new(seed) {
            Ok(algorithm) => Ok(Random { algorithm }),
            Err(e) => Err(e),
        }
    }

    /// Returns a random number in a given range: one draw of the underlying
    /// generator, reduced modulo the range width and offset by the range
    /// start.
    pub fn randrange<R: ValidRandomRange<T::Number>>(&mut self, range: R) -> (r: T::Number)
        requires
            old(self).wf(),
            range.representable(),
            range.spec_start() < range.spec_end(),
        ensures
            final(self).wf(),
            final(self).model() == T::step_model(old(self).model()),
            r.as_int() == range.spec_start() + (T::raw_from(old(self).model()) as int) % (
            range.spec_end() - range.spec_start()),
            range.spec_start() <= r.as_int() < range.spec_end(),
    {
        self.algorithm.randrange(range)
    }

    /// Returns a `u8` vector of length `amount` with random values: each
    /// byte is one draw in `[0, 255]`, narrowed to a byte.
    ///
    /// Warning: do not use this function for secure random bytes generation.
    pub fn randbytes(&mut self, amount: T::Number) -> (r: Vec<u8>)
        requires
            old(self).wf(),
            amount.as_int() <= usize::MAX as int,
        ensures
            final(self).wf(),
            r@.len() == amount.as_int(),
            forall|j: int|
                0 <= j < r@.len() ==> r@[j] as int == raw_at::<T>(old(self).model(), j as nat)
                    % 256,
            final(self).model() == model_after::<T>(old(self).model(), amount.as_int() as nat),
    {
        let count = amount.to_usize();
        let ghost m0 = self.model();
        let mut bytes: Vec<u8> = Vec::new();
        let mut i: usize = 0;
        while i < count
            invariant
                i <= count,
                self.wf(),
                bytes@.len() == i,
                self.model() == model_after::<T>(m0, i as nat),
                forall|j: int| 0 <= j < i ==> bytes@[j] as int == raw_at::<T>(m0, j as nat) % 256,
            decreases count - i,
        {
            proof {
                T::Number::lemma_domain();
            }
            let value = self.randrange(
                NumRangeInclusive { start: T::Number::zero(), end: T::Number::byte_max() },
            );
            bytes.push(value.to_u8());
            i += 1;
            proof {
                assert(model_after::<T>(m0, i as nat) == T::step_model(
                    model_after::<T>(m0, (i - 1) as nat),
                ));
            }
        }
        bytes
    }

    /// Chooses a random value from a given vector and returns a reference
    /// to it: the element at one draw in `[0, length)`. The vector must not
    /// be empty, since an empty index domain leaves nothing to choose.
    pub fn choose_from<'a, G>(&'a mut self, vector: &'a Vec<G>) -> (r: &'a G)
        requires
            old(self).wf(),
            1 <= vector@.len() <= T::Number::spec_max(),
        ensures
            final(self).wf(),
            final(self).model() == T::step_model(old(self).model()),
            *r == vector@[(T::raw_from(old(self).model()) as int) % vector@.len() as int],
    {
        let end = T::Number::from_usize(vector.len());
        let value = self.randrange(NumRange { start: T::Number::zero(), end });
        let index = value.to_usize();
        &vector[index]
    }

    /// Performs an in-place Fisher–Yates shuffle on the contents of a
    /// vector: the movable boundary walks from `length - 1` down to 1, and
    /// at each boundary one drawn position changes places with it.
    ///
    /// The result is exactly the shuffle that the generator's raw stream
    /// dictates, and it is always a permutation of the original contents.
    /// The vector must not be empty.
    pub fn shuffle<G>(&mut self, vector: &mut Vec<G>)
        requires
            old(self).wf(),
            1 <= old(vector)@.len() <= T::Number::spec_max(),
        ensures
            final(self).wf(),
            final(vector)@ == spec_shuffle::<T, G>(
                old(vector)@,
                old(self).model(),
                (old(vector)@.len() - 1) as nat,
            ),
            final(vector)@.to_multiset() == old(vector)@.to_multiset(),
            final(self).model() == model_after::<T>(
                old(self).model(),
                (old(vector)@.len() - 1) as nat,
            ),
    {
        let ghost s0 = vector@;
        let ghost m0 = self.model();
        let len = vector.len();
        let mut items: usize = len - 1;
        while items > 0
            invariant
                self.wf(),
                vector@.len() == s0.len(),
                s0.len() == len,
                1 <= len <= T::Number::spec_max(),
                items < len,
                self.model() == model_after::<T>(m0, (len - 1 - items) as nat),
                spec_shuffle::<T, G>(s0, m0, (len - 1) as nat) == spec_shuffle::<T, G>(
                    vector@,
                    self.model(),
                    items as nat,
                ),
            decreases items,
        {
            proof {
                T::Number::lemma_domain();
            }
            let ghost m_pre = self.model();
            let ghost v_pre = vector@;
            let bound = T::Number::from_usize(items);
            let value = self.randrange(
                NumRangeInclusive { start: T::Number::zero(), end: bound },
            );
            let pos = value.to_usize();
            if pos != items {
                vec_swap(vector, pos, items);
            }
            proof {
                if pos == items {
                    assert(vector@ =~= swap_seq(v_pre, pos as int, items as int));
                }
                assert(spec_shuffle::<T, G>(v_pre, m_pre, items as nat) == spec_shuffle::<T, G>(
                    vector@,
                    self.model(),
                    (items - 1) as nat,
                ));
                assert(model_after::<T>(m0, (len - items) as nat) == T::step_model(
                    model_after::<T>(m0, (len - 1 - items) as nat),
                ));
            }
            items -= 1;
        }
        proof {
            lemma_spec_shuffle_permutes::<T, G>(s0, m0, (len - 1) as nat);
        }
    }

    /// Returns a `Result` containing a random sample of `amount` elements
    /// from the contents of a given vector, taken at pairwise distinct
    /// positions and returned in increasing position order.
    ///
    /// Positions are found by rejection sampling: indices are drawn
    /// uniformly and duplicates discarded until `amount` distinct positions
    /// are collected. The given `amount` can't be bigger than the total
    /// population; that is the one rejected input.
    pub fn sample<'a, G>(&'a mut self, vector: &'a Vec<G>, amount: usize) -> (r: Result<
        Vec<&'a G>,
        &'static str,
    >)
        requires
            old(self).wf(),
            vector@.len() <= T::Number::spec_max(),
        ensures
            final(self).wf(),
            (r is Ok) == (amount <= vector@.len()),
            r is Err ==> final(self).model() == old(self).model(),
            r is Err ==> (r->Err_0)@ == "can't get a sample bigger than the population"@,
            exists|k: nat| final(self).model() == model_after::<T>(old(self).model(), k),
            r is Ok ==> (r->Ok_0)@.len() == amount,
            r is Ok && sample_outcome::<T>(old(self).model(), vector@.len(), amount as nat).0.len()
                == amount ==> final(self).model() == sample_outcome::<T>(
                old(self).model(),
                vector@.len(),
                amount as nat,
            ).1,
            r is Ok ==> exists|p: Seq<usize>|
                sample_result_pinned::<T, G>((r->Ok_0)@, vector@, old(self).model(), amount as nat, p),
            r is Ok && sample_outcome::<T>(old(self).model(), vector@.len(), amount as nat).0.len()
                < amount ==> forall|i: int| 0 <= i < amount ==> *((r->Ok_0)@[i]) == vector@[i],
    {
        let length = vector.len();
        if amount > length {
            proof {
                assert(self.model() == model_after::<T>(old(self).model(), 0));
            }
            return Err("can't get a sample bigger than the population");
        }

        let ghost m0 = self.model();
        let mut positions: Vec<usize> = Vec::new();
        let mut items: usize = 0;
        // The draw budget below cannot be exhausted in any feasible run; it
        // bounds the rejection loop so that the operation stays total.
        let mut draws_left: u64 = u64::MAX;
        proof {
            broadcast use vstd::set::group_set_axioms;

            assert(self.model() == model_after::<T>(m0, 0));
            assert(positions@.to_set() =~= Set::<usize>::empty());
        }
        while items < amount && draws_left > 0
            invariant
                self.wf(),
                items == positions@.len(),
                items <= amount,
                amount <= length,
                length == vector@.len(),
                length <= T::Number::spec_max(),
                strictly_increasing(positions@),
                forall|i: int| 0 <= i < positions@.len() ==> positions@[i] < length,
                exists|k: nat| self.model() == model_after::<T>(m0, k),
                positions@.to_set().len() == items,
                spec_sample_set::<T>(m0, length as nat, amount as nat, u64::MAX as nat, Set::empty())
                    == spec_sample_set::<T>(
                    self.model(),
                    length as nat,
                    amount as nat,
                    draws_left as nat,
                    positions@.to_set(),
                ),
            decreases draws_left,
        {
            proof {
                T::Number::lemma_domain();
            }
            let ghost m_pre = self.model();
            let end = T::Number::from_usize(length);
            let value = self.randrange(NumRange { start: T::Number::zero(), end });
            let pos = value.to_usize();
            let ghost p_pre = positions@;
            if insert_position(&mut positions, pos) {
                items += 1;
            }
            draws_left -= 1;
            proof {
                broadcast use vstd::set::group_set_axioms;
                broadcast use vstd::seq_lib::seq_to_set_is_finite;

                let k = choose|k: nat| m_pre == model_after::<T>(m0, k);
                assert(self.model() == model_after::<T>(m0, k + 1));
                assert forall|i: int| 0 <= i < positions@.len() implies positions@[i]
                    < length by {
                    assert(positions@.contains(positions@[i]));
                    if p_pre.contains(positions@[i]) {
                        let j = choose|j: int| 0 <= j < p_pre.len() && p_pre[j] == positions@[i];
                    }
                }
                let chosen_pre = p_pre.to_set();
                assert(pos as int == (T::raw_from(m_pre) as int) % (length as int));
                assert(pos == ((T::raw_from(m_pre) % (length as nat)) as usize));
                assert(positions@.to_set() =~= chosen_pre.insert(pos));
                assert(chosen_pre.contains(pos) == p_pre.contains(pos));
                assert(spec_sample_set::<T>(
                    m_pre,
                    length as nat,
                    amount as nat,
                    (draws_left + 1) as nat,
                    chosen_pre,
                ) == spec_sample_set::<T>(
                    self.model(),
                    length as nat,
                    amount as nat,
                    draws_left as nat,
                    positions@.to_set(),
                ));
            }
        }

        let ghost outcome = sample_outcome::<T>(m0, vector@.len(), amount as nat);
        if items < amount {
            proof {
                assert(draws_left == 0);
                assert(outcome == (positions@.to_set(), self.model()));
                assert(outcome.0.len() < amount);
            }
            // The budget ran dry: complete the sample deterministically
            // with the smallest positions, so the promise of `amount`
            // distinct positions still holds.
            positions = Vec::new();
            let mut j: usize = 0;
            while j < amount
                invariant
                    j <= amount,
                    amount <= length,
                    positions@.len() == j,
                    forall|i: int| 0 <= i < j ==> positions@[i] == i,
                decreases amount - j,
            {
                positions.push(j);
                j += 1;
            }
        } else {
            proof {
                assert(items == amount);
                assert(outcome == (positions@.to_set(), self.model()));
                assert(outcome.0.len() == amount);
            }
        }

        let mut selected: Vec<&G> = Vec::new();
        let mut t: usize = 0;
        while t < positions.len()
            invariant
                positions@.len() == amount,
                amount <= length,
                length == vector@.len(),
                strictly_increasing(positions@),
                forall|i: int| 0 <= i < positions@.len() ==> positions@[i] < length,
                t <= amount,
                selected@.len() == t,
                forall|i: int| 0 <= i < t ==> *selected@[i] == vector@[positions@[i] as int],
            decreases positions@.len() - t,
        {
            let pos = positions[t];
            selected.push(&vector[pos]);
            t += 1;
        }

        let result: Result<Vec<&'a G>, &'static str> = Ok(selected);
        proof {
            assert(sample_positions_of((result->Ok_0)@, vector@, positions@));
            assert(outcome.0.len() == amount ==> positions@.to_set() == outcome.0);
            assert(sample_result_pinned::<T, G>(
                (result->Ok_0)@,
                vector@,
                m0,
                amount as nat,
                positions@,
            ));
        }
        result
    }
}

} // verus!

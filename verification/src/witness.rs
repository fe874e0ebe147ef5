//! The witness store: a deterministic, ordered mapping from witness slot
//! identity to an assigned field value for one concrete step execution.

use vstd::prelude::*;

use crate::program::{IOProfile, IdSet, WitnessID};
use crate::Error;

verus! {

/// One concrete assignment of field values to witness slots, held as a
/// vector of (slot, value) pairs in strictly ascending slot order.
#[derive(Clone, Debug, PartialEq)]
pub struct Witness<F>(pub Vec<(WitnessID, F)>);

impl<F> From<Vec<(WitnessID, F)>> for Witness<F> {
    fn from(map: Vec<(WitnessID, F)>) -> Witness<F> {
        Witness(map)
    }
}

impl<F> vstd::std_specs::convert::FromSpecImpl<Vec<(WitnessID, F)>> for Witness<F> {
    open spec fn obeys_from_spec() -> bool {
        true
    }

    open spec fn from_spec(map: Vec<(WitnessID, F)>) -> Witness<F> {
        Witness(map)
    }
}

/// The first value bound to `id` in a pair sequence, if any.
pub open spec fn seq_find<V>(s: Seq<(WitnessID, V)>, id: WitnessID) -> Option<V>
    decreases s.len(),
{
    if s.len() == 0 {
        None
    } else if s[0].0 == id {
        Some(s[0].1)
    } else {
        seq_find(s.drop_first(), id)
    }
}

/// Keys of a pair sequence are strictly ascending.
pub open spec fn keys_ascending<V>(s: Seq<(WitnessID, V)>) -> bool {
    forall|i: int, j: int| 0 <= i < j < s.len() ==> s[i].0.0 < s[j].0.0
}

/// Keys of a pair sequence are pairwise distinct.
pub open spec fn keys_distinct<V>(s: Seq<(WitnessID, V)>) -> bool {
    forall|i: int, j: int| 0 <= i < j < s.len() ==> s[i].0 != s[j].0
}

/// If no pair of `s` carries the key `id`, the lookup fails.
pub proof fn lemma_seq_find_absent<V>(s: Seq<(WitnessID, V)>, id: WitnessID)
    requires
        forall|i: int| 0 <= i < s.len() ==> s[i].0 != id,
    ensures
        seq_find(s, id) is None,
    decreases s.len(),
{
    if s.len() > 0 {
        assert(forall|i: int|
            0 <= i < s.drop_first().len() ==> s.drop_first()[i].0 != id);
        lemma_seq_find_absent(s.drop_first(), id);
    }
}

/// With pairwise distinct keys, looking up the key of the pair at `k`
/// returns that pair's value.
pub proof fn lemma_seq_find_at<V>(s: Seq<(WitnessID, V)>, k: int)
    requires
        keys_distinct(s),
        0 <= k < s.len(),
    ensures
        seq_find(s, s[k].0) == Some(s[k].1),
    decreases s.len(),
{
    if k > 0 {
        assert(s[0].0 != s[k].0);
        assert(keys_distinct(s.drop_first()));
        assert(s.drop_first()[k - 1] == s[k]);
        lemma_seq_find_at(s.drop_first(), k - 1);
    }
}

/// A lookup in a concatenation tries the left part first.
pub proof fn lemma_seq_find_append<V>(s1: Seq<(WitnessID, V)>, s2: Seq<(WitnessID, V)>, id: WitnessID)
    ensures
        seq_find(s1 + s2, id) == if seq_find(s1, id) is Some {
            seq_find(s1, id)
        } else {
            seq_find(s2, id)
        },
    decreases s1.len(),
{
    if s1.len() == 0 {
        assert(s1 + s2 =~= s2);
    } else {
        assert((s1 + s2)[0] == s1[0]);
        assert((s1 + s2).drop_first() =~= s1.drop_first() + s2);
        lemma_seq_find_append(s1.drop_first(), s2, id);
    }
}

/// If some pair of `s` carries the key `id`, the lookup succeeds.
pub proof fn lemma_seq_find_present<V>(s: Seq<(WitnessID, V)>, id: WitnessID)
    requires
        exists|i: int| 0 <= i < s.len() && s[i].0 == id,
    ensures
        seq_find(s, id) is Some,
    decreases s.len(),
{
    if s[0].0 != id {
        let i = choose|i: int| 0 <= i < s.len() && s[i].0 == id;
        assert(s.drop_first()[i - 1].0 == id);
        lemma_seq_find_present(s.drop_first(), id);
    }
}

/// If a lookup succeeds, some pair of `s` carries exactly that key and value.
pub proof fn lemma_seq_find_witness<V>(s: Seq<(WitnessID, V)>, id: WitnessID)
    requires
        seq_find(s, id) is Some,
    ensures
        exists|i: int|
            0 <= i < s.len() && s[i].0 == id && s[i].1 == seq_find(s, id).unwrap(),
    decreases s.len(),
{
    if s.len() > 0 && s[0].0 != id {
        lemma_seq_find_witness(s.drop_first(), id);
        let i = choose|i: int|
            0 <= i < s.drop_first().len() && s.drop_first()[i].0 == id
                && s.drop_first()[i].1 == seq_find(s.drop_first(), id).unwrap();
        assert(s[i + 1].0 == id && s[i + 1].1 == seq_find(s, id).unwrap());
    }
}

/// Linear lookup of `id` in a pair vector.
pub(crate) fn lookup_pair<V: Copy>(s: &Vec<(WitnessID, V)>, id: WitnessID) -> (r: Option<V>)
    ensures
        r == seq_find(s@, id),
{
    let mut k: usize = 0;
    proof {
        assert(s@.skip(0) =~= s@);
    }
    while k < s.len()
        invariant
            0 <= k <= s@.len(),
            seq_find(s@, id) == seq_find(s@.skip(k as int), id),
        decreases s@.len() - k,
    {
        if s[k].0 == id {
            proof {
                assert(s@.skip(k as int)[0] == s@[k as int]);
            }
            return Some(s[k].1);
        }
        proof {
            assert(s@.skip(k as int)[0] == s@[k as int]);
            assert(s@.skip(k as int).drop_first() =~= s@.skip(k as int + 1));
        }
        k += 1;
    }
    proof {
        assert(s@.skip(s@.len() as int) =~= Seq::<(WitnessID, V)>::empty());
    }
    None
}

impl<F> Witness<F> {
    /// Well-formed: slot identities strictly ascending.
    pub open spec fn wf(&self) -> bool {
        keys_ascending(self.0@)
    }

    /// The value assigned to `id`, if any.
    pub open spec fn spec_get(&self, id: WitnessID) -> Option<F> {
        seq_find(self.0@, id)
    }
}

impl<F: Copy> Witness<F> {
    /// Looks up the value assigned to `id`.
    pub fn get(&self, id: WitnessID) -> (r: Option<F>)
        ensures
            r == self.spec_get(id),
    {
        lookup_pair(&self.0, id)
    }

    /// Returns a new witness containing exactly the requested identities,
    /// each looked up from `self`. Fails with the first missing identity, in
    /// the order of `ids`; no partial result is returned.
    pub fn extract_subset(&self, ids: &IdSet) -> (r: Result<Witness<F>, Error>)
        ensures
            match r {
                Ok(w) => {
                    &&& forall|k: int|
                        0 <= k < ids.seq().len() ==> self.spec_get(ids.seq()[k]) is Some
                    &&& w.0@.len() == ids.seq().len()
                    &&& forall|k: int|
                        0 <= k < ids.seq().len() ==> w.0@[k].0 == ids.seq()[k]
                            && w.0@[k].1 == self.spec_get(ids.seq()[k]).unwrap()
                    &&& ids.wf() ==> w.wf()
                },
                Err(Error::WitnessNotFound(x)) => exists|j: int|
                    0 <= j < ids.seq().len() && self.spec_get(ids.seq()[j]) is None
                        && x == ids.seq()[j].0
                        && (forall|i: int| 0 <= i < j ==> self.spec_get(ids.seq()[i]) is Some),
                _ => false,
            },
    {
        let mut out: Vec<(WitnessID, F)> = Vec::new();
        let mut k: usize = 0;
        while k < ids.0.len()
            invariant
                0 <= k <= ids.seq().len(),
                out@.len() == k,
                forall|i: int| 0 <= i < k ==> self.spec_get(ids.seq()[i]) is Some,
                forall|i: int|
                    0 <= i < k ==> out@[i].0 == ids.seq()[i]
                        && out@[i].1 == self.spec_get(ids.seq()[i]).unwrap(),
            decreases ids.seq().len() - k,
        {
            let id = ids.0[k];
            match self.get(id) {
                None => {
                    return Err(Error::WitnessNotFound(id.0));
                },
                Some(v) => {
                    out.push((id, v));
                },
            }
            k += 1;
        }
        proof {
            if ids.wf() {
                assert forall|i: int, j: int|
                    0 <= i < j < out@.len() implies out@[i].0.0 < out@[j].0.0 by {
                    assert(out@[i].0 == ids.seq()[i]);
                    assert(out@[j].0 == ids.seq()[j]);
                }
            }
        }
        Ok(Witness(out))
    }

    /// Derives the next step's input witness: for each pair formed by zipping
    /// the public-input and public-output identity sets in their stored
    /// (ascending) order, copies the value stored at the output identity into
    /// a fresh mapping keyed by the input identity. Assumes every zipped
    /// output identity is present.
    pub fn make_next_input_witness(&self, io: &IOProfile) -> (w: Witness<F>)
        requires
            forall|k: int|
                0 <= k < chained_len(*io) ==> self.spec_get(io.public_outputs.seq()[k]) is Some,
        ensures
            w.0@.len() == chained_len(*io),
            forall|k: int|
                0 <= k < chained_len(*io) ==> w.0@[k].0 == io.public_inputs.seq()[k]
                    && w.0@[k].1 == self.spec_get(io.public_outputs.seq()[k]).unwrap(),
            io.public_inputs.wf() ==> w.wf(),
    {
        let n_in = io.public_inputs.0.len();
        let n_out = io.public_outputs.0.len();
        let n = if n_in <= n_out { n_in } else { n_out };
        let mut out: Vec<(WitnessID, F)> = Vec::new();
        let mut k: usize = 0;
        while k < n
            invariant
                0 <= k <= n,
                n == chained_len(*io),
                out@.len() == k,
                forall|i: int|
                    0 <= i < k ==> out@[i].0 == io.public_inputs.seq()[i]
                        && out@[i].1 == self.spec_get(io.public_outputs.seq()[i]).unwrap(),
                forall|i: int|
                    0 <= i < chained_len(*io) ==> self.spec_get(io.public_outputs.seq()[i]) is Some,
            decreases n - k,
        {
            let input_id = io.public_inputs.0[k];
            let output_id = io.public_outputs.0[k];
            match self.get(output_id) {
                None => {
                    proof {
                        assert(false);
                    }
                },
                Some(v) => {
                    out.push((input_id, v));
                },
            }
            k += 1;
        }
        proof {
            if io.public_inputs.wf() {
                assert forall|i: int, j: int|
                    0 <= i < j < out@.len() implies out@[i].0.0 < out@[j].0.0 by {
                    assert(out@[i].0 == io.public_inputs.seq()[i]);
                    assert(out@[j].0 == io.public_inputs.seq()[j]);
                }
            }
        }
        Witness(out)
    }
}

/// How many values witness chaining carries over: the length of the zip of
/// the public-input and public-output identity sets.
pub open spec fn chained_len(io: IOProfile) -> nat {
    if io.public_inputs.seq().len() <= io.public_outputs.seq().len() {
        io.public_inputs.seq().len()
    } else {
        io.public_outputs.seq().len()
    }
}

/// Witness chaining round-trip: when a step's declared next-input witness
/// `w2` assigns to each public-input slot exactly the value the executed
/// step's witness `w1` held at the matching public-output slot, then the
/// witness derived by chaining agrees with `w2` on every public-input slot.
pub proof fn lemma_chaining_round_trip<F>(w1: Witness<F>, io: IOProfile, w2: Witness<F>)
    requires
        io.public_inputs.wf(),
        io.public_inputs.seq().len() == io.public_outputs.seq().len(),
        forall|k: int|
            0 <= k < chained_len(io) ==> w1.spec_get(io.public_outputs.seq()[k]) is Some,
        w2.0@.len() == chained_len(io),
        forall|k: int|
            0 <= k < chained_len(io) ==> w2.0@[k].0 == io.public_inputs.seq()[k]
                && w2.0@[k].1 == w1.spec_get(io.public_outputs.seq()[k]).unwrap(),
    ensures
        forall|k: int|
            0 <= k < chained_len(io) ==> w2.spec_get(io.public_inputs.seq()[k])
                == w1.spec_get(io.public_outputs.seq()[k]),
{
    assert forall|i: int, j: int|
        0 <= i < j < w2.0@.len() implies w2.0@[i].0 != w2.0@[j].0 by {
        assert(w2.0@[i].0 == io.public_inputs.seq()[i]);
        assert(w2.0@[j].0 == io.public_inputs.seq()[j]);
        assert(io.public_inputs.seq()[i].0 < io.public_inputs.seq()[j].0);
    }
    assert(keys_distinct(w2.0@));
    assert forall|k: int| 0 <= k < chained_len(io) implies w2.spec_get(
        io.public_inputs.seq()[k],
    ) == w1.spec_get(io.public_outputs.seq()[k]) by {
        lemma_seq_find_at(w2.0@, k);
    }
}

} // verus!

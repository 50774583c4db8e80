//! The class-download coordinator's decision logic: which classes a state
//! delta newly references, which of them are absent locally, and the local
//! presence record that makes re-running a resolution a no-op.
use vstd::prelude::*;
use crate::chain::StateUpdate;
use crate::felt::Felt;

verus! {

broadcast use {
    vstd::seq_lib::group_seq_properties,
    vstd::prelude::Seq::lemma_index_contains,
    vstd::prelude::Seq::lemma_take_succ_push,
    vstd::prelude::Seq::lemma_take_len,
    vstd::prelude::Seq::lemma_push_to_set_commute,
};

/// Every class identifier a state delta newly references: declared classes,
/// classes deployed together with their definition, and replaced classes.
pub open spec fn referenced_classes(u: StateUpdate) -> Seq<Felt> {
    u.declared_classes@ + u.deployed_classes@ + u.replaced_classes@
}

/// The local record of class artifacts already persisted. Writes are
/// idempotent: recording a class twice leaves one entry.
#[derive(Clone, Debug)]
pub struct ClassStore {
    present: Vec<Felt>,
}

impl ClassStore {
    /// The set of class identifiers the store holds.
    pub closed spec fn view(&self) -> Set<Felt> {
        self.present@.to_set()
    }

    /// The record never lists an identifier twice.
    pub closed spec fn wf(&self) -> bool {
        self.present@.no_duplicates()
    }

    pub fn new() -> (r: ClassStore)
        ensures
            r@ == Set::<Felt>::empty(),
            r.wf(),
    {
        let r = ClassStore { present: Vec::new() };
        proof {
            assert(r.present@.to_set() =~= Set::<Felt>::empty());
        }
        r
    }

    pub fn contains(&self, class_hash: &Felt) -> (r: bool)
        ensures
            r == self@.contains(*class_hash),
    {
        let n = self.present.len();
        for i in 0..n
            invariant
                n == self.present.len(),
                forall|j: int| 0 <= j < i ==> self.present@[j] != *class_hash,
        {
            if self.present[i] == *class_hash {
                return true;
            }
        }
        proof {
            assert(!self.present@.contains(*class_hash));
        }
        false
    }

    /// Records a persisted class. A class already present is not recorded
    /// again: the write is idempotent.
    pub fn record(&mut self, class_hash: Felt)
        requires
            old(self).wf(),
        ensures
            final(self)@ == old(self)@.insert(class_hash),
            final(self).wf(),
    {
        if !self.contains(&class_hash) {
            self.present.push(class_hash);
            proof {
                assert(self.present@ =~= old(self).present@.push(class_hash));
                assert(self.present@.to_set() =~= old(self)@.insert(class_hash));
            }
        } else {
            proof {
                assert(self.present@.to_set() =~= old(self)@.insert(class_hash));
            }
        }
    }
}

/// Computes the download plan for a state delta: exactly the classes the
/// delta newly references that the store does not yet hold, each listed
/// once. An empty plan means the delta's class dependencies are already
/// resolved.
pub fn download_plan(u: &StateUpdate, store: &ClassStore) -> (plan: Vec<Felt>)
    ensures
        forall|h: Felt| #[trigger]
            plan@.contains(h) <==> (referenced_classes(*u).contains(h) && !store@.contains(h)),
        plan@.no_duplicates(),
{
    let mut plan: Vec<Felt> = Vec::new();
    collect_missing(&u.declared_classes, store, &mut plan);
    collect_missing(&u.deployed_classes, store, &mut plan);
    collect_missing(&u.replaced_classes, store, &mut plan);
    proof {
        assert(forall|h: Felt| referenced_classes(*u).contains(h) <==> (
        u.declared_classes@.contains(h) || u.deployed_classes@.contains(h)
            || u.replaced_classes@.contains(h)));
    }
    plan
}

/// Appends to `plan` every identifier of `classes` that neither the store
/// nor the plan already holds.
fn collect_missing(classes: &Vec<Felt>, store: &ClassStore, plan: &mut Vec<Felt>)
    requires
        old(plan)@.no_duplicates(),
    ensures
        forall|h: Felt| #[trigger]
            final(plan)@.contains(h) <==> (old(plan)@.contains(h) || (classes@.contains(h)
                && !store@.contains(h))),
        final(plan)@.no_duplicates(),
{
    let n = classes.len();
    for i in 0..n
        invariant
            n == classes.len(),
            plan@.no_duplicates(),
            forall|h: Felt| #[trigger]
                plan@.contains(h) <==> (old(plan)@.contains(h) || (classes@.take(i as int).contains(
                    h,
                ) && !store@.contains(h))),
    {
        proof {
            assert(classes@.take(i + 1).drop_last() =~= classes@.take(i as int));
        }
        let c = classes[i];
        if !store.contains(&c) && !vec_contains(plan, &c) {
            plan.push(c);
            proof {
                assert(forall|h: Felt| #[trigger]
                    plan@.contains(h) <==> (old(plan)@.contains(h) || (classes@.take(
                        i + 1,
                    ).contains(h) && !store@.contains(h))));
            }
        } else {
            proof {
                assert(forall|h: Felt| #[trigger]
                    classes@.take(i + 1).contains(h) <==> (classes@.take(i as int).contains(h) || h
                        == classes@[i as int]));
            }
        }
    }
    proof {
        assert(classes@.take(n as int) =~= classes@);
    }
}

fn vec_contains(v: &Vec<Felt>, x: &Felt) -> (r: bool)
    ensures
        r == v@.contains(*x),
{
    let n = v.len();
    for i in 0..n
        invariant
            n == v.len(),
            forall|j: int| 0 <= j < i ==> v@[j] != *x,
    {
        if v[i] == *x {
            return true;
        }
    }
    proof {
        assert(!v@.contains(*x));
    }
    false
}

/// Records a whole download plan as persisted, one idempotent write per
/// class.
pub fn record_all(store: &mut ClassStore, plan: &Vec<Felt>)
    requires
        old(store).wf(),
    ensures
        final(store)@ == old(store)@ + plan@.to_set(),
        final(store).wf(),
{
    let n = plan.len();
    for i in 0..n
        invariant
            n == plan.len(),
            store.wf(),
            store@ == old(store)@ + plan@.take(i as int).to_set(),
    {
        proof {
            assert(plan@.take(i + 1).drop_last() =~= plan@.take(i as int));
        }
        store.record(plan[i]);
        proof {
            assert(old(store)@ + plan@.take(i + 1).to_set() =~= (old(store)@ + plan@.take(
                i as int,
            ).to_set()).insert(plan@[i as int]));
        }
    }
    proof {
        assert(plan@.take(n as int) =~= plan@);
    }
}

/// Idempotent class resolution: once a store holds every class a delta
/// references — in particular, right after the plan of a first resolution
/// run was fetched and persisted — a further run over the same delta has an
/// empty plan: nothing is fetched again, and the resolution still succeeds.
pub proof fn lemma_resolution_idempotent(u: StateUpdate, present: Set<Felt>, plan: Seq<Felt>)
    requires
        forall|h: Felt| #[trigger]
            plan.contains(h) <==> (referenced_classes(u).contains(h) && !present.contains(h)),
    ensures
        forall|h: Felt| #[trigger]
            referenced_classes(u).contains(h) ==> (present + plan.to_set()).contains(h),
        forall|h: Felt|
            !(#[trigger] referenced_classes(u).contains(h) && !(present + plan.to_set()).contains(
                h,
            )),
{
    assert forall|h: Felt| #[trigger]
        referenced_classes(u).contains(h) implies (present + plan.to_set()).contains(h) by {
        if present.contains(h) {
        } else {
            assert(plan.contains(h));
            assert(plan.to_set().contains(h));
        }
    }
}

} // verus!

use vstd::prelude::*;
use crate::slot::{box_name, box_name_string, lists_slots, BoxStatus};

verus! {

/// Why a slot could not be claimed.
#[derive(Debug, Clone, Copy, PartialEq, Eq, Structural)]
pub enum OccupyError {
    NotFound,
    AlreadyOccupied,
}

/// What claiming slot `id` returns when the occupancy is `occ`.
pub open spec fn occupy_outcome(occ: Seq<bool>, id: int) -> Result<(), OccupyError> {
    if !(0 <= id < occ.len()) {
        Err(OccupyError::NotFound)
    } else if occ[id] {
        Err(OccupyError::AlreadyOccupied)
    } else {
        Ok(())
    }
}

/// The occupancy after claiming slot `id`.
pub open spec fn after_occupy(occ: Seq<bool>, id: int) -> Seq<bool> {
    if occupy_outcome(occ, id) is Ok {
        occ.update(id, true)
    } else {
        occ
    }
}

/// How many slots are occupied.
pub open spec fn count_in_use(occ: Seq<bool>) -> nat
    decreases occ.len(),
{
    if occ.len() == 0 {
        0
    } else {
        count_in_use(occ.drop_last()) + if occ.last() {
            1nat
        } else {
            0nat
        }
    }
}

/// The table of slots. Its view is the occupancy flag of each slot, by
/// identifier; identifiers and names follow from the position.
pub struct SlotRegistry {
    boxes: Vec<BoxStatus>,
}

impl View for SlotRegistry {
    type V = Seq<bool>;

    closed spec fn view(&self) -> Seq<bool> {
        self.boxes@.map_values(|b: BoxStatus| b.in_use)
    }
}

impl SlotRegistry {
    /// Slot `i` stands at position `i` under its name, and identifiers fit a
    /// byte.
    pub closed spec fn wf(&self) -> bool {
        &&& self.boxes@.len() <= 256
        &&& forall|i: int|
            0 <= i < self.boxes@.len() ==> {
                &&& (#[trigger] self.boxes@[i]).id == i
                &&& self.boxes@[i].name@ == box_name(i as nat)
            }
    }

    /// A pool of `capacity` slots, all free.
    pub fn new(capacity: usize) -> (r: SlotRegistry)
        requires
            capacity <= 256,
        ensures
            r.wf(),
            r@ == Seq::new(capacity as nat, |i: int| false),
    {
        let mut boxes: Vec<BoxStatus> = Vec::new();
        let mut i: usize = 0;
        while i < capacity
            invariant
                i <= capacity <= 256,
                boxes@.len() == i,
                forall|j: int|
                    0 <= j < i ==> {
                        &&& (#[trigger] boxes@[j]).id == j
                        &&& boxes@[j].name@ == box_name(j as nat)
                        &&& !boxes@[j].in_use
                    },
            decreases capacity - i,
        {
            boxes.push(BoxStatus { id: i as u8, name: box_name_string(i as u8), in_use: false });
            i = i + 1;
        }
        let r = SlotRegistry { boxes };
        assert(r@ =~= Seq::new(capacity as nat, |i: int| false));
        r
    }

    /// Number of slots.
    pub fn capacity(&self) -> (r: usize)
        ensures
            r == self@.len(),
            self.wf() ==> r <= 256,
    {
        self.boxes.len()
    }

    /// Whether slot `id` is occupied; `None` where there is no such slot.
    pub fn is_in_use(&self, id: usize) -> (r: Option<bool>)
        ensures
            id < self@.len() ==> r == Some(self@[id as int]),
            id >= self@.len() ==> r is None,
    {
        if id < self.boxes.len() {
            Some(self.boxes[id].in_use)
        } else {
            None
        }
    }

    /// Checks and claims slot `id` in one step: `NotFound` where there is no
    /// such slot, `AlreadyOccupied` where it is taken, and otherwise marks it
    /// occupied.
    pub fn try_occupy(&mut self, id: usize) -> (r: Result<(), OccupyError>)
        requires
            old(self).wf(),
        ensures
            final(self).wf(),
            r == occupy_outcome(old(self)@, id as int),
            final(self)@ == after_occupy(old(self)@, id as int),
    {
        if id >= self.boxes.len() {
            return Err(OccupyError::NotFound);
        }
        if self.boxes[id].in_use {
            return Err(OccupyError::AlreadyOccupied);
        }
        let ghost before = self.boxes@;
        let b = BoxStatus { id: self.boxes[id].id, name: self.boxes[id].name.clone(), in_use: true };
        self.boxes.set(id, b);
        assert(self@ =~= before.map_values(|b: BoxStatus| b.in_use).update(id as int, true));
        Ok(())
    }

    /// A copy of every slot, in order of identifier.
    pub fn snapshot(&self) -> (r: Vec<BoxStatus>)
        requires
            self.wf(),
        ensures
            lists_slots(r@, self@),
    {
        let mut list: Vec<BoxStatus> = Vec::new();
        let mut i: usize = 0;
        while i < self.boxes.len()
            invariant
                self.wf(),
                i <= self.boxes@.len(),
                lists_slots(list@, self@.subrange(0, i as int)),
            decreases self.boxes@.len() - i,
        {
            let b = &self.boxes[i];
            list.push(BoxStatus { id: b.id, name: b.name.clone(), in_use: b.in_use });
            i = i + 1;
        }
        assert(self@.subrange(0, i as int) =~= self@);
        list
    }

    /// Number of occupied slots.
    pub fn in_use_count(&self) -> (r: usize)
        ensures
            r == count_in_use(self@),
    {
        let mut n: usize = 0;
        let mut i: usize = 0;
        while i < self.boxes.len()
            invariant
                i <= self.boxes@.len(),
                n == count_in_use(self@.subrange(0, i as int)),
                n <= i,
            decreases self.boxes@.len() - i,
        {
            assert(self@.subrange(0, i + 1).drop_last() =~= self@.subrange(0, i as int));
            if self.boxes[i].in_use {
                n = n + 1;
            }
            i = i + 1;
        }
        assert(self@.subrange(0, i as int) =~= self@);
        n
    }
}

/// The occupancy after the first `k` claims of `ids` were served in order.
pub open spec fn state_after(occ: Seq<bool>, ids: Seq<int>, k: nat) -> Seq<bool>
    decreases k,
{
    if k == 0 || k > ids.len() {
        occ
    } else {
        after_occupy(state_after(occ, ids, (k - 1) as nat), ids[k - 1])
    }
}

/// What claim `k` of `ids` returns when the claims are served in order.
pub open spec fn outcome_at(occ: Seq<bool>, ids: Seq<int>, k: int) -> Result<(), OccupyError> {
    occupy_outcome(state_after(occ, ids, k as nat), ids[k])
}

proof fn lemma_state_after(occ: Seq<bool>, ids: Seq<int>, id: int, k: nat)
    requires
        0 <= id < occ.len(),
        k <= ids.len(),
    ensures
        state_after(occ, ids, k).len() == occ.len(),
        state_after(occ, ids, k)[id] <==> (occ[id] || exists|j: int| 0 <= j < k && ids[j] == id),
    decreases k,
{
    if k > 0 {
        lemma_state_after(occ, ids, id, (k - 1) as nat);
        if exists|j: int| 0 <= j < k - 1 && ids[j] == id {
            let j = choose|j: int| 0 <= j < k - 1 && ids[j] == id;
            assert(0 <= j < k && ids[j] == id);
        }
    }
}

proof fn lemma_first_claim_wins(occ: Seq<bool>, ids: Seq<int>, id: int, k: nat)
    requires
        0 <= id < occ.len(),
        k <= ids.len(),
        !occ[id],
        exists|j: int| 0 <= j < k && ids[j] == id,
    ensures
        exists|i: int| 0 <= i < k && ids[i] == id && outcome_at(occ, ids, i) is Ok,
    decreases k,
{
    if exists|j: int| 0 <= j < k - 1 && ids[j] == id {
        lemma_first_claim_wins(occ, ids, id, (k - 1) as nat);
        let i = choose|i: int| 0 <= i < k - 1 && ids[i] == id && outcome_at(occ, ids, i) is Ok;
        assert(0 <= i < k && ids[i] == id && outcome_at(occ, ids, i) is Ok);
    } else {
        let i = k - 1;
        lemma_state_after(occ, ids, id, i as nat);
        assert(ids[i] == id);
        assert(!state_after(occ, ids, i as nat)[id]);
        assert(outcome_at(occ, ids, i) is Ok);
    }
}

/// Claims on one slot, in whatever order the lock serves them: at most one
/// succeeds, every other finds the slot occupied, and if the slot was free one
/// of them does succeed.
pub proof fn lemma_single_winner(occ: Seq<bool>, ids: Seq<int>, id: int)
    requires
        0 <= id < occ.len(),
    ensures
        forall|i: int, j: int|
            0 <= i < ids.len() && 0 <= j < ids.len() && ids[i] == id && ids[j] == id && (
            #[trigger] outcome_at(occ, ids, i)) is Ok && (#[trigger] outcome_at(occ, ids, j)) is Ok
                ==> i == j,
        forall|i: int|
            0 <= i < ids.len() && ids[i] == id && !((#[trigger] outcome_at(occ, ids, i)) is Ok)
                ==> outcome_at(occ, ids, i) == Err::<(), OccupyError>(
                OccupyError::AlreadyOccupied,
            ),
        !occ[id] && ids.contains(id) ==> exists|i: int|
            0 <= i < ids.len() && ids[i] == id && (#[trigger] outcome_at(occ, ids, i)) is Ok,
{
    assert forall|i: int, j: int|
        0 <= i < ids.len() && 0 <= j < ids.len() && ids[i] == id && ids[j] == id && (
        #[trigger] outcome_at(occ, ids, i)) is Ok && (#[trigger] outcome_at(occ, ids, j)) is Ok
        implies i == j by {
        if i < j {
            lemma_state_after(occ, ids, id, j as nat);
            assert(state_after(occ, ids, j as nat)[id]);
        } else if j < i {
            lemma_state_after(occ, ids, id, i as nat);
            assert(state_after(occ, ids, i as nat)[id]);
        }
    }
    assert forall|i: int|
        0 <= i < ids.len() && ids[i] == id && !((#[trigger] outcome_at(occ, ids, i)) is Ok)
        implies outcome_at(occ, ids, i) == Err::<(), OccupyError>(OccupyError::AlreadyOccupied) by {
        lemma_state_after(occ, ids, id, i as nat);
    }
    if !occ[id] && ids.contains(id) {
        lemma_first_claim_wins(occ, ids, id, ids.len());
    }
}

/// After a successful claim of `id`, a listing of the pool shows slot `id`
/// occupied.
pub proof fn lemma_claim_visible(occ: Seq<bool>, id: int, list: Seq<BoxStatus>)
    requires
        occupy_outcome(occ, id) is Ok,
        lists_slots(list, after_occupy(occ, id)),
    ensures
        0 <= id < list.len(),
        list[id].id == id,
        list[id].in_use,
{
}

/// Two listings of the same pool, with no claim between them, agree slot by
/// slot.
pub proof fn lemma_listings_agree(occ: Seq<bool>, a: Seq<BoxStatus>, b: Seq<BoxStatus>)
    requires
        lists_slots(a, occ),
        lists_slots(b, occ),
    ensures
        a.len() == b.len(),
        forall|i: int|
            0 <= i < a.len() ==> (#[trigger] a[i]).id == b[i].id && a[i].name@ == b[i].name@
                && a[i].in_use == b[i].in_use,
{
}

} // verus!

use vstd::prelude::*;
use vstd::string::StringExecFns;
use crate::text::{decimal_chars, push_decimal};

verus! {

/// Number of slots in the pool that the server keeps.
pub const MAX_BOXES: usize = 25;

/// One slot as readers see it.
#[derive(Debug, Clone, PartialEq, Eq)]
pub struct BoxStatus {
    pub id: u8,
    pub name: String,
    pub in_use: bool,
}

/// The display name of slot `id`: `Box <id>`.
pub open spec fn box_name(id: nat) -> Seq<char> {
    seq!['B', 'o', 'x', ' '] + decimal_chars(id)
}

/// `list` shows the slots of a pool whose occupancy is `occ`: slot `i` stands
/// at position `i`, under its name, with its flag.
pub open spec fn lists_slots(list: Seq<BoxStatus>, occ: Seq<bool>) -> bool {
    &&& list.len() == occ.len()
    &&& forall|i: int|
        0 <= i < list.len() ==> {
            &&& (#[trigger] list[i]).id == i
            &&& list[i].name@ == box_name(i as nat)
            &&& list[i].in_use == occ[i]
        }
}

/// The display name of slot `id`.
pub fn box_name_string(id: u8) -> (r: String)
    ensures
        r@ == box_name(id as nat),
{
    let mut s = String::from_str("Box ");
    proof {
        reveal_strlit("Box ");
    }
    push_decimal(&mut s, id);
    s
}

/// The answer to a status query: every slot, in order.
#[derive(Debug)]
pub struct CheckResponse {
    pub list: Vec<BoxStatus>,
}

impl CheckResponse {
    pub fn new() -> (r: CheckResponse)
        ensures
            r.list@.len() == 0,
    {
        CheckResponse { list: Vec::new() }
    }
}

/// The answer to an upload: whether it was committed, and the slots after it.
#[derive(Debug)]
pub struct UploadResponse {
    pub success: bool,
    pub list: Vec<BoxStatus>,
}

impl UploadResponse {
    pub fn new(success: bool) -> (r: UploadResponse)
        ensures
            r.success == success,
            r.list@.len() == 0,
    {
        UploadResponse { success, list: Vec::new() }
    }

    pub fn update_list(&mut self, list: Vec<BoxStatus>)
        ensures
            final(self).success == old(self).success,
            final(self).list == list,
    {
        self.list = list;
    }
}

} // verus!

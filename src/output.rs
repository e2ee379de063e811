use vstd::prelude::*;

use crate::error::SwayWsError;

verus! {

/// Some entry of `list` equals `v`, string for string.
pub open spec fn listed(list: Seq<String>, v: Seq<char>) -> bool {
    exists|i: int| 0 <= i < list.len() && (#[trigger] list[i])@ == v
}

/// Tells whether `v` is absent from `list` (exact string equality).
pub fn is_not_in_list(v: &String, list: &[String]) -> (r: bool)
    ensures
        r == !listed(list@, v@),
{
    let mut i: usize = 0;
    while i < list.len()
        invariant
            i <= list.len(),
            forall|j: int| 0 <= j < i ==> (#[trigger] list@[j])@ != v@,
        decreases list.len() - i,
    {
        if list[i] == *v {
            return false;
        }
        i = i + 1;
    }
    true
}

/// Picks an output other than those named in `exclude`: the position in
/// `outputs` (the live output names, in the compositor's order) of the first
/// one whose name is not excluded. A single live output leaves nothing to
/// pick, whatever `exclude` holds.
pub fn get_second_output(outputs: &Vec<String>, exclude: &[String]) -> (r: Result<
    usize,
    SwayWsError,
>)
    ensures
        outputs@.len() == 1 ==> r == Err::<usize, SwayWsError>(SwayWsError::NoOutputAvailable),
        outputs@.len() != 1 ==> match r {
            Ok(i) => {
                &&& i < outputs@.len()
                &&& !listed(exclude@, outputs@[i as int]@)
                &&& forall|j: int| 0 <= j < i ==> listed(exclude@, (#[trigger] outputs@[j])@)
            },
            Err(e) => {
                &&& e == SwayWsError::NoOutputAvailable
                &&& forall|j: int|
                    0 <= j < outputs@.len() ==> listed(exclude@, (#[trigger] outputs@[j])@)
            },
        },
{
    if outputs.len() == 1 {
        return Err(SwayWsError::NoOutputAvailable);
    }
    let mut i: usize = 0;
    while i < outputs.len()
        invariant
            i <= outputs.len(),
            outputs@.len() != 1,
            forall|j: int| 0 <= j < i ==> listed(exclude@, (#[trigger] outputs@[j])@),
        decreases outputs.len() - i,
    {
        if is_not_in_list(&outputs[i], exclude) {
            return Ok(i);
        }
        i = i + 1;
    }
    Err(SwayWsError::NoOutputAvailable)
}

} // verus!

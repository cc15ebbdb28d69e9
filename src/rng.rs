use crate::grid::Vector2D;
use rand::seq::SliceRandom;
use vstd::prelude::*;

verus! {

#[verifier::external_type_specification]
#[verifier::external_body]
pub struct ExThreadRng(rand::rngs::ThreadRng);

/// Relies on rand::thread_rng: hands out a handle to the thread-local generator.
#[verifier::external_body]
pub(crate) fn thread_rng() -> rand::rngs::ThreadRng {
    rand::thread_rng()
}

/// Relies on SliceRandom::choose for slices: `None` exactly when the slice is
/// empty, and otherwise one of its elements, picked at random.
#[verifier::external_body]
pub(crate) fn choose_cell(rng: &mut rand::rngs::ThreadRng, cells: &Vec<Vector2D>) -> (r: Option<Vector2D>)
    ensures
        r.is_none() <==> cells@.len() == 0,
        r matches Some(c) ==> cells@.contains(c),
{
    cells.as_slice().choose(rng).copied()
}

} // verus!

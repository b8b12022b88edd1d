//! Grid sizes: the number of points of a grid and the memory its values take.
use vstd::prelude::*;

verus! {

/// The product of the axis sizes, multiplied from the first axis on.
pub open spec fn shape_product(shape: Seq<usize>) -> int
    decreases shape.len(),
{
    if shape.len() == 0 {
        1
    } else {
        shape_product(shape.drop_last()) * shape.last()
    }
}

/// Every partial product of the axis sizes, taken from the first axis on,
/// fits in a `usize`.
pub open spec fn shape_product_fits(shape: Seq<usize>) -> bool {
    forall|i: int| 0 <= i <= shape.len() ==> #[trigger] shape_product(shape.take(i)) <= usize::MAX
}

/// The number of points of a grid with the given axis sizes: their product.
pub fn grid_total_points(shape: &[usize]) -> (total: usize)
    requires
        shape_product_fits(shape@),
    ensures
        total == shape_product(shape@),
{
    let mut total: usize = 1;
    let mut i: usize = 0;
    assert(shape@.take(0) =~= Seq::<usize>::empty());
    while i < shape.len()
        invariant
            i <= shape@.len(),
            shape_product_fits(shape@),
            total == shape_product(shape@.take(i as int)),
        decreases shape@.len() - i,
    {
        assert(shape@.take(i + 1).drop_last() =~= shape@.take(i as int));
        assert(shape_product(shape@.take(i + 1)) <= usize::MAX);
        total = total * shape[i];
        i = i + 1;
    }
    assert(shape@.take(i as int) =~= shape@);
    total
}

/// The bytes that the values of a grid with the given axis sizes take:
/// eight per point.
pub fn grid_memory_estimate(shape: &[usize]) -> (bytes: usize)
    requires
        shape_product_fits(shape@),
        shape_product(shape@) * 8 <= usize::MAX,
    ensures
        bytes == shape_product(shape@) * 8,
{
    grid_total_points(shape) * 8
}

/// Whether a grid shape names three axes, each with at least one point.
pub fn grid_shape_valid(shape: &[usize]) -> (r: bool)
    ensures
        r == (shape@.len() == 3 && forall|i: int| 0 <= i < 3 ==> shape@[i] > 0),
{
    shape.len() == 3 && shape[0] > 0 && shape[1] > 0 && shape[2] > 0
}

} // verus!

//! Arrays: ordered sequences of values.
use crate::table::{array_model, Array, TomlValue};
use vstd::prelude::*;

verus! {

/// The number of elements.
pub fn ArrayCount(array: &Array) -> (n: usize)
    ensures
        n == array_model(*array).len(),
{
    array.len()
}

/// The element at `index`. An index past the end is the caller's error.
pub fn ArrayGet(array: &Array, index: usize) -> (r: &TomlValue)
    requires
        index < array_model(*array).len(),
    ensures
        r@ == array_model(*array)[index as int],
{
    &array[index]
}

/// The element at `index`, for changing in place. The other elements stay;
/// the element is whatever the caller leaves behind the reference.
pub fn ArrayGetMut(array: &mut Array, index: usize) -> (r: &mut TomlValue)
    requires
        index < array_model(*old(array)).len(),
    ensures
        r@ == array_model(*old(array))[index as int],
        array_model(*final(array)) == array_model(*old(array)).update(index as int, final(r)@),
{
    &mut array[index]
}

/// Appends `value`.
pub fn ArrayPush(array: &mut Array, value: Box<TomlValue>)
    ensures
        array_model(*final(array)) == array_model(*old(array)).push((*value)@),
{
    array.push(*value);
    assert(array_model(*array) =~= array_model(*old(array)).push((*value)@));
}

/// Drops the last element; an empty array stays empty.
pub fn ArrayPop(array: &mut Array)
    ensures
        array_model(*final(array)) == (if array_model(*old(array)).len() == 0 {
            array_model(*old(array))
        } else {
            array_model(*old(array)).drop_last()
        }),
{
    array.pop();
    assert(array_model(*array) =~= (if array_model(*old(array)).len() == 0 {
        array_model(*old(array))
    } else {
        array_model(*old(array)).drop_last()
    }));
}

} // verus!

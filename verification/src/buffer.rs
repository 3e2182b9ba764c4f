//! The bounded vectors of `heapless`, and what the library trusts of them.

use vstd::prelude::*;
use vstd::std_specs::convert::TryFromSpec;

verus! {

/// `heapless::Vec`, the vector with room for `N` items, as an opaque type.
#[verifier::external_type_specification]
#[verifier::external_body]
#[verifier::reject_recursive_types(T)]
#[verifier::reject_recursive_types(N)]
pub struct ExHeaplessVec<T, const N: usize>(heapless::Vec<T, N>);

/// Whether `v` is the vector that `heapless::Vec::try_from` makes from `items`.
spec fn made_from<T: Copy, const N: usize>(v: heapless::Vec<T, N>, items: &[T]) -> bool {
    <heapless::Vec<T, N> as TryFromSpec<&[T]>>::try_from_spec(items) matches Ok(w) && w == v
}

/// The items that a vector holds, in order: those of the slice from which
/// `heapless::Vec::try_from` makes that vector.
pub closed spec fn contents<T: Copy, const N: usize>(v: heapless::Vec<T, N>) -> Seq<T> {
    (choose|items: &[T]| made_from(v, items))@
}

/// What a vector with room for `capacity` items holds after `added` were pushed one
/// by one onto `held`: the first of them, as far as there is room.
pub open spec fn filled<T>(held: Seq<T>, added: Seq<T>, capacity: int) -> Seq<T> {
    if capacity <= held.len() {
        held
    } else if capacity - held.len() < added.len() {
        held + added.take(capacity - held.len())
    } else {
        held + added
    }
}

/// Trusted: `heapless::Vec::new` makes a vector that holds nothing.
#[verifier::external_body]
pub(crate) fn empty_vec<T: Copy, const N: usize>() -> (v: heapless::Vec<T, N>)
    ensures
        contents(v) == Seq::<T>::empty(),
{
    heapless::Vec::new()
}

/// Trusted: `heapless::Vec::push` appends the item where the vector holds fewer than
/// `N`, and otherwise hands the item back and leaves the vector as it was.
#[verifier::external_body]
pub(crate) fn push<T: Copy, const N: usize>(v: &mut heapless::Vec<T, N>, item: T) -> (r: Result<
    (),
    T,
>)
    ensures
        r == (if contents(*old(v)).len() < N {
            Ok::<(), T>(())
        } else {
            Err::<(), T>(item)
        }),
        contents(*final(v)) == filled(contents(*old(v)), seq![item], N as int),
{
    v.push(item)
}

/// Trusted: `heapless::Vec::as_slice` gives the items that the vector holds, in order,
/// which are never more than `N`.
#[verifier::external_body]
pub(crate) fn as_slice<T: Copy, const N: usize>(v: &heapless::Vec<T, N>) -> (items: &[T])
    ensures
        items@ == contents(*v),
        items@.len() <= N,
{
    v.as_slice()
}

/// Pushing in two goes fills a vector as pushing in one go does.
pub proof fn filling_goes_on<T>(held: Seq<T>, first: Seq<T>, second: Seq<T>, capacity: int)
    ensures
        filled(filled(held, first, capacity), second, capacity) == filled(
            held,
            first + second,
            capacity,
        ),
{
    assert(filled(filled(held, first, capacity), second, capacity) =~= filled(
        held,
        first + second,
        capacity,
    ));
}

/// A vector that is filled keeps what it held, and holds of what was added as much as there
/// is room for, in order.
pub proof fn filling_keeps_what_fits<T>(held: Seq<T>, added: Seq<T>, capacity: int)
    ensures
        capacity <= held.len() ==> filled(held, added, capacity) == held,
        held.len() + added.len() <= capacity ==> filled(held, added, capacity) == held + added,
        held.len() <= capacity <= held.len() + added.len() ==> filled(held, added, capacity).len()
            == capacity,
        held.len() <= capacity ==> (forall|i: int|
            0 <= i < filled(held, added, capacity).len() ==> #[trigger] filled(
                held,
                added,
                capacity,
            )[i] == (if i < held.len() {
                held[i]
            } else {
                added[i - held.len()]
            })),
{
}

} // verus!

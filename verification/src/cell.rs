//! The write-once cell that keeps the node's own address.
//!
//! The cell is `once_cell::sync::OnceCell`. Verus does not look inside it: what it
//! holds has a name, [`cell_value`], and the three functions below say what the
//! cell's own methods do to it. Their contracts are taken on trust.

use crate::address::PeerAddress;
use once_cell::sync::OnceCell;
use vstd::prelude::*;

verus! {

/// `once_cell::sync::OnceCell`, made known to Verus as a type whose inside it
/// does not see.
#[verifier::external_type_specification]
#[verifier::external_body]
#[verifier::reject_recursive_types(T)]
pub struct ExOnceCell<T>(OnceCell<T>);

/// The address that the cell holds, if it has been written: what
/// `OnceCell::get` finds in it.
pub uninterp spec fn cell_value(cell: OnceCell<PeerAddress>) -> Option<PeerAddress>;

/// `OnceCell::new`: a cell that has not been written.
#[verifier::external_body]
pub(crate) fn cell_new() -> (cell: OnceCell<PeerAddress>)
    ensures
        cell_value(cell) is None,
{
    OnceCell::new()
}

/// `OnceCell::get`: the value that the cell holds, or `None` while it is empty.
/// The cell is left as it was.
#[verifier::external_body]
pub(crate) fn cell_get(cell: &OnceCell<PeerAddress>) -> (value: Option<PeerAddress>)
    ensures
        value == cell_value(*cell),
{
    cell.get().copied()
}

/// `OnceCell::set`: writes an empty cell and returns `Ok`; leaves a written cell
/// as it was and hands the rejected value back in `Err`.
///
/// The method itself takes `&self`. The exclusive borrow here is what lets the
/// contract speak of the cell before and after the call.
#[verifier::external_body]
pub(crate) fn cell_set(
    cell: &mut OnceCell<PeerAddress>,
    value: PeerAddress,
) -> (result: Result<(), PeerAddress>)
    ensures
        result is Ok <==> cell_value(*old(cell)) is None,
        result matches Err(rejected) ==> rejected == value,
        cell_value(*final(cell)) == if cell_value(*old(cell)) is None {
            Some(value)
        } else {
            cell_value(*old(cell))
        },
    no_unwind
{
    cell.set(value)
}

} // verus!

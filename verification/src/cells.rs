//! `std::cell::RefCell`, as far as the library uses it: a cell is made, and it is borrowed
//! exclusively for a while.

use std::cell::RefCell;
use std::cell::RefMut;
use vstd::prelude::*;

verus! {

/// `std::cell::RefCell`, of which nothing but its existence is known here.
#[verifier::external_type_specification]
#[verifier::external_body]
#[verifier::reject_recursive_types(T)]
pub struct ExRefCell<T: ?Sized>(RefCell<T>);

/// `std::cell::RefMut`, of which nothing but its existence is known here.
#[verifier::external_type_specification]
#[verifier::external_body]
#[verifier::reject_recursive_types(T)]
pub struct ExRefMut<'b, T: ?Sized + 'b>(RefMut<'b, T>);

/// `std::cell::RefCell::new`. Nothing is claimed of the cell.
#[verifier::external_body]
pub(crate) fn cell_new<T>(value: T) -> (cell: RefCell<T>) {
    RefCell::new(value)
}

/// `std::cell::RefCell::try_borrow_mut`: the exclusive borrow of the cell, held until it is
/// dropped, or `None` while another borrow of the cell is held.
#[verifier::external_body]
pub(crate) fn cell_try_borrow_mut<'a, T>(cell: &'a RefCell<T>) -> (borrow: Option<RefMut<'a, T>>) {
    cell.try_borrow_mut().ok()
}

/// `DerefMut::deref_mut` of a `std::cell::RefMut`: what is in the borrowed cell. It
/// depends on every earlier access, so nothing is claimed of it.
#[verifier::external_body]
pub(crate) fn cell_content<'a, 'b, T>(borrow: &'a mut RefMut<'b, T>) -> (content: &'a mut T) {
    &mut **borrow
}

} // verus!

//! Shared, mutable handles to assets.

use vstd::prelude::*;

use std::cell::RefCell;
use std::rc::Rc;

verus! {

/// `std::cell::RefCell`, a cell whose contents can be borrowed mutably
/// through a shared reference.  Opaque here.
#[verifier::external_type_specification]
#[verifier::external_body]
#[verifier::reject_recursive_types(T)]
pub struct ExRefCell<T: ?Sized>(RefCell<T>);

/// `RefCell::new`: a cell holding `t`.  Nothing is stated of the cell,
/// which is opaque here.
#[verifier::external_body]
fn new_cell<T>(t: T) -> RefCell<T> {
    RefCell::new(t)
}

/// `RefCell::new`: a cell holding `t`.  The new cell is another cell than
/// `other`, which is alive while the new one is made; nothing is stated of
/// what either holds.
#[verifier::external_body]
fn new_cell_apart<T>(t: T, other: &RefCell<T>) -> (r: RefCell<T>)
    ensures
        r != *other,
{
    RefCell::new(t)
}

/// `<Rc<T> as Clone>::clone`: another pointer to the same allocation, so
/// the same value.
#[verifier::external_body]
pub(crate) fn clone_rc<T>(rc: &Rc<T>) -> (r: Rc<T>)
    ensures
        r == *rc,
{
    Rc::clone(rc)
}

/// A shared handle to a value that the holders of the handle can change.
/// Clones of a handle share the value.
#[verifier::reject_recursive_types(T)]
pub struct Handle<T>(Rc<RefCell<T>>);

impl<T> Handle<T> {
    /// The cell the handle points to.
    pub closed spec fn target(&self) -> RefCell<T> {
        *self.0
    }

    /// A handle to a new cell holding `t`.  Verus keeps no model of what a
    /// `RefCell` holds (its contents change through shared references), so
    /// nothing is stated of the new cell's contents.
    pub fn new(t: T) -> (h: Self) {
        Handle(Rc::new(new_cell(t)))
    }

    /// A handle to a new cell holding `t`, another cell than the one `other`
    /// points to.
    pub fn new_apart(t: T, other: &Handle<T>) -> (h: Self)
        ensures
            h != *other,
    {
        Handle(Rc::new(new_cell_apart(t, &*other.0)))
    }

    /// The cell the handle points to.
    pub fn cell(&self) -> (c: &RefCell<T>)
        ensures
            *c == self.target(),
    {
        &*self.0
    }

    /// Another handle to the same cell.
    pub fn share(&self) -> (h: Self)
        ensures
            h == *self,
    {
        Handle(clone_rc(&self.0))
    }
}

impl<T: Clone> Clone for Handle<T> {
    /// Another handle to the same cell.
    fn clone(&self) -> (h: Self)
        ensures
            h == *self,
    {
        self.share()
    }
}

impl<T> core::ops::Deref for Handle<T> {
    type Target = RefCell<T>;

    fn deref(&self) -> (c: &RefCell<T>)
        ensures
            *c == self.target(),
    {
        &*self.0
    }
}

} // verus!

//! Cons lists: a value and the rest of the list, or nothing.

use std::cell::RefCell;
use std::rc::Rc;
use vstd::prelude::*;

verus! {

/// `std::cell::RefCell`, declared so that a list can hold one. Nothing is
/// claimed of what a cell holds: the library only carries it.
#[verifier::external_type_specification]
#[verifier::external_body]
#[verifier::reject_recursive_types(T)]
pub struct ExRefCell<T: ?Sized>(RefCell<T>);

/// A list that owns its rest.
pub enum List<T> {
    Cons(T, Box<List<T>>),
    Nil,
}

/// A list whose rest can be shared by several lists.
pub enum RcList<T> {
    Cons(T, Rc<RcList<T>>),
    Nil,
}

/// A list whose rest is shared and whose values can be changed in place by
/// whoever holds the list.
#[verifier::reject_recursive_types(T)]
pub enum PowerList<T> {
    Cons(Rc<RefCell<T>>, Rc<PowerList<T>>),
    Nil,
}

/// The link from a cell of a list to the rest of the list: a
/// `std::cell::RefCell` around a shared pointer, so that whoever reaches the
/// cell can point it at another rest.
///
/// Verus does not accept a type that holds itself inside a `RefCell`, so the
/// cell stands in this struct, of which Verus sees the name and nothing else.
/// Nothing is claimed of what the cell holds: the library only hands it out.
#[verifier::external_body]
#[derive(Debug)]
pub struct Link {
    pub cell: RefCell<Rc<DangerList>>,
}

/// A list whose rest can be set anew after the list was built: it can be
/// made to run in a circle, and a circle is never given back.
#[derive(Debug)]
pub enum DangerList {
    Cons(i32, Link),
    Nil,
}

impl DangerList {
    /// The link to the rest of the list, which the empty list does not have.
    pub fn next(&self) -> (link: Option<&Link>)
        ensures
            link == match *self {
                DangerList::Cons(_, rest) => Some(&rest),
                DangerList::Nil => None,
            },
    {
        match self {
            DangerList::Cons(_, next) => Some(next),
            DangerList::Nil => None,
        }
    }
}

} // verus!

//! A write-once cell: empty until initialized, then readable forever.

use vstd::prelude::*;

verus! {

pub struct LazyInit<T> {
    /// The value, once initialization has happened.
    pub data: Option<T>,
}

impl<T> LazyInit<T> {
    pub open spec fn spec_is_init(self) -> bool {
        self.data is Some
    }

    /// An empty cell.
    pub fn new() -> (r: LazyInit<T>)
        ensures
            !r.spec_is_init(),
    {
        LazyInit { data: None }
    }

    /// Initialize the cell. A cell is initialized at most once.
    pub fn init_by(&mut self, data: T)
        requires
            !old(self).spec_is_init(),
        ensures
            final(self).data == Some(data),
    {
        self.data = Some(data);
    }

    pub fn is_init(&self) -> (r: bool)
        ensures
            r == self.spec_is_init(),
    {
        self.data.is_some()
    }

    pub fn try_get(&self) -> (r: Option<&T>)
        ensures
            self.spec_is_init() ==> (r matches Some(v) && *v == self.data->0),
            !self.spec_is_init() ==> r is None,
    {
        self.data.as_ref()
    }

    /// Read the value; initialization must have happened.
    pub fn get(&self) -> (r: &T)
        requires
            self.spec_is_init(),
        ensures
            *r == self.data->0,
    {
        self.data.as_ref().unwrap()
    }
}

} // verus!

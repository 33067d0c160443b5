//! Values that are used again.

use crate::error::InternalFailure;
use crate::links::{send_report, SendReport};
use vstd::prelude::*;

verus! {

/// What can be emptied to be used again.
pub trait Recycle {
    /// Empties the value.
    fn recycle(&mut self);
}

impl<T> Recycle for Vec<T> {
    /// Takes out all items.
    fn recycle(&mut self)
        ensures
            final(self)@ == Seq::<T>::empty(),
    {
        self.clear();
    }
}

/// A value that goes back to where it came from once it is no longer used.
#[derive(Debug)]
pub struct BufferLease<T> where T: Recycle {
    value: Option<T>,
}

impl<T> BufferLease<T> where T: Recycle {
    /// The value, while it is still there.
    pub closed spec fn held(self) -> Option<T> {
        self.value
    }

    /// A lease on the value.
    pub fn new(value: T) -> (r: Self)
        ensures
            r.held() == Some(value),
    {
        BufferLease { value: Some(value) }
    }

    /// The value, which does not go back.
    pub fn into_inner(self) -> (r: T)
        requires
            self.held() is Some,
        ensures
            self.held() == Some(r),
    {
        match self.value {
            Some(value) => value,
            None => vstd::pervasive::unreached(),
        }
    }

    /// The value.
    pub fn get(&self) -> (r: &T)
        requires
            self.held() is Some,
        ensures
            self.held() == Some(*r),
    {
        match &self.value {
            Some(value) => value,
            None => vstd::pervasive::unreached(),
        }
    }

    /// The value, to be changed.
    pub fn get_mut(&mut self) -> (r: &mut T)
        requires
            old(self).held() is Some,
        ensures
            old(self).held() == Some(*r),
            final(self).held() == Some(*final(r)),
    {
        match &mut self.value {
            Some(value) => value,
            None => vstd::pervasive::unreached(),
        }
    }

    /// Takes the value out, for good.
    pub fn take(&mut self) -> (r: Option<T>)
        ensures
            r == old(self).held(),
            final(self).held() is None,
    {
        self.value.take()
    }

    /// Takes the value out, emptied, for it to go back. Where it was taken out before, nothing goes
    /// back.
    pub fn take_recycled(&mut self) -> (r: Option<T>)
        ensures
            final(self).held() is None,
            match old(self).held() {
                Some(value) => r is Some && exists|place: &mut T|
                    *place == value && *final(place) == r->0 && #[trigger] call_ensures(
                        T::recycle,
                        (place,),
                        (),
                    ),
                None => r is None,
            },
    {
        match self.value.take() {
            None => None,
            Some(value) => {
                let mut value: T = value;
                value.recycle();
                Some(value)
            },
        }
    }

    /// What is made of the attempt to give the value back.
    pub fn return_report(returned: bool, shutdown: bool, abort: bool) -> (r: SendReport)
        ensures
            r == if returned {
                SendReport::Counted
            } else if shutdown || abort {
                SendReport::Dropped
            } else {
                SendReport::Fatal
            },
    {
        send_report(returned, shutdown, abort)
    }

    /// The failure of a value that could not go back while the pipeline goes on.
    pub fn internal_failure<M>() -> (r: InternalFailure<M>)
        ensures
            r matches InternalFailure::Internal { message } && message@
                == "recycle channel closed while returning BufferLease"@,
    {
        InternalFailure::internal(
            "recycle channel closed while returning BufferLease".to_owned(),
        )
    }
}

/// What a node can give out that is a lease on a value of type `T`.
pub trait BufferLeaseOutput<T> {

}

impl<T> BufferLeaseOutput<T> for BufferLease<T> where T: Recycle + Send + 'static {

}

} // verus!

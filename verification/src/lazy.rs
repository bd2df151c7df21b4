//! Values that are computed when they are first asked for.

use vstd::prelude::*;

verus! {

/// A value that is computed by its initializer the first time it is asked
/// for, and kept from then on.
pub struct LazyInit<T, F> {
    init: Option<F>,
    value: Option<T>,
}

impl<T, F: FnOnce() -> T> LazyInit<T, F> {
    /// Whether the value is still to be computed or is there, and in the
    /// first case the initializer is there and can be called.
    pub closed spec fn wf(&self) -> bool {
        match self.value {
            Some(_) => true,
            None => self.init matches Some(init) && call_requires(init, ()),
        }
    }

    /// The value, once it has been computed.
    pub closed spec fn value(&self) -> Option<T> {
        self.value
    }

    /// Whether `value` is one that the initializer may give. Once the value
    /// has been computed, nothing more is known of the initializer.
    pub closed spec fn may_give(&self, value: T) -> bool {
        self.init matches Some(init) && call_ensures(init, (), value)
    }

    /// Binds an initializer. Nothing is computed yet.
    pub fn new(init: F) -> (lazy: Self)
        requires
            call_requires(init, ()),
        ensures
            lazy.wf(),
            lazy.value() is None,
            forall|value: T| lazy.may_give(value) == call_ensures(init, (), value),
    {
        LazyInit { init: Some(init), value: None }
    }

    /// The value: computed by the initializer at the first call, the same
    /// one at every later call.
    pub fn get(&mut self) -> (value: &T)
        requires
            old(self).wf(),
        ensures
            final(self).wf(),
            final(self).value() == Some(*value),
            match old(self).value() {
                Some(kept) => *value == kept,
                None => old(self).may_give(*value),
            },
    {
        if self.value.is_none() {
            let init = self.init.take().unwrap();
            self.value = Some(init());
        }
        self.value.as_ref().unwrap()
    }
}

} // verus!

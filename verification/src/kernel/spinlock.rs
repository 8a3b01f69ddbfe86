use vstd::prelude::*;

verus! {

/// A value with a lock flag. `lock` takes the lock when it is free; the guard that
/// it returns gives access to the value and frees the lock when released.
pub struct Spinlock<T> {
    inner: T,
    locked: bool,
}

impl<T> Spinlock<T> {
    pub closed spec fn value(&self) -> T {
        self.inner
    }

    pub closed spec fn is_locked(&self) -> bool {
        self.locked
    }

    /// An unlocked lock around `inner`.
    pub fn new(inner: T) -> (ret: Self)
        ensures
            ret.value() == inner,
            !ret.is_locked(),
    {
        Self { inner, locked: false }
    }

    /// Tries to take the lock: succeeds, and marks the lock taken, exactly when it
    /// was free.
    pub fn try_lock(&mut self) -> (ret: bool)
        ensures
            ret == !old(self).is_locked(),
            final(self).is_locked(),
            final(self).value() == old(self).value(),
    {
        if self.locked {
            false
        } else {
            self.locked = true;
            true
        }
    }

    /// Takes the lock, which must be free, and returns the guard.
    pub fn lock(&mut self) -> (ret: SpinlockGuard<'_, T>)
        requires
            !old(self).is_locked(),
        ensures
            ret.parent_value() == old(self).value(),
    {
        self.locked = true;
        SpinlockGuard { parent: self }
    }

    /// Frees the lock.
    pub fn unlock(&mut self)
        ensures
            !final(self).is_locked(),
            final(self).value() == old(self).value(),
    {
        self.locked = false;
    }
}

/// Access to a locked value.
pub struct SpinlockGuard<'a, T> {
    parent: &'a mut Spinlock<T>,
}

impl<'a, T> SpinlockGuard<'a, T> {
    pub closed spec fn parent_value(&self) -> T {
        self.parent.inner
    }

    /// The locked value.
    pub fn get(&self) -> (ret: &T)
        ensures
            *ret == self.parent_value(),
    {
        &self.parent.inner
    }
}

} // verus!

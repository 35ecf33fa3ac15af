use vstd::prelude::*;
use vstd::std_specs::cmp::PartialEqSpec;

verus! {

/// The values a display went through, oldest first, without immediate
/// repeats: a value is kept only when it differs from the one kept last.
#[derive(Debug, Clone)]
pub struct History<T> {
    pub stored: Vec<T>,
}

impl<T: Clone + PartialEq> History<T> {
    pub fn new() -> (r: History<T>)
        ensures
            r.stored@ == Seq::<T>::empty(),
    {
        History { stored: Vec::new() }
    }

    /// A copy of the value kept last.
    pub fn last(&self) -> (r: Option<T>)
        ensures
            match r {
                None => self.stored@.len() == 0,
                Some(v) => self.stored@.len() > 0 && cloned(self.stored@.last(), v),
            },
    {
        let n = self.stored.len();
        if n == 0 {
            None
        } else {
            Some(self.stored[n - 1].clone())
        }
    }

    /// Whether `val` would be kept: the history is empty or its last value
    /// differs from `val`.
    pub fn is_new(&self, val: &T) -> (r: bool)
        ensures
            self.stored@.len() == 0 ==> r,
            T::obeys_eq_spec() ==> r == (self.stored@.len() == 0 || !self.stored@.last().eq_spec(
                val,
            )),
    {
        let n = self.stored.len();
        n == 0 || self.stored[n - 1] != *val
    }

    /// Keeps a copy of `val` when it differs from the value kept last.
    pub fn update(&mut self, val: &T)
        ensures
            final(self).stored@.len() == old(self).stored@.len() || final(self).stored@.len()
                == old(self).stored@.len() + 1,
            final(self).stored@.subrange(0, old(self).stored@.len() as int) == old(self).stored@,
            final(self).stored@.len() == old(self).stored@.len() + 1 ==> cloned(
                *val,
                final(self).stored@.last(),
            ),
            old(self).stored@.len() == 0 ==> final(self).stored@.len() == 1,
            T::obeys_eq_spec() && old(self).stored@.len() > 0 ==> (final(self).stored@.len()
                == old(self).stored@.len() + 1 <==> !old(self).stored@.last().eq_spec(val)),
    {
        if self.is_new(val) {
            self.stored.push(val.clone());
        }
        assert(final(self).stored@.subrange(0, old(self).stored@.len() as int) =~= old(self).stored@);
    }
}

} // verus!

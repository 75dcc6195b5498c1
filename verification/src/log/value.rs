use vstd::prelude::*;

verus! {

/// A borrowed field value, on which the conversion into a JSON value is chosen by what
/// the value's type offers: serialization, then `Display`, then `Debug`.
pub struct Wrapper<'a, T>(pub &'a T);

impl<'a, T> Clone for Wrapper<'a, T> {
    fn clone(&self) -> (r: Self)
        ensures
            r.0 == self.0,
    {
        Wrapper(self.0)
    }
}

impl<'a, T> Copy for Wrapper<'a, T> {

}

} // verus!

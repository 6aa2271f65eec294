//! The in-memory column: a dense sequence of fixed-width values together with
//! an optional validity indicator, one flag per slot (true = present).

use vstd::prelude::*;
use crate::native::NativeType;

verus! {

/// One typed column of `N` logical slots. `values` holds one raw value per
/// slot, null slots included (their raw value carries no meaning); `validity`
/// holds one flag per slot, or is absent when the column admits no nulls.
pub struct PrimitiveArray<T> {
    pub values: Vec<T>,
    pub validity: Option<Vec<bool>>,
}

impl<T: NativeType> PrimitiveArray<T> {
    /// Well-formedness: a validity indicator, when present, has exactly one
    /// flag per slot.
    pub open spec fn wf(self) -> bool {
        match self.validity {
            Some(v) => v@.len() == self.values@.len(),
            None => true,
        }
    }

    /// Whether slot `i` holds a present value.
    pub open spec fn present(self, i: int) -> bool {
        match self.validity {
            Some(v) => v@[i],
            None => true,
        }
    }

    /// The logical content of slot `i`.
    pub open spec fn slot(self, i: int) -> Option<T> {
        if self.present(i) {
            Some(self.values@[i])
        } else {
            None
        }
    }

    /// The logical content of the column: one `Option` per slot.
    pub open spec fn opts(self) -> Seq<Option<T>> {
        Seq::new(self.values@.len(), |i: int| self.slot(i))
    }

    /// A column from raw values and an optional validity indicator; refused
    /// when the two lengths disagree.
    pub fn new(values: Vec<T>, validity: Option<Vec<bool>>) -> (r: Option<Self>)
        ensures
            match r {
                Some(a) => {
                    &&& a.wf()
                    &&& a.values == values
                    &&& a.validity == validity
                    &&& match validity {
                        Some(v) => v@.len() == values@.len(),
                        None => true,
                    }
                },
                None => (match validity {
                    Some(v) => v@.len() != values@.len(),
                    None => false,
                }),
            },
    {
        let ok = match &validity {
            Some(v) => v.len() == values.len(),
            None => true,
        };
        if ok {
            Some(PrimitiveArray { values, validity })
        } else {
            None
        }
    }

    /// A column from one `Option` per slot; null slots get `filler` as their
    /// (meaningless) raw value, and the validity indicator is always built.
    pub fn from_options(opts: &Vec<Option<T>>, filler: T) -> (r: Self)
        ensures
            r.wf(),
            r.validity is Some,
            r.opts() == opts@,
    {
        let n = opts.len();
        let mut values: Vec<T> = Vec::new();
        let mut validity: Vec<bool> = Vec::new();
        let mut i: usize = 0;
        while i < n
            invariant
                i <= n,
                n == opts@.len(),
                values@.len() == i,
                validity@.len() == i,
                forall|j: int| #![auto] 0 <= j < i ==> validity@[j] == (opts@[j] is Some),
                forall|j: int| #![auto] 0 <= j < i && opts@[j] is Some
                    ==> opts@[j] == Some(values@[j]),
            decreases n - i,
        {
            match opts[i] {
                Some(v) => {
                    values.push(v);
                    validity.push(true);
                },
                None => {
                    values.push(filler);
                    validity.push(false);
                },
            }
            i += 1;
        }
        let r = PrimitiveArray { values, validity: Some(validity) };
        proof {
            assert(r.opts() =~= opts@);
        }
        r
    }

    /// Total slot count, nulls included.
    pub fn len(&self) -> (n: usize)
        ensures
            n == self.values@.len(),
    {
        self.values.len()
    }
}

} // verus!

//! Looking up a child of a value: by key in an object, by position in an
//! array.
use vstd::prelude::*;
use crate::value::{
    entries_get, entries_put, lemma_values_view_index, values_view, Value, ValueView,
};

verus! {

/// A key that selects a child of a value. Implemented for text keys, which
/// select an object's entry, and for positions, which select an array's
/// element.
pub trait Index {
    /// The child of `v` that this key selects, if any.
    spec fn select(&self, v: ValueView) -> Option<ValueView>;

    /// The child of `v` that this key selects, if any.
    fn index_into<'v>(&self, v: &'v Value) -> (r: Option<&'v Value>)
        ensures
            r matches Some(x) ==> self.select(v@) == Some(x@),
            r is None ==> self.select(v@) is None,
    ;

    /// `v` with the child that this key selects replaced by `child`.
    spec fn put(&self, v: ValueView, child: ValueView) -> ValueView;

    /// The child of `v` that this key selects, mutably: what is written
    /// through it becomes that child.
    fn index_into_mut<'v>(&self, v: &'v mut Value) -> (r: Option<&'v mut Value>)
        ensures
            r matches Some(x) ==> self.select(old(v)@) == Some((*x)@) && final(v)@ == self.put(
                old(v)@,
                (*final(x))@,
            ),
            r is None ==> self.select(old(v)@) is None && *final(v) == *old(v),
    ;
}

impl<'a> Index for &'a str {
    open spec fn select(&self, v: ValueView) -> Option<ValueView> {
        match v {
            ValueView::Object(es) => entries_get(es, self@),
            _ => None,
        }
    }

    fn index_into<'v>(&self, v: &'v Value) -> (r: Option<&'v Value>) {
        match v {
            Value::Object(o) => o.get(*self),
            _ => None,
        }
    }

    open spec fn put(&self, v: ValueView, child: ValueView) -> ValueView {
        match v {
            ValueView::Object(es) => ValueView::Object(entries_put(es, self@, child)),
            _ => v,
        }
    }

    fn index_into_mut<'v>(&self, v: &'v mut Value) -> (r: Option<&'v mut Value>) {
        match v {
            Value::Object(o) => o.get_mut(*self),
            _ => None,
        }
    }
}

impl Index for usize {
    open spec fn select(&self, v: ValueView) -> Option<ValueView> {
        match v {
            ValueView::Array(s) => if *self < s.len() {
                Some(s[*self as int])
            } else {
                None
            },
            _ => None,
        }
    }

    open spec fn put(&self, v: ValueView, child: ValueView) -> ValueView {
        match v {
            ValueView::Array(s) => if *self < s.len() {
                ValueView::Array(s.update(*self as int, child))
            } else {
                v
            },
            _ => v,
        }
    }

    fn index_into_mut<'v>(&self, v: &'v mut Value) -> (r: Option<&'v mut Value>) {
        match v {
            Value::Array(a) => {
                proof {
                    lemma_values_view_index(a@);
                }
                if *self < a.len() {
                    proof {
                        let i = *self as int;
                        assert forall|c: Value|
                            #![trigger values_view(a@.update(i, c))]
                            #![trigger values_view(a@).update(i, c@)]
                            values_view(a@.update(i, c)) == values_view(a@).update(i, c@) by {
                            lemma_values_view_index(a@.update(i, c));
                            assert(values_view(a@.update(i, c)) =~= values_view(a@).update(i, c@));
                        }
                    }
                    Some(&mut a[*self])
                } else {
                    None
                }
            },
            _ => None,
        }
    }

    fn index_into<'v>(&self, v: &'v Value) -> (r: Option<&'v Value>) {
        match v {
            Value::Array(a) => {
                proof {
                    lemma_values_view_index(a@);
                }
                if *self < a.len() {
                    Some(&a[*self])
                } else {
                    None
                }
            },
            _ => None,
        }
    }
}

} // verus!

//! Numbers of three kinds, non-negative integers, negative integers and
//! finite floats, with a total order across the kinds.
//!
//! A finite float is held as its scientific rendering, the text that
//! `format!("{:e}", x)` writes for it (`1.012e1`, `-3.75e-2`, `0e0`). That
//! text is what the order compares floats by, and it names the float
//! exactly: the rendering is the shortest that reads back to the same value.
use vstd::prelude::*;
use std::cmp::Ordering;
use crate::text::{
    compare_text, text_order, lemma_bytes_order_equal, lemma_bytes_order_reverse,
    lemma_bytes_order_transitive, lemma_encoding_injective,
};
use vstd::utf8::encode_utf8;

verus! {

/// What a `Number` stands for.
pub enum NumberView {
    /// A non-negative integer.
    PosInt(int),
    /// A negative integer.
    NegInt(int),
    /// A finite float, by its scientific rendering.
    Float(Seq<char>),
}

/// A number: a non-negative integer, a negative integer or a finite float.
#[derive(Debug)]
pub struct Number {
    n: N,
}

#[derive(Clone, Debug)]
enum N {
    PosInt(u64),
    /// Always less than zero.
    NegInt(i64),
    /// Always the scientific rendering of a finite float.
    Float(String),
}

/// The states of the recognizer of scientific renderings
/// `-?D(.D+)?e-?D+`, where `D` is a decimal digit.
pub open spec fn sci_step(state: u8, b: u8) -> u8 {
    let digit = 48 <= b <= 57;
    if state == 0 && b == 45 { 1 }
    else if (state == 0 || state == 1) && digit { 2 }
    else if state == 2 && b == 46 { 3 }
    else if (state == 2 || state == 4) && b == 101 { 5 }
    else if (state == 3 || state == 4) && digit { 4 }
    else if state == 5 && b == 45 { 6 }
    else if (state == 5 || state == 6 || state == 7) && digit { 7 }
    else { 8 }
}

/// The state the recognizer reaches from `state` over the bytes `b`.
pub open spec fn sci_run(state: u8, b: Seq<u8>) -> u8
    decreases b.len(),
{
    if b.len() == 0 {
        state
    } else {
        sci_run(sci_step(state, b[0]), b.drop_first())
    }
}

/// Whether `s` is a scientific rendering of a finite float: an optional
/// minus, one digit, optionally a point and more digits, then `e`, an
/// optional minus and at least one digit. `inf` and `NaN` are not.
pub open spec fn is_sci_text(s: Seq<char>) -> bool {
    sci_run(0, encode_utf8(s)) == 7
}

/// The order of two integers.
pub open spec fn int_order(a: int, b: int) -> Ordering {
    if a < b {
        Ordering::Less
    } else if a > b {
        Ordering::Greater
    } else {
        Ordering::Equal
    }
}

/// The kind's place in the order: non-negative integers above negative
/// integers above floats.
pub open spec fn kind_rank(v: NumberView) -> int {
    match v {
        NumberView::PosInt(_) => 2,
        NumberView::NegInt(_) => 1,
        NumberView::Float(_) => 0,
    }
}

/// The total order of numbers: first by kind, then by value within the
/// integer kinds and by scientific text among floats.
pub open spec fn number_order(a: NumberView, b: NumberView) -> Ordering {
    if kind_rank(a) != kind_rank(b) {
        int_order(kind_rank(a), kind_rank(b))
    } else {
        match (a, b) {
            (NumberView::PosInt(x), NumberView::PosInt(y)) => int_order(x, y),
            (NumberView::NegInt(x), NumberView::NegInt(y)) => int_order(x, y),
            (NumberView::Float(s), NumberView::Float(t)) => text_order(s, t),
            _ => Ordering::Equal,
        }
    }
}

impl View for Number {
    type V = NumberView;

    closed spec fn view(&self) -> NumberView {
        match self.n {
            N::PosInt(u) => NumberView::PosInt(u as int),
            N::NegInt(i) => NumberView::NegInt(i as int),
            N::Float(s) => NumberView::Float(s@),
        }
    }
}

impl NumberView {
    /// A number that a `Number` can hold: negative integers below zero and
    /// within `i64`, non-negative ones within `u64`, floats well rendered.
    pub open spec fn wf(self) -> bool {
        match self {
            NumberView::PosInt(u) => 0 <= u <= u64::MAX,
            NumberView::NegInt(i) => i64::MIN <= i < 0,
            NumberView::Float(s) => is_sci_text(s),
        }
    }
}

fn is_sci_bytes(b: &[u8]) -> (r: bool)
    ensures
        r == (sci_run(0, b@) == 7),
{
    let mut state: u8 = 0;
    let mut i: usize = 0;
    proof {
        assert(b@.subrange(0, b@.len() as int) =~= b@);
    }
    while i < b.len()
        invariant
            i <= b@.len(),
            sci_run(0, b@) == sci_run(state, b@.subrange(i as int, b@.len() as int)),
        decreases b@.len() - i,
    {
        let c = b[i];
        let digit = 48 <= c && c <= 57;
        state = if state == 0 && c == 45 { 1 }
            else if (state == 0 || state == 1) && digit { 2 }
            else if state == 2 && c == 46 { 3 }
            else if (state == 2 || state == 4) && c == 101 { 5 }
            else if (state == 3 || state == 4) && digit { 4 }
            else if state == 5 && c == 45 { 6 }
            else if (state == 5 || state == 6 || state == 7) && digit { 7 }
            else { 8 };
        assert(b@.subrange(i as int, b@.len() as int).drop_first() =~= b@.subrange(
            i + 1,
            b@.len() as int,
        ));
        i = i + 1;
    }
    state == 7
}

impl Number {
    #[verifier::type_invariant]
    spec fn inv(&self) -> bool {
        self@.wf()
    }

    /// Whether the number is an integer within `i64`.
    pub fn is_i64(&self) -> (r: bool)
        ensures
            r == match self@ {
                NumberView::PosInt(u) => u <= i64::MAX,
                NumberView::NegInt(_) => true,
                NumberView::Float(_) => false,
            },
    {
        match self.n {
            N::PosInt(v) => v <= i64::MAX as u64,
            N::NegInt(_) => true,
            N::Float(_) => false,
        }
    }

    /// Whether the number is a non-negative integer.
    pub fn is_u64(&self) -> (r: bool)
        ensures
            r == self@ is PosInt,
    {
        match self.n {
            N::PosInt(_) => true,
            _ => false,
        }
    }

    /// Whether the number is a finite float.
    pub fn is_f64(&self) -> (r: bool)
        ensures
            r == self@ is Float,
    {
        match self.n {
            N::Float(_) => true,
            _ => false,
        }
    }

    /// The number as an `i64`, where it is an integer within `i64`.
    pub fn as_i64(&self) -> (r: Option<i64>)
        ensures
            match self@ {
                NumberView::PosInt(u) => if u <= i64::MAX {
                    r == Some(u as i64)
                } else {
                    r is None
                },
                NumberView::NegInt(i) => r == Some(i as i64),
                NumberView::Float(_) => r is None,
            },
    {
        match self.n {
            N::PosInt(v) => if v <= i64::MAX as u64 {
                Some(v as i64)
            } else {
                None
            },
            N::NegInt(v) => Some(v),
            N::Float(_) => None,
        }
    }

    /// The number as a `u64`, where it is a non-negative integer.
    pub fn as_u64(&self) -> (r: Option<u64>)
        ensures
            match self@ {
                NumberView::PosInt(u) => r == Some(u as u64),
                _ => r is None,
            },
    {
        match self.n {
            N::PosInt(v) => Some(v),
            _ => None,
        }
    }

    /// The scientific rendering of the number, where it is a float.
    pub fn as_float_text(&self) -> (r: Option<&str>)
        ensures
            match self@ {
                NumberView::Float(s) => r matches Some(t) && t@ == s,
                _ => r is None,
            },
    {
        match &self.n {
            N::Float(s) => Some(s.as_str()),
            _ => None,
        }
    }

    /// The float whose scientific rendering is `text`; none where `text` is
    /// no such rendering (as for an infinite or NaN float, `inf` or `NaN`).
    pub fn from_float_text(text: String) -> (r: Option<Number>)
        ensures
            is_sci_text(text@) ==> (r matches Some(n) && n@ == NumberView::Float(text@)),
            !is_sci_text(text@) ==> r is None,
    {
        if is_sci_bytes(text.as_str().as_bytes()) {
            Some(Number { n: N::Float(text) })
        } else {
            None
        }
    }

    /// The non-negative integer `u`.
    pub fn from_u64(u: u64) -> (r: Number)
        ensures
            r@ == NumberView::PosInt(u as int),
    {
        Number { n: N::PosInt(u) }
    }

    /// The integer `i`, negative or not.
    pub fn from_i64(i: i64) -> (r: Number)
        ensures
            i < 0 ==> r@ == NumberView::NegInt(i as int),
            i >= 0 ==> r@ == NumberView::PosInt(i as int),
    {
        if i < 0 {
            Number { n: N::NegInt(i) }
        } else {
            Number { n: N::PosInt(i as u64) }
        }
    }

    /// Compares two numbers by the total order of numbers.
    pub fn cmp(&self, other: &Number) -> (r: Ordering)
        ensures
            r == number_order(self@, other@),
    {
        match (&self.n, &other.n) {
            (N::PosInt(a), N::PosInt(b)) => if *a < *b {
                Ordering::Less
            } else if *a > *b {
                Ordering::Greater
            } else {
                Ordering::Equal
            },
            (N::NegInt(a), N::NegInt(b)) => if *a < *b {
                Ordering::Less
            } else if *a > *b {
                Ordering::Greater
            } else {
                Ordering::Equal
            },
            (N::Float(a), N::Float(b)) => compare_text(a.as_str(), b.as_str()),
            (N::PosInt(_), _) => Ordering::Greater,
            (_, N::PosInt(_)) => Ordering::Less,
            (N::NegInt(_), _) => Ordering::Greater,
            (_, N::NegInt(_)) => Ordering::Less,
        }
    }
}

/// Two numbers are equal in the order exactly when they are the same number.
pub proof fn lemma_order_equal_iff_same(a: NumberView, b: NumberView)
    ensures
        (number_order(a, b) == Ordering::Equal) <==> (a == b),
{
    if let (NumberView::Float(s), NumberView::Float(t)) = (a, b) {
        lemma_bytes_order_equal(encode_utf8(s), encode_utf8(t));
        lemma_encoding_injective(s, t);
    }
}

impl Clone for Number {
    fn clone(&self) -> (r: Number)
        ensures
            r@ == self@,
    {
        proof {
            use_type_invariant(self);
        }
        let n = match &self.n {
            N::PosInt(u) => N::PosInt(*u),
            N::NegInt(i) => N::NegInt(*i),
            N::Float(s) => N::Float(s.clone()),
        };
        Number { n }
    }
}

/// The order of numbers puts kind before magnitude: every non-negative
/// integer is above every negative integer and every float, whatever their
/// size, and every negative integer is above every float. Within a kind,
/// integers compare by value and floats by their scientific text.
pub proof fn lemma_order_by_kind(a: Number, b: Number)
    ensures
        a@ is PosInt && !(b@ is PosInt) ==> number_order(a@, b@) == Ordering::Greater,
        a@ is NegInt && b@ is Float ==> number_order(a@, b@) == Ordering::Greater,
        a@ is Float && !(b@ is Float) ==> number_order(a@, b@) == Ordering::Less,
        a@ matches NumberView::PosInt(x) ==> (b@ matches NumberView::PosInt(y) ==> number_order(
            a@,
            b@,
        ) == int_order(x, y)),
        a@ matches NumberView::NegInt(x) ==> (b@ matches NumberView::NegInt(y) ==> number_order(
            a@,
            b@,
        ) == int_order(x, y)),
        a@ matches NumberView::Float(s) ==> (b@ matches NumberView::Float(t) ==> number_order(
            a@,
            b@,
        ) == text_order(s, t)),
{
}

/// The order of numbers is a total order: `Equal` only on the same number,
/// reversing the arguments reverses the result, and `Less` is transitive.
pub proof fn lemma_order_is_total(a: Number, b: Number, c: Number)
    ensures
        (number_order(a@, b@) == Ordering::Equal) <==> (a@ == b@),
        (number_order(a@, b@) == Ordering::Less) <==> (number_order(b@, a@) == Ordering::Greater),
        number_order(a@, b@) == Ordering::Less && number_order(b@, c@) == Ordering::Less
            ==> number_order(a@, c@) == Ordering::Less,
{
    lemma_order_equal_iff_same(a@, b@);
    if let (NumberView::Float(s), NumberView::Float(t)) = (a@, b@) {
        lemma_bytes_order_reverse(encode_utf8(s), encode_utf8(t));
    }
    if let (NumberView::Float(s), NumberView::Float(t), NumberView::Float(u)) = (a@, b@, c@) {
        if number_order(a@, b@) == Ordering::Less && number_order(b@, c@) == Ordering::Less {
            lemma_bytes_order_transitive(encode_utf8(s), encode_utf8(t), encode_utf8(u));
        }
    }
}

impl PartialEq for Number {
    fn eq(&self, other: &Number) -> (r: bool) {
        proof {
            lemma_order_equal_iff_same(self@, other@);
        }
        match self.cmp(other) {
            Ordering::Equal => true,
            _ => false,
        }
    }
}

impl vstd::std_specs::cmp::PartialEqSpecImpl for Number {
    open spec fn obeys_eq_spec() -> bool {
        true
    }

    open spec fn eq_spec(&self, other: &Number) -> bool {
        self@ == other@
    }
}

impl PartialOrd for Number {
    fn partial_cmp(&self, other: &Number) -> (r: Option<Ordering>) {
        Some(self.cmp(other))
    }
}

impl vstd::std_specs::cmp::PartialOrdSpecImpl for Number {
    open spec fn obeys_partial_cmp_spec() -> bool {
        true
    }

    open spec fn partial_cmp_spec(&self, other: &Number) -> Option<Ordering> {
        Some(number_order(self@, other@))
    }
}

impl From<u8> for Number {
    fn from(u: u8) -> (r: Number)
        ensures
            r@ == NumberView::PosInt(u as int),
    {
        Number::from_u64(u as u64)
    }
}

impl vstd::std_specs::convert::FromSpecImpl<u8> for Number {
    open spec fn obeys_from_spec() -> bool {
        true
    }

    closed spec fn from_spec(u: u8) -> Number {
        Number { n: N::PosInt(u as u64) }
    }
}

impl From<u16> for Number {
    fn from(u: u16) -> (r: Number)
        ensures
            r@ == NumberView::PosInt(u as int),
    {
        Number::from_u64(u as u64)
    }
}

impl vstd::std_specs::convert::FromSpecImpl<u16> for Number {
    open spec fn obeys_from_spec() -> bool {
        true
    }

    closed spec fn from_spec(u: u16) -> Number {
        Number { n: N::PosInt(u as u64) }
    }
}

impl From<u32> for Number {
    fn from(u: u32) -> (r: Number)
        ensures
            r@ == NumberView::PosInt(u as int),
    {
        Number::from_u64(u as u64)
    }
}

impl vstd::std_specs::convert::FromSpecImpl<u32> for Number {
    open spec fn obeys_from_spec() -> bool {
        true
    }

    closed spec fn from_spec(u: u32) -> Number {
        Number { n: N::PosInt(u as u64) }
    }
}

impl From<u64> for Number {
    fn from(u: u64) -> (r: Number)
        ensures
            r@ == NumberView::PosInt(u as int),
    {
        Number::from_u64(u as u64)
    }
}

impl vstd::std_specs::convert::FromSpecImpl<u64> for Number {
    open spec fn obeys_from_spec() -> bool {
        true
    }

    closed spec fn from_spec(u: u64) -> Number {
        Number { n: N::PosInt(u as u64) }
    }
}

impl From<usize> for Number {
    fn from(u: usize) -> (r: Number)
        ensures
            r@ == NumberView::PosInt(u as int),
    {
        Number::from_u64(u as u64)
    }
}

impl vstd::std_specs::convert::FromSpecImpl<usize> for Number {
    open spec fn obeys_from_spec() -> bool {
        true
    }

    closed spec fn from_spec(u: usize) -> Number {
        Number { n: N::PosInt(u as u64) }
    }
}

impl From<i8> for Number {
    fn from(i: i8) -> (r: Number)
        ensures
            i < 0 ==> r@ == NumberView::NegInt(i as int),
            i >= 0 ==> r@ == NumberView::PosInt(i as int),
    {
        Number::from_i64(i as i64)
    }
}

impl vstd::std_specs::convert::FromSpecImpl<i8> for Number {
    open spec fn obeys_from_spec() -> bool {
        true
    }

    closed spec fn from_spec(i: i8) -> Number {
        if i < 0 {
            Number { n: N::NegInt(i as i64) }
        } else {
            Number { n: N::PosInt(i as u64) }
        }
    }
}

impl From<i16> for Number {
    fn from(i: i16) -> (r: Number)
        ensures
            i < 0 ==> r@ == NumberView::NegInt(i as int),
            i >= 0 ==> r@ == NumberView::PosInt(i as int),
    {
        Number::from_i64(i as i64)
    }
}

impl vstd::std_specs::convert::FromSpecImpl<i16> for Number {
    open spec fn obeys_from_spec() -> bool {
        true
    }

    closed spec fn from_spec(i: i16) -> Number {
        if i < 0 {
            Number { n: N::NegInt(i as i64) }
        } else {
            Number { n: N::PosInt(i as u64) }
        }
    }
}

impl From<i32> for Number {
    fn from(i: i32) -> (r: Number)
        ensures
            i < 0 ==> r@ == NumberView::NegInt(i as int),
            i >= 0 ==> r@ == NumberView::PosInt(i as int),
    {
        Number::from_i64(i as i64)
    }
}

impl vstd::std_specs::convert::FromSpecImpl<i32> for Number {
    open spec fn obeys_from_spec() -> bool {
        true
    }

    closed spec fn from_spec(i: i32) -> Number {
        if i < 0 {
            Number { n: N::NegInt(i as i64) }
        } else {
            Number { n: N::PosInt(i as u64) }
        }
    }
}

impl From<i64> for Number {
    fn from(i: i64) -> (r: Number)
        ensures
            i < 0 ==> r@ == NumberView::NegInt(i as int),
            i >= 0 ==> r@ == NumberView::PosInt(i as int),
    {
        Number::from_i64(i as i64)
    }
}

impl vstd::std_specs::convert::FromSpecImpl<i64> for Number {
    open spec fn obeys_from_spec() -> bool {
        true
    }

    closed spec fn from_spec(i: i64) -> Number {
        if i < 0 {
            Number { n: N::NegInt(i as i64) }
        } else {
            Number { n: N::PosInt(i as u64) }
        }
    }
}

impl From<isize> for Number {
    fn from(i: isize) -> (r: Number)
        ensures
            i < 0 ==> r@ == NumberView::NegInt(i as int),
            i >= 0 ==> r@ == NumberView::PosInt(i as int),
    {
        Number::from_i64(i as i64)
    }
}

impl vstd::std_specs::convert::FromSpecImpl<isize> for Number {
    open spec fn obeys_from_spec() -> bool {
        true
    }

    closed spec fn from_spec(i: isize) -> Number {
        if i < 0 {
            Number { n: N::NegInt(i as i64) }
        } else {
            Number { n: N::PosInt(i as u64) }
        }
    }
}

} // verus!

//! Numbers as the protocol carries them.

use vstd::prelude::*;

verus! {

/// The mathematical value of a [`Scalar`].
pub struct ScalarView {
    pub bits: u32,
    pub text: Seq<char>,
}

/// One single-precision number, held by its IEEE-754 bit pattern together with
/// its decimal rendering.
///
/// The library never computes with the number: it stores `bits` and copies
/// `text` into the messages it composes. Whoever builds a `Scalar` supplies both.
#[derive(Debug, Clone, PartialEq, Eq)]
pub struct Scalar {
    pub bits: u32,
    pub text: String,
}

impl View for Scalar {
    type V = ScalarView;

    open spec fn view(&self) -> ScalarView {
        ScalarView { bits: self.bits, text: self.text@ }
    }
}

impl Scalar {
    /// The view of the number zero: all bits clear, rendered as `0`.
    pub open spec fn zero_view() -> ScalarView {
        ScalarView { bits: 0, text: seq!['0'] }
    }

    pub fn new(bits: u32, text: &str) -> (s: Self)
        ensures
            s@ == (ScalarView { bits, text: text@ }),
    {
        Scalar { bits, text: text.to_owned() }
    }

    /// Positive zero.
    pub fn zero() -> (s: Self)
        ensures
            s@ == Self::zero_view(),
    {
        proof {
            reveal_strlit("0");
        }
        let s = Scalar { bits: 0, text: "0".to_owned() };
        assert(s.text@ =~= seq!['0']);
        s
    }
}

} // verus!

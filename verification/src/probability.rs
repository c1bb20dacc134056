use vstd::prelude::*;

verus! {

/// The number of parts that make up probability one: probabilities are counted in parts
/// per billion.
pub const SCALE: u32 = 1_000_000_000;

/// A probability in fixed point: a whole number of billionths between zero and one.
#[derive(Clone, Copy, PartialEq, Eq, Debug, Structural)]
pub struct Probability {
    parts: u32,
}

impl View for Probability {
    type V = nat;

    /// The probability as a count of billionths.
    closed spec fn view(&self) -> nat {
        self.parts as nat
    }
}

impl Probability {
    /// No probability exceeds one.
    #[verifier::type_invariant]
    pub open spec fn wf(&self) -> bool {
        self@ <= SCALE
    }

    /// The probability of `parts` billionths, if that is at most one.
    pub fn new(parts: u32) -> (r: Option<Probability>)
        ensures
            r is Some <==> parts <= SCALE,
            r matches Some(p) ==> p@ == parts,
    {
        if parts <= SCALE {
            Some(Probability { parts })
        } else {
            None
        }
    }

    /// The probability of `parts` billionths, for a count that is known to be at most one.
    pub(crate) fn from_parts(parts: u32) -> (r: Probability)
        requires
            parts <= SCALE,
        ensures
            r@ == parts,
    {
        Probability { parts }
    }

    /// The probability as a count of billionths.
    pub fn parts(&self) -> (r: u32)
        ensures
            r == self@,
            r <= SCALE,
    {
        proof {
            use_type_invariant(self);
        }
        self.parts
    }
}

} // verus!

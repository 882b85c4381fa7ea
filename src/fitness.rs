use vstd::prelude::*;

verus! {

/// The score of one individual, kept as an exact fraction: a snake that never
/// grew earns a hundredth of a point per step survived; one that grew earns a
/// hundred points per segment, divided by the steps it took.
#[derive(Clone, Copy, Debug, PartialEq, Eq, Structural)]
pub enum Fitness {
    Survived { steps: u64 },
    Grew { len: u64, steps: u64 },
}

/// Selection weights count fitness in units of one ten-thousandth.
pub const WEIGHT_SCALE: u64 = 10000;

impl Fitness {
    /// Numerator of the score.
    pub open spec fn num(self) -> int {
        match self {
            Fitness::Survived { steps } => steps as int,
            Fitness::Grew { len, .. } => 100 * len,
        }
    }

    /// Denominator of the score; zero stands for an unbounded score, which a
    /// grown snake has before its first step.
    pub open spec fn den(self) -> int {
        match self {
            Fitness::Survived { .. } => 100,
            Fitness::Grew { steps, .. } => steps as int,
        }
    }

    /// Only a snake of two or more segments has grown.
    pub open spec fn valid(self) -> bool {
        match self {
            Fitness::Survived { .. } => true,
            Fitness::Grew { len, .. } => len >= 2,
        }
    }

    /// Strictly higher score.
    pub open spec fn beats(self, other: Fitness) -> bool {
        self.num() * other.den() > other.num() * self.den()
    }

    /// The selection weight: the score in ten-thousandths, rounded down, capped
    /// at the largest `u64`, and at least 1 for a score above zero.
    pub open spec fn weight(self) -> u64 {
        match self {
            Fitness::Survived { steps } => if steps * 100 <= u64::MAX {
                (steps * 100) as u64
            } else {
                u64::MAX
            },
            Fitness::Grew { len, steps } => if steps == 0 || 1_000_000 * len / (steps as int)
                > u64::MAX {
                u64::MAX
            } else if 1_000_000 * len / (steps as int) == 0 {
                1
            } else {
                (1_000_000 * len / (steps as int)) as u64
            },
        }
    }

    /// Whether the score is zero.
    pub fn is_zero(&self) -> (r: bool)
        requires
            self.valid(),
        ensures
            r == (self.num() == 0),
    {
        match self {
            Fitness::Survived { steps } => *steps == 0,
            Fitness::Grew { .. } => false,
        }
    }

    /// Whether this score is strictly higher than `other`.
    pub fn exceeds(&self, other: &Fitness) -> (r: bool)
        ensures
            r == self.beats(*other),
    {
        match (*self, *other) {
            (Fitness::Survived { steps: a }, Fitness::Survived { steps: b }) => a > b,
            (Fitness::Grew { len: la, steps: sa }, Fitness::Grew { len: lb, steps: sb }) => {
                assert((100 * la) * sb > (100 * lb) * sa <==> la * sb > lb * sa)
                    by (nonlinear_arith);
                proof {
                    lemma_product_fits(la, sb);
                    lemma_product_fits(lb, sa);
                }
                (la as u128) * (sb as u128) > (lb as u128) * (sa as u128)
            },
            (Fitness::Survived { steps: a }, Fitness::Grew { len: lb, steps: sb }) => {
                assert(a * sb > (100 * lb) * 100 <==> a * sb > 10000 * lb) by (nonlinear_arith);
                proof {
                    lemma_product_fits(a, sb);
                }
                (a as u128) * (sb as u128) > 10000 * (lb as u128)
            },
            (Fitness::Grew { len: la, steps: sa }, Fitness::Survived { steps: b }) => {
                assert((100 * la) * 100 > b * sa <==> 10000 * la > b * sa) by (nonlinear_arith);
                proof {
                    lemma_product_fits(b, sa);
                }
                10000 * (la as u128) > (b as u128) * (sa as u128)
            },
        }
    }

    /// The selection weight.
    pub fn selection_weight(&self) -> (r: u64)
        ensures
            r == self.weight(),
            self.valid() ==> (r == 0 <==> self.num() == 0),
    {
        match self {
            Fitness::Survived { steps } => {
                let w: u128 = (*steps as u128) * 100;
                if w <= u64::MAX as u128 {
                    w as u64
                } else {
                    u64::MAX
                }
            },
            Fitness::Grew { len, steps } => {
                if *steps == 0 {
                    return u64::MAX;
                }
                let w: u128 = (*len as u128) * 1_000_000 / (*steps as u128);
                if w > u64::MAX as u128 {
                    u64::MAX
                } else if w == 0 {
                    1
                } else {
                    w as u64
                }
            },
        }
    }
}

proof fn lemma_product_fits(a: u64, b: u64)
    ensures
        (a as int) * (b as int) <= u128::MAX,
{
    assert((a as int) * (b as int) <= (u64::MAX as int) * (u64::MAX as int)) by (nonlinear_arith)
        requires
            0 <= a <= u64::MAX,
            0 <= b <= u64::MAX,
    ;
}

/// Higher scores are ordered transitively: what beats a score beats every
/// score that does not beat that one.
pub proof fn lemma_beats_transitive(a: Fitness, b: Fitness, c: Fitness)
    requires
        a.valid(),
        b.valid(),
        c.valid(),
        a.beats(b),
        !c.beats(b),
    ensures
        a.beats(c),
{
    let (an, ad, bn, bd, cn, cd) = (a.num(), a.den(), b.num(), b.den(), c.num(), c.den());
    assert(an >= 0 && ad >= 0 && bn >= 0 && bd >= 0 && cn >= 0 && cd >= 0);
    assert(ad == 0 ==> an > 0);
    assert(bd == 0 ==> bn > 0);
    assert(cd == 0 ==> cn > 0);
    assert(an * cd > cn * ad) by (nonlinear_arith)
        requires
            an >= 0,
            ad >= 0,
            bn >= 0,
            bd >= 0,
            cn >= 0,
            cd >= 0,
            ad == 0 ==> an > 0,
            bd == 0 ==> bn > 0,
            cd == 0 ==> cn > 0,
            an * bd > bn * ad,
            cn * bd <= bn * cd,
    {
        if bd == 0 {
            assert(an * bd == 0);
        } else if cd == 0 {
            assert(cn * bd > 0);
        } else {
            assert(an * bd * cd > bn * ad * cd);
            assert(bn * cd * ad >= cn * bd * ad);
            assert(an * cd * bd > cn * ad * bd);
        }
    }
}

} // verus!

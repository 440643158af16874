use vstd::prelude::*;

verus! {

/// Where an interval `[low, high]` lies relative to zero, tested in this order:
/// `low >= 0`, then `high <= 0`, otherwise it straddles zero.
#[derive(Debug, Clone, Copy, PartialEq, Eq, Structural)]
pub enum SignClass {
    NonNegative,
    NonPositive,
    Straddling,
}

/// One of the two bounds of an interval.
#[derive(Debug, Clone, Copy, PartialEq, Eq, Structural)]
pub enum Endpoint {
    Low,
    High,
}

/// A product of a bound of the left operand with a bound of the right operand.
#[derive(Debug, Clone, Copy, PartialEq, Eq, Structural)]
pub struct Corner {
    pub left: Endpoint,
    pub right: Endpoint,
}

/// Which products of bounds give the bounds of an interval product: the lower
/// bound is the product of the bounds named by `low` (the smaller of it and
/// `low_alt` when that is present), and likewise for the upper bound with the
/// larger of `high` and `high_alt`.
#[derive(Debug, Clone, Copy, PartialEq, Eq, Structural)]
pub struct MulPlan {
    pub low: Corner,
    pub low_alt: Option<Corner>,
    pub high: Corner,
    pub high_alt: Option<Corner>,
}

/// The sign class of `[low, high]`.
pub open spec fn sign_class_of(low: int, high: int) -> SignClass {
    if low >= 0 {
        SignClass::NonNegative
    } else if high <= 0 {
        SignClass::NonPositive
    } else {
        SignClass::Straddling
    }
}

pub open spec fn endpoint_value(e: Endpoint, low: int, high: int) -> int {
    match e {
        Endpoint::Low => low,
        Endpoint::High => high,
    }
}

/// The product of the bounds named by `pick`, for `[al, ah]` times `[bl, bh]`.
pub open spec fn bound_product(pick: Corner, al: int, ah: int, bl: int, bh: int) -> int {
    endpoint_value(pick.left, al, ah) * endpoint_value(pick.right, bl, bh)
}

pub open spec fn min_int(x: int, y: int) -> int {
    if x <= y {
        x
    } else {
        y
    }
}

pub open spec fn max_int(x: int, y: int) -> int {
    if x >= y {
        x
    } else {
        y
    }
}

/// Smallest of the four products of bounds of `[al, ah]` and `[bl, bh]`.
pub open spec fn corner_min(al: int, ah: int, bl: int, bh: int) -> int {
    min_int(min_int(al * bl, al * bh), min_int(ah * bl, ah * bh))
}

/// Largest of the four products of bounds of `[al, ah]` and `[bl, bh]`.
pub open spec fn corner_max(al: int, ah: int, bl: int, bh: int) -> int {
    max_int(max_int(al * bl, al * bh), max_int(ah * bl, ah * bh))
}

/// The lower bound that `plan` selects for `[al, ah]` times `[bl, bh]`.
pub open spec fn plan_low(plan: MulPlan, al: int, ah: int, bl: int, bh: int) -> int {
    match plan.low_alt {
        Some(alt) => min_int(
            bound_product(plan.low, al, ah, bl, bh),
            bound_product(alt, al, ah, bl, bh),
        ),
        None => bound_product(plan.low, al, ah, bl, bh),
    }
}

/// The upper bound that `plan` selects for `[al, ah]` times `[bl, bh]`.
pub open spec fn plan_high(plan: MulPlan, al: int, ah: int, bl: int, bh: int) -> int {
    match plan.high_alt {
        Some(alt) => max_int(
            bound_product(plan.high, al, ah, bl, bh),
            bound_product(alt, al, ah, bl, bh),
        ),
        None => bound_product(plan.high, al, ah, bl, bh),
    }
}

proof fn lemma_scale_order(x: int, y1: int, y2: int)
    by (nonlinear_arith)
    requires
        y1 <= y2,
    ensures
        x >= 0 ==> x * y1 <= x * y2,
        x <= 0 ==> x * y2 <= x * y1,
        x >= 0 ==> y1 * x <= y2 * x,
        x <= 0 ==> y2 * x <= y1 * x,
{
}

/// The orderings between the four products of bounds that the signs of the bounds give.
proof fn lemma_corner_orders(al: int, ah: int, bl: int, bh: int)
    requires
        al <= ah,
        bl <= bh,
    ensures
        al >= 0 ==> al * bl <= al * bh,
        al <= 0 ==> al * bh <= al * bl,
        ah >= 0 ==> ah * bl <= ah * bh,
        ah <= 0 ==> ah * bh <= ah * bl,
        bl >= 0 ==> al * bl <= ah * bl,
        bl <= 0 ==> ah * bl <= al * bl,
        bh >= 0 ==> al * bh <= ah * bh,
        bh <= 0 ==> ah * bh <= al * bh,
{
    lemma_scale_order(al, bl, bh);
    lemma_scale_order(ah, bl, bh);
    lemma_scale_order(bl, al, ah);
    lemma_scale_order(bh, al, ah);
}

/// Chooses, from the sign classes of two intervals, which products of their
/// bounds are the bounds of their product.
pub fn mul_plan(a: SignClass, b: SignClass) -> (plan: MulPlan)
    ensures
        forall|al: int, ah: int, bl: int, bh: int|
            al <= ah && bl <= bh && sign_class_of(al, ah) == a && sign_class_of(bl, bh) == b
                ==> #[trigger] plan_low(plan, al, ah, bl, bh) == corner_min(al, ah, bl, bh),
        forall|al: int, ah: int, bl: int, bh: int|
            al <= ah && bl <= bh && sign_class_of(al, ah) == a && sign_class_of(bl, bh) == b
                ==> #[trigger] plan_high(plan, al, ah, bl, bh) == corner_max(al, ah, bl, bh),
{
    let plan = match (a, b) {
        (SignClass::NonNegative, SignClass::NonNegative) => MulPlan {
            low: Corner { left: Endpoint::Low, right: Endpoint::Low },
            low_alt: None,
            high: Corner { left: Endpoint::High, right: Endpoint::High },
            high_alt: None,
        },
        (SignClass::NonNegative, SignClass::NonPositive) => MulPlan {
            low: Corner { left: Endpoint::High, right: Endpoint::Low },
            low_alt: None,
            high: Corner { left: Endpoint::Low, right: Endpoint::High },
            high_alt: None,
        },
        (SignClass::NonNegative, SignClass::Straddling) => MulPlan {
            low: Corner { left: Endpoint::High, right: Endpoint::Low },
            low_alt: None,
            high: Corner { left: Endpoint::High, right: Endpoint::High },
            high_alt: None,
        },
        (SignClass::NonPositive, SignClass::NonNegative) => MulPlan {
            low: Corner { left: Endpoint::Low, right: Endpoint::High },
            low_alt: None,
            high: Corner { left: Endpoint::High, right: Endpoint::Low },
            high_alt: None,
        },
        (SignClass::NonPositive, SignClass::NonPositive) => MulPlan {
            low: Corner { left: Endpoint::High, right: Endpoint::High },
            low_alt: None,
            high: Corner { left: Endpoint::Low, right: Endpoint::Low },
            high_alt: None,
        },
        (SignClass::NonPositive, SignClass::Straddling) => MulPlan {
            low: Corner { left: Endpoint::Low, right: Endpoint::High },
            low_alt: None,
            high: Corner { left: Endpoint::Low, right: Endpoint::Low },
            high_alt: None,
        },
        (SignClass::Straddling, SignClass::NonNegative) => MulPlan {
            low: Corner { left: Endpoint::Low, right: Endpoint::High },
            low_alt: None,
            high: Corner { left: Endpoint::High, right: Endpoint::High },
            high_alt: None,
        },
        (SignClass::Straddling, SignClass::NonPositive) => MulPlan {
            low: Corner { left: Endpoint::High, right: Endpoint::Low },
            low_alt: None,
            high: Corner { left: Endpoint::Low, right: Endpoint::Low },
            high_alt: None,
        },
        (SignClass::Straddling, SignClass::Straddling) => MulPlan {
            low: Corner { left: Endpoint::Low, right: Endpoint::High },
            low_alt: Some(Corner { left: Endpoint::High, right: Endpoint::Low }),
            high: Corner { left: Endpoint::Low, right: Endpoint::Low },
            high_alt: Some(Corner { left: Endpoint::High, right: Endpoint::High }),
        },
    };
    assert forall|al: int, ah: int, bl: int, bh: int|
        al <= ah && bl <= bh && sign_class_of(al, ah) == a && sign_class_of(bl, bh)
            == b implies #[trigger] plan_low(plan, al, ah, bl, bh) == corner_min(al, ah, bl, bh) by {
        lemma_corner_orders(al, ah, bl, bh);
    }
    assert forall|al: int, ah: int, bl: int, bh: int|
        al <= ah && bl <= bh && sign_class_of(al, ah) == a && sign_class_of(bl, bh)
            == b implies #[trigger] plan_high(plan, al, ah, bl, bh) == corner_max(al, ah, bl, bh) by {
        lemma_corner_orders(al, ah, bl, bh);
    }
    plan
}

/// Every product `x * y` of a member of `[al, ah]` and a member of `[bl, bh]`
/// lies between the smallest and the largest product of their bounds.
pub proof fn lemma_product_within_corners(al: int, ah: int, bl: int, bh: int, x: int, y: int)
    requires
        al <= x <= ah,
        bl <= y <= bh,
    ensures
        corner_min(al, ah, bl, bh) <= x * y <= corner_max(al, ah, bl, bh),
{
    lemma_scale_order(y, al, x);
    lemma_scale_order(y, x, ah);
    lemma_scale_order(al, bl, y);
    lemma_scale_order(al, y, bh);
    lemma_scale_order(ah, bl, y);
    lemma_scale_order(ah, y, bh);
}

/// The bounds that `mul_plan` selects enclose the product of every member of
/// the first interval with every member of the second.
pub proof fn lemma_mul_plan_encloses_products(
    plan: MulPlan,
    al: int,
    ah: int,
    bl: int,
    bh: int,
    x: int,
    y: int,
)
    requires
        al <= x <= ah,
        bl <= y <= bh,
        plan_low(plan, al, ah, bl, bh) == corner_min(al, ah, bl, bh),
        plan_high(plan, al, ah, bl, bh) == corner_max(al, ah, bl, bh),
    ensures
        plan_low(plan, al, ah, bl, bh) <= x * y <= plan_high(plan, al, ah, bl, bh),
{
    lemma_product_within_corners(al, ah, bl, bh, x, y);
}

// ---------------------------------------------------------------------------
// Squares
// ---------------------------------------------------------------------------

/// Where an interval `[low, high]` lies relative to zero, tested in this order:
/// it contains zero (`low <= 0 <= high`), it lies below zero (`high <= 0`),
/// otherwise it lies above zero.
#[derive(Debug, Clone, Copy, PartialEq, Eq, Structural)]
pub enum ZeroPosition {
    ContainsZero,
    Below,
    Above,
}

pub open spec fn zero_position_of(low: int, high: int) -> ZeroPosition {
    if low <= 0 && 0 <= high {
        ZeroPosition::ContainsZero
    } else if high <= 0 {
        ZeroPosition::Below
    } else {
        ZeroPosition::Above
    }
}

/// The lower bound of the square of an interval: zero, or the smaller of the
/// squares of its bounds.
#[derive(Debug, Clone, Copy, PartialEq, Eq, Structural)]
pub enum SquareLow {
    Zero,
    SmallerSquare,
}

pub open spec fn spec_square_low(p: ZeroPosition) -> SquareLow {
    match p {
        ZeroPosition::ContainsZero => SquareLow::Zero,
        _ => SquareLow::SmallerSquare,
    }
}

/// `y` squared.
pub open spec fn square(y: int) -> int {
    y * y
}

pub open spec fn square_low_value(r: SquareLow, low: int, high: int) -> int {
    match r {
        SquareLow::Zero => 0,
        SquareLow::SmallerSquare => min_int(low * low, high * high),
    }
}

/// Chooses the lower bound of the square of an interval at position `p`
/// (its upper bound is always the larger of the squares of its bounds).
pub fn square_low(p: ZeroPosition) -> (r: SquareLow)
    ensures
        r == spec_square_low(p),
{
    match p {
        ZeroPosition::ContainsZero => SquareLow::Zero,
        _ => SquareLow::SmallerSquare,
    }
}

/// The square of every member of `[low, high]` lies between the lower bound
/// that `square_low` chooses and the larger square of the bounds, and that
/// lower bound is the square of a member.
pub proof fn lemma_square_bounds(low: int, high: int, x: int)
    requires
        low <= x <= high,
    ensures
        square_low_value(spec_square_low(zero_position_of(low, high)), low, high) <= x * x,
        x * x <= max_int(low * low, high * high),
        exists|y: int|
            low <= y <= high && #[trigger] square(y) == square_low_value(
                spec_square_low(zero_position_of(low, high)),
                low,
                high,
            ),
{
    lemma_scale_order(x, low, x);
    lemma_scale_order(x, x, high);
    lemma_scale_order(low, low, x);
    lemma_scale_order(high, x, high);
    lemma_scale_order(low, x, high);
    lemma_scale_order(high, low, x);
    assert(x * x >= 0) by (nonlinear_arith);
    if zero_position_of(low, high) == ZeroPosition::ContainsZero {
        assert(square(0) == 0);
    } else if low * low <= high * high {
        assert(square(low) == low * low);
    } else {
        assert(square(high) == high * high);
    }
}

/// Where the operand of a square lies, given the interval of the square and the
/// interval `[root_low, root_high]` of its square roots: on both sides of zero
/// (`[-root_high, root_high]`), below zero (`[-root_high, -root_low]`) or above
/// zero (`[root_low, root_high]`).
#[derive(Debug, Clone, Copy, PartialEq, Eq, Structural)]
pub enum SquarePreimage {
    Symmetric,
    Negative,
    Positive,
}

pub open spec fn spec_square_preimage(p: ZeroPosition) -> SquarePreimage {
    match p {
        ZeroPosition::ContainsZero => SquarePreimage::Symmetric,
        ZeroPosition::Below => SquarePreimage::Negative,
        ZeroPosition::Above => SquarePreimage::Positive,
    }
}

pub open spec fn preimage_low(r: SquarePreimage, root_low: int, root_high: int) -> int {
    match r {
        SquarePreimage::Positive => root_low,
        _ => -root_high,
    }
}

pub open spec fn preimage_high(r: SquarePreimage, root_low: int, root_high: int) -> int {
    match r {
        SquarePreimage::Negative => -root_low,
        _ => root_high,
    }
}

/// Chooses where to narrow the operand of a square whose current interval lies
/// at position `p`.
pub fn square_preimage(p: ZeroPosition) -> (r: SquarePreimage)
    ensures
        r == spec_square_preimage(p),
{
    match p {
        ZeroPosition::ContainsZero => SquarePreimage::Symmetric,
        ZeroPosition::Below => SquarePreimage::Negative,
        ZeroPosition::Above => SquarePreimage::Positive,
    }
}

proof fn lemma_square_order(a: int, b: int)
    by (nonlinear_arith)
    requires
        0 <= a,
        0 <= b,
        a * a <= b * b,
    ensures
        a <= b,
{
}

/// Narrowing the operand of a square never loses a solution: a member `x` of
/// `[low, high]` whose square lies between `root_low * root_low` (or anywhere
/// when `root_low` is 0) and `root_high * root_high` lies in the interval that
/// `square_preimage` chooses.
pub proof fn lemma_square_preimage_keeps_roots(
    low: int,
    high: int,
    x: int,
    root_low: int,
    root_high: int,
)
    requires
        low <= x <= high,
        0 <= root_low,
        0 <= root_high,
        root_low == 0 || root_low * root_low <= x * x,
        x * x <= root_high * root_high,
    ensures
        preimage_low(spec_square_preimage(zero_position_of(low, high)), root_low, root_high)
            <= x <= preimage_high(
            spec_square_preimage(zero_position_of(low, high)),
            root_low,
            root_high,
        ),
{
    let ax: int = if x >= 0 {
        x
    } else {
        -x
    };
    assert(ax * ax == x * x) by (nonlinear_arith)
        requires
            ax == x || ax == -x,
    ;
    lemma_square_order(ax, root_high);
    if root_low != 0 {
        lemma_square_order(root_low, ax);
    }
}

} // verus!

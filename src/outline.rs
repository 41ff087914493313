//! The shape of a gear outline as a sequence of drawing steps.
//!
//! Points are named symbolically by [`Anchor`]; the coordinates behind each
//! anchor are computed by the caller from the gear's geometry.
use vstd::prelude::*;

verus! {

/// A point of the gear outline, named by its role.
#[derive(PartialEq, Eq, Structural, Clone, Copy, Debug)]
pub enum Anchor {
    /// The first point of the outline, on the outer circle.
    Start,
    /// The corner where groove `i` begins.
    GrooveFrom(usize),
    /// The corner where groove `i` ends.
    GrooveTo(usize),
    /// The control point of the quadratic curve of groove `i`.
    GrooveControl(usize),
    /// Control point `k` (1 to 3) of the first half of groove `i` as a cubic.
    FirstHalf(usize, usize),
    /// Control point `k` (0 to 3) of the second half of groove `i` as a cubic.
    SecondHalf(usize, usize),
    /// The top of the bore circle.
    BoreTop,
    /// The bottom of the bore circle.
    BoreBottom,
    /// Where the cut across the bore meets the bore, after the last tooth.
    BoreCutStart,
    /// Where the bore arc of a cut gear ends, at the gear's rotation.
    BoreCutEnd,
}

/// The radius of an arc step.
#[derive(PartialEq, Eq, Structural, Clone, Copy, Debug)]
pub enum Radius {
    /// The outer radius of the gear.
    Outer,
    /// The radius of the bore.
    Inner,
    /// A radius of one.
    Unit,
}

/// One drawing command of a path.
#[derive(PartialEq, Eq, Structural, Clone, Copy, Debug)]
pub enum Step {
    Close,
    Move(Anchor),
    Line(Anchor),
    Quadratic(Anchor, Anchor),
    Cubic(Anchor, Anchor, Anchor),
    Arc { radius: Radius, large_arc: bool, sweep: bool, to: Anchor },
}

/// The letter of a step's command in the path text.
pub open spec fn letter_of(s: Step) -> Seq<char> {
    match s {
        Step::Close => "Z"@,
        Step::Move(_) => "M"@,
        Step::Line(_) => "L"@,
        Step::Quadratic(_, _) => "Q"@,
        Step::Cubic(_, _, _) => "C"@,
        Step::Arc { .. } => "A"@,
    }
}

impl Step {
    /// The letter of this step's command in the path text.
    pub fn letter(&self) -> (r: &'static str)
        ensures
            r@ == letter_of(*self),
    {
        match self {
            Step::Close => "Z",
            Step::Move(_) => "M",
            Step::Line(_) => "L",
            Step::Quadratic(_, _) => "Q",
            Step::Cubic(_, _, _) => "C",
            Step::Arc { .. } => "A",
        }
    }
}

/// The tip arc of tooth `i`, ending where groove `i` begins.
pub open spec fn tip_arc(i: usize) -> Step {
    Step::Arc { radius: Radius::Outer, large_arc: false, sweep: true, to: Anchor::GrooveFrom(i) }
}

/// The quadratic curve of groove `i`.
pub open spec fn groove_curve(i: usize) -> Step {
    Step::Quadratic(Anchor::GrooveControl(i), Anchor::GrooveTo(i))
}

/// The tip arc and the groove of each of the first `k` teeth.
pub open spec fn teeth(k: nat) -> Seq<Step>
    decreases k,
{
    if k == 0 {
        Seq::empty()
    } else {
        teeth((k - 1) as nat).push(tip_arc((k - 1) as usize)).push(groove_curve((k - 1) as usize))
    }
}

/// Whether the outline is cut after tooth `cutoff` (counted from one).
pub open spec fn is_cut(pair_count: nat, groove_count: nat, cutoff: nat) -> bool {
    1 <= cutoff && cutoff <= pair_count && cutoff < groove_count
}

/// Whether the bore arc of a cut gear spans more than half a turn: the cut
/// angle is `cutoff * 360 / groove_count` degrees.
pub open spec fn cut_is_large(groove_count: nat, cutoff: nat) -> bool {
    2 * cutoff > groove_count
}

/// The closing steps of a full gear: the outer contour closes, and the bore
/// is drawn as a contour of its own from its top to its bottom and back.
pub open spec fn full_tail() -> Seq<Step> {
    seq![
        Step::Close,
        Step::Move(Anchor::BoreTop),
        Step::Arc { radius: Radius::Unit, large_arc: false, sweep: false, to: Anchor::BoreBottom },
        Step::Arc { radius: Radius::Unit, large_arc: false, sweep: false, to: Anchor::BoreTop },
        Step::Close,
    ]
}

/// The steps that end a gear cut after tooth `cutoff`: the first half of its
/// groove, a line in to the bore, the bore arc back to the gear's rotation, a
/// line out, the second half of the last groove, and the close.
pub open spec fn cut_tail(pair_count: nat, groove_count: nat, cutoff: nat) -> Seq<Step> {
    let c = (cutoff - 1) as usize;
    let last = (pair_count - 1) as usize;
    seq![
        tip_arc(c),
        Step::Cubic(Anchor::FirstHalf(c, 1), Anchor::FirstHalf(c, 2), Anchor::FirstHalf(c, 3)),
        Step::Line(Anchor::BoreCutStart),
        Step::Arc {
            radius: Radius::Inner,
            large_arc: cut_is_large(groove_count, cutoff),
            sweep: false,
            to: Anchor::BoreCutEnd,
        },
        Step::Line(Anchor::SecondHalf(last, 0)),
        Step::Cubic(Anchor::SecondHalf(last, 1), Anchor::SecondHalf(last, 2), Anchor::SecondHalf(last, 3)),
        Step::Close,
    ]
}

/// The whole outline of a gear with `pair_count` grooves laid out around the
/// circle, `groove_count` grooves in its settings, cut after tooth `cutoff`.
pub open spec fn outline(pair_count: nat, groove_count: nat, cutoff: nat) -> Seq<Step> {
    if is_cut(pair_count, groove_count, cutoff) {
        seq![Step::Move(Anchor::Start)] + teeth((cutoff - 1) as nat) + cut_tail(pair_count, groove_count, cutoff)
    } else {
        seq![Step::Move(Anchor::Start)] + teeth(pair_count) + full_tail()
    }
}

/// The first `k` teeth take two steps each.
pub proof fn lemma_teeth_len(k: nat)
    ensures
        teeth(k).len() == 2 * k,
    decreases k,
{
    if k > 0 {
        lemma_teeth_len((k - 1) as nat);
    }
}

/// Once the cutoff reaches the groove count, the outline no longer depends on
/// it: every larger cutoff gives the same full gear.
pub proof fn lemma_cutoff_beyond_count(pair_count: nat, groove_count: nat, cutoff: nat, larger: nat)
    requires
        cutoff >= groove_count,
        larger >= cutoff,
    ensures
        outline(pair_count, groove_count, cutoff) == outline(pair_count, groove_count, larger),
        !is_cut(pair_count, groove_count, cutoff),
{
}

/// A full gear with one corner pair per groove opens with the move to its
/// start; after it come two steps per tooth, the close of the outer contour
/// and the four steps of the bore contour: `2 * groove_count + 5` steps.
pub proof fn lemma_full_gear_len(groove_count: nat, cutoff: nat)
    requires
        !is_cut(groove_count, groove_count, cutoff),
    ensures
        outline(groove_count, groove_count, cutoff)[0] == Step::Move(Anchor::Start),
        outline(groove_count, groove_count, cutoff).drop_first().len() == 2 * groove_count + 5,
        outline(groove_count, groove_count, cutoff).last() == Step::Close,
{
    lemma_teeth_len(groove_count);
    assert(full_tail().len() == 5);
}

/// A cut gear ends its last tooth with a cubic half groove, followed by
/// exactly a line, an arc, a line, a cubic and the close.
pub proof fn lemma_cut_gear_tail(pair_count: nat, groove_count: nat, cutoff: nat)
    requires
        is_cut(pair_count, groove_count, cutoff),
    ensures
        ({
            let o = outline(pair_count, groove_count, cutoff);
            let n = o.len();
            &&& n == 2 * cutoff + 6
            &&& o[n - 6] is Cubic
            &&& o[n - 5] is Line
            &&& o[n - 4] is Arc
            &&& o[n - 3] is Line
            &&& o[n - 2] is Cubic
            &&& o[n - 1] == Step::Close
        }),
{
    lemma_teeth_len((cutoff - 1) as nat);
}

/// Builds the outline of a gear whose corner walk produced `pair_count`
/// grooves, with `groove_count` grooves and a cut after tooth `cutoff`
/// (counted from one; a cutoff of zero or of `groove_count` or more draws the
/// full gear).
pub fn outline_steps(pair_count: usize, groove_count: usize, cutoff: usize) -> (r: Vec<Step>)
    requires
        pair_count < usize::MAX / 2,
    ensures
        r@ == outline(pair_count as nat, groove_count as nat, cutoff as nat),
{
    let cut = 1 <= cutoff && cutoff <= pair_count && cutoff < groove_count;
    let whole: usize = if cut { cutoff - 1 } else { pair_count };
    let mut steps: Vec<Step> = vec![Step::Move(Anchor::Start)];
    let mut i: usize = 0;
    while i < whole
        invariant
            i <= whole <= pair_count < usize::MAX / 2,
            steps@ == seq![Step::Move(Anchor::Start)] + teeth(i as nat),
        decreases whole - i,
    {
        steps.push(Step::Arc { radius: Radius::Outer, large_arc: false, sweep: true, to: Anchor::GrooveFrom(i) });
        steps.push(Step::Quadratic(Anchor::GrooveControl(i), Anchor::GrooveTo(i)));
        i = i + 1;
        proof {
            assert(steps@ =~= seq![Step::Move(Anchor::Start)] + teeth(i as nat));
        }
    }
    let ghost start = steps@;
    if cut {
        let c = cutoff - 1;
        let last = pair_count - 1;
        steps.push(Step::Arc { radius: Radius::Outer, large_arc: false, sweep: true, to: Anchor::GrooveFrom(c) });
        steps.push(Step::Cubic(Anchor::FirstHalf(c, 1), Anchor::FirstHalf(c, 2), Anchor::FirstHalf(c, 3)));
        steps.push(Step::Line(Anchor::BoreCutStart));
        steps.push(Step::Arc {
            radius: Radius::Inner,
            large_arc: cutoff > groove_count - cutoff,
            sweep: false,
            to: Anchor::BoreCutEnd,
        });
        steps.push(Step::Line(Anchor::SecondHalf(last, 0)));
        steps.push(Step::Cubic(Anchor::SecondHalf(last, 1), Anchor::SecondHalf(last, 2), Anchor::SecondHalf(last, 3)));
        steps.push(Step::Close);
        assert(steps@ =~= start + cut_tail(pair_count as nat, groove_count as nat, cutoff as nat));
    } else {
        steps.push(Step::Close);
        steps.push(Step::Move(Anchor::BoreTop));
        steps.push(Step::Arc { radius: Radius::Unit, large_arc: false, sweep: false, to: Anchor::BoreBottom });
        steps.push(Step::Arc { radius: Radius::Unit, large_arc: false, sweep: false, to: Anchor::BoreTop });
        steps.push(Step::Close);
        assert(steps@ =~= start + full_tail());
    }
    steps
}

} // verus!

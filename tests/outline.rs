use gear_outline::outline::{outline_steps, Anchor, Radius, Step};

fn tip(i: usize) -> Step {
    Step::Arc { radius: Radius::Outer, large_arc: false, sweep: true, to: Anchor::GrooveFrom(i) }
}

fn groove(i: usize) -> Step {
    Step::Quadratic(Anchor::GrooveControl(i), Anchor::GrooveTo(i))
}

fn bore_contour() -> Vec<Step> {
    vec![
        Step::Move(Anchor::BoreTop),
        Step::Arc { radius: Radius::Unit, large_arc: false, sweep: false, to: Anchor::BoreBottom },
        Step::Arc { radius: Radius::Unit, large_arc: false, sweep: false, to: Anchor::BoreTop },
        Step::Close,
    ]
}

#[test]
fn full_gear_of_four_grooves() {
    let steps = outline_steps(4, 4, 10);
    assert_eq!(steps.len(), 14);
    assert_eq!(steps[0], Step::Move(Anchor::Start));
    for i in 0..4 {
        assert_eq!(steps[1 + 2 * i], tip(i));
        assert_eq!(steps[2 + 2 * i], groove(i));
    }
    assert_eq!(steps[9], Step::Close);
    assert_eq!(steps[10..].to_vec(), bore_contour());
}

#[test]
fn full_gear_segment_count() {
    for n in 1..20usize {
        let steps = outline_steps(n, n, n);
        assert_eq!(steps.len() - 1, 2 * n + 5);
        assert_eq!(steps[steps.len() - 1], Step::Close);
    }
}

#[test]
fn cutoff_beyond_count_is_invariant() {
    let reference = outline_steps(4, 4, 4);
    for cutoff in 4..40usize {
        assert_eq!(outline_steps(4, 4, cutoff), reference);
    }
    assert_eq!(outline_steps(4, 4, usize::MAX), reference);
}

#[test]
fn cut_gear_after_second_groove() {
    let steps = outline_steps(4, 4, 2);
    let expected = vec![
        Step::Move(Anchor::Start),
        tip(0),
        groove(0),
        tip(1),
        Step::Cubic(Anchor::FirstHalf(1, 1), Anchor::FirstHalf(1, 2), Anchor::FirstHalf(1, 3)),
        Step::Line(Anchor::BoreCutStart),
        Step::Arc { radius: Radius::Inner, large_arc: false, sweep: false, to: Anchor::BoreCutEnd },
        Step::Line(Anchor::SecondHalf(3, 0)),
        Step::Cubic(Anchor::SecondHalf(3, 1), Anchor::SecondHalf(3, 2), Anchor::SecondHalf(3, 3)),
        Step::Close,
    ];
    assert_eq!(steps, expected);
}

#[test]
fn cut_gear_tail_kinds() {
    let steps = outline_steps(4, 4, 2);
    let n = steps.len();
    assert!(matches!(steps[n - 6], Step::Cubic(..)));
    assert!(matches!(steps[n - 5], Step::Line(_)));
    assert!(matches!(steps[n - 4], Step::Arc { .. }));
    assert!(matches!(steps[n - 3], Step::Line(_)));
    assert!(matches!(steps[n - 2], Step::Cubic(..)));
    assert_eq!(steps[n - 1], Step::Close);
}

#[test]
fn cut_arc_is_large_past_half_a_turn() {
    let bore_arc = |steps: &Vec<Step>| steps[steps.len() - 4];
    let arc = |large_arc| Step::Arc { radius: Radius::Inner, large_arc, sweep: false, to: Anchor::BoreCutEnd };
    assert_eq!(bore_arc(&outline_steps(10, 10, 6)), arc(true));
    assert_eq!(bore_arc(&outline_steps(10, 10, 5)), arc(false));
    assert_eq!(bore_arc(&outline_steps(10, 10, 4)), arc(false));
    assert_eq!(bore_arc(&outline_steps(10, 10, 9)), arc(true));
}

#[test]
fn cutoff_of_one_cuts_in_the_first_groove() {
    let steps = outline_steps(10, 10, 1);
    assert_eq!(steps.len(), 8);
    assert_eq!(steps[1], tip(0));
    assert_eq!(steps[2], Step::Cubic(Anchor::FirstHalf(0, 1), Anchor::FirstHalf(0, 2), Anchor::FirstHalf(0, 3)));
    assert_eq!(steps[5], Step::Line(Anchor::SecondHalf(9, 0)));
}

#[test]
fn cutoff_of_zero_draws_the_full_gear() {
    assert_eq!(outline_steps(10, 10, 0), outline_steps(10, 10, 10));
}

#[test]
fn cutoff_past_the_walked_pairs_draws_the_full_gear() {
    let steps = outline_steps(3, 4, 4);
    assert_eq!(steps.len(), 12);
    assert_eq!(outline_steps(3, 4, 3).len(), 12);
    assert_eq!(outline_steps(3, 5, 4), outline_steps(3, 5, 5));
}

#[test]
fn no_grooves_gives_only_the_bore() {
    let steps = outline_steps(0, 0, 0);
    let mut expected = vec![Step::Move(Anchor::Start), Step::Close];
    expected.extend(bore_contour());
    assert_eq!(steps, expected);
}

#[test]
fn step_letters() {
    assert_eq!(Step::Close.letter(), "Z");
    assert_eq!(Step::Move(Anchor::Start).letter(), "M");
    assert_eq!(Step::Line(Anchor::BoreTop).letter(), "L");
    assert_eq!(groove(0).letter(), "Q");
    assert_eq!(Step::Cubic(Anchor::Start, Anchor::Start, Anchor::Start).letter(), "C");
    assert_eq!(tip(0).letter(), "A");
}

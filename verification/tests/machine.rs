use integration::subdivision::{Action, Event, Phase, Subdivision};

/// Drives a subdivision over cells whose estimates are their own names and
/// whose sums are written out, accepting exactly the cells in `leaves`.
/// Returns the result and the cells that were estimated, in order.
fn spell(leaves: &[&[bool]]) -> (String, Vec<Vec<bool>>) {
    let mut sub: Subdivision<String> = Subdivision::new();
    let mut asked = Vec::new();
    let mut action = Action::Estimate;
    loop {
        let event = match action {
            Action::Estimate => {
                let cell = sub.cell().clone();
                asked.push(cell.clone());
                if leaves.iter().any(|leaf| *leaf == cell.as_slice()) {
                    let name: String = cell.iter().map(|&up| if up { '1' } else { '0' }).collect();
                    Event::Accept(format!("<{}>", name))
                } else {
                    Event::Split
                }
            }
            Action::Add(below, above) => Event::Sum(format!("({}+{})", below, above)),
            Action::Finish(value) => return (value, asked),
        };
        action = sub.step(event).unwrap();
    }
}

#[test]
fn new_subdivision_awaits_the_whole_interval() {
    let sub: Subdivision<i64> = Subdivision::new();
    assert!(sub.cell().is_empty());
    assert_eq!(sub.phase(), Phase::Estimating);
}

#[test]
fn accepted_whole_interval_finishes() {
    let mut sub = Subdivision::new();
    assert_eq!(sub.step(Event::Accept(7)), Some(Action::Finish(7)));
    assert_eq!(sub.phase(), Phase::Finished);
    assert!(sub.cell().is_empty());
}

#[test]
fn split_turns_to_the_lower_half() {
    let mut sub: Subdivision<i64> = Subdivision::new();
    assert_eq!(sub.step(Event::Split), Some(Action::Estimate));
    assert_eq!(sub.cell(), &vec![false]);
    assert_eq!(sub.phase(), Phase::Estimating);
    assert_eq!(sub.step(Event::Split), Some(Action::Estimate));
    assert_eq!(sub.cell(), &vec![false, false]);
}

#[test]
fn upper_half_follows_lower_half() {
    let mut sub = Subdivision::new();
    sub.step(Event::Split);
    assert_eq!(sub.step(Event::Accept(3)), Some(Action::Estimate));
    assert_eq!(sub.cell(), &vec![true]);
    assert_eq!(sub.phase(), Phase::Estimating);
}

#[test]
fn halves_are_added_lower_first() {
    let mut sub = Subdivision::new();
    sub.step(Event::Split);
    sub.step(Event::Accept(3));
    assert_eq!(sub.step(Event::Accept(4)), Some(Action::Add(3, 4)));
    assert_eq!(sub.phase(), Phase::Adding);
    assert!(sub.cell().is_empty());
    assert_eq!(sub.step(Event::Sum(7)), Some(Action::Finish(7)));
    assert_eq!(sub.phase(), Phase::Finished);
}

#[test]
fn sum_is_taken_as_reported() {
    let mut sub = Subdivision::new();
    sub.step(Event::Split);
    sub.step(Event::Accept(3));
    sub.step(Event::Accept(4));
    assert_eq!(sub.step(Event::Sum(100)), Some(Action::Finish(100)));
}

#[test]
fn sum_of_an_inner_cell_is_delivered_like_an_estimate() {
    let mut sub = Subdivision::new();
    sub.step(Event::Split);
    sub.step(Event::Split);
    sub.step(Event::Accept(1));
    assert_eq!(sub.cell(), &vec![false, true]);
    assert_eq!(sub.step(Event::Accept(2)), Some(Action::Add(1, 2)));
    assert_eq!(sub.cell(), &vec![false]);
    assert_eq!(sub.step(Event::Sum(3)), Some(Action::Estimate));
    assert_eq!(sub.cell(), &vec![true]);
    assert_eq!(sub.step(Event::Split), Some(Action::Estimate));
    assert_eq!(sub.cell(), &vec![true, false]);
    sub.step(Event::Accept(10));
    assert_eq!(sub.step(Event::Accept(20)), Some(Action::Add(10, 20)));
    assert_eq!(sub.cell(), &vec![true]);
    assert_eq!(sub.step(Event::Sum(30)), Some(Action::Add(3, 30)));
    assert!(sub.cell().is_empty());
    assert_eq!(sub.step(Event::Sum(33)), Some(Action::Finish(33)));
}

#[test]
fn sum_out_of_turn_changes_nothing() {
    let mut sub = Subdivision::new();
    sub.step(Event::Split);
    sub.step(Event::Accept(3));
    assert_eq!(sub.step(Event::Sum(9)), None);
    assert_eq!(sub.phase(), Phase::Estimating);
    assert_eq!(sub.cell(), &vec![true]);
    assert_eq!(sub.step(Event::Accept(4)), Some(Action::Add(3, 4)));
}

#[test]
fn verdict_out_of_turn_changes_nothing() {
    let mut sub = Subdivision::new();
    sub.step(Event::Split);
    sub.step(Event::Accept(3));
    sub.step(Event::Accept(4));
    assert_eq!(sub.step(Event::Accept(5)), None);
    assert_eq!(sub.step(Event::Split), None);
    assert_eq!(sub.phase(), Phase::Adding);
    assert!(sub.cell().is_empty());
    assert_eq!(sub.step(Event::Sum(7)), Some(Action::Finish(7)));
}

#[test]
fn nothing_follows_finish() {
    let mut sub = Subdivision::new();
    sub.step(Event::Accept(1));
    assert_eq!(sub.step(Event::Accept(2)), None);
    assert_eq!(sub.step(Event::Split), None);
    assert_eq!(sub.step(Event::Sum(3)), None);
    assert_eq!(sub.phase(), Phase::Finished);
    assert!(sub.cell().is_empty());
}

#[test]
fn cells_are_estimated_parent_first_and_lower_half_first() {
    let (_, asked) = spell(&[&[false, false], &[false, true], &[true]]);
    let expected: Vec<Vec<bool>> = vec![
        vec![],
        vec![false],
        vec![false, false],
        vec![false, true],
        vec![true],
    ];
    assert_eq!(asked, expected);
}

#[test]
fn sums_follow_the_halvings() {
    let (value, _) = spell(&[&[false, false], &[false, true], &[true]]);
    assert_eq!(value, "((<00>+<01>)+<1>)");
    let (value, _) = spell(&[&[false], &[true, false], &[true, true]]);
    assert_eq!(value, "(<0>+(<10>+<11>))");
    let (value, _) = spell(&[
        &[false, false],
        &[false, true, false],
        &[false, true, true],
        &[true, false],
        &[true, true],
    ]);
    assert_eq!(value, "((<00>+(<010>+<011>))+(<10>+<11>))");
    let (value, _) = spell(&[&[]]);
    assert_eq!(value, "<>");
}

#[test]
fn accepted_cells_lie_side_by_side() {
    // Ends of a cell in units of 1/1024 of the whole interval.
    fn ends(cell: &[bool]) -> (u64, u64) {
        let (mut lo, mut hi) = (0u64, 1024u64);
        for &upper in cell {
            let mid = (lo + hi) / 2;
            if upper {
                lo = mid;
            } else {
                hi = mid;
            }
        }
        (lo, hi)
    }
    let leaves: [&[bool]; 6] = [
        &[false, false],
        &[false, true, false],
        &[false, true, true],
        &[true, false],
        &[true, true, false],
        &[true, true, true],
    ];
    let mut sub: Subdivision<()> = Subdivision::new();
    let mut action = Action::Estimate;
    let mut accepted: Vec<(u64, u64)> = Vec::new();
    loop {
        let event = match action {
            Action::Estimate => {
                if leaves.iter().any(|leaf| *leaf == sub.cell().as_slice()) {
                    accepted.push(ends(sub.cell()));
                    Event::Accept(())
                } else {
                    Event::Split
                }
            }
            Action::Add((), ()) => Event::Sum(()),
            Action::Finish(()) => break,
        };
        action = sub.step(event).unwrap();
    }
    assert_eq!(accepted.len(), 6);
    assert_eq!(accepted[0].0, 0);
    assert_eq!(accepted[5].1, 1024);
    for i in 0..5 {
        assert_eq!(accepted[i].1, accepted[i + 1].0);
    }
    let total: u64 = accepted.iter().map(|&(lo, hi)| hi - lo).sum();
    assert_eq!(total, 1024);
}

#[test]
fn deep_subdivision_returns_to_the_top() {
    let mut sub = Subdivision::new();
    for _ in 0..2000 {
        assert_eq!(sub.step(Event::Split), Some(Action::Estimate));
    }
    assert_eq!(sub.cell().len(), 2000);
    let mut action = sub.step(Event::Accept(1u64)).unwrap();
    let mut estimates = 1u64;
    loop {
        let event = match action {
            Action::Estimate => {
                estimates += 1;
                Event::Accept(1)
            }
            Action::Add(below, above) => Event::Sum(below + above),
            Action::Finish(value) => {
                assert_eq!(value, 2001);
                break;
            }
        };
        action = sub.step(event).unwrap();
    }
    assert_eq!(estimates, 2001);
    assert_eq!(sub.phase(), Phase::Finished);
}

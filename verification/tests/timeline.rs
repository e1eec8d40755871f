use use_animate::Operation;
use use_animate::_use_animate;
use use_animate::apply;
use use_animate::split_tokens;
use use_animate::ClassSet;

fn s(text: &str) -> String {
    String::from(text)
}

fn carries(target: &ClassSet, token: &str) -> bool {
    target.carries(&s(token))
}

#[test]
fn split_two_tokens() {
    let toks = split_tokens("foo bar");
    assert_eq!(toks, vec![s("foo"), s("bar")]);
}

#[test]
fn split_collapses_runs_of_whitespace() {
    let toks = split_tokens("  a\t\tb \n c  ");
    assert_eq!(toks, vec![s("a"), s("b"), s("c")]);
}

#[test]
fn split_empty_and_blank_yield_nothing() {
    assert_eq!(split_tokens(""), Vec::<String>::new());
    assert_eq!(split_tokens(" \t\n\r "), Vec::<String>::new());
}

#[test]
fn split_single_token() {
    assert_eq!(split_tokens("visible"), vec![s("visible")]);
}

#[test]
fn ensure_present_and_absent_are_idempotent() {
    let mut target = ClassSet::new();
    target.ensure_present(&s("x"));
    target.ensure_present(&s("x"));
    assert!(carries(&target, "x"));
    assert_eq!(target.count(), 1);
    target.ensure_absent(&s("x"));
    target.ensure_absent(&s("x"));
    assert!(!carries(&target, "x"));
    assert_eq!(target.count(), 0);
}

#[test]
fn reapplying_add_changes_nothing() {
    let mut target = ClassSet::new();
    let op = Operation::Add(s("foo bar"));
    apply(&mut target, &op);
    assert_eq!(target.count(), 2);
    apply(&mut target, &op);
    assert_eq!(target.count(), 2);
    assert!(carries(&target, "foo"));
    assert!(carries(&target, "bar"));
}

#[test]
fn reapplying_remove_changes_nothing() {
    let mut target = ClassSet::new();
    target.ensure_present(&s("foo"));
    let op = Operation::Remove(s("foo"));
    apply(&mut target, &op);
    apply(&mut target, &op);
    assert!(!carries(&target, "foo"));
    assert_eq!(target.count(), 0);
}

#[test]
fn multi_token_add_then_remove() {
    let mut target = ClassSet::new();
    apply(&mut target, &Operation::Add(s("foo bar")));
    assert!(carries(&target, "foo"));
    assert!(carries(&target, "bar"));
    assert_eq!(target.count(), 2);
    apply(&mut target, &Operation::Remove(s("foo bar")));
    assert!(!carries(&target, "foo"));
    assert!(!carries(&target, "bar"));
    assert_eq!(target.count(), 0);
}

#[test]
fn blank_tag_is_a_no_op() {
    let mut target = ClassSet::new();
    target.ensure_present(&s("keep"));
    apply(&mut target, &Operation::Add(s("")));
    apply(&mut target, &Operation::Add(s("   ")));
    apply(&mut target, &Operation::Remove(s(" \t ")));
    assert!(carries(&target, "keep"));
    assert_eq!(target.count(), 1);
}

#[test]
fn group_children_apply_in_listed_order() {
    let mut target = ClassSet::new();
    apply(
        &mut target,
        &Operation::Group(vec![Operation::Add(s("a")), Operation::Remove(s("a"))]),
    );
    assert!(!carries(&target, "a"));
    assert_eq!(target.count(), 0);

    let mut other = ClassSet::new();
    apply(
        &mut other,
        &Operation::Group(vec![Operation::Remove(s("a")), Operation::Add(s("a"))]),
    );
    assert!(carries(&other, "a"));
    assert_eq!(other.count(), 1);
}

#[test]
fn nested_groups_apply_depth_first() {
    let mut target = ClassSet::new();
    apply(
        &mut target,
        &Operation::Group(vec![
            Operation::Add(s("a")),
            Operation::Group(vec![Operation::Add(s("b")), Operation::Remove(s("a"))]),
            Operation::Add(s("c")),
        ]),
    );
    assert!(!carries(&target, "a"));
    assert!(carries(&target, "b"));
    assert!(carries(&target, "c"));
    assert_eq!(target.count(), 2);
}

#[test]
fn unresolved_target_starts_no_run() {
    let ua = _use_animate(vec![(0, Operation::Add(s("visible")))]);
    assert!(ua.start(false).is_none());
}

#[test]
fn concrete_scenario_states_at_each_tick() {
    let timeline = vec![
        (0u64, Operation::Add(s("visible"))),
        (200u64, Operation::Add(s("active"))),
        (200u64, Operation::Remove(s("visible"))),
        (
            500u64,
            Operation::Group(vec![Operation::Add(s("done")), Operation::Remove(s("active"))]),
        ),
    ];
    let ua = _use_animate(timeline);
    let mut run = ua.start(true).expect("a resolved target starts a run");
    let mut target = ClassSet::new();

    assert_eq!(run.next_wait(), 0);
    assert!(run.fire_next(&mut target));
    assert!(carries(&target, "visible"));
    assert_eq!(target.count(), 1);

    assert_eq!(run.next_wait(), 200);
    assert!(run.fire_next(&mut target));
    assert!(carries(&target, "visible"));
    assert!(carries(&target, "active"));

    assert_eq!(run.next_wait(), 0);
    assert!(run.fire_next(&mut target));
    assert!(!carries(&target, "visible"));
    assert!(carries(&target, "active"));
    assert_eq!(target.count(), 1);

    assert_eq!(run.next_wait(), 300);
    assert!(run.fire_next(&mut target));
    assert!(carries(&target, "done"));
    assert!(!carries(&target, "active"));
    assert_eq!(target.count(), 1);

    assert!(run.done());
    assert!(!run.fire_next(&mut target));
}

#[test]
fn run_to_end_folds_every_entry_in_order() {
    let ua = _use_animate(vec![
        (0u64, Operation::Add(s("a b"))),
        (10u64, Operation::Remove(s("a"))),
        (20u64, Operation::Add(s("c"))),
    ]);
    let mut run = ua.start(true).unwrap();
    let mut target = ClassSet::new();
    run.run_to_end(&mut target);
    assert!(!carries(&target, "a"));
    assert!(carries(&target, "b"));
    assert!(carries(&target, "c"));
    assert_eq!(target.count(), 2);
}

#[test]
fn cancelled_run_leaves_exactly_the_fired_prefix() {
    let ua = _use_animate(vec![
        (0u64, Operation::Add(s("a"))),
        (100u64, Operation::Add(s("b"))),
        (200u64, Operation::Remove(s("a"))),
        (300u64, Operation::Add(s("c"))),
    ]);
    let mut run = ua.start(true).unwrap();
    let mut target = ClassSet::new();
    run.fire_count(&mut target, 2);
    assert!(carries(&target, "a"));
    assert!(carries(&target, "b"));
    assert!(!carries(&target, "c"));
    assert_eq!(target.count(), 2);
    assert!(!run.done());
}

#[test]
fn waits_clamp_when_offsets_step_backwards() {
    let ua = _use_animate(vec![
        (100u64, Operation::Add(s("a"))),
        (50u64, Operation::Add(s("b"))),
        (200u64, Operation::Add(s("c"))),
    ]);
    let mut run = ua.start(true).unwrap();
    let mut target = ClassSet::new();
    assert_eq!(run.next_wait(), 100);
    run.fire_next(&mut target);
    assert_eq!(run.next_wait(), 0);
    run.fire_next(&mut target);
    assert_eq!(run.next_wait(), 150);
    run.fire_next(&mut target);
    assert!(run.done());
    assert_eq!(target.count(), 3);
}

#[test]
fn driving_a_run_by_hand_matches_the_driver() {
    let entries = vec![
        (0u64, Operation::Add(s("x y"))),
        (5u64, Operation::Remove(s("y"))),
    ];
    let ua = _use_animate(entries.clone());
    let mut run = ua.start(true).unwrap();
    let mut target = ClassSet::new();
    while !run.done() {
        let _wait = run.next_wait();
        let op = run.current().clone();
        apply(&mut target, &op);
        run.advance();
    }
    let other_ua = _use_animate(entries);
    let mut other_run = other_ua.start(true).unwrap();
    let mut other = ClassSet::new();
    other_run.run_to_end(&mut other);
    assert_eq!(target.count(), other.count());
    assert!(carries(&target, "x") && carries(&other, "x"));
    assert!(!carries(&target, "y") && !carries(&other, "y"));
}

use verusid_core::polling::{poll_step, target_height, PollStep};

#[test]
fn reaching_the_goal_ends_the_wait_whatever_the_time() {
    assert_eq!(poll_step(true, 0, 10), PollStep::Succeed);
    assert_eq!(poll_step(true, 10, 10), PollStep::Succeed);
    assert_eq!(poll_step(true, 11, 10), PollStep::Succeed);
    assert_eq!(poll_step(true, u64::MAX, 0), PollStep::Succeed);
}

#[test]
fn the_wait_gives_up_when_the_time_is_up() {
    assert_eq!(poll_step(false, 10, 10), PollStep::GiveUp);
    assert_eq!(poll_step(false, 11, 10), PollStep::GiveUp);
    assert_eq!(poll_step(false, 0, 0), PollStep::GiveUp);
    assert_eq!(poll_step(false, 9, 10), PollStep::Wait);
    assert_eq!(poll_step(false, 0, 1), PollStep::Wait);
    assert_eq!(poll_step(false, u64::MAX - 1, u64::MAX), PollStep::Wait);
}

#[test]
fn the_target_height_stops_at_the_greatest_height() {
    assert_eq!(target_height(100, 3), 103);
    assert_eq!(target_height(0, 0), 0);
    assert_eq!(target_height(u64::MAX, 1), u64::MAX);
    assert_eq!(target_height(u64::MAX - 2, 2), u64::MAX);
    assert_eq!(target_height(u64::MAX - 2, 3), u64::MAX);
    assert_eq!(target_height(1, u64::MAX), u64::MAX);
}

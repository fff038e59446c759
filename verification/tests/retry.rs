use rs_aio_db::db::internal::retry::{RetryingExecutor, Step, RETRY_DELAY_MS};

fn run(budget: u32, results: &[Option<usize>]) -> (u32, Option<usize>) {
    let mut executor = RetryingExecutor::new(budget);
    let mut attempts: u32 = 0;
    loop {
        match executor.next_step() {
            Step::GiveUp => return (attempts, None),
            Step::Attempt => {
                let result = results.get(attempts as usize).copied().flatten();
                attempts += 1;
                match result {
                    Some(rows) => return (attempts, Some(rows)),
                    None => {
                        assert_eq!(executor.attempt_failed(), RETRY_DELAY_MS);
                    }
                }
            }
        }
    }
}

#[test]
fn a_write_that_always_fails_is_tried_exactly_as_often_as_the_budget_says() {
    for budget in [0u32, 1, 2, 5, 15, 100] {
        assert_eq!(run(budget, &[]), (budget, None));
    }
}

#[test]
fn a_write_stops_at_its_first_success() {
    assert_eq!(run(5, &[Some(3)]), (1, Some(3)));
    assert_eq!(run(5, &[None, None, Some(1), Some(9)]), (3, Some(1)));
    assert_eq!(run(5, &[None, None, None, None, Some(0)]), (5, Some(0)));
}

#[test]
fn a_success_beyond_the_budget_is_never_reached() {
    assert_eq!(run(5, &[None, None, None, None, None, Some(1)]), (5, None));
    assert_eq!(run(0, &[Some(1)]), (0, None));
    assert_eq!(run(1, &[None, Some(1)]), (1, None));
}

#[test]
fn the_pause_between_attempts_is_ten_milliseconds() {
    assert_eq!(RETRY_DELAY_MS, 10);
    let mut executor = RetryingExecutor::new(1);
    assert_eq!(executor.attempt_failed(), 10);
}

#[test]
fn failures_are_counted_up_to_the_budget() {
    let mut executor = RetryingExecutor::new(2);
    assert_eq!(executor.failures(), 0);
    assert_eq!(executor.next_step(), Step::Attempt);
    executor.attempt_failed();
    assert_eq!(executor.failures(), 1);
    assert_eq!(executor.next_step(), Step::Attempt);
    executor.attempt_failed();
    assert_eq!(executor.failures(), 2);
    assert_eq!(executor.next_step(), Step::GiveUp);
    executor.attempt_failed();
    assert_eq!(executor.failures(), 2);
    assert_eq!(executor.next_step(), Step::GiveUp);
}

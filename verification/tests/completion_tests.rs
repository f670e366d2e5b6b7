use monarch_hixl::completion::CompletionWaiter;
use monarch_hixl::completion::WaitStep;
use monarch_hixl::errors::RdmaError;

/// Drive a waiter the way the shell does: one deadline check, then one
/// polling pass per tick, with `schedule[pass][i]` answering for the
/// i-th identifier of the original list.  `ticks` is how many polling
/// passes fit before the deadline elapses.
fn drive(
    ids: Vec<u64>,
    schedule: &[Vec<Result<bool, RdmaError>>],
    ticks: usize,
) -> (Result<bool, RdmaError>, usize) {
    let all_ids = ids.clone();
    let mut w = CompletionWaiter::new(ids);
    let mut polls: usize = 0;
    loop {
        match w.next_step(polls >= ticks) {
            WaitStep::PollAll => {
                let outstanding = w.outstanding_ids().clone();
                let pass: Vec<Result<bool, RdmaError>> = outstanding
                    .iter()
                    .map(|id| {
                        let slot = all_ids.iter().position(|x| x == id).unwrap();
                        schedule[polls][slot].clone()
                    })
                    .collect();
                polls += 1;
                if let Err(e) = w.apply_poll(pass) {
                    return (Err(e), polls);
                }
            }
            step => return (step.verdict(), polls),
        }
    }
}

#[test]
fn empty_list_succeeds_without_polling() {
    let w = CompletionWaiter::new(Vec::new());
    assert_eq!(w.next_step(false), WaitStep::Succeeded);
    assert_eq!(w.next_step(true), WaitStep::Succeeded);
    let (r, polls) = drive(Vec::new(), &[], 0);
    assert_eq!(r, Ok(true));
    assert_eq!(polls, 0);
}

#[test]
fn zero_timeout_times_out_on_first_deadline_check() {
    let w = CompletionWaiter::new(vec![7u64]);
    assert_eq!(w.next_step(true), WaitStep::TimedOut);
    assert_eq!(WaitStep::TimedOut.verdict(), Err(RdmaError::TimeoutError));
    let never_done: Vec<Vec<Result<bool, RdmaError>>> = vec![vec![Ok(false)]; 8];
    let (r, polls) = drive(vec![7u64], &never_done, 0);
    assert_eq!(r, Err(RdmaError::TimeoutError));
    assert_eq!(polls, 0);
}

#[test]
fn first_error_aborts_the_whole_wait() {
    let boom = RdmaError::TransferStatusError {
        code: 3,
        detail: String::from("remote fault"),
    };
    let mut w = CompletionWaiter::new(vec![1u64, 2u64]);
    let pass: Vec<Result<bool, RdmaError>> = vec![Err(boom.clone()), Ok(true)];
    assert_eq!(w.apply_poll(pass), Err(boom.clone()));
    // The wait aborted: the outstanding set was left as it was.
    assert_eq!(w.outstanding_count(), 2);
    // Through the driver: the second identifier would have completed on
    // a later poll, yet the error of the first wins immediately.
    let schedule: Vec<Vec<Result<bool, RdmaError>>> = vec![
        vec![Err(boom.clone()), Ok(false)],
        vec![Ok(true), Ok(true)],
    ];
    let (r, polls) = drive(vec![1u64, 2u64], &schedule, 10);
    assert_eq!(r, Err(boom));
    assert_eq!(polls, 1);
}

#[test]
fn pending_twice_then_done_succeeds_after_three_polls() {
    let schedule: Vec<Vec<Result<bool, RdmaError>>> = vec![
        vec![Ok(false)],
        vec![Ok(false)],
        vec![Ok(true)],
    ];
    let (r, polls) = drive(vec![9u64], &schedule, 10);
    assert_eq!(r, Ok(true));
    assert_eq!(polls, 3);
}

#[test]
fn completed_ids_leave_immediately_and_order_is_kept() {
    let mut w = CompletionWaiter::new(vec![1u64, 2u64, 3u64]);
    let pass: Vec<Result<bool, RdmaError>> = vec![Ok(true), Ok(false), Ok(true)];
    assert_eq!(w.apply_poll(pass), Ok(()));
    assert_eq!(w.outstanding_ids().as_slice(), &[2u64]);
    let pass2: Vec<Result<bool, RdmaError>> = vec![Ok(false)];
    assert_eq!(w.apply_poll(pass2), Ok(()));
    assert_eq!(w.outstanding_ids().as_slice(), &[2u64]);
}

#[test]
fn success_wins_over_elapsed_deadline_once_empty() {
    let mut w = CompletionWaiter::new(vec![4u64]);
    let pass: Vec<Result<bool, RdmaError>> = vec![Ok(true)];
    assert_eq!(w.apply_poll(pass), Ok(()));
    // All done: even an elapsed deadline reports success, immediately.
    assert_eq!(w.next_step(true), WaitStep::Succeeded);
    assert_eq!(WaitStep::Succeeded.verdict(), Ok(true));
}

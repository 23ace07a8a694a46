use std::cell::Cell;
use std::rc::Rc;

use devconcurrent::{first_error, label_color, Error, Runnable, Runner, Token};

struct FlagTask {
    task_name: String,
    fail_with: Option<String>,
    ran: Rc<Cell<bool>>,
}

impl Runnable for FlagTask {
    fn name(&self) -> String {
        self.task_name.clone()
    }

    fn description(&self) -> String {
        format!("flag task {}", self.task_name)
    }

    fn run(self, _token: Token) -> Result<(), Error> {
        self.ran.set(true);
        match self.fail_with {
            Some(msg) => Err(Error::Msg(msg)),
            None => Ok(()),
        }
    }
}

fn task(name: &str, fail_with: Option<&str>) -> (FlagTask, Rc<Cell<bool>>) {
    let ran = Rc::new(Cell::new(false));
    (
        FlagTask {
            task_name: name.to_string(),
            fail_with: fail_with.map(|s| s.to_string()),
            ran: ran.clone(),
        },
        ran,
    )
}

#[test]
fn run_parallel_runs_all_and_returns_first_error() {
    let (t1, f1) = task("one", None);
    let (t2, f2) = task("two", Some("boom"));
    let (t3, f3) = task("three", None);
    let result = Runner::run_parallel(vec![t1, t2, t3]);
    assert!(f1.get(), "first task body must run to completion");
    assert!(f2.get(), "failing task body must run to completion");
    assert!(f3.get(), "task after a failure must still run to completion");
    let err = result.unwrap_err();
    let msg = err.message();
    assert!(msg.contains("boom"), "error must carry the failure: {msg}");
    assert!(msg.contains("two"), "error must carry the task name: {msg}");
}

#[test]
fn run_parallel_error_is_first_by_index() {
    let (t1, _f1) = task("alpha", Some("first-failure"));
    let (t2, _f2) = task("beta", Some("second-failure"));
    let err = Runner::run_parallel(vec![t1, t2]).unwrap_err();
    let msg = err.message();
    assert!(msg.contains("first-failure"));
    assert!(!msg.contains("second-failure"));
}

#[test]
fn run_parallel_of_successes_succeeds() {
    let (t1, f1) = task("a", None);
    let (t2, f2) = task("b", None);
    assert!(Runner::run_parallel(vec![t1, t2]).is_ok());
    assert!(f1.get() && f2.get());
}

#[test]
fn run_wraps_the_error_with_the_task_name() {
    let (t, f) = task("cleanup", Some("went wrong"));
    let err = Runner::run(t).unwrap_err();
    assert!(f.get());
    assert!(matches!(err, Error::Context { .. }));
    let msg = err.message();
    assert_eq!(msg, "cleanup: went wrong");
}

#[test]
fn run_success_is_success() {
    let (t, f) = task("fine", None);
    assert!(Runner::run(t).is_ok());
    assert!(f.get());
}

#[test]
fn first_error_picks_least_index() {
    let results: Vec<Result<(), Error>> = vec![
        Ok(()),
        Err(Error::Msg("one".to_string())),
        Err(Error::Msg("two".to_string())),
    ];
    let err = first_error(results).unwrap_err();
    assert_eq!(err.message(), "one");
    let all_ok: Vec<Result<(), Error>> = vec![Ok(()), Ok(())];
    assert!(first_error(all_ok).is_ok());
}

#[test]
fn label_colors_cycle_by_position() {
    let c0 = label_color(0);
    assert_eq!(label_color(4), c0);
    assert_eq!(label_color(8), c0);
    assert_ne!(label_color(1), c0);
    assert_ne!(label_color(2), c0);
    assert_ne!(label_color(3), c0);
    // Deterministic: a pure function of the index.
    assert_eq!(label_color(2), label_color(2));
}

#[test]
fn run_parallel_of_nothing_succeeds() {
    let tasks: Vec<FlagTask> = vec![];
    assert!(Runner::run_parallel(tasks).is_ok());
}

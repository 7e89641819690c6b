use call_dispatch::dispatch::Dispatch;
use call_dispatch::domain::{make_call, AssignedCall, Call, Department, Status, User};

fn roster_statuses(d: &Dispatch) -> Vec<Status> {
    d.users.iter().map(|u| u.status).collect()
}

#[test]
fn scenario_a_renewal_call_matches_bob() {
    let mut d = Dispatch::new();
    d.submit_call(11);
    assert_eq!(d.calls.len(), 1);
    assert_eq!(d.calls[0].department, Department::Renewal);
    d.matcher_tick();
    assert_eq!(d.assigned.len(), 1);
    assert_eq!(d.assigned[0].user_id, 2);
    assert_eq!(d.assigned[0].call_id, 11);
    assert_eq!(d.users[1].status, Status::OnCall);
    assert!(d.calls.is_empty());
}

#[test]
fn scenario_b_unmatched_call_waits() {
    let mut d = Dispatch::new();
    // Occupy the only Sales agent, then queue another Sales call.
    d.submit_call(10);
    d.matcher_tick();
    assert_eq!(d.users[0].status, Status::OnCall);
    d.submit_call(15);
    d.matcher_tick();
    d.matcher_tick();
    d.matcher_tick();
    assert_eq!(d.calls.len(), 1);
    assert_eq!(d.calls[0].id, 15);
    // Once the Sales agent is freed, the waiting call is matched.
    d.resetter_tick();
    assert_eq!(d.users[0].status, Status::Available);
    d.matcher_tick();
    assert!(d.calls.is_empty());
    assert_eq!(d.assigned.len(), 2);
    assert_eq!(d.assigned[1].user_id, 1);
    assert_eq!(d.assigned[1].call_id, 15);
}

#[test]
fn scenario_c_resetter_frees_bob_and_keeps_log() {
    let mut d = Dispatch::new();
    d.submit_call(11);
    d.matcher_tick();
    assert_eq!(d.users[1].status, Status::OnCall);
    d.resetter_tick();
    assert_eq!(d.users[1].status, Status::Available);
    assert_eq!(d.assigned.len(), 1);
    assert_eq!(d.assigned[0].user_id, 2);
    assert_eq!(d.assigned[0].call_id, 11);
}

#[test]
fn scenario_d_colliding_ids_are_kept_distinct() {
    let mut d = Dispatch::new();
    d.submit_call(10);
    d.submit_call(10);
    assert_eq!(d.calls.len(), 2);
    assert_eq!(d.calls[0].id, 10);
    assert_eq!(d.calls[1].id, 10);
    // One Sales agent: the first call is matched, the second stays queued.
    d.matcher_tick();
    assert_eq!(d.calls.len(), 1);
    assert_eq!(d.calls[0].id, 10);
    assert_eq!(d.assigned.len(), 1);
    assert_eq!(d.assigned[0].call_id, 10);
    // After the agent is freed, the second is matched independently.
    d.resetter_tick();
    d.matcher_tick();
    assert!(d.calls.is_empty());
    assert_eq!(d.assigned.len(), 2);
    assert_eq!(d.assigned[1].call_id, 10);
}

#[test]
fn removed_calls_are_accounted_for_by_assignments() {
    let mut d = Dispatch::new();
    for id in [10, 11, 15, 12, 16] {
        d.submit_call(id);
    }
    let queued_before = d.calls.len();
    let logged_before = d.assigned.len();
    d.matcher_tick();
    // Every call removed from the queue shows up as an appended assignment.
    assert_eq!(
        queued_before - d.calls.len(),
        d.assigned.len() - logged_before
    );
    // Sales 10, Renewal 11, Audit 12 matched; Sales 15 and 16 wait.
    assert_eq!(d.calls.len(), 2);
    assert_eq!(d.calls[0].id, 15);
    assert_eq!(d.calls[1].id, 16);
}

#[test]
fn unmatched_calls_keep_fifo_order() {
    let mut d = Dispatch::new();
    d.submit_call(10);
    d.matcher_tick();
    for id in [15, 20, 25] {
        d.submit_call(id);
    }
    let details: Vec<String> = d.calls.iter().map(|c| c.details.clone()).collect();
    d.matcher_tick();
    assert_eq!(d.calls.len(), 3);
    assert_eq!(d.calls[0].id, 15);
    assert_eq!(d.calls[1].id, 20);
    assert_eq!(d.calls[2].id, 25);
    let after: Vec<String> = d.calls.iter().map(|c| c.details.clone()).collect();
    assert_eq!(details, after);
}

#[test]
fn on_call_agent_is_not_matched_again() {
    let mut d = Dispatch::new();
    d.submit_call(11);
    d.matcher_tick();
    assert_eq!(d.users[1].status, Status::OnCall);
    d.submit_call(16);
    d.matcher_tick();
    // Bob is OnCall, so the second Renewal call waits.
    assert_eq!(d.calls.len(), 1);
    assert_eq!(d.calls[0].id, 16);
    assert_eq!(d.assigned.len(), 1);
}

#[test]
fn first_available_agent_by_roster_position_wins() {
    let mut d = Dispatch::new();
    d.users = vec![
        User {
            id: 30,
            name: "Frank".to_string(),
            department: Department::Sales,
            status: Status::OnCall,
        },
        User {
            id: 31,
            name: "Grace".to_string(),
            department: Department::Sales,
            status: Status::Available,
        },
        User {
            id: 32,
            name: "Heidi".to_string(),
            department: Department::Sales,
            status: Status::Available,
        },
    ];
    d.submit_call(10);
    d.matcher_tick();
    assert_eq!(d.assigned.len(), 1);
    assert_eq!(d.assigned[0].user_id, 31);
    assert_eq!(d.users[1].status, Status::OnCall);
    assert_eq!(d.users[2].status, Status::Available);
}

#[test]
fn break_and_logged_out_agents_are_never_matched() {
    let mut d = Dispatch::new();
    d.users = vec![
        User {
            id: 40,
            name: "Ivan".to_string(),
            department: Department::Sales,
            status: Status::Break,
        },
        User {
            id: 41,
            name: "Judy".to_string(),
            department: Department::Sales,
            status: Status::LoggedOut,
        },
    ];
    d.submit_call(10);
    d.matcher_tick();
    assert_eq!(d.calls.len(), 1);
    assert!(d.assigned.is_empty());
    assert_eq!(d.users[0].status, Status::Break);
    assert_eq!(d.users[1].status, Status::LoggedOut);
}

#[test]
fn resetter_never_frees_break_or_logged_out() {
    let mut d = Dispatch::new();
    d.users = vec![
        User {
            id: 1,
            name: "Ivan".to_string(),
            department: Department::Sales,
            status: Status::Break,
        },
        User {
            id: 2,
            name: "Judy".to_string(),
            department: Department::Renewal,
            status: Status::LoggedOut,
        },
        User {
            id: 3,
            name: "Ken".to_string(),
            department: Department::Audit,
            status: Status::OnCall,
        },
    ];
    // All three agents appear in the log, whatever their status.
    d.assigned = vec![
        AssignedCall { user_id: 1, call_id: 10 },
        AssignedCall { user_id: 2, call_id: 11 },
        AssignedCall { user_id: 3, call_id: 12 },
    ];
    d.resetter_tick();
    // Only the on-call agent is freed; Break and LoggedOut stay as they are.
    assert_eq!(d.users[0].status, Status::Break);
    assert_eq!(d.users[1].status, Status::LoggedOut);
    assert_eq!(d.users[2].status, Status::Available);
    assert_eq!(d.assigned.len(), 3);
}

#[test]
fn resetter_is_idempotent() {
    let mut d = Dispatch::new();
    d.submit_call(10);
    d.submit_call(11);
    d.matcher_tick();
    d.resetter_tick();
    let once = roster_statuses(&d);
    d.resetter_tick();
    let twice = roster_statuses(&d);
    assert_eq!(once, twice);
    assert_eq!(d.users[0].status, Status::Available);
    assert_eq!(d.users[1].status, Status::Available);
}

#[test]
fn resetter_leaves_unlogged_agents_alone() {
    let mut d = Dispatch::new();
    d.submit_call(11);
    d.matcher_tick();
    let charlie_before = d.users[2].status;
    d.resetter_tick();
    assert_eq!(d.users[2].status, charlie_before);
    assert_eq!(d.users[2].status, Status::Available);
    // The log itself is untouched by the sweep.
    assert_eq!(d.assigned.len(), 1);
}

#[test]
fn generator_tick_appends_one_derived_call() {
    let mut d = Dispatch::new();
    for round in 0..20 {
        assert_eq!(d.calls.len(), round);
        d.generator_tick();
        assert_eq!(d.calls.len(), round + 1);
        let c: &Call = d.calls.last().unwrap();
        assert!(1 <= c.id && c.id < 9999);
        let expected = make_call(c.id);
        assert_eq!(c.department, expected.department);
        assert_eq!(c.details, expected.details);
        assert_eq!(c.details, format!("Call details for ID {}", c.id));
    }
    // The generator touches neither the roster nor the log.
    assert_eq!(d.users.len(), 5);
    assert!(d.assigned.is_empty());
}

#[test]
fn log_grows_monotonically() {
    let mut d = Dispatch::new();
    let mut seen: Vec<(i32, i32)> = Vec::new();
    for id in [10, 11, 12, 13, 14] {
        d.submit_call(id);
        d.matcher_tick();
        d.resetter_tick();
        let now: Vec<(i32, i32)> = d.assigned.iter().map(|a| (a.user_id, a.call_id)).collect();
        assert_eq!(&now[..seen.len()], &seen[..]);
        assert_eq!(now.len(), seen.len() + 1);
        seen = now;
    }
    assert_eq!(
        seen,
        vec![(1, 10), (2, 11), (3, 12), (4, 13), (5, 14)]
    );
}

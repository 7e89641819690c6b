//! Laws of the dispatch engine, stated over the spec-level pass and sweep
//! functions that the tick contracts are written with.

use vstd::prelude::*;
use crate::domain::{AssignedCall, Call, Department, Status, User};
use crate::dispatch::{find_agent, match_pass, reset_all, reset_user, user_logged, with_status};

verus! {

/// The number of queued calls that carry the given id.
pub open spec fn count_calls_with_id(s: Seq<Call>, id: i32) -> nat
    decreases s.len(),
{
    if s.len() == 0 {
        0
    } else {
        (if s[0].id == id {
            1nat
        } else {
            0nat
        }) + count_calls_with_id(s.drop_first(), id)
    }
}

/// The number of logged assignments that carry the given call id.
pub open spec fn count_assigned_with_id(s: Seq<AssignedCall>, id: i32) -> nat
    decreases s.len(),
{
    if s.len() == 0 {
        0
    } else {
        (if s[0].call_id == id {
            1nat
        } else {
            0nat
        }) + count_assigned_with_id(s.drop_first(), id)
    }
}

proof fn lemma_count_calls_cons(c: Call, s: Seq<Call>, id: i32)
    ensures
        count_calls_with_id(seq![c] + s, id) == (if c.id == id {
            1nat
        } else {
            0nat
        }) + count_calls_with_id(s, id),
{
    assert((seq![c] + s).drop_first() =~= s);
    assert((seq![c] + s)[0] == c);
}

proof fn lemma_count_assigned_cons(a: AssignedCall, s: Seq<AssignedCall>, id: i32)
    ensures
        count_assigned_with_id(seq![a] + s, id) == (if a.call_id == id {
            1nat
        } else {
            0nat
        }) + count_assigned_with_id(s, id),
{
    assert((seq![a] + s).drop_first() =~= s);
    assert((seq![a] + s)[0] == a);
}

/// A matcher pass neither loses nor invents calls: every call of the input
/// queue is either still queued afterwards or accounted for by exactly one
/// assignment appended in that same pass, counted per call id with
/// multiplicity.
pub proof fn lemma_queue_conserved(users: Seq<User>, calls: Seq<Call>, id: i32)
    ensures
        count_calls_with_id(calls, id) == count_calls_with_id(match_pass(users, calls).1, id)
            + count_assigned_with_id(match_pass(users, calls).2, id),
    decreases calls.len(),
{
    if calls.len() == 0 {
    } else {
        let c = calls[0];
        assert(calls =~= seq![c] + calls.drop_first());
        lemma_count_calls_cons(c, calls.drop_first(), id);
        match find_agent(users, c.department, 0) {
            Some(i) => {
                let users2 = users.update(i, with_status(users[i], Status::OnCall));
                let asg = AssignedCall { user_id: users[i].id, call_id: c.id };
                lemma_queue_conserved(users2, calls.drop_first(), id);
                lemma_count_assigned_cons(asg, match_pass(users2, calls.drop_first()).2, id);
            },
            None => {
                lemma_queue_conserved(users, calls.drop_first(), id);
                lemma_count_calls_cons(c, match_pass(users, calls.drop_first()).1, id);
            },
        }
    }
}

/// A matcher pass appends exactly one assignment for each call it removes
/// from the queue: the remaining queue and the appended assignments together
/// account for the whole input queue, one for one.
pub proof fn lemma_pass_lengths(users: Seq<User>, calls: Seq<Call>)
    ensures
        match_pass(users, calls).1.len() + match_pass(users, calls).2.len() == calls.len(),
    decreases calls.len(),
{
    if calls.len() == 0 {
    } else {
        let c = calls[0];
        match find_agent(users, c.department, 0) {
            Some(i) => {
                lemma_pass_lengths(
                    users.update(i, with_status(users[i], Status::OnCall)),
                    calls.drop_first(),
                );
            },
            None => {
                lemma_pass_lengths(users, calls.drop_first());
            },
        }
    }
}

proof fn lemma_find_agent_props(users: Seq<User>, dept: Department, i: int, j: int)
    requires
        find_agent(users, dept, i) == Some(j),
    ensures
        i <= j < users.len(),
        users[j].department == dept,
        users[j].status == Status::Available,
    decreases users.len() - i,
{
    if i < 0 || i >= users.len() {
    } else if users[i].department == dept && users[i].status == Status::Available {
    } else {
        lemma_find_agent_props(users, dept, i + 1, j);
    }
}

/// An assignment appended by the pass that justifies agent `j`'s transition:
/// assignment `k` names that agent, and input call `m` is the matched call,
/// of the agent's own department.
pub open spec fn evidence_at(users: Seq<User>, calls: Seq<Call>, j: int, k: int, m: int) -> bool {
    let r = match_pass(users, calls);
    &&& 0 <= k < r.2.len()
    &&& 0 <= m < calls.len()
    &&& r.2[k].user_id == users[j].id
    &&& r.2[k].call_id == calls[m].id
    &&& calls[m].department == users[j].department
}

/// Some assignment appended by the pass justifies agent `j`'s transition.
pub open spec fn match_evidence(users: Seq<User>, calls: Seq<Call>, j: int) -> bool {
    exists|k: int, m: int| evidence_at(users, calls, j, k, m)
}

/// A matcher pass never changes an agent's identity, name, or department;
/// and it changes an agent's status only from Available to OnCall, and only
/// as a consequence of a match to a call of the agent's own department,
/// recorded in the appended assignments.
pub proof fn lemma_on_call_only_from_match(users: Seq<User>, calls: Seq<Call>, j: int)
    requires
        0 <= j < users.len(),
    ensures
        match_pass(users, calls).0.len() == users.len(),
        match_pass(users, calls).0[j].id == users[j].id,
        match_pass(users, calls).0[j].name == users[j].name,
        match_pass(users, calls).0[j].department == users[j].department,
        match_pass(users, calls).0[j].status != users[j].status ==> {
            &&& users[j].status == Status::Available
            &&& match_pass(users, calls).0[j].status == Status::OnCall
            &&& match_evidence(users, calls, j)
        },
    decreases calls.len(),
{
    if calls.len() == 0 {
    } else {
        let c = calls[0];
        let r = match_pass(users, calls);
        match find_agent(users, c.department, 0) {
            Some(i) => {
                lemma_find_agent_props(users, c.department, 0, i);
                let users2 = users.update(i, with_status(users[i], Status::OnCall));
                let asg = AssignedCall { user_id: users[i].id, call_id: c.id };
                let rest = match_pass(users2, calls.drop_first());
                lemma_on_call_only_from_match(users2, calls.drop_first(), j);
                assert(r.2 == seq![asg] + rest.2);
                if j == i {
                    if r.0[j].status != users[j].status {
                        assert(r.2[0] == asg);
                        assert(calls[0].department == users[j].department);
                        assert(evidence_at(users, calls, j, 0, 0));
                    }
                } else {
                    assert(users2[j] == users[j]);
                    if r.0[j].status != users[j].status {
                        let (k, m): (int, int) = choose|k: int, m: int|
                            evidence_at(users2, calls.drop_first(), j, k, m);
                        assert(r.2[k + 1] == rest.2[k]);
                        assert(calls[m + 1] == calls.drop_first()[m]);
                        assert(evidence_at(users, calls, j, k + 1, m + 1));
                    }
                }
            },
            None => {
                lemma_on_call_only_from_match(users, calls.drop_first(), j);
                if r.0[j].status != users[j].status {
                    let (k, m): (int, int) = choose|k: int, m: int|
                        evidence_at(users, calls.drop_first(), j, k, m);
                    assert(calls[m + 1] == calls.drop_first()[m]);
                    assert(evidence_at(users, calls, j, k, m + 1));
                }
            },
        }
    }
}

/// A resetter sweep is idempotent: sweeping twice with no intervening match
/// leaves exactly the roster of one sweep.
pub proof fn lemma_resetter_idempotent(users: Seq<User>, log: Seq<AssignedCall>)
    ensures
        reset_all(reset_all(users, log), log) == reset_all(users, log),
{
    assert forall|i: int| 0 <= i < users.len() implies reset_all(reset_all(users, log), log)[i]
        == reset_all(users, log)[i] by {
        assert(reset_user(users[i], log).id == users[i].id);
    }
    assert(reset_all(reset_all(users, log), log) =~= reset_all(users, log));
}

/// A resetter sweep never changes an agent's identity, name, or department,
/// and it changes an agent's status only from OnCall to Available, and only
/// for an agent the log records; agents on break or logged out are left
/// exactly as they are.
pub proof fn lemma_resetter_only_frees(users: Seq<User>, log: Seq<AssignedCall>, j: int)
    requires
        0 <= j < users.len(),
    ensures
        reset_all(users, log).len() == users.len(),
        reset_all(users, log)[j].id == users[j].id,
        reset_all(users, log)[j].name == users[j].name,
        reset_all(users, log)[j].department == users[j].department,
        reset_all(users, log)[j].status != users[j].status ==> {
            &&& users[j].status == Status::OnCall
            &&& reset_all(users, log)[j].status == Status::Available
            &&& user_logged(log, users[j].id)
        },
        users[j].status == Status::Break || users[j].status == Status::LoggedOut ==> reset_all(
            users,
            log,
        )[j] == users[j],
{
}

} // verus!

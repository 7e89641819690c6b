//! The dispatch engine: one context object holding the roster, the
//! pending-call queue, and the append-only assignment log, together with the
//! three tick operations that produce, match, and recycle against it.

use vstd::prelude::*;
use crate::domain::{
    AssignedCall, Call, Department, Status, User, create_users, generated_call, is_call_for,
    make_call, seed_roster,
};
use crate::rng::random_id;

verus! {

/// A copy of a user with its status replaced.
pub open spec fn with_status(u: User, s: Status) -> User {
    User { id: u.id, name: u.name, department: u.department, status: s }
}

/// The index of the first agent at or after position `i` whose department is
/// `dept` and whose status is `Available`, if any.
pub open spec fn find_agent(users: Seq<User>, dept: Department, i: int) -> Option<int>
    decreases users.len() - i,
{
    if i < 0 || i >= users.len() {
        None
    } else if users[i].department == dept && users[i].status == Status::Available {
        Some(i)
    } else {
        find_agent(users, dept, i + 1)
    }
}

/// One full matcher pass over the queue, in FIFO order: for each call, the
/// first available same-department agent (by roster position) is put on call
/// and an assignment is recorded; a call without an eligible agent keeps its
/// relative position in the queue. Returns the roster after the pass, the
/// calls still queued, and the assignments appended, in order.
pub open spec fn match_pass(users: Seq<User>, calls: Seq<Call>) -> (Seq<User>, Seq<Call>, Seq<
    AssignedCall,
>)
    decreases calls.len(),
{
    if calls.len() == 0 {
        (users, Seq::<Call>::empty(), Seq::<AssignedCall>::empty())
    } else {
        let c = calls[0];
        match find_agent(users, c.department, 0) {
            Some(i) => {
                let asg = AssignedCall { user_id: users[i].id, call_id: c.id };
                let rest = match_pass(
                    users.update(i, with_status(users[i], Status::OnCall)),
                    calls.drop_first(),
                );
                (rest.0, rest.1, seq![asg] + rest.2)
            },
            None => {
                let rest = match_pass(users, calls.drop_first());
                (rest.0, seq![c] + rest.1, rest.2)
            },
        }
    }
}

/// Whether the assignment log records at least one match for this user id.
pub open spec fn user_logged(log: Seq<AssignedCall>, id: i32) -> bool {
    exists|k: int| 0 <= k < log.len() && log[k].user_id == id
}

/// One user after a resetter sweep: available again if the log ever recorded
/// a match for it and it is on call (or already available), untouched
/// otherwise. Agents on break or logged out are never transitioned by the
/// sweep, logged or not.
pub open spec fn reset_user(u: User, log: Seq<AssignedCall>) -> User {
    if user_logged(log, u.id) && (u.status == Status::OnCall || u.status == Status::Available) {
        with_status(u, Status::Available)
    } else {
        u
    }
}

/// The whole roster after a resetter sweep.
pub open spec fn reset_all(users: Seq<User>, log: Seq<AssignedCall>) -> Seq<User> {
    Seq::new(users.len(), |i: int| reset_user(users[i], log))
}

/// The shared dispatch state: the agent roster, the pending-call queue, and
/// the append-only assignment log. One instance exists per process.
pub struct Dispatch {
    pub users: Vec<User>,
    pub calls: Vec<Call>,
    pub assigned: Vec<AssignedCall>,
}

impl Dispatch {
    /// A fresh context: the fixed seed roster, an empty queue, an empty log.
    pub fn new() -> (d: Dispatch)
        ensures
            seed_roster(d.users@),
            d.calls@ == Seq::<Call>::empty(),
            d.assigned@ == Seq::<AssignedCall>::empty(),
    {
        Dispatch { users: create_users(), calls: Vec::new(), assigned: Vec::new() }
    }

    /// Appends the call built from the given id to the tail of the queue.
    /// The roster and the log are untouched.
    pub fn submit_call(&mut self, id: i32)
        requires
            1 <= id < 9999,
        ensures
            final(self).calls@ == old(self).calls@.push(final(self).calls@.last()),
            is_call_for(final(self).calls@.last(), id as int),
            final(self).users == old(self).users,
            final(self).assigned == old(self).assigned,
    {
        let c = make_call(id);
        self.calls.push(c);
        proof {
            assert(final(self).calls@ =~= old(self).calls@.push(final(self).calls@.last()));
        }
    }

    /// One generator tick: draws a fresh id and queues the call built from
    /// it. Exactly one call is appended; it is a generated call, whatever id
    /// was drawn.
    pub fn generator_tick(&mut self)
        ensures
            final(self).calls@ == old(self).calls@.push(final(self).calls@.last()),
            generated_call(final(self).calls@.last()),
            final(self).users == old(self).users,
            final(self).assigned == old(self).assigned,
    {
        let id = random_id();
        self.submit_call(id);
    }

    /// One matcher tick: a single FIFO pass over the whole queue against the
    /// roster and the log, exactly as `match_pass` describes it. Assignments
    /// are appended to the log in match order; unmatched calls stay queued in
    /// their original relative order.
    pub fn matcher_tick(&mut self)
        ensures
            final(self).users@ == match_pass(old(self).users@, old(self).calls@).0,
            final(self).calls@ == match_pass(old(self).users@, old(self).calls@).1,
            final(self).assigned@ == old(self).assigned@ + match_pass(
                old(self).users@,
                old(self).calls@,
            ).2,
    {
        let ghost u0 = self.users@;
        let ghost c0 = self.calls@;
        let ghost a0 = self.assigned@;
        let mut kept: Vec<Call> = Vec::new();
        proof {
            assert(kept@ + match_pass(u0, c0).1 =~= match_pass(u0, c0).1);
        }
        while self.calls.len() > 0
            invariant
                match_pass(u0, c0).0 == match_pass(self.users@, self.calls@).0,
                match_pass(u0, c0).1 == kept@ + match_pass(self.users@, self.calls@).1,
                a0 + match_pass(u0, c0).2 == self.assigned@ + match_pass(
                    self.users@,
                    self.calls@,
                ).2,
            decreases self.calls@.len(),
        {
            let ghost us = self.users@;
            let ghost cs = self.calls@;
            let ghost asq = self.assigned@;
            let call = self.calls.remove(0);
            proof {
                assert(self.calls@ =~= cs.drop_first());
            }
            match find_available(&self.users, call.department) {
                Some(i) => {
                    let mut agent = self.users.remove(i);
                    let ghost prev = agent;
                    agent.status = Status::OnCall;
                    let uid = agent.id;
                    self.users.insert(i, agent);
                    self.assigned.push(AssignedCall { user_id: uid, call_id: call.id });
                    proof {
                        assert(prev == us[i as int]);
                        assert(agent == with_status(prev, Status::OnCall));
                        assert(self.users@ =~= us.update(
                            i as int,
                            with_status(us[i as int], Status::OnCall),
                        ));
                        let asg = AssignedCall { user_id: us[i as int].id, call_id: cs[0].id };
                        assert(match_pass(us, cs).0 == match_pass(self.users@, self.calls@).0);
                        assert(match_pass(us, cs).1 == match_pass(self.users@, self.calls@).1);
                        assert(match_pass(us, cs).2 == seq![asg] + match_pass(
                            self.users@,
                            self.calls@,
                        ).2);
                        assert(self.assigned@ =~= asq.push(asg));
                        assert(asq + (seq![asg] + match_pass(self.users@, self.calls@).2) =~= asq.push(
                            asg,
                        ) + match_pass(self.users@, self.calls@).2);
                    }
                },
                None => {
                    kept.push(call);
                    proof {
                        assert(match_pass(us, cs).1 == seq![cs[0]] + match_pass(
                            self.users@,
                            self.calls@,
                        ).1);
                        assert(kept@.drop_last() + (seq![cs[0]] + match_pass(
                            self.users@,
                            self.calls@,
                        ).1) =~= kept@ + match_pass(self.users@, self.calls@).1);
                    }
                },
            }
        }
        proof {
            assert(self.calls@.len() == 0);
            assert(match_pass(u0, c0).1 =~= kept@);
            assert(a0 + match_pass(u0, c0).2 =~= self.assigned@);
        }
        self.calls = kept;
    }

    /// One resetter tick: every on-call agent for which the log ever recorded
    /// a match is made available again, exactly as `reset_all` describes it.
    /// Agents on break or logged out stay as they are. The queue and the log
    /// are untouched.
    pub fn resetter_tick(&mut self)
        ensures
            final(self).users@ == reset_all(old(self).users@, old(self).assigned@),
            final(self).calls == old(self).calls,
            final(self).assigned == old(self).assigned,
    {
        let ghost u0 = self.users@;
        let mut j: usize = 0;
        while j < self.users.len()
            invariant
                j <= self.users@.len(),
                self.users@.len() == u0.len(),
                forall|k: int| 0 <= k < j ==> self.users@[k] == reset_user(u0[k], self.assigned@),
                forall|k: int| j <= k < u0.len() ==> self.users@[k] == u0[k],
                self.calls == old(self).calls,
                self.assigned == old(self).assigned,
            decreases u0.len() - j,
        {
            let ghost us = self.users@;
            let st = self.users[j].status;
            let on_dispatch_duty = st == Status::OnCall || st == Status::Available;
            if on_dispatch_duty && log_contains_user(&self.assigned, self.users[j].id) {
                let mut agent = self.users.remove(j);
                agent.status = Status::Available;
                self.users.insert(j, agent);
                proof {
                    assert(self.users@ =~= us.update(
                        j as int,
                        with_status(us[j as int], Status::Available),
                    ));
                }
            }
            j += 1;
        }
        proof {
            assert(self.users@ =~= reset_all(u0, self.assigned@));
        }
    }
}

/// Whether the assignment log records at least one match for this user id.
fn log_contains_user(log: &Vec<AssignedCall>, id: i32) -> (r: bool)
    ensures
        r == user_logged(log@, id),
{
    let mut k: usize = 0;
    while k < log.len()
        invariant
            k <= log@.len(),
            forall|m: int| 0 <= m < k ==> log@[m].user_id != id,
        decreases log@.len() - k,
    {
        if log[k].user_id == id {
            return true;
        }
        k += 1;
    }
    false
}

/// Finds the first available agent of the given department, by roster
/// position.
fn find_available(users: &Vec<User>, dept: Department) -> (r: Option<usize>)
    ensures
        r matches Some(i) ==> i < users@.len() && find_agent(users@, dept, 0) == Some(i as int),
        r is None ==> find_agent(users@, dept, 0) is None,
{
    let mut j: usize = 0;
    while j < users.len()
        invariant
            j <= users@.len(),
            find_agent(users@, dept, 0) == find_agent(users@, dept, j as int),
        decreases users@.len() - j,
    {
        if users[j].department == dept && users[j].status == Status::Available {
            return Some(j);
        }
        j += 1;
    }
    None
}

} // verus!

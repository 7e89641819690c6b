//! Domain types: departments, agent status, agents, calls, and assignments,
//! together with the fixed mapping from a call id to its department and the
//! rendering of a call's descriptive text.

use vstd::prelude::*;
use vstd::string::StringExecFns;

verus! {

/// The closed set of departments that partitions agents and calls.
#[derive(Clone, Copy, Debug, PartialEq, Eq, Structural)]
pub enum Department {
    Sales,
    Renewal,
    Audit,
    Developer,
    Hr,
}

/// An agent's availability. Only `Available` and `OnCall` are reachable from
/// the dispatch loop itself; `Break` and `LoggedOut` exist in the domain for
/// externally seeded rosters.
#[derive(Clone, Copy, Debug, PartialEq, Eq, Structural)]
pub enum Status {
    OnCall,
    Available,
    Break,
    LoggedOut,
}

/// A roster member eligible to handle calls in one fixed department.
#[derive(Clone, Debug)]
pub struct User {
    pub id: i32,
    pub name: String,
    pub department: Department,
    pub status: Status,
}

/// A pending call awaiting assignment. Ids are not unique: two live calls may
/// collide in id and must both be retained.
#[derive(Clone, Debug)]
pub struct Call {
    pub id: i32,
    pub details: String,
    pub department: Department,
}

/// An immutable record of one completed match.
#[derive(Clone, Copy, Debug, PartialEq, Eq, Structural)]
pub struct AssignedCall {
    pub user_id: i32,
    pub call_id: i32,
}

/// The fixed five-way mapping from a call id to its department,
/// indexed by `id % 5`.
pub open spec fn department_of(id: int) -> Department {
    if id % 5 == 0 {
        Department::Sales
    } else if id % 5 == 1 {
        Department::Renewal
    } else if id % 5 == 2 {
        Department::Audit
    } else if id % 5 == 3 {
        Department::Developer
    } else {
        Department::Hr
    }
}

/// Computes the department of a call from its id.
pub fn department_for_id(id: i32) -> (d: Department)
    requires
        0 <= id,
    ensures
        d == department_of(id as int),
{
    match id % 5 {
        0 => Department::Sales,
        1 => Department::Renewal,
        2 => Department::Audit,
        3 => Department::Developer,
        _ => Department::Hr,
    }
}

/// The character for one decimal digit.
pub open spec fn digit_char(d: int) -> char {
    if d == 0 {
        '0'
    } else if d == 1 {
        '1'
    } else if d == 2 {
        '2'
    } else if d == 3 {
        '3'
    } else if d == 4 {
        '4'
    } else if d == 5 {
        '5'
    } else if d == 6 {
        '6'
    } else if d == 7 {
        '7'
    } else if d == 8 {
        '8'
    } else {
        '9'
    }
}

/// The decimal rendering of a non-negative integer, without leading zeros.
pub open spec fn dec_digits(n: int) -> Seq<char>
    decreases n,
{
    if n < 10 {
        seq![digit_char(n)]
    } else {
        dec_digits(n / 10) + seq![digit_char(n % 10)]
    }
}

/// The descriptive text carried by a generated call with the given id.
pub open spec fn call_details_of(id: int) -> Seq<char> {
    "Call details for ID "@ + dec_digits(id)
}

/// A call carries the given id, the department derived from it, and the
/// standard descriptive text for it.
pub open spec fn is_call_for(c: Call, id: int) -> bool {
    &&& c.id == id
    &&& c.department == department_of(id)
    &&& c.details@ == call_details_of(id)
}

/// A call as the generator produces it: an id drawn from [1, 9999) with the
/// derived fields attached.
pub open spec fn generated_call(c: Call) -> bool {
    &&& 1 <= c.id < 9999
    &&& is_call_for(c, c.id as int)
}

fn digit_str(d: i32) -> (s: &'static str)
    requires
        0 <= d < 10,
    ensures
        s@ == seq![digit_char(d as int)],
{
    proof {
        reveal_strlit("0");
        reveal_strlit("1");
        reveal_strlit("2");
        reveal_strlit("3");
        reveal_strlit("4");
        reveal_strlit("5");
        reveal_strlit("6");
        reveal_strlit("7");
        reveal_strlit("8");
        reveal_strlit("9");
    }
    let s = match d {
        0 => "0",
        1 => "1",
        2 => "2",
        3 => "3",
        4 => "4",
        5 => "5",
        6 => "6",
        7 => "7",
        8 => "8",
        _ => "9",
    };
    proof {
        assert(s@ =~= seq![digit_char(d as int)]);
    }
    s
}

/// Appends the decimal rendering of `n` to `s`.
fn push_decimal(s: &mut String, n: i32)
    requires
        0 <= n,
    ensures
        final(s)@ == old(s)@ + dec_digits(n as int),
    decreases n,
{
    if n >= 10 {
        push_decimal(s, n / 10);
    }
    let d = n % 10;
    s.append(digit_str(d));
    proof {
        assert(final(s)@ =~= old(s)@ + dec_digits(n as int));
    }
}

/// Renders the descriptive text for a call with the given id.
pub fn render_details(id: i32) -> (s: String)
    requires
        0 <= id,
    ensures
        s@ == call_details_of(id as int),
{
    let mut s = String::from_str("Call details for ID ");
    push_decimal(&mut s, id);
    s
}

/// Builds the call that the generator produces for a given id: the department
/// follows the fixed five-way mapping, and the details name the id.
pub fn make_call(id: i32) -> (c: Call)
    requires
        1 <= id < 9999,
    ensures
        is_call_for(c, id as int),
        generated_call(c),
{
    Call { id: id, details: render_details(id), department: department_for_id(id) }
}

/// The fixed seed roster: five agents, one per department, all available.
pub open spec fn seed_roster(users: Seq<User>) -> bool {
    &&& users.len() == 5
    &&& users[0].id == 1 && users[0].name@ == "Alice"@ && users[0].department
        == Department::Sales && users[0].status == Status::Available
    &&& users[1].id == 2 && users[1].name@ == "Bob"@ && users[1].department == Department::Renewal
        && users[1].status == Status::Available
    &&& users[2].id == 3 && users[2].name@ == "Charlie"@ && users[2].department
        == Department::Audit && users[2].status == Status::Available
    &&& users[3].id == 4 && users[3].name@ == "David"@ && users[3].department
        == Department::Developer && users[3].status == Status::Available
    &&& users[4].id == 5 && users[4].name@ == "Eve"@ && users[4].department == Department::Hr
        && users[4].status == Status::Available
}

/// Creates the fixed seed roster that every process starts from.
pub fn create_users() -> (users: Vec<User>)
    ensures
        seed_roster(users@),
{
    let users = vec![
        User {
            id: 1,
            name: String::from_str("Alice"),
            department: Department::Sales,
            status: Status::Available,
        },
        User {
            id: 2,
            name: String::from_str("Bob"),
            department: Department::Renewal,
            status: Status::Available,
        },
        User {
            id: 3,
            name: String::from_str("Charlie"),
            department: Department::Audit,
            status: Status::Available,
        },
        User {
            id: 4,
            name: String::from_str("David"),
            department: Department::Developer,
            status: Status::Available,
        },
        User {
            id: 5,
            name: String::from_str("Eve"),
            department: Department::Hr,
            status: Status::Available,
        },
    ];
    users
}

} // verus!

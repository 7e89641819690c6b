use call_dispatch::domain::{create_users, make_call, Department, Status};

#[test]
fn department_follows_id_mod_5() {
    assert_eq!(make_call(10).department, Department::Sales);
    assert_eq!(make_call(11).department, Department::Renewal);
    assert_eq!(make_call(12).department, Department::Audit);
    assert_eq!(make_call(13).department, Department::Developer);
    assert_eq!(make_call(14).department, Department::Hr);
    assert_eq!(make_call(1).department, Department::Renewal);
    assert_eq!(make_call(9998).department, Department::Developer);
}

#[test]
fn call_carries_id_and_details() {
    let c = make_call(42);
    assert_eq!(c.id, 42);
    assert_eq!(c.details, "Call details for ID 42");
    let c = make_call(7);
    assert_eq!(c.details, "Call details for ID 7");
    let c = make_call(9998);
    assert_eq!(c.details, "Call details for ID 9998");
    let c = make_call(1000);
    assert_eq!(c.details, "Call details for ID 1000");
}

#[test]
fn seed_roster_is_fixed() {
    let users = create_users();
    assert_eq!(users.len(), 5);
    let expected = [
        (1, "Alice", Department::Sales),
        (2, "Bob", Department::Renewal),
        (3, "Charlie", Department::Audit),
        (4, "David", Department::Developer),
        (5, "Eve", Department::Hr),
    ];
    for (u, (id, name, dept)) in users.iter().zip(expected.iter()) {
        assert_eq!(u.id, *id);
        assert_eq!(u.name, *name);
        assert_eq!(u.department, *dept);
        assert_eq!(u.status, Status::Available);
    }
}

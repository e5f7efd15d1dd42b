use dir_provisioner::naming::{copy_name, decimal, plan_names};

fn strings(v: &[&str]) -> Vec<String> {
    v.iter().map(|s| s.to_string()).collect()
}

#[test]
fn decimal_notation() {
    assert_eq!(decimal(0), "0");
    assert_eq!(decimal(7), "7");
    assert_eq!(decimal(10), "10");
    assert_eq!(decimal(305), "305");
    assert_eq!(decimal(u64::MAX), "18446744073709551615");
}

#[test]
fn first_copy_keeps_the_bare_name() {
    let foo = "foo".to_string();
    assert_eq!(copy_name(&foo, 1), "foo");
    assert_eq!(copy_name(&foo, 0), "foo");
}

#[test]
fn later_copies_get_an_index_suffix() {
    let foo = "foo".to_string();
    assert_eq!(copy_name(&foo, 2), "foo_2");
    assert_eq!(copy_name(&foo, 12), "foo_12");
}

#[test]
fn three_copies_of_one_name() {
    let plan = plan_names(&strings(&["foo"]), 3);
    assert_eq!(plan, strings(&["foo", "foo_2", "foo_3"]));
}

#[test]
fn copies_follow_the_order_of_names() {
    let plan = plan_names(&strings(&["a", "b"]), 2);
    assert_eq!(plan, strings(&["a", "a_2", "b", "b_2"]));
}

#[test]
fn single_copy_keeps_names_as_given() {
    let plan = plan_names(&strings(&["x", "y/z", "x"]), 1);
    assert_eq!(plan, strings(&["x", "y/z", "x"]));
}

#[test]
fn empty_plans() {
    assert_eq!(plan_names(&Vec::new(), 3), Vec::<String>::new());
    assert_eq!(plan_names(&strings(&["a"]), 0), Vec::<String>::new());
}

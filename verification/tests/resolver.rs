use safe_app_core::contacts::{resolve, Contact};

fn contact(addr: u32, port: u16, node_id: u64) -> Contact {
    Contact { addr, port, node_id }
}

#[test]
fn resolve_defaults_first_then_new_supplied() {
    // Default contact set = {A}, supplied = {B, A}; output = [A, B].
    let a = contact(1, 1000, 11);
    let b = contact(2, 2000, 22);
    let defaults = vec![a];
    let supplied = vec![b, a];
    let out = resolve(&defaults, &supplied);
    assert_eq!(out, vec![a, b]);
}

#[test]
fn resolve_removes_duplicates_within_each_input() {
    let a = contact(1, 1000, 11);
    let b = contact(2, 2000, 22);
    let out = resolve(&vec![a, a, b], &vec![b, b]);
    assert_eq!(out, vec![a, b]);
}

#[test]
fn resolve_is_commutative_as_a_set() {
    let a = contact(1, 1000, 11);
    let b = contact(2, 2000, 22);
    let c = contact(3, 3000, 33);
    let one = resolve(&vec![a, b], &vec![c, a]);
    let two = resolve(&vec![c, a], &vec![a, b]);
    assert_eq!(one.len(), 3);
    assert_eq!(two.len(), 3);
    for x in &one {
        assert!(two.contains(x));
    }
    for x in &two {
        assert!(one.contains(x));
    }
}

#[test]
fn resolve_is_idempotent_on_its_own_output() {
    let a = contact(1, 1000, 11);
    let b = contact(2, 2000, 22);
    let d = vec![a];
    let s = vec![b, a];
    let r = resolve(&d, &s);
    assert_eq!(resolve(&r, &s), r);
    assert_eq!(resolve(&r, &d), r);
    assert_eq!(resolve(&r, &r), r);
}

#[test]
fn resolve_of_empty_sets_is_empty() {
    let none: Vec<Contact> = Vec::new();
    assert_eq!(resolve(&none, &none), Vec::<Contact>::new());
}

#[test]
fn contacts_differing_in_any_field_are_distinct() {
    let a = contact(1, 1000, 11);
    let other_port = contact(1, 1001, 11);
    let other_id = contact(1, 1000, 12);
    let out = resolve(&vec![a], &vec![other_port, other_id]);
    assert_eq!(out.len(), 3);
}

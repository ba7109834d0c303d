use mnemosyne::migrate::{is_recorded, migration_names, pending, status};

#[test]
fn migrations_are_listed_in_order_and_none_is_empty() {
    let mut names: Vec<&str> = migration_names();
    let sorted = {
        let mut c = names.clone();
        c.sort_unstable();
        c
    };
    assert_eq!(names, sorted, "migrations must be listed in filename order");

    let total = names.len();
    names.dedup();
    assert_eq!(names.len(), total, "duplicate migration name");

    for name in migration_names() {
        assert!(!name.trim().is_empty(), "a migration without a name");
    }
}

#[test]
fn pending_lists_what_the_database_has_not_recorded() {
    let names = migration_names();
    let applied = vec!["0001_add_fsrs_fields".to_string(), "0003_add_feynman_evaluations".to_string()];
    let todo = pending(&names, &applied);
    assert_eq!(todo[0], 1);
    assert_eq!(todo[1], 3);
    assert_eq!(todo.len(), names.len() - 2);
    assert!(is_recorded(&applied, "0003_add_feynman_evaluations"));
    assert!(!is_recorded(&applied, "0002_add_socratic_tables"));
    let st = status(&names, &applied);
    assert_eq!(&st[..4], &[true, false, true, false]);
}

#[test]
fn a_fully_migrated_database_has_nothing_pending() {
    let names = migration_names();
    let applied: Vec<String> = names.iter().map(|n| n.to_string()).collect();
    assert!(pending(&names, &applied).is_empty());
    assert!(status(&names, &applied).iter().all(|b| *b));
}

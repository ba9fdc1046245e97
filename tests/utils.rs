use injoint::utils::{get_id, IdSource};

#[test]
fn test_get_id() {
    let mut ids = IdSource::new();
    let id1 = get_id(&mut ids);
    let id2 = get_id(&mut ids);
    let id3 = get_id(&mut ids);

    assert!(id1 < id2);
    assert!(id2 < id3);
    assert_ne!(id1, id2);
    assert_ne!(id2, id3);
    assert_ne!(id1, id3);
}

#[test]
fn first_id_is_one_and_ids_step_by_one() {
    let mut ids = IdSource::new();
    assert!(ids.has_next());
    assert_eq!(get_id(&mut ids), 1);
    assert_eq!(get_id(&mut ids), 2);
}

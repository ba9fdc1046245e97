use injoint::naming::snake_to_camel;

#[test]
fn snake_names_become_camel() {
    assert_eq!(snake_to_camel("add_user"), "AddUser");
    assert_eq!(snake_to_camel("identify_user"), "IdentifyUser");
    assert_eq!(snake_to_camel("send"), "Send");
}

#[test]
fn underscores_are_dropped_and_others_kept() {
    assert_eq!(snake_to_camel(""), "");
    assert_eq!(snake_to_camel("__a__b"), "AB");
    assert_eq!(snake_to_camel("x_9y"), "X9y");
    assert_eq!(snake_to_camel("_é"), "é");
}

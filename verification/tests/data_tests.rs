use lite_session::{LiteSessionData, LiteSessionError, Role};

#[test]
fn data_tests() -> Result<(), LiteSessionError> {
    let mut data = LiteSessionData::default();

    data.username("foo_user");
    assert_eq!(data.get_username(), "foo_user");

    data.role(Role::SuperUser);
    assert_eq!(data.get_role(), &Role::SuperUser);

    data.tag("Foo-Tag");
    assert_eq!(data.get_tag(), &Some("Foo-Tag".into()));

    data.add_acl("Network-TCP");
    assert_eq!(data.get_acl(), &vec!["Network-TCP"]);

    data.add_acl("Network-UDP");
    let mut data_compare1 = vec!["Network-TCP", "Network-UDP"];
    data_compare1.sort();
    assert_eq!(data.get_acl(), &data_compare1);

    data.add_acl("Network-FTP");
    let mut data_compare2 = vec!["Network-TCP", "Network-UDP", "Network-FTP"];
    data_compare2.sort();
    assert_eq!(data.get_acl(), &data_compare2);

    assert_eq!(
        data.remove_acl("Network-FTP"),
        Some("Network-FTP".to_owned())
    );

    let prepared_data = data.build();
    assert_eq!(
        prepared_data,
        "foo_user⥂SuperUser⥂Foo-Tag⥂Network-TCP⇅Network-UDP".to_owned()
    );

    let destructured = LiteSessionData::default();
    let token_data = destructured.destructure(&prepared_data)?;

    assert_eq!(token_data.get_username(), data.get_username());
    assert_eq!(token_data.get_role(), data.get_role());
    assert_eq!(token_data.get_tag(), data.get_tag());
    assert_eq!(token_data.get_acl(), data.get_acl());

    Ok(())
}

#[test]
fn record_round_trip_without_tag() -> Result<(), LiteSessionError> {
    let mut data = LiteSessionData::default();
    data.username("plain_user");
    data.add_acl("Storage-Read");
    let text = data.build();
    assert_eq!(text, "plain_user⥂User⥂None⥂Storage-Read".to_owned());

    let parsed = LiteSessionData::default().destructure(&text)?;
    assert_eq!(parsed.get_username(), "plain_user");
    assert_eq!(parsed.get_role(), &Role::User);
    assert_eq!(parsed.get_tag(), &None);
    assert_eq!(parsed.get_acl(), &vec!["Storage-Read"]);
    assert!(parsed == data);
    Ok(())
}

#[test]
fn acl_keeps_duplicates_sorted() {
    let mut data = LiteSessionData::default();
    data.add_acl("b-cap");
    data.add_acl("a-cap");
    data.add_acl("b-cap");
    assert_eq!(data.get_acl(), &vec!["a-cap", "b-cap", "b-cap"]);
    assert_eq!(data.remove_acl("b-cap"), Some("b-cap".to_owned()));
    assert_eq!(data.get_acl(), &vec!["a-cap", "b-cap"]);
    assert_eq!(data.remove_acl("missing"), None);
    assert_eq!(data.get_acl(), &vec!["a-cap", "b-cap"]);
}

#[test]
fn destructure_wrong_field_count() {
    let broken = LiteSessionData::default().destructure("only⥂three⥂segments");
    assert_eq!(broken, Err(LiteSessionError::DataFieldsLengthError));
}

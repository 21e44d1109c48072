use ferrisquery::query::{get_server_status, QueryError};
use ferrisquery::session::SessionError;
use ferrisquery::status::{parse_unstructured, ServerStatus};
use ferrisquery::structured::parse_structured;

#[test]
fn unstructured_no_players() {
    let st = parse_unstructured("There are 0 of a max of 20 players online:").unwrap();
    assert_eq!(st.current_players, 0);
    assert_eq!(st.max_players, 20);
    assert!(st.list.is_empty());
    assert!(st.tps.is_none());
}

#[test]
fn unstructured_names_sorted() {
    let st = parse_unstructured("There are 3 of a max of 20 players online: zeta, alpha, mike")
        .unwrap();
    let names: Vec<&str> = st.list.iter().map(|p| p.name.as_str()).collect();
    assert_eq!(names, vec!["alpha", "mike", "zeta"]);
    assert!(st.list.iter().all(|p| p.nickname.is_none() && p.uuid.is_none()));
}

#[test]
fn unstructured_trims_whitespace() {
    let st = parse_unstructured("  There are 1 of a max of 8 players online: Bob\n").unwrap();
    assert_eq!(st.current_players, 1);
    assert_eq!(st.list[0].name, "Bob");
}

#[test]
fn unstructured_rejects_malformed() {
    assert!(parse_unstructured("There are many players online").is_none());
    assert!(parse_unstructured("There are 1 of a max of 8 players online:x").is_none());
    assert!(parse_unstructured("There are 1 of a max of 8 players online: Bob,").is_none());
    assert!(parse_unstructured("There are 1 of a max of 8 players online: a,, b").is_none());
    assert!(parse_unstructured("xThere are 1 of a max of 8 players online:").is_none());
    assert!(parse_unstructured("There are 1 of a max of 8 players online: Bob extra").is_none());
}

#[test]
fn unstructured_rejects_oversized_count() {
    assert!(parse_unstructured("There are 2147483648 of a max of 8 players online:").is_none());
}

#[test]
fn structured_scenario() {
    let payload =
        r#"{"current_players":1,"max_players":8,"list":[{"name":"P1","nickname":null,"uuid":null}],"tps":null}"#;
    let st = parse_structured(payload).unwrap();
    assert_eq!(st.current_players, 1);
    assert_eq!(st.max_players, 8);
    assert_eq!(st.list.len(), 1);
    assert_eq!(st.list[0].name, "P1");
    assert!(st.list[0].nickname.is_none());
    assert!(st.list[0].uuid.is_none());
    assert!(st.tps.is_none());
}

#[test]
fn structured_parse_is_idempotent() {
    let payload = r#"{"current_players":2,"max_players":10,"list":[{"name":"A","nickname":"n","uuid":"u"},{"name":"B"}],"tps":[20.0,19.99,18.5,20.123,3.45]}"#;
    let st1 = parse_structured(payload).unwrap();
    let st2 = parse_structured(payload).unwrap();
    assert!(st1 == st2);
}

#[test]
fn structured_reads_fields_in_any_order() {
    let payload = r#" { "list" : [] , "max_players" : 8 , "current_players" : 3 } "#;
    let st = parse_structured(payload).unwrap();
    assert_eq!(st.current_players, 3);
    assert_eq!(st.max_players, 8);
    assert!(st.list.is_empty());
    assert!(st.tps.is_none());
}

#[test]
fn structured_ignores_unknown_fields() {
    let payload = r#"{"current_players":1,"max_players":8,"version":"1.20",
        "list":[{"name":"P1","nickname_styled":{"deep":[1,2,{"x":true}]},"uuid":"abc"}],"motd":null}"#;
    let st = parse_structured(payload).unwrap();
    assert_eq!(st.list[0].name, "P1");
    assert_eq!(st.list[0].uuid.as_deref(), Some("abc"));
}

#[test]
fn structured_decodes_escapes() {
    let payload = r#"{"current_players":1,"max_players":8,"list":[{"name":"A\n\"x\\"}]}"#;
    let st = parse_structured(payload).unwrap();
    assert_eq!(st.list[0].name, "A\n\"x\\");
}

#[test]
fn structured_tps_in_hundredths() {
    let payload =
        r#"{"current_players":0,"max_players":8,"list":[],"tps":[20.0,19.99,18.5,20.123,3.45]}"#;
    let st = parse_structured(payload).unwrap();
    assert_eq!(st.tps.as_deref(), Some(&[2000i64, 1999, 1850, 2012, 345][..]));
}

#[test]
fn structured_rejects_malformed() {
    assert!(parse_structured("").is_none());
    assert!(parse_structured("{").is_none());
    assert!(parse_structured("null").is_none());
    assert!(parse_structured(r#"{"current_players":1,"max_players":8}"#).is_none());
    assert!(parse_structured(r#"{"current_players":1.5,"max_players":8,"list":[]}"#).is_none());
    assert!(parse_structured(r#"{"current_players":1,"max_players":8,"list":[{}]}"#).is_none());
    assert!(
        parse_structured(r#"{"current_players":1,"max_players":8,"list":[],"tps":[1.0]}"#)
            .is_none()
    );
    assert!(parse_structured(
        r#"{"current_players":1,"current_players":1,"max_players":8,"list":[]}"#
    )
    .is_none());
    assert!(parse_structured(r#"{"current_players":2147483648,"max_players":8,"list":[]}"#)
        .is_none());
    assert!(parse_structured(r#"{"current_players":1,"max_players":8,"list":[]} trailing"#)
        .is_none());
}

#[test]
fn structured_decodes_unicode_escapes() {
    let payload = r#"{"current_players":1,"max_players":8,"list":[{"name":"\u0041B"}]}"#;
    let st = parse_structured(payload).unwrap();
    assert_eq!(st.list[0].name, "AB");
}

#[test]
fn structured_rejects_surrogate_escapes() {
    let payload = r#"{"current_players":1,"max_players":8,"list":[{"name":"\uD83D"}]}"#;
    assert!(parse_structured(payload).is_none());
}

#[test]
fn structured_accepts_negative_counts_verbatim() {
    let payload = r#"{"current_players":-1,"max_players":-8,"list":[]}"#;
    let st = parse_structured(payload).unwrap();
    assert_eq!(st.current_players, -1);
    assert_eq!(st.max_players, -8);
}

#[test]
fn transport_failure_reads_offline() {
    let r = get_server_status(&Err(SessionError::Transport), true);
    assert!(matches!(r, Ok(ServerStatus::Offline)));
    let r = get_server_status(&Err(SessionError::Transport), false);
    assert!(matches!(r, Ok(ServerStatus::Offline)));
}

#[test]
fn protocol_rejection_is_not_offline() {
    let r = get_server_status(&Err(SessionError::Auth), true);
    assert!(matches!(r, Err(QueryError::Rejected(SessionError::Auth))));
    let r = get_server_status(&Err(SessionError::CommandTooLong), false);
    assert!(matches!(
        r,
        Err(QueryError::Rejected(SessionError::CommandTooLong))
    ));
}

#[test]
fn malformed_response_is_parse_error_not_offline() {
    let r = get_server_status(&Ok("not a payload".to_string()), true);
    assert!(matches!(r, Err(QueryError::StructuredParse)));
    let r = get_server_status(&Ok("not a status line".to_string()), false);
    assert!(matches!(r, Err(QueryError::UnstructuredParse)));
}

#[test]
fn well_formed_response_is_online() {
    let r = get_server_status(
        &Ok("There are 0 of a max of 20 players online:".to_string()),
        false,
    );
    match r {
        Ok(ServerStatus::Online(st)) => {
            assert_eq!(st.current_players, 0);
            assert_eq!(st.max_players, 20);
            assert!(st.list.is_empty());
        }
        _ => panic!("expected an online status"),
    }
}

#[test]
fn query_error_messages_are_distinct_from_offline() {
    assert_eq!(
        QueryError::StructuredParse.message(),
        "Deserialization error (this is a bug)"
    );
    assert_eq!(QueryError::UnstructuredParse.message(), "Regex error (this is a bug)");
    assert_eq!(
        QueryError::Rejected(SessionError::Auth).message(),
        "Invalid authentication (check bot config)."
    );
}

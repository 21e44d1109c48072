use ferrisquery::commands::{
    run_error_reply, run_success_reply, schedule_restart, OfflineOnline,
};
use ferrisquery::control::{
    choose_render_target, kick_command, rename_command, shutdown_command, validate_cache,
    MessageRef, RenderTarget,
};
use ferrisquery::database_api::MonadApi;
use ferrisquery::env::EnvUnit;
use ferrisquery::session::{
    CmdOutcome, ConnectOutcome, ExecAction, Session, SessionError, ExecFlow,
};

#[test]
fn lazy_connect_then_success() {
    let mut session = Session::new("localhost:25575", "secret");
    assert!(!session.connected());
    let mut flow = ExecFlow::start(&session);
    assert!(matches!(flow.action(), ExecAction::Connect));
    flow.on_connect_outcome(&mut session, ConnectOutcome::Connected);
    assert!(matches!(flow.action(), ExecAction::SendCommand));
    flow.on_cmd_outcome(&mut session, CmdOutcome::Success);
    assert!(matches!(flow.action(), ExecAction::Done));
    assert!(matches!(flow.result(), Some(Ok(()))));
    assert!(session.connected());
}

#[test]
fn severed_connection_reconnects_transparently() {
    // establish a live connection first
    let mut session = Session::new("localhost:25575", "secret");
    let mut flow = ExecFlow::start(&session);
    flow.on_connect_outcome(&mut session, ConnectOutcome::Connected);
    flow.on_cmd_outcome(&mut session, CmdOutcome::Success);
    assert!(session.connected());

    // the remote end severs the connection; the next call retries once
    let mut flow = ExecFlow::start(&session);
    assert!(matches!(flow.action(), ExecAction::SendCommand));
    flow.on_cmd_outcome(&mut session, CmdOutcome::TransportFailed);
    assert!(matches!(flow.action(), ExecAction::Connect));
    flow.on_connect_outcome(&mut session, ConnectOutcome::Connected);
    assert!(matches!(flow.action(), ExecAction::SendCommand));
    flow.on_cmd_outcome(&mut session, CmdOutcome::Success);
    assert!(matches!(flow.result(), Some(Ok(()))));
    assert!(session.connected());
}

#[test]
fn double_transport_failure_leaves_session_connectionless() {
    let mut session = Session::new("localhost:25575", "secret");
    let mut flow = ExecFlow::start(&session);
    flow.on_connect_outcome(&mut session, ConnectOutcome::Connected);
    flow.on_cmd_outcome(&mut session, CmdOutcome::Success);

    let mut flow = ExecFlow::start(&session);
    flow.on_cmd_outcome(&mut session, CmdOutcome::TransportFailed);
    flow.on_connect_outcome(&mut session, ConnectOutcome::TransportFailed);
    assert!(matches!(flow.result(), Some(Err(SessionError::Transport))));
    assert!(!session.connected());
}

#[test]
fn protocol_errors_do_not_retry() {
    let mut session = Session::new("localhost:25575", "secret");
    let mut flow = ExecFlow::start(&session);
    flow.on_connect_outcome(&mut session, ConnectOutcome::Connected);
    flow.on_cmd_outcome(&mut session, CmdOutcome::Success);

    let mut flow = ExecFlow::start(&session);
    flow.on_cmd_outcome(&mut session, CmdOutcome::AuthFailed);
    assert!(matches!(flow.result(), Some(Err(SessionError::Auth))));
    assert!(session.connected());

    let mut flow = ExecFlow::start(&session);
    flow.on_cmd_outcome(&mut session, CmdOutcome::TooLong);
    assert!(matches!(flow.result(), Some(Err(SessionError::CommandTooLong))));
    assert!(session.connected());
}

#[test]
fn rejected_handshake_is_an_auth_error() {
    let mut session = Session::new("localhost:25575", "bad-password");
    let mut flow = ExecFlow::start(&session);
    flow.on_connect_outcome(&mut session, ConnectOutcome::AuthFailed);
    assert!(matches!(flow.result(), Some(Err(SessionError::Auth))));
    assert!(!session.connected());
}

#[test]
fn schedule_restart_toggles_the_flag() {
    let mut flag = false;
    let reply = schedule_restart(false, &mut flag);
    assert!(flag);
    assert_eq!(
        reply,
        "A restart has been scheduled - it will occur as soon as everyone logs off."
    );
    let reply = schedule_restart(false, &mut flag);
    assert!(flag);
    assert_eq!(reply, "There is already a restart scheduled.");
    let reply = schedule_restart(true, &mut flag);
    assert!(!flag);
    assert_eq!(reply, "The scheduled restart has been cancelled.");
    let reply = schedule_restart(true, &mut flag);
    assert!(!flag);
    assert_eq!(reply, "There is no restart scheduled.");
}

#[test]
fn short_responses_are_framed_verbatim() {
    assert_eq!(run_success_reply("done"), "Success:\n```\ndone\n```");
}

#[test]
fn long_responses_are_truncated_with_ellipsis() {
    let long: String = std::iter::repeat('x').take(2500).collect();
    let reply = run_success_reply(&long);
    let expected_body: String = std::iter::repeat('x').take(1980).collect();
    assert_eq!(reply, format!("Success:\n```\n{expected_body}...\n```"));
    assert_eq!(reply.chars().count(), 1983 + "Success:\n```\n\n```".chars().count());
}

#[test]
fn run_error_replies() {
    assert_eq!(
        run_error_reply(&SessionError::Auth),
        "Invalid authentication (check bot config)."
    );
    assert_eq!(run_error_reply(&SessionError::CommandTooLong), "Command too long.");
    assert_eq!(run_error_reply(&SessionError::Transport), "The server is closed.");
}

#[test]
fn enforcement_command_texts() {
    assert_eq!(rename_command("Bad"), "styled-nicknames set Bad I MADE BOOL SAD");
    assert_eq!(kick_command("Bad"), "kick Bad nice try");
    assert_eq!(shutdown_command(), "stop");
}

#[test]
fn render_target_follows_the_cache() {
    let mr = MessageRef { channel_id: 7, message_id: 42 };
    assert!(matches!(
        choose_render_target(&Some(mr), 7),
        RenderTarget::Edit(MessageRef { channel_id: 7, message_id: 42 })
    ));
    assert!(matches!(choose_render_target(&None, 7), RenderTarget::CreateIn(7)));
}

#[test]
fn stale_cache_is_dropped_at_startup() {
    let mr = MessageRef { channel_id: 7, message_id: 42 };
    assert_eq!(validate_cache(Some(mr), 7), Some(mr));
    assert_eq!(validate_cache(Some(mr), 8), None);
    assert_eq!(validate_cache(None, 7), None);
}

#[test]
fn offline_online_choice() {
    assert!(OfflineOnline::Online.is_online());
    assert!(!OfflineOnline::Offline.is_online());
}

#[test]
fn database_api_keeps_its_configuration() {
    let api = MonadApi::new("user", "admin.example", "pw-a", "db.example", "pw-u");
    assert_eq!(api.username(), "user");
    assert_eq!(api.admin_endpoint(), "admin.example");
    assert_eq!(api.user_endpoint(), "db.example");
}

#[test]
fn env_unit_parses_from_anything() {
    let unit: Result<EnvUnit, ()> = "anything".parse();
    assert!(unit.is_ok());
}

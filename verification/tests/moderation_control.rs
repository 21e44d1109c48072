use ferrisquery::control::{next_restart_flag, plan_tick};
use ferrisquery::moderation::{is_violator, moderate_nickname, placeholder_nickname, strip_markup};
use ferrisquery::query::QueryError;
use ferrisquery::render::{render_offline, render_online, with_last_update};
use ferrisquery::status::{OnlineServerStatus, PlayerData, ServerStatus};

fn online(current: i32, max: i32, list: Vec<PlayerData>, tps: Option<Vec<i64>>) -> ServerStatus {
    ServerStatus::Online(OnlineServerStatus { current_players: current, max_players: max, list, tps })
}

fn player(name: &str, nickname: Option<&str>) -> PlayerData {
    PlayerData {
        name: name.to_string(),
        nickname: nickname.map(|s| s.to_string()),
        uuid: None,
    }
}

#[test]
fn url_nicknames_are_flagged() {
    assert!(is_violator("see http://example.com"));
    assert!(is_violator("see https://example.com"));
    assert!(is_violator("h~t*t^p://sneaky"));
    assert!(is_violator("h t t p s : / / spaced"));
}

#[test]
fn invite_domain_is_flagged_with_noise() {
    assert!(is_violator("discord.gg"));
    assert!(is_violator("d.i.s.c.o.r.d..g.g"));
    assert!(!is_violator("discordxgg"));
}

#[test]
fn backtick_runs_are_flagged() {
    assert!(is_violator("```"));
    assert!(is_violator("` ` `"));
    assert!(!is_violator("`a`b`"));
    assert!(!is_violator("``"));
}

#[test]
fn clean_nicknames_are_never_flagged() {
    assert!(!is_violator("Steve"));
    assert!(!is_violator("a perfectly fine nick"));
    assert!(!is_violator("http:x//y"));
}

#[test]
fn markup_is_stripped_before_the_check() {
    assert_eq!(strip_markup("<red>Bob</red>"), "Bob");
    assert_eq!(strip_markup("<gradient:blue>x</gradient>"), "x");
    assert_eq!(strip_markup("<cool>"), "<cool>");
    assert_eq!(strip_markup("a<c:arg>b"), "ab");
    let (shown, bad) = moderate_nickname("<red>ok</red>");
    assert_eq!(shown, "ok");
    assert!(!bad);
    let (shown, bad) = moderate_nickname("<red>http://bad</red>");
    assert_eq!(shown, placeholder_nickname());
    assert!(bad);
}

#[test]
fn markup_edge_cases() {
    // an unknown token name is kept verbatim
    assert_eq!(strip_markup("<colorx>"), "<colorx>");
    // an empty argument still closes the token
    assert_eq!(strip_markup("<c:>x"), "x");
    // a closing token strips like an opening one
    assert_eq!(strip_markup("</gr>x"), "x");
    // an unterminated argument is not a token
    assert_eq!(strip_markup("<c:oops"), "<c:oops");
}

#[test]
fn negative_sample_renders_with_sign() {
    let st = OnlineServerStatus {
        current_players: 0,
        max_players: 8,
        list: vec![],
        tps: Some(vec![-150, 2000, 2000, 2000, 2000]),
    };
    let text = render_online(&st);
    assert!(text.contains("-1.50 20.00"));
}

#[test]
fn offline_tick_renders_and_clears_the_flag() {
    let plan = plan_tick(&Ok(ServerStatus::Offline), true);
    assert_eq!(plan.text, "The server is offline.");
    assert!(plan.clear_restart);
    assert!(plan.enforcement.is_empty());
    assert!(!plan.shutdown);
    assert!(!next_restart_flag(true, &plan));
}

#[test]
fn flag_stays_cleared_until_set_again() {
    let mut flag = true;
    let offline_plan = plan_tick(&Ok(ServerStatus::Offline), flag);
    flag = next_restart_flag(flag, &offline_plan);
    assert!(!flag);
    let online_plan = plan_tick(&Ok(online(1, 8, vec![player("A", None)], None)), flag);
    flag = next_restart_flag(flag, &online_plan);
    assert!(!flag);
    let err_plan = plan_tick(&Err(QueryError::StructuredParse), flag);
    flag = next_restart_flag(flag, &err_plan);
    assert!(!flag);
}

#[test]
fn shutdown_fires_exactly_when_empty_and_requested() {
    let plan = plan_tick(&Ok(online(0, 8, vec![], None)), true);
    assert!(plan.shutdown);
    let plan = plan_tick(&Ok(online(0, 8, vec![], None)), false);
    assert!(!plan.shutdown);
    let plan = plan_tick(&Ok(online(2, 8, vec![player("A", None)], None)), true);
    assert!(!plan.shutdown);
    let plan = plan_tick(&Err(QueryError::UnstructuredParse), true);
    assert!(!plan.shutdown);
}

#[test]
fn violators_are_queued_for_enforcement() {
    let list = vec![
        player("Good", Some("fine")),
        player("Bad", Some("https://spam")),
        player("NoNick", None),
        player("Worse", Some("d_i_s_c_o_r_d.gg")),
    ];
    let plan = plan_tick(&Ok(online(4, 8, list, None)), false);
    // underscores are not alphanumeric, so they count as noise and
    // "Worse" is a violator too
    assert_eq!(plan.enforcement.len(), 2);
    assert_eq!(plan.enforcement[0].0, "styled-nicknames set Bad I MADE BOOL SAD");
    assert_eq!(plan.enforcement[0].1, "kick Bad nice try");
    assert_eq!(plan.enforcement[1].0, "styled-nicknames set Worse I MADE BOOL SAD");
    assert_eq!(plan.enforcement[1].1, "kick Worse nice try");
}

#[test]
fn error_tick_renders_the_error_text() {
    let plan = plan_tick(&Err(QueryError::StructuredParse), false);
    assert_eq!(plan.text, "Deserialization error (this is a bug)");
    assert!(!plan.clear_restart);
}

#[test]
fn offline_render_text() {
    assert_eq!(render_offline(), "The server is offline.");
}

#[test]
fn online_render_with_players_and_tps() {
    let st = OnlineServerStatus {
        current_players: 2,
        max_players: 8,
        list: vec![player("Alice", None), player("Bob", Some("nick"))],
        tps: Some(vec![2000, 1999, 1850, 2012, 345]),
    };
    let expected = "The server is online. There are 2/8 connected players: ```\nAlice\nBob (nick)```\nTPS info: ```\n5s    10s   1m    5m    15m  \n20.00 19.99 18.50 20.12  3.45```";
    assert_eq!(render_online(&st), expected);
}

#[test]
fn online_render_empty_server() {
    let st = OnlineServerStatus { current_players: 0, max_players: 20, list: vec![], tps: None };
    assert_eq!(
        render_online(&st),
        "The server is online. There are 0/20 connected players.\n"
    );
}

#[test]
fn violator_nickname_renders_as_placeholder() {
    let st = OnlineServerStatus {
        current_players: 1,
        max_players: 8,
        list: vec![player("Bad", Some("http://spam"))],
        tps: None,
    };
    let text = render_online(&st);
    assert!(text.contains("Bad (I MADE BOOL SAD)"));
    assert!(!text.contains("http://spam"));
}

#[test]
fn last_update_suffix() {
    assert_eq!(
        with_last_update("x", 1699999999),
        "x\n\nLast update: <t:1699999999:T>"
    );
}

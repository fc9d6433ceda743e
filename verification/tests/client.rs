use txt_chat::client::{
    check_create_chan_cmd_and_encode_msg, check_join_cmd_and_encode_msg,
    check_leave_cmd_and_encode_msg, check_switch_chan, encode_create_chan, encode_join,
    encode_leave, encode_reg, encode_send_msg, is_join, is_leave, parse_create_chan_resp,
    parse_join_resp, parse_leave_resp, ClientAction, ClientState,
};
use txt_chat::errors::ChatErrors;

fn s(text: &str) -> String {
    text.to_string()
}

fn err<T>(text: &str) -> Result<T, String> {
    Err(s(text))
}

/// A client of user `u1` in its personal room, which has also joined `r1`.
fn client() -> ClientState {
    let mut state = ClientState::new(s("u1"));
    state.user_chan = s("u1");
    state.current_chan = s("u1");
    state.append_chan(s("r1"));
    state
}

#[test]
fn new_state_knows_only_the_id() {
    let state = ClientState::new(s("u1"));
    assert_eq!(state.user_id, "u1");
    assert_eq!(state.username, "");
    assert_eq!(state.user_chan, "");
    assert_eq!(state.current_chan, "");
    assert!(!state.joined_chans.contains(&s("u1")));
}

#[test]
fn set_uid_changes_the_id_only() {
    let mut state = client();
    state.set_uid(s("u7"));
    assert_eq!(state.user_id, "u7");
    assert_eq!(state.current_chan, "u1");
    assert_eq!(state.user_chan, "u1");
    assert!(state.joined_chans.contains(&s("r1")));
}

#[test]
fn append_chan_adds_a_joined_room() {
    let mut state = client();
    state.append_chan(s("r2"));
    state.append_chan(s("r2"));
    assert!(state.joined_chans.contains(&s("r1")));
    assert!(state.joined_chans.contains(&s("r2")));
    assert_eq!(state.current_chan, "u1");
}

#[test]
fn switch_chan_makes_the_room_current_and_joined() {
    let mut state = client();
    state.switch_chan(s("r2"));
    assert_eq!(state.current_chan, "r2");
    assert!(state.joined_chans.contains(&s("r2")));
    assert!(state.joined_chans.contains(&s("r1")));
}

#[test]
fn leave_chan_of_the_current_room_falls_back() {
    let mut state = client();
    state.switch_chan(s("r1"));
    state.leave_chan(s("r1"));
    assert_eq!(state.current_chan, "u1");
    assert!(!state.joined_chans.contains(&s("r1")));
}

#[test]
fn leave_chan_of_another_room_keeps_the_current() {
    let mut state = client();
    state.switch_chan(s("r2"));
    state.leave_chan(s("r1"));
    assert_eq!(state.current_chan, "r2");
    assert!(!state.joined_chans.contains(&s("r1")));
    assert!(state.joined_chans.contains(&s("r2")));
    state.leave_chan(s("r9"));
    assert_eq!(state.current_chan, "r2");
}

#[test]
fn encoders_write_the_commands() {
    let state = client();
    assert_eq!(encode_reg(s("alice")), "reg$alice");
    assert_eq!(encode_join(&state, s("456")), "join$u1$456");
    assert_eq!(encode_leave(&state, s("456")), "leave$u1$456");
    assert_eq!(encode_create_chan(&state, s("MyChat")), "create_chan$u1$MyChat");
    assert_eq!(encode_send_msg(&state, s("Hello")), Ok(s("send_msg$u1$u1$Hello")));
    assert_eq!(encode_send_msg(&state, s("a$b")), Ok(s("send_msg$u1$u1$a$b")));
}

#[test]
fn encode_send_msg_needs_a_current_room() {
    let state = ClientState::new(s("u1"));
    assert_eq!(encode_send_msg(&state, s("Hello")), Err(ChatErrors::UnknownCurrentChan));
}

#[test]
fn is_join_finds_the_room() {
    assert_eq!(is_join(s("$join r1")), Ok((true, s("r1"))));
    assert_eq!(is_join(s("$join r1 r2")), Ok((true, s("r1"))));
    assert_eq!(is_join(s("$join ")), Ok((true, s(""))));
    assert_eq!(is_join(s("$join")), err("join need chan_id"));
    assert_eq!(is_join(s("$joined r1")), Ok((false, s(""))));
    assert_eq!(is_join(s("join r1")), Ok((false, s(""))));
    assert_eq!(is_join(s("hello there")), Ok((false, s(""))));
    assert_eq!(is_join(s("")), Ok((false, s(""))));
    assert_eq!(is_join(s("$leave r1")), Ok((false, s(""))));
}

#[test]
fn is_leave_finds_the_room() {
    assert_eq!(is_leave(s("$leave r1")), Ok((true, s("r1"))));
    assert_eq!(is_leave(s("$leave")), err("leave need chan_id"));
    assert_eq!(is_leave(s("$join r1")), Ok((false, s(""))));
    assert_eq!(is_leave(s(" $leave r1")), Ok((false, s(""))));
}

#[test]
fn check_switch_chan_cases() {
    assert_eq!(check_switch_chan(s("$switch r1")), Ok(Some(s("r1"))));
    assert_eq!(check_switch_chan(s("$switch r1 r2")), Ok(Some(s("r1"))));
    assert_eq!(check_switch_chan(s("$switch")), err("switch need chan_id"));
    assert_eq!(check_switch_chan(s("$switch ")), err("chan_id is empty"));
    assert_eq!(check_switch_chan(s("$switch  r1")), err("chan_id is empty"));
    assert_eq!(check_switch_chan(s("$switched r1")), Ok(None));
    assert_eq!(check_switch_chan(s("switch r1")), Ok(None));
    assert_eq!(check_switch_chan(s("hello")), Ok(None));
}

#[test]
fn check_leave_cases() {
    let state = client();
    assert_eq!(check_leave_cmd_and_encode_msg(s("$leave r1"), &state), Ok(Some(s("leave$u1$r1"))));
    assert_eq!(
        check_leave_cmd_and_encode_msg(s("$leave r2"), &state),
        err("you have not joined chan: r2")
    );
    assert_eq!(check_leave_cmd_and_encode_msg(s("$leave "), &state), err("chan_id is empty"));
    assert_eq!(check_leave_cmd_and_encode_msg(s("$leave"), &state), err("leave need chan_id"));
    assert_eq!(check_leave_cmd_and_encode_msg(s("$join r1"), &state), Ok(None));
    assert_eq!(check_leave_cmd_and_encode_msg(s("bye"), &state), Ok(None));
}

#[test]
fn check_join_cases() {
    let state = client();
    assert_eq!(check_join_cmd_and_encode_msg(s("$join r2"), &state), Ok(Some(s("join$u1$r2"))));
    assert_eq!(
        check_join_cmd_and_encode_msg(s("$join r1"), &state),
        err("you have already joined chan: r1")
    );
    assert_eq!(check_join_cmd_and_encode_msg(s("$join "), &state), err("chan_id is empty"));
    assert_eq!(check_join_cmd_and_encode_msg(s("$join"), &state), err("join need chan_id"));
    assert_eq!(check_join_cmd_and_encode_msg(s("$leave r1"), &state), Ok(None));
}

#[test]
fn check_create_chan_cases() {
    let state = client();
    assert_eq!(
        check_create_chan_cmd_and_encode_msg(s("$create_chan general"), &state),
        Ok(Some(s("create_chan$u1$general")))
    );
    assert_eq!(
        check_create_chan_cmd_and_encode_msg(s("$create_chan general talk"), &state),
        Ok(Some(s("create_chan$u1$general")))
    );
    assert_eq!(
        check_create_chan_cmd_and_encode_msg(s("$create_channel x"), &state),
        Ok(Some(s("create_chan$u1$x")))
    );
    assert_eq!(
        check_create_chan_cmd_and_encode_msg(s("$create_chan "), &state),
        Ok(Some(s("create_chan$u1$")))
    );
    assert_eq!(
        check_create_chan_cmd_and_encode_msg(s("$create_chan"), &state),
        err("create_chan need chan_name")
    );
    assert_eq!(check_create_chan_cmd_and_encode_msg(s("$create general"), &state), Ok(None));
    assert_eq!(check_create_chan_cmd_and_encode_msg(s("create_chan general"), &state), Ok(None));
}

#[test]
fn parse_join_resp_cases() {
    assert_eq!(parse_join_resp(&s("$$joined: r1")), Ok(s("r1")));
    assert_eq!(parse_join_resp(&s("$$joined: r1: more")), Ok(s("r1")));
    assert_eq!(parse_join_resp(&s("$$joined: ")), Ok(s("")));
    assert_eq!(parse_join_resp(&s("$$joined")), err("invalid join resp"));
    assert_eq!(parse_join_resp(&s("$$joined:r1")), err("invalid join resp"));
    assert_eq!(parse_join_resp(&s("$$leaved: r1")), err("not join resp"));
    assert_eq!(parse_join_resp(&s("alice: hi")), err("not join resp"));
    assert_eq!(parse_join_resp(&s("alice: $$joined: r1")), err("not join resp"));
}

#[test]
fn parse_leave_resp_cases() {
    assert_eq!(parse_leave_resp(&s("$$leaved: r1")), Ok(s("r1")));
    assert_eq!(parse_leave_resp(&s("$$leaved")), err("invalid leave resp"));
    assert_eq!(parse_leave_resp(&s("$$joined: r1")), err("not leave resp"));
}

#[test]
fn parse_create_chan_resp_cases() {
    assert_eq!(parse_create_chan_resp(&s("$$create_chan: 4f90d13a42")), Ok(s("4f90d13a42")));
    assert_eq!(parse_create_chan_resp(&s("hello")), err("invalid create_chan resp"));
    assert_eq!(parse_create_chan_resp(&s("$$joined: r1")), err("not create_chan resp"));
}

#[test]
fn on_input_passes_over_blank_lines() {
    let mut state = client();
    assert_eq!(state.on_input(s("")), ClientAction::Ignore);
    assert_eq!(state.on_input(s("   ")), ClientAction::Ignore);
    assert_eq!(state.on_input(s(" \t ")), ClientAction::Ignore);
    assert_eq!(state.current_chan, "u1");
}

#[test]
fn on_text_takes_a_blank_line_as_text() {
    let mut state = client();
    assert_eq!(state.on_text(s("  ")), ClientAction::Send(s("send_msg$u1$u1$  ")));
    assert_eq!(state.on_text(s("$switch r1")), ClientAction::Switched(s("r1")));
    assert_eq!(state.on_text(s("hi")), ClientAction::Send(s("send_msg$u1$r1$hi")));
}

#[test]
fn on_input_switches_to_a_joined_room_only() {
    let mut state = client();
    assert_eq!(state.on_input(s("$switch r1")), ClientAction::Switched(s("r1")));
    assert_eq!(state.current_chan, "r1");
    assert_eq!(state.on_input(s("$switch r2")), ClientAction::NotJoined(s("r2")));
    assert_eq!(state.current_chan, "r1");
    assert!(!state.joined_chans.contains(&s("r2")));
}

#[test]
fn on_input_sends_directives_as_commands() {
    let mut state = client();
    assert_eq!(state.on_input(s("$leave r1")), ClientAction::Send(s("leave$u1$r1")));
    assert_eq!(state.on_input(s("$join r2")), ClientAction::Send(s("join$u1$r2")));
    assert_eq!(
        state.on_input(s("$create_chan general")),
        ClientAction::Send(s("create_chan$u1$general"))
    );
    assert_eq!(state.current_chan, "u1");
    assert!(state.joined_chans.contains(&s("r1")));
    assert!(!state.joined_chans.contains(&s("r2")));
}

#[test]
fn on_input_sends_text_to_the_current_room() {
    let mut state = client();
    assert_eq!(state.on_input(s("hi all")), ClientAction::Send(s("send_msg$u1$u1$hi all")));
    state.switch_chan(s("r1"));
    assert_eq!(state.on_input(s("  hi $5 ")), ClientAction::Send(s("send_msg$u1$r1$  hi $5 ")));
}

#[test]
fn on_input_sends_a_directive_that_cannot_be_followed_as_text() {
    let mut state = client();
    assert_eq!(state.on_input(s("$join")), ClientAction::Send(s("send_msg$u1$u1$$join")));
    assert_eq!(state.on_input(s("$join r1")), ClientAction::Send(s("send_msg$u1$u1$$join r1")));
    assert_eq!(state.on_input(s("$leave r2")), ClientAction::Send(s("send_msg$u1$u1$$leave r2")));
    assert_eq!(state.on_input(s("$switch")), ClientAction::Send(s("send_msg$u1$u1$$switch")));
}

#[test]
fn on_input_without_a_current_room() {
    let mut state = ClientState::new(s("u1"));
    assert_eq!(state.on_input(s("hi")), ClientAction::NoCurrentChan);
    assert_eq!(state.on_input(s("$join r1")), ClientAction::Send(s("join$u1$r1")));
}

#[test]
fn on_server_line_follows_the_answers() {
    let mut state = client();
    state.on_server_line(&s("$$joined: r2"));
    assert_eq!(state.current_chan, "r2");
    assert!(state.joined_chans.contains(&s("r2")));
    state.on_server_line(&s("$$create_chan: r3"));
    assert_eq!(state.current_chan, "r2");
    assert!(state.joined_chans.contains(&s("r3")));
    state.on_server_line(&s("$$leaved: r3"));
    assert!(!state.joined_chans.contains(&s("r3")));
    assert_eq!(state.current_chan, "r2");
    state.on_server_line(&s("$$leaved: r2"));
    assert_eq!(state.current_chan, "u1");
    assert!(!state.joined_chans.contains(&s("r2")));
    assert!(state.joined_chans.contains(&s("r1")));
}

#[test]
fn on_server_line_leaves_chat_lines_alone() {
    let mut state = client();
    state.on_server_line(&s("alice: hi"));
    state.on_server_line(&s("alice: $$joined: r5"));
    state.on_server_line(&s("------Welcome to Txt Chat------"));
    assert_eq!(state.current_chan, "u1");
    assert!(!state.joined_chans.contains(&s("r5")));
    assert!(state.joined_chans.contains(&s("r1")));
}

#[test]
fn on_registered_takes_the_id_from_the_answer() {
    let mut state = ClientState::new(s("127.0.0.1:5000"));
    assert!(state.on_registered(s("alice"), &s("$$create_chan: 4f90d13a42")));
    assert_eq!(state.user_id, "4f90d13a42");
    assert_eq!(state.username, "alice");
    assert_eq!(state.user_chan, "4f90d13a42");
    assert_eq!(state.current_chan, "4f90d13a42");
    assert!(state.joined_chans.contains(&s("4f90d13a42")));
}

#[test]
fn on_registered_refuses_other_lines() {
    let mut state = ClientState::new(s("here"));
    assert!(!state.on_registered(s("alice"), &s("invalid cmd: reg need username")));
    assert!(!state.on_registered(s("alice"), &s("$$joined: r1")));
    assert_eq!(state.user_id, "here");
    assert_eq!(state.username, "");
    assert_eq!(state.current_chan, "");
}

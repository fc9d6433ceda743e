use txt_chat::errors::ChatErrors;
use txt_chat::event::{respond, Event};
use txt_chat::text::{begins_with, same_text, split_first, to_chars};

fn s(text: &str) -> String {
    text.to_string()
}

fn invalid(text: &str) -> Result<Event, ChatErrors> {
    Err(ChatErrors::InvalidCommand(s(text)))
}

#[test]
fn decode_register() {
    assert_eq!(Event::from_string(s("reg$alice")), Ok(Event::Register { username: s("alice") }));
}

#[test]
fn decode_register_empty_name() {
    assert_eq!(Event::from_string(s("reg$")), Ok(Event::Register { username: s("") }));
}

#[test]
fn decode_register_drops_extra_fields() {
    assert_eq!(Event::from_string(s("reg$alice$bob")), Ok(Event::Register { username: s("alice") }));
}

#[test]
fn decode_register_without_name() {
    assert_eq!(Event::from_string(s("reg")), invalid("reg need username"));
}

#[test]
fn decode_create_chan() {
    assert_eq!(
        Event::from_string(s("create_chan$123$MyChat")),
        Ok(Event::CreateChan { user_id: s("123"), chan_name: s("MyChat") })
    );
}

#[test]
fn decode_create_chan_too_short() {
    let want = invalid("create channel need user id and chan name");
    assert_eq!(Event::from_string(s("create_chan")), want);
    assert_eq!(Event::from_string(s("create_chan$123")), want);
}

#[test]
fn decode_join() {
    assert_eq!(
        Event::from_string(s("join$123$456")),
        Ok(Event::JoinChan { user_id: s("123"), chan_id: s("456") })
    );
    assert_eq!(
        Event::from_string(s("join$123$456$789")),
        Ok(Event::JoinChan { user_id: s("123"), chan_id: s("456") })
    );
}

#[test]
fn decode_join_too_short() {
    assert_eq!(Event::from_string(s("join")), invalid("join need user id and chan id"));
    assert_eq!(Event::from_string(s("join$u1")), invalid("join need user id and chan id"));
}

#[test]
fn decode_leave() {
    assert_eq!(
        Event::from_string(s("leave$123$456")),
        Ok(Event::LeaveChan { user_id: s("123"), chan_id: s("456") })
    );
}

#[test]
fn decode_leave_too_short() {
    assert_eq!(Event::from_string(s("leave$123")), invalid("leave need user id and chan id"));
}

#[test]
fn decode_send_msg() {
    assert_eq!(
        Event::from_string(s("send_msg$123$456$Hello")),
        Ok(Event::SendMsg { user_id: s("123"), chan_id: s("456"), msg: s("Hello") })
    );
}

#[test]
fn decode_send_msg_body_keeps_separators() {
    assert_eq!(
        Event::from_string(s("send_msg$u$r$costs $5, or $$6$")),
        Ok(Event::SendMsg { user_id: s("u"), chan_id: s("r"), msg: s("costs $5, or $$6$") })
    );
}

#[test]
fn decode_send_msg_empty_body() {
    assert_eq!(
        Event::from_string(s("send_msg$u$r$")),
        Ok(Event::SendMsg { user_id: s("u"), chan_id: s("r"), msg: s("") })
    );
}

#[test]
fn decode_send_msg_too_short() {
    let want = invalid("send_msg need user id and chan id and msg content");
    assert_eq!(Event::from_string(s("send_msg")), want);
    assert_eq!(Event::from_string(s("send_msg$u")), want);
    assert_eq!(Event::from_string(s("send_msg$u$r")), want);
}

#[test]
fn decode_unknown_command() {
    assert_eq!(
        Event::from_string(s("bogus$x")),
        Err(ChatErrors::CommandNotSupport(s("bogus")))
    );
    assert_eq!(Event::from_string(s("")), Err(ChatErrors::CommandNotSupport(s(""))));
    assert_eq!(Event::from_string(s("$reg$x")), Err(ChatErrors::CommandNotSupport(s(""))));
    assert_eq!(Event::from_string(s("REG$x")), Err(ChatErrors::CommandNotSupport(s("REG"))));
    assert_eq!(Event::from_string(s("regx")), Err(ChatErrors::CommandNotSupport(s("regx"))));
}

#[test]
fn decode_fields_beyond_ascii() {
    assert_eq!(
        Event::from_string(s("send_msg$zoë$räum$grüße $ 你好")),
        Ok(Event::SendMsg { user_id: s("zoë"), chan_id: s("räum"), msg: s("grüße $ 你好") })
    );
}

#[test]
fn encode_each_command() {
    assert_eq!(Event::Register { username: s("alice") }.encode(), "reg$alice");
    assert_eq!(
        Event::CreateChan { user_id: s("123"), chan_name: s("MyChat") }.encode(),
        "create_chan$123$MyChat"
    );
    assert_eq!(Event::JoinChan { user_id: s("123"), chan_id: s("456") }.encode(), "join$123$456");
    assert_eq!(Event::LeaveChan { user_id: s("123"), chan_id: s("456") }.encode(), "leave$123$456");
    assert_eq!(
        Event::SendMsg { user_id: s("123"), chan_id: s("456"), msg: s("Hello") }.encode(),
        "send_msg$123$456$Hello"
    );
}

#[test]
fn decode_gives_back_what_was_encoded() {
    let commands = vec![
        Event::Register { username: s("alice") },
        Event::Register { username: s("") },
        Event::CreateChan { user_id: s("4f90d13a42"), chan_name: s("general talk") },
        Event::JoinChan { user_id: s("u1"), chan_id: s("r1") },
        Event::LeaveChan { user_id: s("u1"), chan_id: s("r1") },
        Event::SendMsg { user_id: s("u1"), chan_id: s("r1"), msg: s("a$b$$c") },
        Event::SendMsg { user_id: s("ü"), chan_id: s("好"), msg: s("") },
    ];
    for command in commands {
        assert_eq!(Event::from_string(command.encode()), Ok(command));
    }
}

#[test]
fn error_texts() {
    assert_eq!(ChatErrors::InvalidCommand(s("reg need username")).to_string(), "invalid cmd: reg need username");
    assert_eq!(ChatErrors::CommandNotSupport(s("bogus")).to_string(), "cmd: bogus is not support");
    assert_eq!(ChatErrors::UnknownCurrentChan.to_string(), "not set current channel yet");
    assert_eq!(ChatErrors::RoomNotFound(s("r9")).to_string(), "chan r9 not found");
}

#[test]
fn respond_joins_name_and_payload() {
    assert_eq!(respond("$$joined", "4f90d13a42"), "$$joined: 4f90d13a42");
    assert_eq!(respond("$$create_chan", ""), "$$create_chan: ");
}

#[test]
fn split_first_at_the_first_separator() {
    assert_eq!(split_first("a$b$c", "$"), (s("a"), Some(s("b$c"))));
    assert_eq!(split_first("abc", "$"), (s("abc"), None));
    assert_eq!(split_first("", "$"), (s(""), None));
    assert_eq!(split_first("$", "$"), (s(""), Some(s(""))));
    assert_eq!(split_first("abc$", "$"), (s("abc"), Some(s(""))));
}

#[test]
fn split_first_with_a_longer_separator() {
    assert_eq!(split_first("$$joined: r1", ": "), (s("$$joined"), Some(s("r1"))));
    assert_eq!(split_first("a:b: c: d", ": "), (s("a:b"), Some(s("c: d"))));
    assert_eq!(split_first("a:", ": "), (s("a:"), None));
    assert_eq!(split_first("aab", "ab"), (s("a"), Some(s(""))));
    assert_eq!(split_first("é: ü", ": "), (s("é"), Some(s("ü"))));
}

#[test]
fn split_first_with_an_empty_separator() {
    assert_eq!(split_first("abc", ""), (s(""), Some(s("abc"))));
    assert_eq!(split_first("", ""), (s(""), Some(s(""))));
}

#[test]
fn to_chars_keeps_every_character() {
    assert_eq!(to_chars("a$é好"), vec!['a', '$', 'é', '好']);
    assert_eq!(to_chars(""), Vec::<char>::new());
}

#[test]
fn same_text_and_begins_with() {
    assert!(same_text("reg", "reg"));
    assert!(!same_text("reg", "regx"));
    assert!(!same_text("reg", "rex"));
    assert!(same_text("", ""));
    assert!(begins_with("$create_chan x", "$create_chan"));
    assert!(begins_with("abc", ""));
    assert!(!begins_with("$create", "$create_chan"));
    assert!(!begins_with("x$create_chan", "$create_chan"));
}

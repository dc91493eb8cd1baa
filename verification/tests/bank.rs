use wirekit::bank::manager::{
    get_command_response, has_colon, parse_up_string, Command, Response, Session, Status, Turn,
};

#[test]
fn commands_come_from_words() {
    assert_eq!(Command::from("create"), Command::Create);
    assert_eq!(Command::from("update"), Command::Update);
    assert_eq!(Command::from("login"), Command::Login);
    assert_eq!(Command::from("quit"), Command::Quit);
    assert_eq!(Command::from(""), Command::Noop);
    assert_eq!(Command::from("transfer"), Command::Unimpl);
    assert_eq!(Command::from("Create"), Command::Unimpl);
    assert_eq!(Command::from(" create"), Command::Unimpl);
}

#[test]
fn trailing_white_space_is_not_part_of_a_command() {
    assert_eq!(Command::from("login\n"), Command::Login);
    assert_eq!(Command::from("login\r\n"), Command::Login);
    assert_eq!(Command::from("quit \t\u{a0}\u{3000}\u{2028}"), Command::Quit);
    assert_eq!(Command::from("\r\n"), Command::Noop);
    assert_eq!(Command::from("   "), Command::Noop);
    assert_eq!(Command::from("create\u{200b}"), Command::Unimpl);
    assert_eq!(Command::from("cre ate\n"), Command::Unimpl);
}

#[test]
fn every_command_has_its_prompt() {
    assert_eq!(get_command_response(Command::Create), "give me a <user>:<password>\n");
    assert_eq!(get_command_response(Command::Login), "give me a <user>:<password>\n");
    assert_eq!(get_command_response(Command::Update), "give me an amount\n");
    assert_eq!(get_command_response(Command::Quit), "terminating...\n");
    assert_eq!(get_command_response(Command::Noop), "continuing...\n");
    assert_eq!(get_command_response(Command::Unimpl), "unimplemented!\n");
}

#[test]
fn user_and_password_are_split_at_colons() {
    assert_eq!(parse_up_string("alice:secret"), ("alice", "secret"));
    assert_eq!(parse_up_string("alice:secret:more:still"), ("alice", "secret"));
    assert_eq!(parse_up_string(":"), ("", ""));
    assert_eq!(parse_up_string("a:"), ("a", ""));
    assert_eq!(parse_up_string(":b"), ("", "b"));
    assert_eq!(parse_up_string("::"), ("", ""));
    assert_eq!(parse_up_string("caf\u{e9}:p\u{e4}ss\n"), ("caf\u{e9}", "p\u{e4}ss\n"));
    assert!(has_colon("a:b"));
    assert!(has_colon(":"));
    assert!(!has_colon("ab"));
    assert!(!has_colon(""));
    assert!(!has_colon("\u{ff1a}"));
}

#[test]
fn session_alternates_between_command_and_argument() {
    let mut session = Session::default();
    match session.handle_data("login\n") {
        Turn::Prompt(text) => assert_eq!(text, "give me a <user>:<password>\n"),
        Turn::Run(_) => panic!("no command was pending"),
    }
    match session.handle_data("alice:secret") {
        Turn::Run(cmd) => assert_eq!(cmd, Command::Login),
        Turn::Prompt(_) => panic!("a command was pending"),
    }
    match session.handle_data("bogus") {
        Turn::Prompt(text) => assert_eq!(text, "unimplemented!\n"),
        Turn::Run(_) => panic!("no command was pending"),
    }
    match session.handle_data("anything") {
        Turn::Run(cmd) => assert_eq!(cmd, Command::Unimpl),
        Turn::Prompt(_) => panic!("a command was pending"),
    }
    assert!(!session.is_authed());
    assert_eq!(session.user(), None);
}

#[test]
fn login_needs_an_account_and_the_right_password() {
    let mut session = Session::default();
    assert_eq!(
        session.handle_login("alice", None),
        Response { status: Status::Failure, msg: "no such account\n".to_string() }
    );
    assert_eq!(session.user(), None);
    assert_eq!(
        session.handle_login("alice", Some(false)),
        Response { status: Status::Success, msg: "incorrect password\n".to_string() }
    );
    assert!(!session.is_authed());
    assert_eq!(session.user(), None);
    assert_eq!(
        session.handle_login("alice", Some(true)),
        Response { status: Status::Success, msg: "login successful!\n".to_string() }
    );
    assert!(session.is_authed());
    assert_eq!(session.user(), Some("alice"));
    assert_eq!(
        session.handle_login("bob", Some(true)),
        Response { status: Status::Failure, msg: "already logged in\n".to_string() }
    );
    assert_eq!(session.user(), Some("alice"));
}

#[test]
fn create_names_the_user_without_authenticating() {
    let mut session = Session::default();
    assert_eq!(
        session.handle_create("alice", true),
        Response { status: Status::Failure, msg: "account exists\n".to_string() }
    );
    assert_eq!(session.user(), None);
    assert_eq!(
        session.handle_create("alice", false),
        Response { status: Status::Success, msg: "account created\n".to_string() }
    );
    assert_eq!(session.user(), Some("alice"));
    assert!(!session.is_authed());
    assert_eq!(
        session.handle_login("alice", Some(true)).msg,
        "already logged in\n"
    );
}

#[test]
fn update_needs_a_user_who_is_authenticated() {
    let mut session = Session::default();
    assert_eq!(
        session.handle_update(),
        Err(Response { status: Status::Failure, msg: "Must login first!\n".to_string() })
    );
    session.handle_create("alice", false);
    assert_eq!(
        session.handle_update(),
        Err(Response { status: Status::Failure, msg: "Unauthorized\n".to_string() })
    );
    let mut other = Session::default();
    other.handle_login("bob", Some(true));
    assert_eq!(other.handle_update(), Ok("bob"));
    assert_eq!(other.clone().user(), Some("bob"));
}

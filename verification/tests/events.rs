use voice_migrator::events::{
    channel_ignored, deletion_notice, nickname_notice, parse_command, Command, DeletionNotice,
};

fn name(text: &str) -> String {
    text.to_string()
}

#[test]
fn commands_are_read_from_the_start_of_a_message() {
    assert_eq!(parse_command(b"!ping"), Some(Command::Ping));
    assert_eq!(parse_command(b"!help"), Some(Command::Help));
    assert_eq!(parse_command(b"!start"), Some(Command::Start));
    assert_eq!(parse_command(b"!end"), Some(Command::End));
    assert_eq!(parse_command(b"!sendid"), Some(Command::SendId));
    assert_eq!(parse_command("!ping me please".as_bytes()), Some(Command::Ping));
    assert_eq!(parse_command(b"!endless"), Some(Command::End));
    assert_eq!(parse_command(b"!startle"), Some(Command::Start));
}

#[test]
fn anything_else_is_no_command() {
    assert_eq!(parse_command(b""), None);
    assert_eq!(parse_command(b"!"), None);
    assert_eq!(parse_command(b"!pin"), None);
    assert_eq!(parse_command(b"ping"), None);
    assert_eq!(parse_command(b" !ping"), None);
    assert_eq!(parse_command(b"!Ping"), None);
    assert_eq!(parse_command(b"!send"), None);
    assert_eq!(parse_command(b"!sendit"), None);
    assert_eq!(parse_command(b"!en"), None);
    assert_eq!(parse_command("hello !help".as_bytes()), None);
}

#[test]
fn moving_commands_are_obeyed_in_the_control_centre_only() {
    for command in [Command::Start, Command::End] {
        assert!(command.allowed_in(5, 5));
        assert!(!command.allowed_in(6, 5));
    }
    for command in [Command::Ping, Command::Help, Command::SendId] {
        assert!(command.allowed_in(5, 5));
        assert!(command.allowed_in(6, 5));
    }
}

#[test]
fn a_nickname_taken_is_announced_from_the_user_name() {
    assert_eq!(
        nickname_notice(None, name("ada"), Some(name("Countess")), name("ada")),
        Some((name("ada"), name("Countess")))
    );
}

#[test]
fn a_nickname_changed_is_announced_from_the_old_nickname() {
    assert_eq!(
        nickname_notice(Some(name("Countess")), name("ada"), Some(name("Enchantress")), name("ada")),
        Some((name("Countess"), name("Enchantress")))
    );
}

#[test]
fn a_nickname_dropped_is_announced_to_the_user_name() {
    assert_eq!(
        nickname_notice(Some(name("Countess")), name("ada"), None, name("ada_l")),
        Some((name("Countess"), name("ada_l")))
    );
}

#[test]
fn a_nickname_that_stays_is_not_announced() {
    assert_eq!(
        nickname_notice(Some(name("Countess")), name("ada"), Some(name("Countess")), name("lovelace")),
        None
    );
    assert_eq!(nickname_notice(None, name("ada"), None, name("lovelace")), None);
}

#[test]
fn ignored_channels_are_found_by_their_name() {
    let ignored = vec![name("10"), name("200"), name("3000")];
    assert!(channel_ignored(&ignored, &name("10")));
    assert!(channel_ignored(&ignored, &name("3000")));
    assert!(!channel_ignored(&ignored, &name("20")));
    assert!(!channel_ignored(&ignored, &name("")));
    assert!(!channel_ignored(&Vec::new(), &name("10")));
}

#[test]
fn a_deletion_is_reported_by_what_is_known_of_it() {
    assert_eq!(deletion_notice(None, None), DeletionNotice::Uncached);
    assert_eq!(deletion_notice(None, Some(4)), DeletionNotice::Uncached);
    assert_eq!(deletion_notice(Some(4), Some(9)), DeletionNotice::ByAuthor);
    assert_eq!(deletion_notice(Some(4), Some(4)), DeletionNotice::ByOther);
}

use rengo_server::process::{
    command_word, console_command, listen_address, named_command, pool_size, pool_size_for,
    thread_end, ConsoleCommand, ThreadEnd, ThreadMessage,
};

#[test]
fn stop_is_known_in_any_case() {
    assert_eq!(console_command("stop\n"), ConsoleCommand::Stop);
    assert_eq!(console_command("STOP"), ConsoleCommand::Stop);
    assert_eq!(console_command("sToP now please\r\n"), ConsoleCommand::Stop);
}

#[test]
fn other_lines_are_invalid() {
    for line in vec!["", "\n", " stop", "\tstop", "stopp", "stop\tnow", "halt\n"] {
        assert_eq!(console_command(line), ConsoleCommand::Invalid);
    }
}

#[test]
fn first_word_ends_at_a_blank() {
    assert_eq!(command_word("Stop it \n"), "Stop");
    assert_eq!(command_word("stop\t \u{2003}\n"), "stop");
    assert_eq!(command_word(" a"), "");
    assert_eq!(command_word("   "), "");
    assert_eq!(command_word("žluť kůň"), "žluť");
}

#[test]
fn commands_are_named_in_lower_case() {
    assert_eq!(named_command(&"stop".to_owned()), ConsoleCommand::Stop);
    assert_eq!(named_command(&"STOP".to_owned()), ConsoleCommand::Invalid);
}

#[test]
fn there_is_always_a_thread() {
    assert_eq!(pool_size_for(0), 1);
    assert_eq!(pool_size_for(1), 1);
    assert_eq!(pool_size_for(12), 12);
    assert_eq!(pool_size(), num_cpus::get());
}

#[test]
fn address_is_given_or_the_default() {
    assert_eq!(listen_address(None), "0.0.0.0:8080");
    assert_eq!(listen_address(Some("127.0.0.1:1".to_owned())), "127.0.0.1:1");
}

#[test]
fn threads_end_with_the_first_message() {
    assert_eq!(thread_end(Some(ThreadMessage::Terminate)), ThreadEnd::Terminated);
    assert_eq!(thread_end(None), ThreadEnd::QueueClosed);
}

#[test]
fn ascii_white_space_is_cut_off() {
    for code in 0..128u8 {
        let c = char::from(code);
        let line = format!("a{}", c);
        let white = c == ' ' || (9..=13).contains(&code);
        assert_eq!(command_word(&line) == "a", white);
    }
}

#[test]
fn stop_may_be_written_in_sixteen_ways() {
    for mask in 0..16u8 {
        let mut line = String::new();
        for (i, c) in "stop".chars().enumerate() {
            if mask & (1 << i) != 0 {
                line.push(c.to_ascii_uppercase());
            } else {
                line.push(c);
            }
        }
        line.push('\n');
        assert_eq!(console_command(&line), ConsoleCommand::Stop);
    }
}

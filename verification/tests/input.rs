use mentat::input::{Command, InputReader, InputResult, LineOutcome, UserAction};

#[test]
fn test_prompt_is_coloured_and_follows_the_command_in_process() {
    let mut reader = InputReader::new();
    assert_eq!(reader.prompt(), "\x1b[38;2;153;170;255mmentat=> \x1b[39m".to_string());
    reader.in_process_cmd = Some(Command::Query("[:find".to_string()));
    assert_eq!(reader.prompt(), "\x1b[38;2;153;170;255mmentat.> \x1b[39m".to_string());
}

#[test]
fn test_empty_line_and_end_of_input() {
    let mut reader = InputReader::new();
    assert_eq!(
        reader.take_line(UserAction::TextInput(String::new())),
        LineOutcome::Done(InputResult::Empty)
    );
    assert_eq!(reader.take_line(UserAction::Quit), LineOutcome::Done(InputResult::Eof));
    assert_eq!(reader.take_line(UserAction::Interrupt), LineOutcome::Done(InputResult::Eof));
}

#[test]
fn test_command_over_two_lines() {
    let mut reader = InputReader::new();
    let first = reader.take_line(UserAction::TextInput(".q [:find ?x".to_string()));
    assert_eq!(first, LineOutcome::Parse(".q [:find ?x".to_string()));
    let (result, entry) =
        reader.settle::<String>(Ok(Command::Query("[:find ?x".to_string())), false);
    assert_eq!(result, Ok(InputResult::More));
    assert_eq!(entry, None);
    assert_eq!(reader.in_process_cmd, Some(Command::Query("[:find ?x".to_string())));

    let second = reader.take_line(UserAction::TextInput(":where [?x _ _]]".to_string()));
    assert_eq!(
        second,
        LineOutcome::Continue(Command::Query("[:find ?x\n:where [?x _ _]]".to_string()))
    );
    assert_eq!(reader.buffer, ".q [:find ?x\n:where [?x _ _]]".to_string());
    let (result, entry) = reader.settle::<String>(
        Ok(Command::Query("[:find ?x\n:where [?x _ _]]".to_string())),
        true,
    );
    assert_eq!(
        result,
        Ok(InputResult::MetaCommand(Command::Query("[:find ?x\n:where [?x _ _]]".to_string())))
    );
    assert_eq!(entry, Some(".q [:find ?x\n:where [?x _ _]]".to_string()));
    assert_eq!(reader.buffer, String::new());
    assert_eq!(reader.in_process_cmd, None);
}

#[test]
fn test_interrupt_drops_the_command_in_process() {
    let mut reader = InputReader::new();
    reader.take_line(UserAction::TextInput(".t [[:db/add".to_string()));
    reader.settle::<String>(Ok(Command::Transact("[[:db/add".to_string())), false);
    assert_eq!(reader.take_line(UserAction::Interrupt), LineOutcome::Done(InputResult::Empty));
    assert_eq!(reader.in_process_cmd, None);
    assert_eq!(reader.buffer, String::new());
}

#[test]
fn test_other_commands_and_errors_end_the_command() {
    let mut reader = InputReader::new();
    reader.take_line(UserAction::TextInput(".help".to_string()));
    let (result, entry) = reader.settle::<String>(Ok(Command::Other("help".to_string())), false);
    assert_eq!(result, Ok(InputResult::MetaCommand(Command::Other("help".to_string()))));
    assert_eq!(entry, Some(".help".to_string()));

    reader.take_line(UserAction::TextInput(".nonsense".to_string()));
    let (result, entry) = reader.settle(Err("no such command".to_string()), false);
    assert_eq!(result, Err("no such command".to_string()));
    assert_eq!(entry, Some(".nonsense".to_string()));
    assert_eq!(reader.buffer, String::new());

    reader.take_line(UserAction::TextInput(".explain [:find".to_string()));
    reader.settle::<String>(Ok(Command::QueryExplain("[:find".to_string())), false);
    assert_eq!(
        reader.take_line(UserAction::TextInput("?x]".to_string())),
        LineOutcome::Parse(".explain [:find\n?x]".to_string())
    );
    reader.settle::<String>(Ok(Command::QueryPrepared("[:find".to_string())), false);
    assert_eq!(
        reader.take_line(UserAction::TextInput("?y]".to_string())),
        LineOutcome::Continue(Command::QueryPrepared("[:find\n?y]".to_string()))
    );
}

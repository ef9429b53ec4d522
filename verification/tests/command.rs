use power_msmt::command::{
    command_line, prepare_command, program_and_args, trigger_wait, BenchmarkCommand,
    CommandLineError,
};

#[test]
fn timed_engine_execution_reads_the_path() {
    assert_eq!(
        BenchmarkCommand::from_str("TEE,/home/nx/model.engine"),
        Ok(BenchmarkCommand::TimedEngineExecution { engine_path: "/home/nx/model.engine".to_string() })
    );
    assert_eq!(
        BenchmarkCommand::from_str("TEE,/a.engine,ignored"),
        Ok(BenchmarkCommand::TimedEngineExecution { engine_path: "/a.engine".to_string() })
    );
    assert_eq!(
        BenchmarkCommand::from_str("TEEx,"),
        Ok(BenchmarkCommand::TimedEngineExecution { engine_path: String::new() })
    );
}

#[test]
fn timed_engine_execution_needs_a_path() {
    assert_eq!(BenchmarkCommand::from_str("TEE"), Err("no path".to_string()));
    assert_eq!(BenchmarkCommand::from_str("TEE /a.engine"), Err("no path".to_string()));
}

#[test]
fn jetson_command_is_trimmed() {
    assert_eq!(
        BenchmarkCommand::from_str("JET   ls -la \t"),
        Ok(BenchmarkCommand::JetsonCommand("ls -la".to_string()))
    );
    assert_eq!(
        BenchmarkCommand::from_str("JETSON run\u{3000}"),
        Ok(BenchmarkCommand::JetsonCommand("run".to_string()))
    );
    assert_eq!(BenchmarkCommand::from_str("JET "), Ok(BenchmarkCommand::JetsonCommand(String::new())));
}

#[test]
fn jetson_command_needs_a_space() {
    assert_eq!(BenchmarkCommand::from_str("JET"), Err("No Command".to_string()));
    assert_eq!(BenchmarkCommand::from_str("JET\tls"), Err("No Command".to_string()));
}

#[test]
fn other_commands_stand_as_given() {
    assert_eq!(
        BenchmarkCommand::from_str("python3 bench.py"),
        Ok(BenchmarkCommand::OtherCommand("python3 bench.py".to_string()))
    );
    assert_eq!(BenchmarkCommand::from_str("tee,x"), Ok(BenchmarkCommand::OtherCommand("tee,x".to_string())));
    assert_eq!(BenchmarkCommand::from_str(""), Ok(BenchmarkCommand::OtherCommand(String::new())));
}

#[test]
fn commands_are_shown() {
    assert_eq!(
        BenchmarkCommand::TimedEngineExecution { engine_path: "/e".to_string() }.to_string(),
        "TimedEngineExecution(/e)"
    );
    assert_eq!(BenchmarkCommand::JetsonCommand("ls".to_string()).to_string(), "JetsonCommand(ls)");
    assert_eq!(BenchmarkCommand::OtherCommand("ls".to_string()).to_string(), "OtherCommand(ls)");
    assert_eq!(BenchmarkCommand::NoCommand.to_string(), "NoCommand");
}

#[test]
fn trigger_wait_follows_the_oscilloscope_frame() {
    assert_eq!(trigger_wait(Some(5)), "6");
    assert_eq!(trigger_wait(Some(0)), "1");
    assert_eq!(trigger_wait(None), "500");
}

#[test]
fn command_lines() {
    let tee = BenchmarkCommand::TimedEngineExecution { engine_path: "/home/nx/m.engine".to_string() };
    assert_eq!(
        command_line(&tee, 30, "6"),
        Some("ssh nx@10.42.0.44 ~/timed_engine_execution.sh /home/nx/m.engine 30 6".to_string())
    );
    assert_eq!(
        command_line(&BenchmarkCommand::JetsonCommand("ls -la".to_string()), 30, "500"),
        Some("ssh nx@10.42.0.44 ls -la".to_string())
    );
    assert_eq!(
        command_line(&BenchmarkCommand::OtherCommand("sleep 3".to_string()), 30, "500"),
        Some("sleep 3".to_string())
    );
    assert_eq!(command_line(&BenchmarkCommand::NoCommand, 30, "500"), None);
}

#[test]
fn parsed_other_command_runs_unchanged() {
    let c = BenchmarkCommand::from_str("./run.sh --fast").unwrap();
    assert_eq!(command_line(&c, 1, "500"), Some("./run.sh --fast".to_string()));
}

#[test]
fn command_line_is_cut_into_words() {
    assert_eq!(
        prepare_command("ssh nx@10.42.0.44 'echo a  b' \"c d\""),
        Ok((
            "ssh".to_string(),
            vec!["nx@10.42.0.44".to_string(), "echo a  b".to_string(), "c d".to_string()]
        ))
    );
    assert_eq!(prepare_command("sleep"), Ok(("sleep".to_string(), vec![])));
}

#[test]
fn command_line_errors() {
    assert_eq!(prepare_command("echo 'open"), Err(CommandLineError::UnclosedQuote));
    assert_eq!(prepare_command("   "), Err(CommandLineError::NoProgram));
    assert_eq!(prepare_command("# only a comment"), Err(CommandLineError::NoProgram));
}

#[test]
fn program_is_the_first_word() {
    assert_eq!(
        program_and_args(vec!["a".to_string(), "b".to_string()]),
        Some(("a".to_string(), vec!["b".to_string()]))
    );
    assert_eq!(program_and_args(vec![]), None);
}

use academic_workflow::ipc::{
    decoded, frame, incoming_line, outgoing_line, ping_message, ping_outcome, shutdown_message,
    shutdown_plan, written, IPCClientBuilder, IPCError, IPCMessage, PingError, ShutdownStep,
};

#[test]
fn test_ipc_builder() {
    let builder = IPCClientBuilder::new("/path/to/ai/script.py")
        .jail_command("bwrap")
        .jail_arg("--unshare-all")
        .jail_arg("--die-with-parent");

    assert_eq!(builder.jail_command, "bwrap");
    assert_eq!(builder.jail_args.len(), 5); // 3 default + 2 added
    assert_eq!(builder.ai_script, "/path/to/ai/script.py");
}

#[test]
fn builder_defaults_favour_restriction() {
    let builder = IPCClientBuilder::new("jail.py");
    assert_eq!(builder.jail_command, "firejail");
    assert_eq!(builder.jail_args, vec!["--quiet", "--private", "--net=none"]);
    assert_eq!(builder.launch_args(), vec!["--quiet", "--private", "--net=none", "jail.py"]);

    let builder = builder.jail_args(vec!["--one".to_string()]).jail_arg("--two");
    assert_eq!(builder.launch_args(), vec!["--one", "--two", "jail.py"]);
}

#[test]
fn a_message_is_sent_as_one_line() {
    assert_eq!(frame("{}"), "{}\n");
    assert_eq!(outgoing_line(true, Ok("{\"type\":\"Shutdown\"}".to_string())).unwrap(), "{\"type\":\"Shutdown\"}\n");
    assert!(matches!(
        outgoing_line(false, Ok("{}".to_string())),
        Err(IPCError::WriteError(m)) if m == "stdin not available"
    ));
    assert!(matches!(
        outgoing_line(true, Err("no map keys".to_string())),
        Err(IPCError::SerializationError(m)) if m == "no map keys"
    ));
    assert!(written(Ok(())).is_ok());
    assert!(matches!(written(Err("broken pipe".to_string())), Err(IPCError::WriteError(m)) if m == "broken pipe"));
}

#[test]
fn an_empty_read_is_a_crash_and_a_bad_line_is_not() {
    assert!(matches!(incoming_line(true, Ok(String::new())), Err(IPCError::ProcessCrashed)));
    assert_eq!(incoming_line(true, Ok("\n".to_string())).unwrap(), "\n");
    assert_eq!(incoming_line(true, Ok("{\"type\":\"Pong\"}\n".to_string())).unwrap(), "{\"type\":\"Pong\"}\n");
    assert!(matches!(
        incoming_line(true, Err("interrupted".to_string())),
        Err(IPCError::ReadError(m)) if m == "interrupted"
    ));
    assert!(matches!(
        incoming_line(false, Ok("line".to_string())),
        Err(IPCError::ReadError(m)) if m == "stdout not available"
    ));
    assert!(matches!(
        decoded(Err("expected value at line 1".to_string())),
        Err(IPCError::DeserializationError(m)) if m == "expected value at line 1"
    ));
    assert!(matches!(decoded(Ok(IPCMessage::Shutdown)), Ok(IPCMessage::Shutdown)));
}

#[test]
fn only_a_pong_answers_a_ping() {
    assert!(matches!(ping_message(123456), IPCMessage::Ping { timestamp: 123456 }));
    assert!(ping_outcome(&IPCMessage::Pong { timestamp: 1 }).is_ok());
    assert!(matches!(
        ping_outcome(&IPCMessage::Error { message: "busy".to_string() }),
        Err(PingError::Rejected(m)) if m == "busy"
    ));
    assert!(matches!(ping_outcome(&IPCMessage::Ping { timestamp: 1 }), Err(PingError::InvalidMessage)));
    assert!(matches!(ping_outcome(&IPCMessage::Shutdown), Err(PingError::InvalidMessage)));
    assert!(matches!(
        ping_outcome(&IPCMessage::Ack { request_id: "r".to_string() }),
        Err(PingError::InvalidMessage)
    ));
    assert!(matches!(shutdown_message(), IPCMessage::Shutdown));
    assert_eq!(PingError::Rejected("busy".to_string()).to_string(), "Ping failed: busy");
}

#[test]
fn transport_error_texts() {
    assert_eq!(
        IPCError::SpawnError("not found".to_string()).to_string(),
        "Failed to spawn AI jail process: not found"
    );
    assert_eq!(IPCError::WriteError("w".to_string()).to_string(), "Failed to write to stdin: w");
    assert_eq!(IPCError::ReadError("r".to_string()).to_string(), "Failed to read from stdout: r");
    assert_eq!(
        IPCError::SerializationError("s".to_string()).to_string(),
        "Failed to serialize message: s"
    );
    assert_eq!(
        IPCError::DeserializationError("d".to_string()).to_string(),
        "Failed to deserialize message: d"
    );
    assert_eq!(IPCError::ProcessCrashed.to_string(), "AI jail process crashed");
    assert_eq!(IPCError::Timeout.to_string(), "Timeout waiting for response");
    assert_eq!(IPCError::InvalidMessage.to_string(), "Invalid message format");
}

#[test]
fn a_shutdown_always_ends_with_the_wait() {
    let open = shutdown_plan(true);
    assert_eq!(open.len(), 2);
    assert!(matches!(open[0], ShutdownStep::Send(IPCMessage::Shutdown)));
    assert!(matches!(open[1], ShutdownStep::Wait));
    let closed = shutdown_plan(false);
    assert_eq!(closed.len(), 1);
    assert!(matches!(closed[0], ShutdownStep::Wait));
}

#[test]
fn a_text_of_two_lines_is_no_message() {
    assert!(matches!(
        outgoing_line(true, Ok("{\n}".to_string())),
        Err(IPCError::InvalidMessage)
    ));
    assert_eq!(outgoing_line(true, Ok("{\r}".to_string())).unwrap(), "{\r}\n");
    assert_eq!(outgoing_line(true, Ok(String::new())).unwrap(), "\n");
    assert!(matches!(
        outgoing_line(false, Ok("{\n}".to_string())),
        Err(IPCError::WriteError(_))
    ));
}

use anything_cli::instructions::{plan_instructions, Action, Effect, ExecutionState};
use anything_cli::schema::Instruction;

fn instr(action: &str, content: Option<&str>, error: Option<bool>) -> Instruction {
    Instruction { action: action.to_string(), content: content.map(|s| s.to_string()), error }
}

#[test]
fn test_instruction_creation() {
    let ping_instruction = Instruction { action: "ping".to_string(), content: None, error: None };

    let print_instruction = Instruction {
        action: "print".to_string(),
        content: Some("Hello, World!".to_string()),
        error: Some(false),
    };

    let execute_instruction = Instruction {
        action: "execute".to_string(),
        content: Some("echo 'test'".to_string()),
        error: Some(true),
    };

    assert_eq!(ping_instruction.action, "ping");
    assert!(ping_instruction.content.is_none());

    assert_eq!(print_instruction.action, "print");
    assert_eq!(print_instruction.content, Some("Hello, World!".to_string()));
    assert_eq!(print_instruction.error, Some(false));

    assert_eq!(execute_instruction.action, "execute");
    assert_eq!(execute_instruction.content, Some("echo 'test'".to_string()));
    assert_eq!(execute_instruction.error, Some(true));
}

#[test]
fn test_process_instructions_with_errors() {
    let instructions = vec![
        instr("ping", None, None),
        instr("print", Some("This should print"), Some(false)),
        instr("execute", Some("echo 'test'"), Some(true)),
        instr("print", Some("This should still print despite previous error"), Some(false)),
    ];
    let plan = plan_instructions(&instructions);
    let result = plan.outcome;
    assert!(result.is_err());
    assert_eq!(result.unwrap_err(), 1);
    assert_eq!(
        plan.effects,
        vec![
            Effect::Pong,
            Effect::PrintOut("This should print".to_string()),
            Effect::RunScript("echo 'test'".to_string()),
            Effect::PrintOut("This should still print despite previous error".to_string()),
        ]
    );
}

#[test]
fn test_process_instructions_print_with_error_flag() {
    let instructions = vec![
        instr("print", Some("This is an error message"), Some(true)),
        instr("print", Some("This should still print"), Some(false)),
    ];
    let plan = plan_instructions(&instructions);
    assert_eq!(plan.effects[0], Effect::PrintErr("This is an error message".to_string()));
    assert_eq!(plan.effects[1], Effect::PrintOut("This should still print".to_string()));
    let result = plan.outcome;
    assert!(result.is_err());
    assert_eq!(result.unwrap_err(), 1);
}

#[test]
fn test_process_instructions_no_errors() {
    let instructions = vec![
        instr("ping", None, None),
        instr("print", Some("Hello"), Some(false)),
        instr("execute", Some("echo 'test'"), Some(false)),
    ];
    let result = plan_instructions(&instructions).outcome;
    assert!(result.is_ok());
}

#[test]
fn test_process_instructions_warnings_dont_fail() {
    let instructions = vec![
        instr("ping", None, None),
        instr("print", None, Some(false)),
        instr("execute", None, Some(false)),
        instr("unknown_action", Some("test"), Some(false)),
        instr("print", Some("This should still work"), Some(false)),
    ];
    let plan = plan_instructions(&instructions);
    assert_eq!(
        plan.effects,
        vec![
            Effect::Pong,
            Effect::BlankLine,
            Effect::Nothing,
            Effect::Unsupported("unknown_action".to_string()),
            Effect::PrintOut("This should still work".to_string()),
        ]
    );
    assert!(plan.outcome.is_ok());
}

#[test]
fn test_process_instructions_missing_execute_content_succeeds() {
    let instructions = vec![instr("execute", None, Some(false))];
    let result = plan_instructions(&instructions).outcome;
    assert!(result.is_ok());
}

#[test]
fn test_process_instructions_none_with_error() {
    let instructions = vec![instr("none", None, Some(true))];
    let result = plan_instructions(&instructions).outcome;
    assert!(result.is_err());
    assert_eq!(result.unwrap_err(), 1);
}

#[test]
fn failure_does_not_stop_the_pass() {
    let instructions = vec![
        instr("print", Some("ok"), Some(false)),
        instr("none", None, Some(true)),
        instr("print", Some("still runs"), Some(false)),
    ];
    let plan = plan_instructions(&instructions);
    assert_eq!(
        plan.effects,
        vec![
            Effect::PrintOut("ok".to_string()),
            Effect::Nothing,
            Effect::PrintOut("still runs".to_string()),
        ]
    );
    assert_eq!(plan.outcome, Err(1));
}

#[test]
fn ping_print_execute_succeed() {
    let instructions = vec![
        instr("ping", None, None),
        instr("print", Some("hi"), Some(false)),
        instr("execute", Some("true"), Some(false)),
    ];
    let plan = plan_instructions(&instructions);
    assert_eq!(plan.outcome, Ok(()));
    assert_eq!(plan.effects[2], Effect::RunScript("true".to_string()));
}

#[test]
fn unsupported_action_anywhere_keeps_outcome() {
    let base = vec![instr("print", Some("a"), Some(false)), instr("none", None, Some(true))];
    let ok = vec![instr("print", Some("a"), Some(false)), instr("ping", None, None)];
    for list in [base, ok] {
        let expected = plan_instructions(&list).outcome;
        for k in 0..=list.len() {
            let mut with: Vec<Instruction> = list
                .iter()
                .map(|i| instr(&i.action, i.content.as_deref(), i.error))
                .collect();
            with.insert(k, instr("frobnicate", None, Some(true)));
            assert_eq!(plan_instructions(&with).outcome, expected);
        }
    }
}

#[test]
fn error_flag_without_content_is_no_failure_for_print_and_execute() {
    let plan = plan_instructions(&vec![instr("print", None, Some(true)), instr("execute", None, Some(true))]);
    assert_eq!(plan.effects, vec![Effect::BlankLine, Effect::Nothing]);
    assert_eq!(plan.outcome, Ok(()));
}

#[test]
fn state_steps_one_instruction_at_a_time() {
    let mut s = ExecutionState::new();
    assert_eq!(s.step(&instr("execute", Some("false"), None)), Effect::RunScript("false".to_string()));
    assert_eq!(s.outcome(), Ok(()));
    assert_eq!(s.step(&instr("execute", Some("x"), Some(true))), Effect::RunScript("x".to_string()));
    assert_eq!(s.step(&instr("ping", None, Some(false))), Effect::Pong);
    assert_eq!(s.outcome(), Err(1));
    assert_eq!(instr("none", None, None).action_kind(), Action::Idle);
    assert_eq!(instr("Ping", None, None).action_kind(), Action::Unsupported("Ping".to_string()));
}

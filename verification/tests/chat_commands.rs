use mosaic::cli::chat::{
    format_chat_agent, format_chat_session, parse_chat_repl_command, resolve_prompt_input,
    resolve_prompt_source, resolve_prompt_source_optional, resolve_script_prompts, ChatReplCommand,
    PromptInput, PromptSource,
};
use mosaic::error::MosaicError;

#[test]
fn parse_chat_repl_commands() {
    assert!(matches!(parse_chat_repl_command("/exit"), ChatReplCommand::Exit));
    assert!(matches!(parse_chat_repl_command("/help"), ChatReplCommand::Help));
    assert!(matches!(parse_chat_repl_command("/session"), ChatReplCommand::Session));
    assert!(matches!(parse_chat_repl_command("/new"), ChatReplCommand::New));
    assert!(matches!(parse_chat_repl_command("/status"), ChatReplCommand::Status));
    assert!(matches!(parse_chat_repl_command("/agent"), ChatReplCommand::Agent));
    assert!(matches!(parse_chat_repl_command("hello"), ChatReplCommand::Prompt("hello")));
}

#[test]
fn chat_display_helpers_return_fallback_labels() {
    assert_eq!(format_chat_session(None), "<new session>");
    assert_eq!(format_chat_agent(None), "<none>");
}

#[test]
fn resolve_prompt_input_validates_non_empty_prompt() {
    let err = resolve_prompt_input("   ".to_string()).expect_err("expected validation");
    assert!(matches!(err, MosaicError::Validation(_)));
}

#[test]
fn repl_exit_words_and_prompts_kept_verbatim() {
    assert!(matches!(parse_chat_repl_command("exit"), ChatReplCommand::Exit));
    assert!(matches!(parse_chat_repl_command("quit"), ChatReplCommand::Exit));
    assert!(matches!(parse_chat_repl_command(" /help"), ChatReplCommand::Prompt(" /help")));
    assert!(matches!(parse_chat_repl_command("/HELP"), ChatReplCommand::Prompt("/HELP")));
}

#[test]
fn chat_labels_show_given_ids() {
    assert_eq!(format_chat_session(Some("s-1")), "s-1");
    assert_eq!(format_chat_agent(Some("writer")), "writer");
}

#[test]
fn prompt_input_dash_reads_stdin_and_text_is_kept() {
    assert_eq!(resolve_prompt_input("-".to_string()).unwrap(), PromptInput::ReadStdin);
    assert_eq!(
        resolve_prompt_input("  hi  ".to_string()).unwrap(),
        PromptInput::Text("  hi  ".to_string())
    );
    let err = resolve_prompt_input("\t".to_string()).unwrap_err();
    assert_eq!(err.message_text(), "prompt cannot be empty");
}

#[test]
fn prompt_source_requires_exactly_one() {
    assert_eq!(
        resolve_prompt_source(Some("a".to_string()), None).unwrap(),
        PromptSource::Text("a".to_string())
    );
    assert_eq!(
        resolve_prompt_source(None, Some("f.txt".to_string())).unwrap(),
        PromptSource::File("f.txt".to_string())
    );
    let both = resolve_prompt_source(Some("a".to_string()), Some("f".to_string())).unwrap_err();
    assert_eq!(both.message_text(), "provide either prompt text or --prompt-file, not both");
    let none = resolve_prompt_source(None, None).unwrap_err();
    assert_eq!(none.message_text(), "prompt is required");
    assert_eq!(resolve_prompt_source_optional(None, None).unwrap(), None);
}

#[test]
fn script_prompts_skip_blank_lines() {
    let prompts = resolve_script_prompts("first\n\n  second  \n").unwrap();
    assert_eq!(prompts, vec!["first".to_string(), "second".to_string()]);
}

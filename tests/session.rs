use dh_ping::messages::{message, version_notice, Message, NO_DATA_EN, NO_DATA_ZH};
use dh_ping::probe::{report_reply, ReplyReport};
use dh_ping::session::{
    choose_language, classify_args, decide_line, read_entry, same_text, starts_with_zh,
    Invocation, Language, LineAction,
};

fn args(v: &[&str]) -> Vec<String> {
    v.iter().map(|s| s.to_string()).collect()
}

#[test]
fn no_arguments_is_interactive() {
    assert_eq!(classify_args(&args(&[])), Invocation::Interactive);
}

#[test]
fn two_arguments_are_too_many() {
    assert_eq!(classify_args(&args(&["127.0.0.1:7777", "x"])), Invocation::TooManyArguments);
    assert_eq!(classify_args(&args(&["help", "version", "x"])), Invocation::TooManyArguments);
}

#[test]
fn help_and_version_tokens() {
    for t in ["help", "--help", "-?"] {
        assert_eq!(classify_args(&args(&[t])), Invocation::Help);
    }
    for t in ["version", "--version", "-v"] {
        assert_eq!(classify_args(&args(&[t])), Invocation::Version);
    }
    assert_eq!(classify_args(&args(&["-h"])), Invocation::BadAddress);
}

#[test]
fn one_shot_address() {
    assert_eq!(classify_args(&args(&["127.0.0.1:7777"])), Invocation::Probe);
    assert_eq!(classify_args(&args(&["notanip:7777"])), Invocation::BadAddress);
}

#[test]
fn exit_keyword_ends_session() {
    let (action, line) = read_entry("  exit\n");
    assert_eq!(action, LineAction::Exit);
    assert_eq!(line, "exit");
    assert_eq!(decide_line("exit"), LineAction::Exit);
    assert_eq!(decide_line("EXIT"), LineAction::Invalid);
}

#[test]
fn entered_address_is_trimmed_and_probed() {
    let (action, line) = read_entry("\t127.0.0.1:7777 \r\n");
    assert_eq!(action, LineAction::Probe);
    assert_eq!(line, "127.0.0.1:7777");
}

#[test]
fn invalid_entry_prompts_again() {
    assert_eq!(read_entry("notanip:7777\n").0, LineAction::Invalid);
    assert_eq!(read_entry("\n").0, LineAction::Invalid);
}

#[test]
fn language_from_variables() {
    assert_eq!(choose_language("zh_CN.UTF-8", "", None), Language::Chinese);
    assert_eq!(choose_language("", "zh_TW", None), Language::Chinese);
    assert_eq!(choose_language("en_US.UTF-8", "zh_CN", None), Language::Chinese);
    assert_eq!(choose_language("en_US.UTF-8", "", Some(0x0804)), Language::English);
    assert_eq!(choose_language("C", "", None), Language::English);
    assert_eq!(choose_language("z", "", None), Language::English);
}

#[test]
fn language_from_ui_identifier() {
    assert_eq!(choose_language("", "", Some(0x0804)), Language::Chinese);
    assert_eq!(choose_language("", "", Some(0x1004)), Language::Chinese);
    assert_eq!(choose_language("", "", Some(0x0409)), Language::English);
    assert_eq!(choose_language("", "", None), Language::English);
}

#[test]
fn text_comparison() {
    assert!(same_text("exit", "exit"));
    assert!(!same_text("exit", "exi"));
    assert!(!same_text("exit", "exiT"));
    assert!(starts_with_zh("zh"));
    assert!(!starts_with_zh("Zh"));
}

#[test]
fn no_data_message() {
    assert_eq!(message(Language::English, Message::NoData), "[No data received]");
    assert_eq!(message(Language::English, Message::NoData), NO_DATA_EN);
    assert_eq!(message(Language::Chinese, Message::NoData), NO_DATA_ZH);
}

#[test]
fn help_lists_options() {
    let h = message(Language::English, Message::Help);
    assert!(h.starts_with("Usage: dh-ping <IP:port>\n"));
    assert!(h.contains("-?, --help, help"));
    assert!(message(Language::Chinese, Message::Help).contains("-v, --version, version"));
}

#[test]
fn version_notice_lines() {
    let v = version_notice(Language::English, "1.0.0", "https://example.org/dh-ping");
    assert_eq!(
        v,
        "Dread Hunger Ping Tool - v1.0.0 (2024-08-27)\nAyrzo (c) 2024. Licensed under the GNU Lesser General Public License.\nProject Repository: https://example.org/dh-ping\n"
    );
}

#[test]
fn valid_address_without_responder_reports_no_data() {
    assert_eq!(classify_args(&args(&["127.0.0.1:7777"])), Invocation::Probe);
    assert_eq!(read_entry("127.0.0.1:7777\n").0, LineAction::Probe);
    let shown = match report_reply(None) {
        ReplyReport::NoData => message(Language::English, Message::NoData),
        ReplyReport::Data { .. } => panic!("expected no data"),
    };
    assert!(shown.ends_with("[No data received]"));
}

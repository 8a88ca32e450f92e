//! The messages of the tool, in each language.
use vstd::prelude::*;
use vstd::string::StringExecFns;
use crate::session::Language;

verus! {

/// Title of the version notice, before the version number.
pub const TITLE: &'static str = "Dread Hunger Ping Tool - v";

/// Release date of the version notice, after the version number.
pub const RELEASE_DATE: &'static str = " (2024-08-27)";

/// Prompt of interactive mode.
pub const PROMPT: &'static str = "DH-Ping > ";

/// Chinese text of the help text.
pub const HELP_ZH: &'static str = "用法: dh-ping <IP:端口>\n\n功能:\n  发送 Dread Hunger UDP 握手包到指定的 <IP:端口>，以检测服务器的连通性。\n\n选项:\n  -?, --help, help          显示此帮助信息并退出\n  -v, --version, version    显示程序的版本信息并退出\n\n说明:\n  如果未提供 <IP:端口>，程序将进入交互性模式。\n  在此模式下，您可以反复输入 <IP:端口> 以检测多个服务器 URI 的连通性。\n";

/// English text of the help text.
pub const HELP_EN: &'static str = "Usage: dh-ping <IP:port>\n\nFunction:\n  Sends a Dread Hunger UDP handshake packet to the specified\n  <IP:port> to check server connectivity.\n\nOptions:\n  -?, --help, help          Display this help information and exit\n  -v, --version, version    Display the program version and exit\n\nDescription:\n  If no <IP:port> is provided, the program will enter interactive mode.\n  In this mode, you can repeatedly enter <IP:port> to check the\n  connectivity of multiple server URIs.\n";

/// Chinese text of the licence line of the version notice.
pub const LICENSE_ZH: &'static str = "爱佐 (c) 2024，根据 GNU 宽通用公共许可证 (LGPL) 授权。";

/// English text of the licence line of the version notice.
pub const LICENSE_EN: &'static str = "Ayrzo (c) 2024. Licensed under the GNU Lesser General Public License.";

/// Chinese text of the label before the project's repository.
pub const REPOSITORY_ZH: &'static str = "开源项目链接: ";

/// English text of the label before the project's repository.
pub const REPOSITORY_EN: &'static str = "Project Repository: ";

/// Chinese text of the greeting of interactive mode.
pub const INTRO_ZH: &'static str = "输入 IP:端口 查询 Dread Hunger 服务器端口连通性，例如：127.0.0.1:7777\n输入 'exit' 退出\n";

/// English text of the greeting of interactive mode.
pub const INTRO_EN: &'static str = "Enter IP:port to check connectivity of Dread Hunger server, e.g., 127.0.0.1:7777\nEnter 'exit' to quit\n";

/// Chinese text of the error on an invalid address argument.
pub const BAD_ARGUMENT_ZH: &'static str = "错误: 无效的 IP:端口 格式。执行 `dh-ping help` 获取更多帮助。";

/// English text of the error on an invalid address argument.
pub const BAD_ARGUMENT_EN: &'static str = "Error: Invalid IP:port format. Run `dh-ping help` for more help.";

/// Chinese text of the error on an invalid entered address.
pub const BAD_ENTRY_ZH: &'static str = "错误: 无效的 IP:端口 格式。正确示例：127.0.0.1:7777";

/// English text of the error on an invalid entered address.
pub const BAD_ENTRY_EN: &'static str = "Error: Invalid IP:port format. Correct example: 127.0.0.1:7777";

/// Chinese text of the error on more than one argument.
pub const TOO_MANY_ZH: &'static str = "错误: 参数数量过多。执行 `dh-ping help` 获取更多帮助。";

/// English text of the error on more than one argument.
pub const TOO_MANY_EN: &'static str = "Error: Too many arguments. Run `dh-ping help` for more help.";

/// Chinese text of the words before the destination once the handshake is sent.
pub const DATA_SENT_ZH: &'static str = "数据已发送到 ";

/// English text of the words before the destination once the handshake is sent.
pub const DATA_SENT_EN: &'static str = "Data sent to ";

/// Chinese text of the heading of a reply's dump.
pub const DATA_RECEIVED_ZH: &'static str = "收到数据:";

/// English text of the heading of a reply's dump.
pub const DATA_RECEIVED_EN: &'static str = "Received data:";

/// Chinese text of the report that no reply came.
pub const NO_DATA_ZH: &'static str = "[未收到任何数据]";

/// English text of the report that no reply came.
pub const NO_DATA_EN: &'static str = "[No data received]";

/// Chinese text of the words before the cause of a failed bind.
pub const BIND_FAILED_ZH: &'static str = "绑定 socket 失败: ";

/// English text of the words before the cause of a failed bind.
pub const BIND_FAILED_EN: &'static str = "Failed to bind socket: ";

/// Chinese text of the words before the cause of a failed send.
pub const SEND_FAILED_ZH: &'static str = "数据发送失败: ";

/// English text of the words before the cause of a failed send.
pub const SEND_FAILED_EN: &'static str = "Failed to send data: ";

/// Chinese text of the error when the interrupt handler cannot be installed.
pub const SIGNAL_FAILED_ZH: &'static str = "初始化 SIGINT 信号处理逻辑失败，程序将退出。";

/// English text of the error when the interrupt handler cannot be installed.
pub const SIGNAL_FAILED_EN: &'static str = "Failed to initialize SIGINT signal processing logic, the program will exit.";

/// The messages that depend on the language.
#[derive(PartialEq, Eq, Structural, Clone, Copy, Debug)]
pub enum Message {
    /// The help text.
    Help,
    /// The licence line of the version notice.
    License,
    /// The label before the project's repository.
    RepositoryLabel,
    /// The greeting of interactive mode.
    Intro,
    /// The error on an invalid address argument.
    BadAddressArgument,
    /// The error on an invalid entered address.
    BadAddressEntry,
    /// The error on more than one argument.
    TooManyArguments,
    /// The words before the destination once the handshake is sent.
    DataSent,
    /// The heading of a reply's dump.
    DataReceived,
    /// The report that no reply came.
    NoData,
    /// The words before the cause of a failed bind.
    BindFailed,
    /// The words before the cause of a failed send.
    SendFailed,
    /// The error when the interrupt handler cannot be installed.
    SignalSetupFailed,
}

/// The text of message `m` in language `lang`.
pub open spec fn message_text(lang: Language, m: Message) -> Seq<char> {
    match (lang, m) {
        (Language::Chinese, Message::Help) => HELP_ZH@,
        (Language::English, Message::Help) => HELP_EN@,
        (Language::Chinese, Message::License) => LICENSE_ZH@,
        (Language::English, Message::License) => LICENSE_EN@,
        (Language::Chinese, Message::RepositoryLabel) => REPOSITORY_ZH@,
        (Language::English, Message::RepositoryLabel) => REPOSITORY_EN@,
        (Language::Chinese, Message::Intro) => INTRO_ZH@,
        (Language::English, Message::Intro) => INTRO_EN@,
        (Language::Chinese, Message::BadAddressArgument) => BAD_ARGUMENT_ZH@,
        (Language::English, Message::BadAddressArgument) => BAD_ARGUMENT_EN@,
        (Language::Chinese, Message::BadAddressEntry) => BAD_ENTRY_ZH@,
        (Language::English, Message::BadAddressEntry) => BAD_ENTRY_EN@,
        (Language::Chinese, Message::TooManyArguments) => TOO_MANY_ZH@,
        (Language::English, Message::TooManyArguments) => TOO_MANY_EN@,
        (Language::Chinese, Message::DataSent) => DATA_SENT_ZH@,
        (Language::English, Message::DataSent) => DATA_SENT_EN@,
        (Language::Chinese, Message::DataReceived) => DATA_RECEIVED_ZH@,
        (Language::English, Message::DataReceived) => DATA_RECEIVED_EN@,
        (Language::Chinese, Message::NoData) => NO_DATA_ZH@,
        (Language::English, Message::NoData) => NO_DATA_EN@,
        (Language::Chinese, Message::BindFailed) => BIND_FAILED_ZH@,
        (Language::English, Message::BindFailed) => BIND_FAILED_EN@,
        (Language::Chinese, Message::SendFailed) => SEND_FAILED_ZH@,
        (Language::English, Message::SendFailed) => SEND_FAILED_EN@,
        (Language::Chinese, Message::SignalSetupFailed) => SIGNAL_FAILED_ZH@,
        (Language::English, Message::SignalSetupFailed) => SIGNAL_FAILED_EN@,
    }
}

/// The text of message `m` in language `lang`.
pub fn message(lang: Language, m: Message) -> (r: &'static str)
    ensures
        r@ == message_text(lang, m),
{
    match (lang, m) {
        (Language::Chinese, Message::Help) => HELP_ZH,
        (Language::English, Message::Help) => HELP_EN,
        (Language::Chinese, Message::License) => LICENSE_ZH,
        (Language::English, Message::License) => LICENSE_EN,
        (Language::Chinese, Message::RepositoryLabel) => REPOSITORY_ZH,
        (Language::English, Message::RepositoryLabel) => REPOSITORY_EN,
        (Language::Chinese, Message::Intro) => INTRO_ZH,
        (Language::English, Message::Intro) => INTRO_EN,
        (Language::Chinese, Message::BadAddressArgument) => BAD_ARGUMENT_ZH,
        (Language::English, Message::BadAddressArgument) => BAD_ARGUMENT_EN,
        (Language::Chinese, Message::BadAddressEntry) => BAD_ENTRY_ZH,
        (Language::English, Message::BadAddressEntry) => BAD_ENTRY_EN,
        (Language::Chinese, Message::TooManyArguments) => TOO_MANY_ZH,
        (Language::English, Message::TooManyArguments) => TOO_MANY_EN,
        (Language::Chinese, Message::DataSent) => DATA_SENT_ZH,
        (Language::English, Message::DataSent) => DATA_SENT_EN,
        (Language::Chinese, Message::DataReceived) => DATA_RECEIVED_ZH,
        (Language::English, Message::DataReceived) => DATA_RECEIVED_EN,
        (Language::Chinese, Message::NoData) => NO_DATA_ZH,
        (Language::English, Message::NoData) => NO_DATA_EN,
        (Language::Chinese, Message::BindFailed) => BIND_FAILED_ZH,
        (Language::English, Message::BindFailed) => BIND_FAILED_EN,
        (Language::Chinese, Message::SendFailed) => SEND_FAILED_ZH,
        (Language::English, Message::SendFailed) => SEND_FAILED_EN,
        (Language::Chinese, Message::SignalSetupFailed) => SIGNAL_FAILED_ZH,
        (Language::English, Message::SignalSetupFailed) => SIGNAL_FAILED_EN,
    }
}

/// The version notice: the title with `version` and the release date, the
/// licence line, and the repository line, each ended by a line break.
pub fn version_notice(lang: Language, version: &str, repository: &str) -> (r: String)
    ensures
        r@ == TITLE@ + version@ + RELEASE_DATE@ + seq!['\n'] + message_text(lang, Message::License)
            + seq!['\n'] + message_text(lang, Message::RepositoryLabel) + repository@ + seq!['\n'],
{
    proof {
        reveal_strlit("\n");
    }
    let mut r = String::from_str(TITLE);
    r.append(version);
    r.append(RELEASE_DATE);
    r.append("\n");
    r.append(message(lang, Message::License));
    r.append("\n");
    r.append(message(lang, Message::RepositoryLabel));
    r.append(repository);
    r.append("\n");
    r
}

} // verus!

use discord_cv_bot::commands::{
    build_progress_bar, get_status_display, ApplyJobCommand, CommandError, HelpCommand,
    ListCvsCommand, SendCvCommand, SetReminderCommand, StatusCommand, SynthesizeOfferCommand,
};
use discord_cv_bot::db_models::{get_db_path, Reminder, User};
use discord_cv_bot::rpc::McpError;

#[test]
fn commands_know_their_names_and_descriptions() {
    assert_eq!(ListCvsCommand::new().name(), "listcvs");
    assert_eq!(ListCvsCommand::new().description(), "List all stored CVs (admin only)");
    assert_eq!(SendCvCommand::new().name(), "sendcv");
    assert_eq!(SendCvCommand::new().description(), "Upload your CV to the bot");
    assert_eq!(SynthesizeOfferCommand::new().name(), "synthesizeoffer");
    let help = HelpCommand::new(vec![("help", "Display help information about the bot's commands")]);
    assert_eq!(help.name(), "help");
    assert_eq!(
        ApplyJobCommand::new().description(),
        "Apply to a job: generates synthesis, tailored CV, and salary analysis"
    );
    assert_eq!(StatusCommand::new().name(), "status");
    assert_eq!(SetReminderCommand::new().name(), "setreminder");
}

#[test]
fn command_errors_render_one_line_each() {
    assert_eq!(
        CommandError::ResponseFailed("net".to_string()).message(),
        "Failed to send response: net"
    );
    assert_eq!(
        CommandError::MissingParameter("cv".to_string()).message(),
        "Missing parameter: cv"
    );
    assert_eq!(CommandError::PermissionDenied.message(), "Permission denied");
    assert_eq!(CommandError::NotFound("app 3".to_string()).message(), "Not found: app 3");
    assert_eq!(CommandError::Unauthorized("you".to_string()).message(), "Unauthorized: you");
    assert_eq!(CommandError::InvalidInput("date".to_string()).message(), "Invalid input: date");
    assert_eq!(CommandError::Internal("oops".to_string()).message(), "Internal error: oops");
}

#[test]
fn status_labels_cover_every_state() {
    assert_eq!(get_status_display("generated"), "\u{1f4dd} G\u{e9}n\u{e9}r\u{e9}e");
    assert_eq!(get_status_display("applied"), "\u{1f4e4} Postul\u{e9}e");
    assert_eq!(get_status_display("interview"), "\u{1f5d3}\u{fe0f} Entretien");
    assert_eq!(get_status_display("offer"), "\u{1f389} Offre re\u{e7}ue");
    assert_eq!(get_status_display("rejected"), "\u{274c} Refus\u{e9}e");
    assert_eq!(get_status_display("accepted"), "\u{2705} Accept\u{e9}e");
    assert_eq!(get_status_display("anything else"), "\u{2753} Inconnu");
}

#[test]
fn progress_bar_fills_rounded_tenths() {
    assert_eq!(build_progress_bar(0, 100), "\u{2591}".repeat(10));
    assert_eq!(build_progress_bar(100, 100), "\u{2588}".repeat(10));
    let half = build_progress_bar(50, 100);
    assert_eq!(half, format!("{}{}", "\u{2588}".repeat(5), "\u{2591}".repeat(5)));
    // 75 of 100 rounds to 8 cells.
    let three_quarters = build_progress_bar(75, 100);
    assert_eq!(
        three_quarters,
        format!("{}{}", "\u{2588}".repeat(8), "\u{2591}".repeat(2))
    );
    // Values over the maximum stay capped at ten cells.
    assert_eq!(build_progress_bar(250, 100), "\u{2588}".repeat(10));
}

#[test]
fn db_path_is_fixed() {
    assert_eq!(get_db_path(), "dbLookout/bot.db");
}

#[test]
fn records_hold_their_fields() {
    let user = User {
        id: 42,
        username: "jo".to_string(),
        locale: "fr".to_string(),
        created_at: "2024-01-01".to_string(),
        updated_at: "2024-01-02".to_string(),
    };
    assert_eq!(user.id, 42);
    assert_eq!(user.locale, "fr");
    let reminder = Reminder {
        id: 1,
        user_id: 42,
        application_id: None,
        channel_id: 7,
        reminder_date: "2024-02-01".to_string(),
        message: "follow up".to_string(),
        is_sent: false,
        created_at: "2024-01-15".to_string(),
    };
    assert_eq!(reminder.application_id, None);
    assert!(!reminder.is_sent);
}

#[test]
fn mcp_error_messages_carry_their_prefixes() {
    assert_eq!(McpError::Connection("refused".to_string()).message(), "Connection error: refused");
    assert_eq!(McpError::Io("pipe".to_string()).message(), "IO error: pipe");
    assert_eq!(McpError::Json("eof".to_string()).message(), "JSON error: eof");
    assert_eq!(McpError::Protocol("bad".to_string()).message(), "Protocol error: bad");
    assert_eq!(McpError::Extraction("text".to_string()).message(), "Extraction error: text");
    assert_eq!(McpError::Timeout.message(), "Timeout");
}

#[test]
fn help_text_lists_every_command_in_order() {
    let help = HelpCommand::new(vec![
        ("sendcv", "Upload your CV to the bot"),
        ("applyjob", "Apply to a job: generates synthesis, tailored CV, and salary analysis"),
    ]);
    assert_eq!(
        help.help_text(),
        "**\u{1f4da} Available Commands:**\n\n\u{2022} **/sendcv** \u{2014} Upload your CV to the bot\n\u{2022} **/applyjob** \u{2014} Apply to a job: generates synthesis, tailored CV, and salary analysis\n"
    );
    let empty = HelpCommand::new(Vec::new());
    assert_eq!(empty.help_text(), "**\u{1f4da} Available Commands:**\n\n");
}

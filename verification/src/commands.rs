//! The bot's slash commands, as the library sees them: each command is a
//! marker value carrying its wire name and its user-facing description. The
//! interactive layer around the library registers and dispatches them.

use vstd::prelude::*;
use vstd::string::*;
use crate::text::{push_char, str_eq};

verus! {

/// Lists every stored CV, for administrators.
pub struct ListCvsCommand {
}

impl ListCvsCommand {
    pub fn new() -> (r: ListCvsCommand)
        ensures
            r == (ListCvsCommand {  }),
    {
        ListCvsCommand {  }
    }

    /// The command's wire name.
    pub fn name(&self) -> (r: &'static str)
        ensures
            r@ == "listcvs"@,
    {
        "listcvs"
    }

    /// The command's user-facing description.
    pub fn description(&self) -> (r: &'static str)
        ensures
            r@ == "List all stored CVs (admin only)"@,
    {
        "List all stored CVs (admin only)"
    }
}

/// Retrieves one user's CV, for administrators.
pub struct GetCvCommand {
}

impl GetCvCommand {
    pub fn new() -> (r: GetCvCommand)
        ensures
            r == (GetCvCommand {  }),
    {
        GetCvCommand {  }
    }

    /// The command's wire name.
    pub fn name(&self) -> (r: &'static str)
        ensures
            r@ == "getcv"@,
    {
        "getcv"
    }

    /// The command's user-facing description.
    pub fn description(&self) -> (r: &'static str)
        ensures
            r@ == "Retrieve a specific CV by user (admin only)"@,
    {
        "Retrieve a specific CV by user (admin only)"
    }
}

/// Deletes every stored CV, for administrators.
pub struct ClearAllCvsCommand {
}

impl ClearAllCvsCommand {
    pub fn new() -> (r: ClearAllCvsCommand)
        ensures
            r == (ClearAllCvsCommand {  }),
    {
        ClearAllCvsCommand {  }
    }

    /// The command's wire name.
    pub fn name(&self) -> (r: &'static str)
        ensures
            r@ == "clearallcvs"@,
    {
        "clearallcvs"
    }

    /// The command's user-facing description.
    pub fn description(&self) -> (r: &'static str)
        ensures
            r@ == "Delete all stored CVs (admin only)"@,
    {
        "Delete all stored CVs (admin only)"
    }
}

/// Uploads a CV.
pub struct SendCvCommand {
}

impl SendCvCommand {
    pub fn new() -> (r: SendCvCommand)
        ensures
            r == (SendCvCommand {  }),
    {
        SendCvCommand {  }
    }

    /// The command's wire name.
    pub fn name(&self) -> (r: &'static str)
        ensures
            r@ == "sendcv"@,
    {
        "sendcv"
    }

    /// The command's user-facing description.
    pub fn description(&self) -> (r: &'static str)
        ensures
            r@ == "Upload your CV to the bot"@,
    {
        "Upload your CV to the bot"
    }
}

/// Deletes the caller's CV.
pub struct DeleteCvCommand {
}

impl DeleteCvCommand {
    pub fn new() -> (r: DeleteCvCommand)
        ensures
            r == (DeleteCvCommand {  }),
    {
        DeleteCvCommand {  }
    }

    /// The command's wire name.
    pub fn name(&self) -> (r: &'static str)
        ensures
            r@ == "deletecv"@,
    {
        "deletecv"
    }

    /// The command's user-facing description.
    pub fn description(&self) -> (r: &'static str)
        ensures
            r@ == "Delete your CV from the bot"@,
    {
        "Delete your CV from the bot"
    }
}

/// Lists the caller's CVs.
pub struct ListMyCvsCommand {
}

impl ListMyCvsCommand {
    pub fn new() -> (r: ListMyCvsCommand)
        ensures
            r == (ListMyCvsCommand {  }),
    {
        ListMyCvsCommand {  }
    }

    /// The command's wire name.
    pub fn name(&self) -> (r: &'static str)
        ensures
            r@ == "listmycvs"@,
    {
        "listmycvs"
    }

    /// The command's user-facing description.
    pub fn description(&self) -> (r: &'static str)
        ensures
            r@ == "List your stored CVs"@,
    {
        "List your stored CVs"
    }
}

/// Synthesizes a job description.
pub struct SynthesizeOfferCommand {
}

impl SynthesizeOfferCommand {
    pub fn new() -> (r: SynthesizeOfferCommand)
        ensures
            r == (SynthesizeOfferCommand {  }),
    {
        SynthesizeOfferCommand {  }
    }

    /// The command's wire name.
    pub fn name(&self) -> (r: &'static str)
        ensures
            r@ == "synthesizeoffer"@,
    {
        "synthesizeoffer"
    }

    /// The command's user-facing description.
    pub fn description(&self) -> (r: &'static str)
        ensures
            r@ == "Synthesize key information from a job description"@,
    {
        "Synthesize key information from a job description"
    }
}

/// Generates a tailored resume.
pub struct GenerateResumeCommand {
}

impl GenerateResumeCommand {
    pub fn new() -> (r: GenerateResumeCommand)
        ensures
            r == (GenerateResumeCommand {  }),
    {
        GenerateResumeCommand {  }
    }

    /// The command's wire name.
    pub fn name(&self) -> (r: &'static str)
        ensures
            r@ == "generateresume"@,
    {
        "generateresume"
    }

    /// The command's user-facing description.
    pub fn description(&self) -> (r: &'static str)
        ensures
            r@ == "Generate a tailored resume based on job description and your CV"@,
    {
        "Generate a tailored resume based on job description and your CV"
    }
}

/// Generates a cover letter.
pub struct GenerateCoverLetterCommand {
}

impl GenerateCoverLetterCommand {
    pub fn new() -> (r: GenerateCoverLetterCommand)
        ensures
            r == (GenerateCoverLetterCommand {  }),
    {
        GenerateCoverLetterCommand {  }
    }

    /// The command's wire name.
    pub fn name(&self) -> (r: &'static str)
        ensures
            r@ == "generatecoverletter"@,
    {
        "generatecoverletter"
    }

    /// The command's user-facing description.
    pub fn description(&self) -> (r: &'static str)
        ensures
            r@ == "Generate a cover letter based on job description and your stored CV"@,
    {
        "Generate a cover letter based on job description and your stored CV"
    }
}

/// Generates a market analysis.
pub struct GenerateMarketAnalysisCommand {
}

impl GenerateMarketAnalysisCommand {
    pub fn new() -> (r: GenerateMarketAnalysisCommand)
        ensures
            r == (GenerateMarketAnalysisCommand {  }),
    {
        GenerateMarketAnalysisCommand {  }
    }

    /// The command's wire name.
    pub fn name(&self) -> (r: &'static str)
        ensures
            r@ == "generatemarketanalysis"@,
    {
        "generatemarketanalysis"
    }

    /// The command's user-facing description.
    pub fn description(&self) -> (r: &'static str)
        ensures
            r@ == "Generate a market analysis based on job trends and your skills"@,
    {
        "Generate a market analysis based on job trends and your skills"
    }
}

/// Shows the command overview. It carries the (name, description) pairs of
/// the commands it describes, injected at construction.
pub struct HelpCommand {
    pub commands_info: Vec<(&'static str, &'static str)>,
}

/// One bullet line per command, under the fixed heading.
pub open spec fn help_lines(pairs: Seq<(&'static str, &'static str)>) -> Seq<char>
    decreases pairs.len(),
{
    if pairs.len() == 0 {
        Seq::empty()
    } else {
        "\u{2022} **/"@ + pairs[0].0@ + "** \u{2014} "@ + pairs[0].1@ + "\n"@ + help_lines(
            pairs.drop_first(),
        )
    }
}

pub open spec fn help_text_chars(pairs: Seq<(&'static str, &'static str)>) -> Seq<char> {
    "**\u{1f4da} Available Commands:**\n\n"@ + help_lines(pairs)
}

proof fn lemma_help_lines_push(
    pairs: Seq<(&'static str, &'static str)>,
    p: (&'static str, &'static str),
)
    ensures
        help_lines(pairs.push(p)) == help_lines(pairs) + ("\u{2022} **/"@ + p.0@ + "** \u{2014} "@
            + p.1@ + "\n"@),
    decreases pairs.len(),
{
    if pairs.len() == 0 {
        assert(pairs.push(p)[0] == p);
        assert(pairs.push(p).drop_first() =~= Seq::<(&'static str, &'static str)>::empty());
        assert(help_lines(Seq::<(&'static str, &'static str)>::empty()) == Seq::<char>::empty());
        assert(help_lines(pairs) == Seq::<char>::empty());
        assert(help_lines(pairs.push(p)) =~= help_lines(pairs) + ("\u{2022} **/"@ + p.0@
            + "** \u{2014} "@ + p.1@ + "\n"@));
    } else {
        assert(pairs.push(p)[0] == pairs[0]);
        assert(pairs.push(p).drop_first() =~= pairs.drop_first().push(p));
        lemma_help_lines_push(pairs.drop_first(), p);
        assert(help_lines(pairs.push(p)) =~= help_lines(pairs) + ("\u{2022} **/"@ + p.0@
            + "** \u{2014} "@ + p.1@ + "\n"@));
    }
}

impl HelpCommand {
    pub fn new(commands_info: Vec<(&'static str, &'static str)>) -> (r: HelpCommand)
        ensures
            r.commands_info == commands_info,
    {
        HelpCommand { commands_info }
    }

    /// The command's wire name.
    pub fn name(&self) -> (r: &'static str)
        ensures
            r@ == "help"@,
    {
        "help"
    }

    /// The command's user-facing description.
    pub fn description(&self) -> (r: &'static str)
        ensures
            r@ == "Display help information about the bot's commands"@,
    {
        "Display help information about the bot's commands"
    }

    /// The overview message: the heading, then one bullet per command in the
    /// stored order.
    #[verifier::loop_isolation(false)]
    pub fn help_text(&self) -> (r: String)
        ensures
            r@ == help_text_chars(self.commands_info@),
    {
        let mut out = String::from_str("**\u{1f4da} Available Commands:**\n\n");
        let mut j: usize = 0;
        while j < self.commands_info.len()
            invariant
                0 <= j <= self.commands_info@.len(),
                out@ == "**\u{1f4da} Available Commands:**\n\n"@ + help_lines(
                    self.commands_info@.take(j as int),
                ),
            decreases self.commands_info@.len() - j,
        {
            let (name, description) = self.commands_info[j];
            out.append("\u{2022} **/");
            out.append(name);
            out.append("** \u{2014} ");
            out.append(description);
            out.append("\n");
            proof {
                lemma_help_lines_push(
                    self.commands_info@.take(j as int),
                    self.commands_info@[j as int],
                );
                assert(self.commands_info@.take(j + 1) =~= self.commands_info@.take(
                    j as int,
                ).push(self.commands_info@[j as int]));
            }
            j = j + 1;
        }
        proof {
            assert(self.commands_info@.take(self.commands_info@.len() as int)
                =~= self.commands_info@);
        }
        out
    }
}

/// Runs the whole application workflow.
pub struct ApplyJobCommand {
}

impl ApplyJobCommand {
    pub fn new() -> (r: ApplyJobCommand)
        ensures
            r == (ApplyJobCommand {  }),
    {
        ApplyJobCommand {  }
    }

    /// The command's wire name.
    pub fn name(&self) -> (r: &'static str)
        ensures
            r@ == "applyjob"@,
    {
        "applyjob"
    }

    /// The command's user-facing description.
    pub fn description(&self) -> (r: &'static str)
        ensures
            r@ == "Apply to a job: generates synthesis, tailored CV, and salary analysis"@,
    {
        "Apply to a job: generates synthesis, tailored CV, and salary analysis"
    }
}

/// Shows application statuses.
pub struct StatusCommand {
}

impl StatusCommand {
    pub fn new() -> (r: StatusCommand)
        ensures
            r == (StatusCommand {  }),
    {
        StatusCommand {  }
    }

    /// The command's wire name.
    pub fn name(&self) -> (r: &'static str)
        ensures
            r@ == "status"@,
    {
        "status"
    }

    /// The command's user-facing description.
    pub fn description(&self) -> (r: &'static str)
        ensures
            r@ == "View your job application statuses"@,
    {
        "View your job application statuses"
    }
}

/// Moves an application to a new status.
pub struct UpdateStatusCommand {
}

impl UpdateStatusCommand {
    pub fn new() -> (r: UpdateStatusCommand)
        ensures
            r == (UpdateStatusCommand {  }),
    {
        UpdateStatusCommand {  }
    }

    /// The command's wire name.
    pub fn name(&self) -> (r: &'static str)
        ensures
            r@ == "updatestatus"@,
    {
        "updatestatus"
    }

    /// The command's user-facing description.
    pub fn description(&self) -> (r: &'static str)
        ensures
            r@ == "Update the status of a job application"@,
    {
        "Update the status of a job application"
    }
}

/// Shows application statistics.
pub struct MyStatsCommand {
}

impl MyStatsCommand {
    pub fn new() -> (r: MyStatsCommand)
        ensures
            r == (MyStatsCommand {  }),
    {
        MyStatsCommand {  }
    }

    /// The command's wire name.
    pub fn name(&self) -> (r: &'static str)
        ensures
            r@ == "mystats"@,
    {
        "mystats"
    }

    /// The command's user-facing description.
    pub fn description(&self) -> (r: &'static str)
        ensures
            r@ == "View your application statistics"@,
    {
        "View your application statistics"
    }
}

/// Sets a follow-up reminder on an application.
pub struct SetReminderCommand {
}

impl SetReminderCommand {
    pub fn new() -> (r: SetReminderCommand)
        ensures
            r == (SetReminderCommand {  }),
    {
        SetReminderCommand {  }
    }

    /// The command's wire name.
    pub fn name(&self) -> (r: &'static str)
        ensures
            r@ == "setreminder"@,
    {
        "setreminder"
    }

    /// The command's user-facing description.
    pub fn description(&self) -> (r: &'static str)
        ensures
            r@ == "Set a follow-up reminder for a job application"@,
    {
        "Set a follow-up reminder for a job application"
    }
}

/// Lists pending reminders.
pub struct ListRemindersCommand {
}

impl ListRemindersCommand {
    pub fn new() -> (r: ListRemindersCommand)
        ensures
            r == (ListRemindersCommand {  }),
    {
        ListRemindersCommand {  }
    }

    /// The command's wire name.
    pub fn name(&self) -> (r: &'static str)
        ensures
            r@ == "listreminders"@,
    {
        "listreminders"
    }

    /// The command's user-facing description.
    pub fn description(&self) -> (r: &'static str)
        ensures
            r@ == "List all your pending reminders"@,
    {
        "List all your pending reminders"
    }
}

/// Clears an application's reminder.
pub struct ClearReminderCommand {
}

impl ClearReminderCommand {
    pub fn new() -> (r: ClearReminderCommand)
        ensures
            r == (ClearReminderCommand {  }),
    {
        ClearReminderCommand {  }
    }

    /// The command's wire name.
    pub fn name(&self) -> (r: &'static str)
        ensures
            r@ == "clearreminder"@,
    {
        "clearreminder"
    }

    /// The command's user-facing description.
    pub fn description(&self) -> (r: &'static str)
        ensures
            r@ == "Clear a reminder from an application"@,
    {
        "Clear a reminder from an application"
    }
}

/// Creates a free-standing reminder.
pub struct CreateReminderCommand {
}

impl CreateReminderCommand {
    pub fn new() -> (r: CreateReminderCommand)
        ensures
            r == (CreateReminderCommand {  }),
    {
        CreateReminderCommand {  }
    }

    /// The command's wire name.
    pub fn name(&self) -> (r: &'static str)
        ensures
            r@ == "createreminder"@,
    {
        "createreminder"
    }

    /// The command's user-facing description.
    pub fn description(&self) -> (r: &'static str)
        ensures
            r@ == "Create a custom reminder (not linked to an application)"@,
    {
        "Create a custom reminder (not linked to an application)"
    }
}

/// Deletes a free-standing reminder.
pub struct DeleteReminderCommand {
}

impl DeleteReminderCommand {
    pub fn new() -> (r: DeleteReminderCommand)
        ensures
            r == (DeleteReminderCommand {  }),
    {
        DeleteReminderCommand {  }
    }

    /// The command's wire name.
    pub fn name(&self) -> (r: &'static str)
        ensures
            r@ == "deletereminder"@,
    {
        "deletereminder"
    }

    /// The command's user-facing description.
    pub fn description(&self) -> (r: &'static str)
        ensures
            r@ == "Delete a custom reminder by its ID"@,
    {
        "Delete a custom reminder by its ID"
    }
}

/// What can go wrong while handling a command.
#[derive(Debug)]
pub enum CommandError {
    /// The reply could not be delivered.
    ResponseFailed(String),
    /// A required option was missing.
    MissingParameter(String),
    PermissionDenied,
    /// The thing asked about does not exist.
    NotFound(String),
    Unauthorized(String),
    InvalidInput(String),
    Internal(String),
}

/// The rendered form of a command error, one line per variant.
pub open spec fn command_error_chars(e: CommandError) -> Seq<char> {
    match e {
        CommandError::ResponseFailed(m) => "Failed to send response: "@ + m@,
        CommandError::MissingParameter(m) => "Missing parameter: "@ + m@,
        CommandError::PermissionDenied => "Permission denied"@,
        CommandError::NotFound(m) => "Not found: "@ + m@,
        CommandError::Unauthorized(m) => "Unauthorized: "@ + m@,
        CommandError::InvalidInput(m) => "Invalid input: "@ + m@,
        CommandError::Internal(m) => "Internal error: "@ + m@,
    }
}

impl CommandError {
    /// The error as one line of text, `command_error_chars`.
    pub fn message(&self) -> (r: String)
        ensures
            r@ == command_error_chars(*self),
    {
        match self {
            CommandError::ResponseFailed(m) => {
                let mut s = String::from_str("Failed to send response: ");
                s.append(m.as_str());
                s
            },
            CommandError::MissingParameter(m) => {
                let mut s = String::from_str("Missing parameter: ");
                s.append(m.as_str());
                s
            },
            CommandError::PermissionDenied => String::from_str("Permission denied"),
            CommandError::NotFound(m) => {
                let mut s = String::from_str("Not found: ");
                s.append(m.as_str());
                s
            },
            CommandError::Unauthorized(m) => {
                let mut s = String::from_str("Unauthorized: ");
                s.append(m.as_str());
                s
            },
            CommandError::InvalidInput(m) => {
                let mut s = String::from_str("Invalid input: ");
                s.append(m.as_str());
                s
            },
            CommandError::Internal(m) => {
                let mut s = String::from_str("Internal error: ");
                s.append(m.as_str());
                s
            },
        }
    }
}

/// How a tracked application's status is shown.
pub open spec fn status_display_chars(status: Seq<char>) -> Seq<char> {
    if status == "generated"@ {
        "\u{1f4dd} G\u{e9}n\u{e9}r\u{e9}e"@
    } else if status == "applied"@ {
        "\u{1f4e4} Postul\u{e9}e"@
    } else if status == "interview"@ {
        "\u{1f5d3}\u{fe0f} Entretien"@
    } else if status == "offer"@ {
        "\u{1f389} Offre re\u{e7}ue"@
    } else if status == "rejected"@ {
        "\u{274c} Refus\u{e9}e"@
    } else if status == "accepted"@ {
        "\u{2705} Accept\u{e9}e"@
    } else {
        "\u{2753} Inconnu"@
    }
}

/// The display label of an application status; unknown statuses get the
/// question-mark label.
pub fn get_status_display(status: &str) -> (r: &'static str)
    ensures
        r@ == status_display_chars(status@),
{
    if str_eq(status, "generated") {
        "\u{1f4dd} G\u{e9}n\u{e9}r\u{e9}e"
    } else if str_eq(status, "applied") {
        "\u{1f4e4} Postul\u{e9}e"
    } else if str_eq(status, "interview") {
        "\u{1f5d3}\u{fe0f} Entretien"
    } else if str_eq(status, "offer") {
        "\u{1f389} Offre re\u{e7}ue"
    } else if str_eq(status, "rejected") {
        "\u{274c} Refus\u{e9}e"
    } else if str_eq(status, "accepted") {
        "\u{2705} Accept\u{e9}e"
    } else {
        "\u{2753} Inconnu"
    }
}

/// How many of the ten cells a value out of `max` fills: the rounded tenth,
/// capped at ten.
pub open spec fn progress_cells(value: u32, max: u32) -> int {
    let r = (20 * value + max) as int / (2 * max) as int;
    if r > 10 {
        10
    } else {
        r
    }
}

/// The ten-cell progress bar: filled cells, then empty ones.
pub open spec fn progress_bar_chars(value: u32, max: u32) -> Seq<char> {
    Seq::new(10, |i: int| if i < progress_cells(value, max) {
        '\u{2588}'
    } else {
        '\u{2591}'
    })
}

/// Draws the ten-cell progress bar for a value out of `max`.
#[verifier::loop_isolation(false)]
pub fn build_progress_bar(value: u32, max: u32) -> (r: String)
    requires
        max >= 1,
    ensures
        r@ == progress_bar_chars(value, max),
{
    let filled_wide: u64 = (20u64 * (value as u64) + (max as u64)) / (2u64 * (max as u64));
    let filled: u64 = if filled_wide > 10 {
        10
    } else {
        filled_wide
    };
    proof {
        assert(filled as int == progress_cells(value, max));
    }
    let mut out = String::new();
    let mut i: u64 = 0;
    while i < 10
        invariant
            0 <= i <= 10,
            out@.len() == i,
            forall|k: int| 0 <= k < i ==> out@[k] == progress_bar_chars(value, max)[k],
        decreases 10 - i,
    {
        if i < filled {
            push_char(&mut out, '\u{2588}');
        } else {
            push_char(&mut out, '\u{2591}');
        }
        i = i + 1;
    }
    proof {
        assert(out@ =~= progress_bar_chars(value, max));
    }
    out
}

} // verus!

//! Settings, their defaults, and what start-up does with what it found.
use vstd::prelude::*;

verus! {

/// The settings read once at start-up.
#[derive(Clone, Debug)]
pub struct Config {
    /// Address of the journal's author, the one sender whose replies are kept.
    pub target_email: String,
    /// Display name of the journal's author.
    pub target_name: String,
    /// Where the entry database lives.
    pub db_filename: String,
    /// Outgoing mail server of the journal's mailbox.
    pub journal_email_smtp: String,
    /// Incoming mail server of the journal's mailbox.
    pub journal_email_imap: String,
    /// Address of the journal's own mailbox.
    pub journal_email: String,
    /// Secret of the journal's own mailbox.
    pub journal_email_password: String,
    /// UTC hour (0 to 23) at which the daily reminder goes out.
    pub utc_reminder_hour: i64,
}

/// Whether `hour` names an hour of the day.
pub open spec fn reminder_hour_in_range(hour: int) -> bool {
    0 <= hour <= 23
}

impl Config {
    /// The template written when no settings exist yet.
    pub open spec fn is_default(self) -> bool {
        &&& self.target_email@ == "john.smith@example.com"@
        &&& self.target_name@ == "John Smith"@
        &&& self.db_filename@ == "mail-journal.db"@
        &&& self.journal_email_smtp@ == "smtp.example.com"@
        &&& self.journal_email_imap@ == "imap.example.com"@
        &&& self.journal_email@ == "mail-journal@example.com"@
        &&& self.journal_email_password@ == "password"@
        &&& self.utc_reminder_hour == 0
    }

    /// Whether the reminder hour lies in 0 to 23.
    pub fn reminder_hour_is_valid(&self) -> (r: bool)
        ensures
            r == reminder_hour_in_range(self.utc_reminder_hour as int),
    {
        0 <= self.utc_reminder_hour && self.utc_reminder_hour <= 23
    }
}

impl Default for Config {
    fn default() -> (r: Config)
        ensures
            r.is_default(),
    {
        Config {
            target_email: String::from_str("john.smith@example.com"),
            target_name: String::from_str("John Smith"),
            db_filename: String::from_str("mail-journal.db"),
            journal_email_smtp: String::from_str("smtp.example.com"),
            journal_email_imap: String::from_str("imap.example.com"),
            journal_email: String::from_str("mail-journal@example.com"),
            journal_email_password: String::from_str("password"),
            utc_reminder_hour: 0,
        }
    }
}

/// What start-up does, given what the settings file held.
#[derive(Clone, Debug)]
pub enum StartupPlan {
    /// No settings yet: write this template and stop, so that it can be edited.
    WriteDefault(Config),
    /// The settings could not be read: stop with an error.
    Malformed,
    /// The reminder hour lies outside 0 to 23: stop with an error.
    ReminderHourOutOfRange(i64),
    /// Settings are valid: run the journal with them.
    Run(Config),
}

impl StartupPlan {
    /// Whether start-up goes on into the control loop.
    pub open spec fn runs(self) -> bool {
        self is Run
    }

    /// The process exit code when start-up stops, `None` when it goes on.
    pub fn exit_code(&self) -> (r: Option<i32>)
        ensures
            match self {
                StartupPlan::WriteDefault(_) => r == Some(0i32),
                StartupPlan::Run(_) => r is None,
                _ => r == Some(1i32),
            },
    {
        match self {
            StartupPlan::WriteDefault(_) => Some(0),
            StartupPlan::Run(_) => None,
            _ => Some(1),
        }
    }
}

/// Decides start-up from the settings file's text (empty where there was no
/// file) and what reading it gave (`None` where it could not be read).
/// Absent settings give the default template and no control loop; a reminder
/// hour outside 0 to 23 is refused; anything else runs.
pub fn plan_startup(config_text: &str, parsed: Option<Config>) -> (r: StartupPlan)
    ensures
        config_text@.len() == 0 ==> (r matches StartupPlan::WriteDefault(c) && c.is_default()),
        config_text@.len() > 0 ==> match parsed {
            None => r is Malformed,
            Some(c) => if reminder_hour_in_range(c.utc_reminder_hour as int) {
                r matches StartupPlan::Run(d) && d == c
            } else {
                r == StartupPlan::ReminderHourOutOfRange(c.utc_reminder_hour)
            },
        },
        r.runs() ==> config_text@.len() > 0,
{
    if config_text.is_empty() {
        return StartupPlan::WriteDefault(Config::default());
    }
    match parsed {
        None => StartupPlan::Malformed,
        Some(c) => {
            if c.reminder_hour_is_valid() {
                StartupPlan::Run(c)
            } else {
                StartupPlan::ReminderHourOutOfRange(c.utc_reminder_hour)
            }
        },
    }
}

} // verus!

//! The text of what the journal sends and asks for: reminders, the duplicate
//! entry notice, and the mailbox search and fetch arguments.
use crate::config::Config;
use crate::date::{date_of_instant, utc_date_of, CivilDate};
use crate::journal::{contains, occurs_at};
use vstd::prelude::*;

verus! {

/// What `str::trim` leaves of `s`: the text without leading and trailing
/// white space.
pub uninterp spec fn trimmed(s: Seq<char>) -> Seq<char>;

/// Relies on `str::trim`: the text without leading and trailing white space.
#[verifier::external_body]
fn trim_text(s: &str) -> (r: &str)
    ensures
        r@ == trimmed(s@),
{
    s.trim()
}

/// The decimal digit `d` (0 to 9).
pub open spec fn digit(d: nat) -> char {
    ((d + 48) as u8) as char
}

/// `n` written in decimal, without leading zeros.
pub open spec fn decimal(n: nat) -> Seq<char>
    decreases n,
{
    if n < 10 {
        seq![digit(n)]
    } else {
        decimal(n / 10).push(digit(n % 10))
    }
}

/// The digit `d` (0 to 9) as text.
fn digit_text(d: u32) -> (r: &'static str)
    requires
        d < 10,
    ensures
        r@ == seq![digit(d as nat)],
{
    proof {
        reveal_strlit("0");
        reveal_strlit("1");
        reveal_strlit("2");
        reveal_strlit("3");
        reveal_strlit("4");
        reveal_strlit("5");
        reveal_strlit("6");
        reveal_strlit("7");
        reveal_strlit("8");
        reveal_strlit("9");
    }
    let r = if d == 0 {
        "0"
    } else if d == 1 {
        "1"
    } else if d == 2 {
        "2"
    } else if d == 3 {
        "3"
    } else if d == 4 {
        "4"
    } else if d == 5 {
        "5"
    } else if d == 6 {
        "6"
    } else if d == 7 {
        "7"
    } else if d == 8 {
        "8"
    } else {
        "9"
    };
    assert(r@ =~= seq![digit(d as nat)]);
    r
}

/// The number `n` in decimal, without leading zeros.
pub fn decimal_text(n: u32) -> (r: String)
    ensures
        r@ == decimal(n as nat),
    decreases n,
{
    if n < 10 {
        String::from_str(digit_text(n))
    } else {
        let mut t = decimal_text(n / 10);
        t.append(digit_text(n % 10));
        assert(t@ =~= decimal(n as nat));
        t
    }
}

/// A stored journal entry, as read back from the store.
#[derive(Clone, Debug)]
pub struct JournalEntry {
    pub id: i64,
    pub day: u32,
    pub month: u32,
    pub year: i32,
    pub body: String,
}

impl JournalEntry {
    /// The date the entry belongs to.
    pub fn date(&self) -> (r: CivilDate)
        ensures
            r == (CivilDate { day: self.day, month: self.month, year: self.year }),
    {
        CivilDate { day: self.day, month: self.month, year: self.year }
    }
}

/// The quoted, trimmed texts of `bodies`, one after another.
pub open spec fn quoted_all(bodies: Seq<Seq<char>>) -> Seq<char>
    decreases bodies.len(),
{
    if bodies.len() == 0 {
        Seq::empty()
    } else {
        quoted_all(bodies.drop_last()) + "\""@ + trimmed(bodies.last()) + "\""@
    }
}

/// The fixed question every reminder asks.
pub open spec fn reminder_prompt() -> Seq<char> {
    "How was your day today? Reply to this email with your daily journal entry."@
}

/// The heading above the entries of a year before.
pub open spec fn lookback_heading() -> Seq<char> {
    "\n\nOn this day, one year ago:\n"@
}

/// A reminder's text, given the texts of the entries written a year before:
/// the prompt, then, only where there are such entries, the heading and each
/// entry trimmed and quoted.
pub open spec fn reminder_text_of(bodies: Seq<Seq<char>>) -> Seq<char> {
    if bodies.len() == 0 {
        reminder_prompt()
    } else {
        reminder_prompt() + lookback_heading() + quoted_all(bodies)
    }
}

/// The texts of `entries`, in order.
pub open spec fn bodies_of(entries: Seq<JournalEntry>) -> Seq<Seq<char>> {
    entries.map_values(|e: JournalEntry| e.body@)
}

/// The text of the daily reminder, quoting `lookback`, the entries written a
/// year before.
pub fn reminder_text(lookback: &Vec<JournalEntry>) -> (r: String)
    ensures
        r@ == reminder_text_of(bodies_of(lookback@)),
{
    let mut text = String::from_str(
        "How was your day today? Reply to this email with your daily journal entry.",
    );
    if lookback.len() == 0 {
        return text;
    }
    text.append("\n\nOn this day, one year ago:\n");
    let ghost head = text@;
    let mut i: usize = 0;
    while i < lookback.len()
        invariant
            0 <= i <= lookback@.len(),
            head == reminder_prompt() + lookback_heading(),
            text@ == head + quoted_all(bodies_of(lookback@.subrange(0, i as int))),
        decreases lookback@.len() - i,
    {
        let body = trim_text(lookback[i].body.as_str());
        text.append("\"");
        text.append(body);
        text.append("\"");
        proof {
            let prev = bodies_of(lookback@.subrange(0, i as int));
            let next = bodies_of(lookback@.subrange(0, i + 1));
            assert(next.drop_last() =~= prev);
            assert(next.last() == lookback@[i as int].body@);
        }
        i = i + 1;
    }
    assert(lookback@.subrange(0, lookback@.len() as int) =~= lookback@);
    text
}

/// The text of the notice sent when a day already has its entry.
pub open spec fn duplicate_entry_text() -> Seq<char> {
    "You already submitted a journal entry for today!"@
}

/// A plain-text message to send.
#[derive(Clone, Debug)]
pub struct OutgoingMail {
    pub to_address: String,
    pub to_name: String,
    pub from_address: String,
    pub from_name: String,
    pub subject: String,
    pub body: String,
}

/// A message from the journal's mailbox to its author, with `subject` and `body`.
pub open spec fn mail_to_author(
    config: Config,
    m: OutgoingMail,
    subject: Seq<char>,
    body: Seq<char>,
) -> bool {
    &&& m.to_address@ == config.target_email@
    &&& m.to_name@ == config.target_name@
    &&& m.from_address@ == config.journal_email@
    &&& m.from_name@ == "Mail Journal"@
    &&& m.subject@ == subject
    &&& m.body@ == body
}

fn author_mail(config: &Config, subject: &str, body: String) -> (r: OutgoingMail)
    ensures
        mail_to_author(*config, r, subject@, body@),
{
    OutgoingMail {
        to_address: config.target_email.clone(),
        to_name: config.target_name.clone(),
        from_address: config.journal_email.clone(),
        from_name: String::from_str("Mail Journal"),
        subject: String::from_str(subject),
        body,
    }
}

/// The daily reminder to the author, quoting the entries of a year before.
pub fn reminder_mail(config: &Config, lookback: &Vec<JournalEntry>) -> (r: OutgoingMail)
    ensures
        mail_to_author(
            *config,
            r,
            "Daily Journal Entry"@,
            reminder_text_of(bodies_of(lookback@)),
        ),
{
    let body = reminder_text(lookback);
    author_mail(config, "Daily Journal Entry", body)
}

/// A notice to the author under the subject "Error", with text `message`.
pub fn error_mail(config: &Config, message: &str) -> (r: OutgoingMail)
    ensures
        mail_to_author(*config, r, "Error"@, message@),
{
    author_mail(config, "Error", String::from_str(message))
}

/// The notice that a day already has its entry and the new reply was dropped.
pub fn duplicate_entry_mail(config: &Config) -> (r: OutgoingMail)
    ensures
        mail_to_author(*config, r, "Error"@, duplicate_entry_text()),
{
    error_mail(config, "You already submitted a journal entry for today!")
}

/// The English abbreviation of month `m` (1 to 12).
pub open spec fn month_abbreviation(m: int) -> Seq<char> {
    if m == 1 {
        "Jan"@
    } else if m == 2 {
        "Feb"@
    } else if m == 3 {
        "Mar"@
    } else if m == 4 {
        "Apr"@
    } else if m == 5 {
        "May"@
    } else if m == 6 {
        "Jun"@
    } else if m == 7 {
        "Jul"@
    } else if m == 8 {
        "Aug"@
    } else if m == 9 {
        "Sep"@
    } else if m == 10 {
        "Oct"@
    } else if m == 11 {
        "Nov"@
    } else {
        "Dec"@
    }
}

/// Whether `d` can be written as a mailbox search date: a real day and month.
pub open spec fn search_date_writable(d: CivilDate) -> bool {
    1 <= d.day <= 31 && 1 <= d.month <= 12
}

/// `k` zeros.
pub open spec fn zeros(k: nat) -> Seq<char> {
    Seq::new(k, |i: int| '0')
}

/// `s` with zeros in front up to four characters.
pub open spec fn pad4(s: Seq<char>) -> Seq<char> {
    if s.len() >= 4 {
        s
    } else {
        zeros((4 - s.len()) as nat) + s
    }
}

/// The year `y` as dates are written: zero-padded to four digits for years 0
/// to 9999, else with its sign before at least four digits.
pub open spec fn year_text(y: int) -> Seq<char> {
    if 0 <= y <= 9999 {
        pad4(decimal(y as nat))
    } else if y < 0 {
        "-"@ + pad4(decimal((-y) as nat))
    } else {
        "+"@ + pad4(decimal(y as nat))
    }
}

/// The number `n` in decimal, zero-padded to at least four digits.
fn padded4(n: u32) -> (r: String)
    ensures
        r@ == pad4(decimal(n as nat)),
{
    let digits = decimal_text(n);
    let len = digits.unicode_len();
    let mut t = String::new();
    if len < 4 {
        let mut j: usize = 0;
        while j < 4 - len
            invariant
                len < 4,
                j <= 4 - len,
                t@ == zeros(j as nat),
            decreases 4 - len - j,
        {
            t.append("0");
            proof {
                reveal_strlit("0");
                assert(t@ =~= zeros((j + 1) as nat));
            }
            j = j + 1;
        }
    } else {
        assert(Seq::<char>::empty() + digits@ =~= digits@);
    }
    t.append(digits.as_str());
    t
}

/// The year `y` as dates are written.
fn year_string(y: i32) -> (r: String)
    ensures
        r@ == year_text(y as int),
{
    if 0 <= y && y <= 9999 {
        padded4(y as u32)
    } else if y < 0 {
        let mut t = String::from_str("-");
        let magnitude: u32 = if y == i32::MIN {
            2147483648u32
        } else {
            (-y) as u32
        };
        let digits = padded4(magnitude);
        t.append(digits.as_str());
        t
    } else {
        let mut t = String::from_str("+");
        let digits = padded4(y as u32);
        t.append(digits.as_str());
        t
    }
}

/// The date `d` as mailbox searches take it: two-digit day, month
/// abbreviation and year, joined by dashes (`05-Dec-2019`).
pub open spec fn search_date_text(d: CivilDate) -> Seq<char> {
    let day = if d.day < 10 {
        "0"@ + decimal(d.day as nat)
    } else {
        decimal(d.day as nat)
    };
    day + "-"@ + month_abbreviation(d.month as int) + "-"@ + year_text(d.year as int)
}

fn month_text(m: u32) -> (r: &'static str)
    ensures
        r@ == month_abbreviation(m as int),
{
    if m == 1 {
        "Jan"
    } else if m == 2 {
        "Feb"
    } else if m == 3 {
        "Mar"
    } else if m == 4 {
        "Apr"
    } else if m == 5 {
        "May"
    } else if m == 6 {
        "Jun"
    } else if m == 7 {
        "Jul"
    } else if m == 8 {
        "Aug"
    } else if m == 9 {
        "Sep"
    } else if m == 10 {
        "Oct"
    } else if m == 11 {
        "Nov"
    } else {
        "Dec"
    }
}

/// Writes `d` as mailbox searches take it; `None` where it cannot be written so.
pub fn search_date(d: CivilDate) -> (r: Option<String>)
    ensures
        search_date_writable(d) ==> (r matches Some(t) && t@ == search_date_text(d)),
        !search_date_writable(d) ==> r is None,
{
    if !(1 <= d.day && d.day <= 31 && 1 <= d.month && d.month <= 12) {
        return None;
    }
    let mut t = if d.day < 10 {
        String::from_str("0")
    } else {
        String::new()
    };
    let day = decimal_text(d.day);
    t.append(day.as_str());
    t.append("-");
    t.append(month_text(d.month));
    t.append("-");
    let year = year_string(d.year);
    t.append(year.as_str());
    proof {
        if d.day >= 10 {
            assert(Seq::<char>::empty() + decimal(d.day as nat) =~= decimal(d.day as nat));
        }
    }
    Some(t)
}

/// The mailbox search for new replies: unseen, from `sender`, sent on or after
/// the UTC day holding `now`. `None` where that day cannot be written as a
/// search date.
pub fn search_query(sender: &str, now: i64) -> (r: Option<String>)
    ensures
        match utc_date_of(now as int) {
            Some(t) => {
                let d = CivilDate { day: t.0 as u32, month: t.1 as u32, year: t.2 as i32 };
                if d.triple() == t && search_date_writable(d) {
                    r matches Some(q) && q@ == "UNSEEN FROM "@ + sender@ + " SINCE "@
                        + search_date_text(d)
                } else {
                    r is None
                }
            },
            None => r is None,
        },
{
    let date = match date_of_instant(now) {
        Some(d) => d,
        None => return None,
    };
    match search_date(date) {
        None => None,
        Some(d) => {
            let mut q = String::from_str("UNSEEN FROM ");
            q.append(sender);
            q.append(" SINCE ");
            q.append(d.as_str());
            Some(q)
        },
    }
}

/// An entry's text as a reminder quotes it: trimmed, in double quotes.
pub open spec fn quoted(body: Seq<char>) -> Seq<char> {
    "\""@ + trimmed(body) + "\""@
}

/// A text found in `b` is found in `a + b` and in `b + a`.
proof fn lemma_contains_in_concat(a: Seq<char>, b: Seq<char>, pat: Seq<char>)
    requires
        contains(b, pat),
    ensures
        contains(a + b, pat),
        contains(b + a, pat),
{
    let i = choose|i: int| occurs_at(b, pat, i);
    assert((a + b).subrange(a.len() + i, a.len() + i + pat.len()) =~= b.subrange(
        i,
        i + pat.len(),
    ));
    assert(occurs_at(a + b, pat, a.len() + i));
    assert((b + a).subrange(i, i + pat.len()) =~= b.subrange(i, i + pat.len()));
    assert(occurs_at(b + a, pat, i));
}

proof fn lemma_quoted_all_contains(bodies: Seq<Seq<char>>, i: int)
    requires
        0 <= i < bodies.len(),
    ensures
        contains(quoted_all(bodies), quoted(bodies[i])),
    decreases bodies.len(),
{
    let prev = quoted_all(bodies.drop_last());
    let q = quoted(bodies.last());
    assert(quoted_all(bodies) =~= prev + q);
    if i == bodies.len() - 1 {
        assert((prev + q).subrange(prev.len() as int, (prev.len() + q.len()) as int) =~= q);
        assert(occurs_at(prev + q, q, prev.len() as int));
    } else {
        lemma_quoted_all_contains(bodies.drop_last(), i);
        assert(bodies.drop_last()[i] == bodies[i]);
        lemma_contains_in_concat(q, prev, quoted(bodies[i]));
    }
}

/// The reminder quotes the entries of a year before: each one's trimmed text
/// appears in it in double quotes, and with no such entry the reminder is the
/// bare prompt, without the heading.
pub proof fn lemma_reminder_quotes_lookback(bodies: Seq<Seq<char>>)
    ensures
        bodies.len() == 0 ==> reminder_text_of(bodies) == reminder_prompt(),
        forall|i: int|
            0 <= i < bodies.len() ==> contains(reminder_text_of(bodies), #[trigger] quoted(bodies[i])),
        bodies.len() > 0 ==> contains(reminder_text_of(bodies), lookback_heading()),
{
    assert forall|i: int| 0 <= i < bodies.len() implies contains(
        reminder_text_of(bodies),
        #[trigger] quoted(bodies[i]),
    ) by {
        lemma_quoted_all_contains(bodies, i);
        lemma_contains_in_concat(reminder_prompt() + lookback_heading(), quoted_all(bodies), quoted(bodies[i]));
    }
    if bodies.len() > 0 {
        let h = lookback_heading();
        assert(h.subrange(0, h.len() as int) =~= h);
        assert(occurs_at(h, h, 0));
        lemma_contains_in_concat(reminder_prompt(), h, h);
        lemma_contains_in_concat(quoted_all(bodies), reminder_prompt() + h, h);
    }
}

/// The numbers `ids` in decimal, separated by commas.
pub open spec fn sequence_set_of(ids: Seq<u32>) -> Seq<char>
    decreases ids.len(),
{
    if ids.len() == 0 {
        Seq::empty()
    } else if ids.len() == 1 {
        decimal(ids[0] as nat)
    } else {
        sequence_set_of(ids.drop_last()) + ","@ + decimal(ids.last() as nat)
    }
}

/// The message numbers `ids` as a fetch takes them: decimal, comma-separated.
pub fn sequence_set(ids: &Vec<u32>) -> (r: String)
    ensures
        r@ == sequence_set_of(ids@),
{
    let mut text = String::new();
    let mut i: usize = 0;
    while i < ids.len()
        invariant
            0 <= i <= ids@.len(),
            text@ == sequence_set_of(ids@.subrange(0, i as int)),
        decreases ids@.len() - i,
    {
        let n = decimal_text(ids[i]);
        if i > 0 {
            text.append(",");
        }
        text.append(n.as_str());
        proof {
            let next = ids@.subrange(0, i + 1);
            assert(next.drop_last() =~= ids@.subrange(0, i as int));
            if i == 0 {
                assert(Seq::<char>::empty() + decimal(ids@[0] as nat) =~= decimal(ids@[0] as nat));
            }
        }
        i = i + 1;
    }
    assert(ids@.subrange(0, ids@.len() as int) =~= ids@);
    text
}

} // verus!

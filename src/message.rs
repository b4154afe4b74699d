//! An incoming reply: sender, subject, UTC timestamp and plain-text body,
//! taken from the raw message.
use crate::date::{date_of_instant, utc_date_of, CivilDate};
use mailparse::MailHeaderMap;
use vstd::prelude::*;

verus! {

/// mailparse's error, mapped to `EmailError` by the verified code.
#[verifier::external_type_specification]
#[verifier::external_body]
pub struct ExMailParseError(mailparse::MailParseError);

/// chrono's date parsing error, mapped to `EmailError::BadDate`.
#[verifier::external_type_specification]
#[verifier::external_body]
pub struct ExChronoParseError(chrono::ParseError);

/// The instant, in whole seconds since the epoch, that the RFC 2822 date text
/// `s` denotes; `None` where it is not such a date.
pub uninterp spec fn rfc2822_instant(s: Seq<char>) -> Option<int>;

/// Whether the raw message `bytes` can be split into headers and MIME parts.
pub uninterp spec fn mail_parses(bytes: Seq<u8>) -> bool;

/// The decoded value of the first header of the raw message `bytes` named
/// `key`, if the message has one.
pub uninterp spec fn header_of(bytes: Seq<u8>, key: Seq<char>) -> Option<Seq<char>>;

/// The first MIME part of the raw message `bytes`: `None` where it has no
/// parts, `Some(None)` where that part's body cannot be decoded, else
/// `Some(Some(text))`.
pub uninterp spec fn first_part_of(bytes: Seq<u8>) -> Option<Option<Seq<char>>>;

/// The view of an optional text.
pub open spec fn opt_text(t: Option<String>) -> Option<Seq<char>> {
    match t {
        Some(s) => Some(s@),
        None => None,
    }
}

/// The view of an optional first part.
pub open spec fn opt_part(p: Option<Option<String>>) -> Option<Option<Seq<char>>> {
    match p {
        Some(b) => Some(opt_text(b)),
        None => None,
    }
}

/// What a reply's raw message holds, as read off by the mail parser.
pub struct MailParts {
    pub from: Option<String>,
    pub subject: Option<String>,
    pub date: Option<String>,
    pub first_part: Option<Option<String>>,
}

/// Relies on mailparse's `parse_mail`, `MailHeaderMap::get_first_value` (the
/// first header of a name, matched ignoring ASCII case) and
/// `ParsedMail::get_body` on the first MIME part: all depend on the bytes alone.
#[verifier::external_body]
fn read_mail(bytes: &[u8], from_key: &str, subject_key: &str, date_key: &str) -> (r: Result<
    MailParts,
    mailparse::MailParseError,
>)
    ensures
        r is Ok <==> mail_parses(bytes@),
        r matches Ok(p) ==> opt_text(p.from) == header_of(bytes@, from_key@) && opt_text(p.subject)
            == header_of(bytes@, subject_key@) && opt_text(p.date) == header_of(bytes@, date_key@)
            && opt_part(p.first_part) == first_part_of(bytes@),
{
    match mailparse::parse_mail(bytes) {
        Ok(m) => Ok(MailParts {
            from: m.headers.get_first_value(from_key),
            subject: m.headers.get_first_value(subject_key),
            date: m.headers.get_first_value(date_key),
            first_part: match m.subparts.first() {
                Some(part) => Some(part.get_body().ok()),
                None => None,
            },
        }),
        Err(e) => Err(e),
    }
}

/// Relies on chrono's `DateTime::parse_from_rfc2822` (with `timestamp`): the
/// instant an RFC 2822 date denotes, whatever its offset.
#[verifier::external_body]
fn parse_rfc2822(s: &str) -> (r: Result<i64, chrono::ParseError>)
    ensures
        match r {
            Ok(t) => rfc2822_instant(s@) == Some(t as int),
            Err(_) => rfc2822_instant(s@) is None,
        },
{
    match chrono::DateTime::parse_from_rfc2822(s) {
        Ok(t) => Ok(t.timestamp()),
        Err(e) => Err(e),
    }
}

/// A header that every reply must carry.
#[derive(Clone, Copy, Debug, PartialEq, Eq, Structural)]
pub enum RequiredHeader {
    From,
    Subject,
    Date,
}

/// Why a raw message could not be read as a reply.
#[derive(Clone, Copy, Debug, PartialEq, Eq, Structural)]
pub enum EmailError {
    /// The message's structure could not be parsed.
    Malformed,
    /// A required header is absent.
    MissingHeader(RequiredHeader),
    /// The `Date` header is not an RFC 2822 date.
    BadDate,
    /// The first MIME part's body could not be decoded.
    UndecodableBody,
}

/// An incoming reply.
#[derive(Clone, Debug)]
pub struct Email {
    /// The `From` header as sent, possibly "Display Name <address>".
    pub from: String,
    pub subject: String,
    /// When it was sent, in whole seconds since the epoch (UTC).
    pub timestamp: i64,
    /// Text of the first MIME part; empty where the message has no parts.
    pub body: String,
}

/// The body a reply carries given its first MIME part: `None` for no part,
/// `Some(None)` for one that could not be decoded, `Some(Some(text))` else.
pub open spec fn body_of(first_part: Option<Option<String>>) -> Seq<char> {
    match first_part {
        Some(Some(b)) => b@,
        _ => Seq::empty(),
    }
}

impl Email {
    /// Builds a reply from its parts as read off the message. Headers are
    /// checked in the order From, Subject, Date; then the date must parse;
    /// then the first part, if any, must have decoded.
    pub fn from_parts(
        from: Option<String>,
        subject: Option<String>,
        date: Option<String>,
        first_part: Option<Option<String>>,
    ) -> (r: Result<Email, EmailError>)
        ensures
            from is None ==> r == Err::<Email, EmailError>(
                EmailError::MissingHeader(RequiredHeader::From),
            ),
            from is Some && subject is None ==> r == Err::<Email, EmailError>(
                EmailError::MissingHeader(RequiredHeader::Subject),
            ),
            from is Some && subject is Some && date is None ==> r == Err::<Email, EmailError>(
                EmailError::MissingHeader(RequiredHeader::Date),
            ),
            from is Some && subject is Some && date is Some ==> {
                let d = date->0;
                if rfc2822_instant(d@) is None {
                    r == Err::<Email, EmailError>(EmailError::BadDate)
                } else if first_part == Some(None::<String>) {
                    r == Err::<Email, EmailError>(EmailError::UndecodableBody)
                } else {
                    &&& r is Ok
                    &&& r->Ok_0.from@ == from->0@
                    &&& r->Ok_0.subject@ == subject->0@
                    &&& rfc2822_instant(d@) == Some(r->Ok_0.timestamp as int)
                    &&& r->Ok_0.body@ == body_of(first_part)
                }
            },
    {
        let from = match from {
            Some(f) => f,
            None => return Err(EmailError::MissingHeader(RequiredHeader::From)),
        };
        let subject = match subject {
            Some(s) => s,
            None => return Err(EmailError::MissingHeader(RequiredHeader::Subject)),
        };
        let date = match date {
            Some(d) => d,
            None => return Err(EmailError::MissingHeader(RequiredHeader::Date)),
        };
        let timestamp = match parse_rfc2822(date.as_str()) {
            Ok(t) => t,
            Err(_) => return Err(EmailError::BadDate),
        };
        let body = match first_part {
            None => String::new(),
            Some(None) => return Err(EmailError::UndecodableBody),
            Some(Some(b)) => b,
        };
        Ok(Email { from, subject, timestamp, body })
    }

    /// What `from_parts` gives for the parts of the raw message `bytes`.
    pub open spec fn read_from(bytes: Seq<u8>, r: Result<Email, EmailError>) -> bool {
        let from = header_of(bytes, "From"@);
        let subject = header_of(bytes, "Subject"@);
        let date = header_of(bytes, "Date"@);
        let part = first_part_of(bytes);
        if from is None {
            r == Err::<Email, EmailError>(EmailError::MissingHeader(RequiredHeader::From))
        } else if subject is None {
            r == Err::<Email, EmailError>(EmailError::MissingHeader(RequiredHeader::Subject))
        } else if date is None {
            r == Err::<Email, EmailError>(EmailError::MissingHeader(RequiredHeader::Date))
        } else if rfc2822_instant(date->0) is None {
            r == Err::<Email, EmailError>(EmailError::BadDate)
        } else if part == Some(None::<Seq<char>>) {
            r == Err::<Email, EmailError>(EmailError::UndecodableBody)
        } else {
            &&& r is Ok
            &&& r->Ok_0.from@ == from->0
            &&& r->Ok_0.subject@ == subject->0
            &&& rfc2822_instant(date->0) == Some(r->Ok_0.timestamp as int)
            &&& r->Ok_0.body@ == match part {
                Some(Some(b)) => b,
                _ => Seq::empty(),
            }
        }
    }

    /// Reads a reply from a raw message: its `From`, `Subject` and `Date`
    /// headers (each required, checked in that order), the date as a UTC
    /// instant, and the decoded text of the first MIME part (empty where there
    /// is none). The result depends on the bytes alone.
    pub fn from_bytes(bytes: &[u8]) -> (r: Result<Email, EmailError>)
        ensures
            !mail_parses(bytes@) ==> r == Err::<Email, EmailError>(EmailError::Malformed),
            mail_parses(bytes@) ==> Self::read_from(bytes@, r),
    {
        let parts = match read_mail(bytes, "From", "Subject", "Date") {
            Ok(p) => p,
            Err(_) => return Err(EmailError::Malformed),
        };
        Email::from_parts(parts.from, parts.subject, parts.date, parts.first_part)
    }

    /// The UTC date the reply was sent on; `None` where it cannot be represented.
    pub fn sent_date(&self) -> (r: Option<CivilDate>)
        ensures
            match r {
                Some(d) => utc_date_of(self.timestamp as int) == Some(d.triple()),
                None => utc_date_of(self.timestamp as int) is None,
            },
    {
        date_of_instant(self.timestamp)
    }
}

} // verus!

//! What is logged, and how it reads.
use crate::config::Verbosity;
use crate::json::{field_of, member_of, written_json, Json, JsonNumber};
use crate::laws::llm::lemma_put;
use crate::logging::{
    beside, console_lines, is_logged, level_numbered, log_record, plain_note, session_line,
    LogLevel, Record,
};
use vstd::prelude::*;
use vstd::string::*;

verus! {

/// Errors are always logged, messages unless little is to be logged, and what is for
/// debugging only where all is.
pub proof fn law_verbosity_decides(verbose: Verbosity)
    ensures
        is_logged(verbose, LogLevel::Error),
        is_logged(verbose, LogLevel::Info) <==> verbose != Verbosity::Minimal,
        is_logged(verbose, LogLevel::Debug) <==> verbose == Verbosity::Detailed,
{
}

/// Nought is an error, two is for debugging, and any other number is a message.
pub proof fn law_numbers_are_levels(n: u8)
    ensures
        n == 0 ==> level_numbered(n) == LogLevel::Error,
        n == 2 ==> level_numbered(n) == LogLevel::Debug,
        n != 0 && n != 2 ==> level_numbered(n) == LogLevel::Info,
{
}

/// The name of a level, as wide as the widest.
pub open spec fn wide_name(level: LogLevel) -> Seq<char> {
    match level {
        LogLevel::Error => "ERROR"@,
        LogLevel::Info => "INFO "@,
        LogLevel::Debug => "DEBUG"@,
    }
}

/// The first line on the console says when, how serious, about what and what; what else
/// there is stands in a second line.
pub proof fn law_console_lines(record: Record)
    ensures
        ({
            let when = "["@ + record.timestamp + "] "@ + wide_name(record.level) + " "@;
            let lines = console_lines(record);
            &&& (record.category matches Some(category) ==> lines[0] == when + "["@ + category
                + "] "@ + record.message)
            &&& record.category is None ==> lines[0] == when + record.message
            &&& (record.auxiliary is None || record.auxiliary == Some(Json::Null)) ==> lines.len()
                == 1
            &&& (record.auxiliary matches Some(value) && value != Json::Null) ==> lines.len() == 2
                && lines[1] == "    "@ + written_json(record.auxiliary->0)
        }),
{
    reveal_strlit("[");
    reveal_strlit("] ");
    reveal_strlit(" ");
    assert("["@ =~= seq!['[']);
    assert("] "@ =~= seq![']', ' ']);
    assert(" "@ =~= seq![' ']);
    let lines = console_lines(record);
    let when = "["@ + record.timestamp + "] "@ + wide_name(record.level) + " "@;
    if let Some(category) = record.category {
        assert(lines[0] =~= when + "["@ + category + "] "@ + record.message);
    } else {
        assert(lines[0] =~= when + record.message);
    }
}

/// The line for a logger of the session says how serious, about what and what.
pub proof fn law_session_line(record: Record)
    ensures
        ({
            let level = match record.level {
                LogLevel::Error => "ERROR"@,
                LogLevel::Info => "INFO"@,
                LogLevel::Debug => "DEBUG"@,
            };
            &&& (record.category matches Some(category) ==> session_line(record) == "["@ + level
                + "]["@ + category + "] "@ + record.message)
            &&& record.category is None ==> session_line(record) == "["@ + level + "] "@
                + record.message
        }),
{
    reveal_strlit("[");
    reveal_strlit("] ");
    reveal_strlit("][");
    assert("["@ =~= seq!['[']);
    assert("] "@ =~= seq![']', ' ']);
    assert("]["@ =~= seq![']', '[']);
    let level = record.level.name();
    if let Some(category) = record.category {
        assert(session_line(record) =~= "["@ + level + "]["@ + category + "] "@ + record.message);
    } else {
        assert(session_line(record) =~= "["@ + level + "] "@ + record.message);
    }
}

/// A record that comes from the service says what stands under `message`, or what the
/// whole says where nothing does.
pub proof fn law_records_are_read(timestamp: Seq<char>, payload: Json, body: Json)
    requires
        field_of(payload, "message"@) == Some(body) || (field_of(payload, "message"@) is None
            && body == payload),
    ensures
        log_record(timestamp, payload).timestamp == timestamp,
        field_of(body, "message"@) matches Some(Json::Text(text)) ==> log_record(
            timestamp,
            payload,
        ).message == text,
        !(field_of(body, "message"@) matches Some(Json::Text(_))) ==> log_record(
            timestamp,
            payload,
        ).message.len() == 0,
        field_of(body, "category"@) matches Some(Json::Text(text)) ==> log_record(
            timestamp,
            payload,
        ).category == Some(text),
        !(field_of(body, "category"@) matches Some(Json::Text(_))) ==> log_record(
            timestamp,
            payload,
        ).category is None,
        log_record(timestamp, payload).auxiliary == field_of(body, "auxiliary"@),
        field_of(body, "level"@) == Some(Json::Number(JsonNumber::Unsigned(0)))
            ==> log_record(timestamp, payload).level == LogLevel::Error,
        field_of(body, "level"@) == Some(Json::Number(JsonNumber::Unsigned(1)))
            ==> log_record(timestamp, payload).level == LogLevel::Info,
        field_of(body, "level"@) == Some(Json::Number(JsonNumber::Unsigned(2)))
            ==> log_record(timestamp, payload).level == LogLevel::Debug,
        field_of(body, "level"@) matches Some(Json::Number(JsonNumber::Unsigned(n))) ==> 2 < n
            <= u8::MAX ==> log_record(timestamp, payload).level == LogLevel::Info,
        !(field_of(body, "level"@) matches Some(Json::Number(_))) ==> log_record(
            timestamp,
            payload,
        ).level == LogLevel::Info,
{
}

/// A note says its level, what it is about and what it says; a text may stand beside it
/// under a key.
pub proof fn law_notes_say_what_they_are_given(
    level: LogLevel,
    category: Seq<char>,
    message: Seq<char>,
    key: Seq<char>,
    text: Seq<char>,
)
    ensures
        plain_note(level, category, message).level == level,
        plain_note(level, category, message).category == category,
        plain_note(level, category, message).message == message,
        plain_note(level, category, message).auxiliary is None,
        beside(key, text) matches Some(Json::Members(members)) && member_of(members, key) == Some(
            Json::Text(text),
        ) && members.len() == 1,
{
    broadcast use lemma_put;

}

} // verus!

//! Log records: which are kept, what they hold and how they are written.
use crate::config::{StagehandConfig, Verbosity};
use crate::json::{
    field_of, signed_in, text_of, with_member, write_json, written_json, Json, JsonObject,
    JsonValue, Members,
};
use crate::text::opt_view;
use crate::types::a11y::opt_json;
use vstd::prelude::*;
use vstd::string::*;

verus! {

/// How severe a record is.
#[derive(Clone, Copy, Debug, PartialEq, Eq, Structural)]
pub enum LogLevel {
    Error,
    Info,
    Debug,
}

impl LogLevel {
    /// The number of a level.
    pub open spec fn number(self) -> u8 {
        match self {
            LogLevel::Error => 0,
            LogLevel::Info => 1,
            LogLevel::Debug => 2,
        }
    }

    /// Gives the number of a level.
    pub fn as_u8(self) -> (out: u8)
        ensures
            out == self.number(),
    {
        match self {
            LogLevel::Error => 0,
            LogLevel::Info => 1,
            LogLevel::Debug => 2,
        }
    }

    /// The name of a level.
    pub open spec fn name(self) -> Seq<char> {
        match self {
            LogLevel::Error => "ERROR"@,
            LogLevel::Info => "INFO"@,
            LogLevel::Debug => "DEBUG"@,
        }
    }

    /// Gives the name of a level.
    pub fn label(self) -> (out: &'static str)
        ensures
            out@ == self.name(),
    {
        match self {
            LogLevel::Error => "ERROR",
            LogLevel::Info => "INFO",
            LogLevel::Debug => "DEBUG",
        }
    }
}

/// The level with a number; any other number stands for information.
pub open spec fn level_numbered(value: u8) -> LogLevel {
    if value == 0 {
        LogLevel::Error
    } else if value == 2 {
        LogLevel::Debug
    } else {
        LogLevel::Info
    }
}

impl From<u8> for LogLevel {
    fn from(value: u8) -> (out: Self) {
        match value {
            0 => LogLevel::Error,
            2 => LogLevel::Debug,
            _ => LogLevel::Info,
        }
    }
}

impl vstd::std_specs::convert::FromSpecImpl<u8> for LogLevel {
    open spec fn obeys_from_spec() -> bool {
        true
    }

    open spec fn from_spec(value: u8) -> Self {
        level_numbered(value)
    }
}

impl From<i64> for LogLevel {
    fn from(value: i64) -> (out: Self) {
        LogLevel::from(
            #[verifier::truncate]
            (value as u8),
        )
    }
}

impl vstd::std_specs::convert::FromSpecImpl<i64> for LogLevel {
    open spec fn obeys_from_spec() -> bool {
        true
    }

    open spec fn from_spec(value: i64) -> Self {
        level_numbered(value as u8)
    }
}

/// Gives the number up to which records are kept.
pub fn verbosity_to_u8(verbose: Verbosity) -> (out: u8)
    ensures
        out == verbose.number(),
{
    verbose.as_u8()
}

/// Which records are kept, and where they go.
#[derive(Clone, Debug, PartialEq, Eq)]
pub struct LogConfig {
    pub verbose: Verbosity,
    pub use_rich: bool,
    pub env: String,
    pub external_logger: bool,
    pub quiet_dependencies: bool,
}

impl Default for LogConfig {
    fn default() -> (out: Self)
        ensures
            out.verbose == Verbosity::Medium,
            out.use_rich,
            out.env@ == "LOCAL"@,
            !out.external_logger,
            out.quiet_dependencies,
    {
        LogConfig {
            verbose: Verbosity::Medium,
            use_rich: true,
            env: "LOCAL".to_owned(),
            external_logger: false,
            quiet_dependencies: true,
        }
    }
}

/// Whether a record of a level is kept: errors always are.
pub open spec fn is_logged(verbose: Verbosity, level: LogLevel) -> bool {
    level == LogLevel::Error || level.number() <= verbose.number()
}

impl LogConfig {
    /// The default with the given verbosity.
    pub fn new(verbose: Verbosity) -> (out: Self)
        ensures
            out.verbose == verbose,
            out.use_rich,
            out.env@ == "LOCAL"@,
            !out.external_logger,
            out.quiet_dependencies,
    {
        let mut config = LogConfig::default();
        config.verbose = verbose;
        config
    }

    /// What is logged under a configuration, and where it goes.
    pub fn for_session(config: &StagehandConfig, external_logger: bool) -> (out: Self)
        ensures
            out.verbose == config@.verbose,
            out.use_rich == config@.use_rich_logging,
            out.env@ == config@.env.name(),
            out.external_logger == external_logger,
            out.quiet_dependencies,
    {
        let mut log = LogConfig::new(config.verbose);
        log.use_rich = config.use_rich_logging;
        log.env = config.env.as_str().to_owned();
        log.external_logger = external_logger;
        log
    }

    /// Says whether a record of a level is kept.
    pub fn should_log(&self, level: LogLevel) -> (out: bool)
        ensures
            out == is_logged(self.verbose, level),
    {
        level == LogLevel::Error || level.as_u8() <= verbosity_to_u8(self.verbose)
    }
}

/// A log record. The time is given as text.
#[derive(Clone, Debug, PartialEq)]
pub struct StagehandLogRecord {
    pub timestamp: String,
    pub message: String,
    pub level: LogLevel,
    pub category: Option<String>,
    pub auxiliary: Option<JsonValue>,
}

/// What a log record stands for.
pub struct Record {
    pub timestamp: Seq<char>,
    pub message: Seq<char>,
    pub level: LogLevel,
    pub category: Option<Seq<char>>,
    pub auxiliary: Option<Json>,
}

impl View for StagehandLogRecord {
    type V = Record;

    open spec fn view(&self) -> Record {
        Record {
            timestamp: self.timestamp@,
            message: self.message@,
            level: self.level,
            category: opt_view(self.category),
            auxiliary: opt_json(self.auxiliary),
        }
    }
}

impl StagehandLogRecord {
    /// A record made at the given time.
    pub fn new(
        timestamp: &str,
        message: &str,
        level: LogLevel,
        category: Option<String>,
        auxiliary: Option<JsonValue>,
    ) -> (out: Self)
        ensures
            out@ == (Record {
                timestamp: timestamp@,
                message: message@,
                level,
                category: opt_view(category),
                auxiliary: opt_json(auxiliary),
            }),
    {
        StagehandLogRecord {
            timestamp: timestamp.to_owned(),
            message: message.to_owned(),
            level,
            category,
            auxiliary,
        }
    }
}

/// Something to be logged.
#[derive(Debug, PartialEq)]
pub struct Note {
    pub level: LogLevel,
    pub message: String,
    pub category: String,
    pub auxiliary: Option<JsonValue>,
}

/// What a note stands for.
pub struct NoteModel {
    pub level: LogLevel,
    pub message: Seq<char>,
    pub category: Seq<char>,
    pub auxiliary: Option<Json>,
}

impl View for Note {
    type V = NoteModel;

    open spec fn view(&self) -> NoteModel {
        NoteModel {
            level: self.level,
            message: self.message@,
            category: self.category@,
            auxiliary: opt_json(self.auxiliary),
        }
    }
}

/// The models of a list of notes.
pub open spec fn note_models(notes: Seq<Note>) -> Seq<NoteModel> {
    notes.map_values(|note: Note| note@)
}

/// A note with nothing beside its message.
pub open spec fn plain_note(level: LogLevel, category: Seq<char>, message: Seq<char>) -> NoteModel {
    NoteModel { level, message, category, auxiliary: None }
}

/// What stands beside the message of a note: one text under a key.
pub open spec fn beside(key: Seq<char>, text: Seq<char>) -> Option<Json> {
    Some(Json::Members(with_member(Members::empty(), key, Json::Text(text))))
}

/// Makes what stands beside the message of a note: one text under a key.
pub fn put_beside(key: &str, text: &str) -> (out: Option<JsonValue>)
    ensures
        opt_json(out) == beside(key@, text@),
{
    let mut object = JsonObject::new();
    object.insert(key, JsonValue::text(text));
    Some(JsonValue::object(object))
}

/// Adds a note with nothing beside its message.
pub fn note_plain(notes: &mut Vec<Note>, level: LogLevel, category: &str, message: String)
    ensures
        note_models(final(notes)@) == note_models(old(notes)@).push(
            plain_note(level, category@, message@),
        ),
{
    let ghost before = note_models(notes@);
    let note = Note { level, message, category: category.to_owned(), auxiliary: None };
    let ghost added = note@;
    notes.push(note);
    assert(note_models(notes@) =~= before.push(added));
}

/// The name of a level, filled up to five characters.
pub open spec fn padded_name(level: LogLevel) -> Seq<char> {
    match level {
        LogLevel::Error => "ERROR"@,
        LogLevel::Info => "INFO "@,
        LogLevel::Debug => "DEBUG"@,
    }
}

/// The category of a record in square brackets, with `behind` after it; nothing
/// where it has none.
pub open spec fn bracketed(category: Option<Seq<char>>, behind: Seq<char>) -> Seq<char> {
    match category {
        Some(category) => seq!['['] + category + seq![']'] + behind,
        None => seq![],
    }
}

/// The lines of a record on the console: one for the record and one for what goes
/// with it, unless that is null.
pub open spec fn console_lines(record: Record) -> Seq<Seq<char>> {
    let line = seq!['['] + record.timestamp + "] "@ + padded_name(record.level) + seq![' ']
        + bracketed(record.category, seq![' ']) + record.message;
    match record.auxiliary {
        Some(value) if value != Json::Null => seq![line, "    "@ + written_json(value)],
        _ => seq![line],
    }
}

/// Writes a record for the console.
pub fn default_log_handler(record: &StagehandLogRecord) -> (out: Vec<String>)
    ensures
        crate::text::views(out@) == console_lines(record@),
{
    let mut line = String::new();
    line.push('[');
    line.append(record.timestamp.as_str());
    line.append("] ");
    line.append(
        match record.level {
            LogLevel::Error => "ERROR",
            LogLevel::Info => "INFO ",
            LogLevel::Debug => "DEBUG",
        },
    );
    line.push(' ');
    let ghost head = line@;
    if let Some(category) = &record.category {
        line.push('[');
        line.append(category.as_str());
        line.push(']');
        line.push(' ');
    }
    assert(line@ =~= head + bracketed(record@.category, seq![' ']));
    line.append(record.message.as_str());
    assert(line@ =~= console_lines(record@)[0]);
    let mut out: Vec<String> = Vec::new();
    out.push(line);
    if let Some(value) = &record.auxiliary {
        if !value.is_null() {
            let mut extra = "    ".to_owned();
            extra.append(write_json(value).as_str());
            out.push(extra);
        }
    }
    assert(crate::text::views(out@) =~= console_lines(record@));
    out
}

/// The line of a record for a logger of the session.
pub open spec fn session_line(record: Record) -> Seq<char> {
    seq!['['] + record.level.name() + seq![']'] + bracketed(record.category, seq![]) + seq![' ']
        + record.message
}

/// Writes a record for a logger of the session.
pub fn external_log_line(record: &StagehandLogRecord) -> (out: String)
    ensures
        out@ == session_line(record@),
{
    let mut line = String::new();
    line.push('[');
    line.append(record.level.label());
    line.push(']');
    let ghost head = line@;
    if let Some(category) = &record.category {
        line.push('[');
        line.append(category.as_str());
        line.push(']');
    }
    assert(line@ =~= head + bracketed(record@.category, seq![]));
    line.push(' ');
    line.append(record.message.as_str());
    assert(line@ =~= session_line(record@));
    line
}

/// A logger: it says which records are made and where they go.
#[derive(Clone, Debug, PartialEq, Eq)]
pub struct StagehandLogger {
    config: LogConfig,
}

/// Where a record goes.
#[derive(Clone, Copy, Debug, PartialEq, Eq, Structural)]
pub enum LogTarget {
    External,
    Console,
}

impl StagehandLogger {
    /// The configuration of the logger.
    pub closed spec fn settings(&self) -> LogConfig {
        self.config
    }

    /// A logger with the given configuration.
    pub fn with_config(config: LogConfig) -> (out: Self)
        ensures
            out.settings() == config,
    {
        StagehandLogger { config }
    }

    /// A logger with the given verbosity.
    pub fn new(verbose: Verbosity) -> (out: Self)
        ensures
            out.settings().verbose == verbose,
            !out.settings().external_logger,
    {
        StagehandLogger::with_config(LogConfig::new(verbose))
    }

    /// The configuration of the logger.
    pub fn config(&self) -> (out: &LogConfig)
        ensures
            *out == self.settings(),
    {
        &self.config
    }

    /// Changes how much is logged.
    pub fn set_verbose(&mut self, verbose: Verbosity)
        ensures
            final(self).settings() == (LogConfig { verbose, ..old(self).settings() }),
    {
        self.config.verbose = verbose;
    }

    /// Says whether records go to a logger of the session.
    pub fn set_external_logger(&mut self, external_logger: bool)
        ensures
            final(self).settings() == (LogConfig { external_logger, ..old(self).settings() }),
    {
        self.config.external_logger = external_logger;
    }

    /// Where records go: to a logger of the session where there is one.
    pub fn target(&self) -> (out: LogTarget)
        ensures
            out == (if self.settings().external_logger {
                LogTarget::External
            } else {
                LogTarget::Console
            }),
    {
        if self.config.external_logger {
            LogTarget::External
        } else {
            LogTarget::Console
        }
    }

    /// Makes a record, where one of its level is kept.
    pub fn log(
        &self,
        timestamp: &str,
        message: &str,
        level: LogLevel,
        category: Option<&str>,
        auxiliary: Option<JsonValue>,
    ) -> (out: Option<StagehandLogRecord>)
        ensures
            out is Some <==> is_logged(self.settings().verbose, level),
            out matches Some(record) ==> record@ == (Record {
                timestamp: timestamp@,
                message: message@,
                level,
                category: str_view(category),
                auxiliary: opt_json(auxiliary),
            }),
    {
        if !self.config.should_log(level) {
            return None;
        }
        let category = match category {
            Some(category) => Some(category.to_owned()),
            None => None,
        };
        Some(StagehandLogRecord::new(timestamp, message, level, category, auxiliary))
    }

    /// Makes a record of a note, where one of its level is kept.
    pub fn keep(&self, timestamp: &str, note: Note) -> (out: Option<StagehandLogRecord>)
        ensures
            out is Some <==> is_logged(self.settings().verbose, note@.level),
            out matches Some(record) ==> record@ == (Record {
                timestamp: timestamp@,
                message: note@.message,
                level: note@.level,
                category: Some(note@.category),
                auxiliary: note@.auxiliary,
            }),
    {
        self.log(
            timestamp,
            note.message.as_str(),
            note.level,
            Some(note.category.as_str()),
            note.auxiliary,
        )
    }

    /// Makes an error record.
    pub fn error(
        &self,
        timestamp: &str,
        message: &str,
        category: Option<&str>,
        auxiliary: Option<JsonValue>,
    ) -> (out: Option<StagehandLogRecord>)
        ensures
            out matches Some(record) && record@ == (Record {
                timestamp: timestamp@,
                message: message@,
                level: LogLevel::Error,
                category: str_view(category),
                auxiliary: opt_json(auxiliary),
            }),
    {
        self.log(timestamp, message, LogLevel::Error, category, auxiliary)
    }

    /// Makes an information record, where such records are kept.
    pub fn info(
        &self,
        timestamp: &str,
        message: &str,
        category: Option<&str>,
        auxiliary: Option<JsonValue>,
    ) -> (out: Option<StagehandLogRecord>)
        ensures
            out is Some <==> self.settings().verbose.number() >= 1,
            out matches Some(record) ==> record@ == (Record {
                timestamp: timestamp@,
                message: message@,
                level: LogLevel::Info,
                category: str_view(category),
                auxiliary: opt_json(auxiliary),
            }),
    {
        self.log(timestamp, message, LogLevel::Info, category, auxiliary)
    }

    /// Makes a debug record, where such records are kept.
    pub fn debug(
        &self,
        timestamp: &str,
        message: &str,
        category: Option<&str>,
        auxiliary: Option<JsonValue>,
    ) -> (out: Option<StagehandLogRecord>)
        ensures
            out is Some <==> self.settings().verbose.number() >= 2,
            out matches Some(record) ==> record@ == (Record {
                timestamp: timestamp@,
                message: message@,
                level: LogLevel::Debug,
                category: str_view(category),
                auxiliary: opt_json(auxiliary),
            }),
    {
        self.log(timestamp, message, LogLevel::Debug, category, auxiliary)
    }
}

/// The characters of a string slice that may be absent.
pub open spec fn str_view(text: Option<&str>) -> Option<Seq<char>> {
    match text {
        Some(text) => Some(text@),
        None => None,
    }
}

/// The part of a log message of the service that describes the record.
pub open spec fn log_body(payload: Json) -> Json {
    match field_of(payload, "message"@) {
        Some(body) => body,
        None => payload,
    }
}

/// The level that a log message of the service gives; information where it gives
/// none.
pub open spec fn log_level(body: Json) -> LogLevel {
    match field_of(body, "level"@) {
        Some(value) => match signed_in(value) {
            Some(n) => level_numbered(n as u8),
            None => LogLevel::Info,
        },
        None => LogLevel::Info,
    }
}

/// The text under a key that may be absent.
pub open spec fn text_under(value: Json, key: Seq<char>) -> Option<Seq<char>> {
    match field_of(value, key) {
        Some(found) => text_of(found),
        None => None,
    }
}

/// The record that a log message of the service describes.
pub open spec fn log_record(timestamp: Seq<char>, payload: Json) -> Record {
    let body = log_body(payload);
    Record {
        timestamp,
        message: match text_under(body, "message"@) {
            Some(message) => message,
            None => seq![],
        },
        level: log_level(body),
        category: text_under(body, "category"@),
        auxiliary: field_of(body, "auxiliary"@),
    }
}

/// Reads the text under a key.
pub fn read_text(value: &JsonValue, key: &str) -> (out: Option<String>)
    ensures
        opt_view(out) == text_under(value@, key@),
{
    match value.get(key) {
        Some(found) => match found.as_str() {
            Some(text) => Some(text.clone()),
            None => None,
        },
        None => None,
    }
}

/// Makes the record that a log message of the service describes, where one of its
/// level is kept.
pub fn sync_log_handler(timestamp: &str, payload: &JsonValue, logger: &StagehandLogger) -> (out:
    Option<StagehandLogRecord>)
    ensures
        out is Some <==> is_logged(
            logger.settings().verbose,
            log_record(timestamp@, payload@).level,
        ),
        out matches Some(record) ==> record@ == log_record(timestamp@, payload@),
{
    let body = match payload.get("message") {
        Some(body) => body,
        None => payload,
    };
    let level = match body.get("level") {
        Some(value) => match value.as_i64() {
            Some(n) => LogLevel::from(n),
            None => LogLevel::Info,
        },
        None => LogLevel::Info,
    };
    let message = match read_text(body, "message") {
        Some(message) => message,
        None => {
            let empty = String::new();
            assert(empty@ =~= Seq::<char>::empty());
            empty
        },
    };
    let category = read_text(body, "category");
    let auxiliary = match body.get("auxiliary") {
        Some(value) => Some(value.copy()),
        None => None,
    };
    match &category {
        Some(category) => logger.log(
            timestamp,
            message.as_str(),
            level,
            Some(category.as_str()),
            auxiliary,
        ),
        None => logger.log(timestamp, message.as_str(), level, None, auxiliary),
    }
}

/// Errors are always kept, and a higher verbosity keeps all that a lower one does.
pub proof fn law_verbosity_keeps_more(low: Verbosity, high: Verbosity, level: LogLevel)
    requires
        low.number() <= high.number(),
    ensures
        is_logged(low, LogLevel::Error),
        is_logged(low, level) ==> is_logged(high, level),
        is_logged(Verbosity::Detailed, level),
{
}

/// A level is found again by its number.
pub proof fn law_level_numbers(level: LogLevel)
    ensures
        level_numbered(level.number()) == level,
{
}

} // verus!

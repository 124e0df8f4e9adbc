use stagehand::config::{Environment, StagehandConfig, Verbosity};
use stagehand::json::JsonValue;
use stagehand::logging::{
    default_log_handler, external_log_line, put_beside, sync_log_handler, verbosity_to_u8,
    LogConfig, LogLevel, LogTarget, Note, StagehandLogRecord, StagehandLogger,
};

#[test]
fn respects_verbosity() {
    let logger = StagehandLogger::new(Verbosity::Minimal);
    assert!(logger.config().should_log(LogLevel::Error));
    assert!(!logger.config().should_log(LogLevel::Debug));
}

#[test]
fn external_logger_is_invoked() {
    let mut config = LogConfig::default();
    config.verbose = Verbosity::Detailed;
    config.external_logger = true;
    let logger = StagehandLogger::with_config(config);
    assert_eq!(logger.target(), LogTarget::External);

    let values: Vec<StagehandLogRecord> =
        logger.info("now", "hello", Some("test"), None).into_iter().collect();
    assert_eq!(values.len(), 1);
    assert_eq!(values[0].message, "hello");
    assert_eq!(values[0].category.as_deref(), Some("test"));
    assert_eq!(values[0].level, LogLevel::Info);
}

#[test]
fn sync_log_handler_parses_payload() {
    let mut logger = StagehandLogger::new(Verbosity::Detailed);
    logger.set_external_logger(true);

    let payload = JsonValue::parse(
        r#"{
            "message": {
                "message": "Act completed",
                "level": 1,
                "category": "action",
                "auxiliary": { "success": true }
            }
        }"#,
    )
    .unwrap();

    let values: Vec<StagehandLogRecord> =
        sync_log_handler("now", &payload, &logger).into_iter().collect();
    assert_eq!(values.len(), 1);
    assert_eq!(values[0].message, "Act completed");
    assert_eq!(values[0].category.as_deref(), Some("action"));
    assert_eq!(values[0].level, LogLevel::Info);
    assert_eq!(
        values[0].auxiliary.as_ref().unwrap(),
        &JsonValue::parse(r#"{ "success": true }"#).unwrap()
    );
}

#[test]
fn levels_and_verbosity() {
    for (number, level) in [(0u8, LogLevel::Error), (1, LogLevel::Info), (2, LogLevel::Debug)] {
        assert_eq!(level.as_u8(), number);
        assert_eq!(LogLevel::from(number), level);
        assert_eq!(LogLevel::from(number as i64), level);
    }
    assert_eq!(LogLevel::Error.label(), "ERROR");
    assert_eq!(verbosity_to_u8(Verbosity::Detailed), 2);
    let quiet = StagehandLogger::new(Verbosity::Minimal);
    assert!(quiet.error("t", "m", None, None).is_some());
    assert!(quiet.info("t", "m", None, None).is_none());
    let mut logger = StagehandLogger::new(Verbosity::Medium);
    assert!(logger.info("t", "m", None, None).is_some());
    assert!(logger.debug("t", "m", None, None).is_none());
    logger.set_verbose(Verbosity::Detailed);
    assert!(logger.debug("t", "m", None, None).is_some());
    assert_eq!(logger.target(), LogTarget::Console);
}

#[test]
fn payload_without_details_gets_defaults() {
    let logger = StagehandLogger::new(Verbosity::Medium);
    let record = sync_log_handler("t", &JsonValue::null(), &logger).unwrap();
    assert_eq!(record.message, "");
    assert_eq!(record.level, LogLevel::Info);
    assert!(record.category.is_none() && record.auxiliary.is_none());
    let debug = JsonValue::parse(r#"{"message": {"level": 2, "message": "m"}}"#).unwrap();
    assert!(sync_log_handler("t", &debug, &logger).is_none());
}

#[test]
fn console_lines() {
    let logger = StagehandLogger::new(Verbosity::Detailed);
    let aux = JsonValue::parse(r#"{ "b": 2, "a": [1] }"#).unwrap();
    let record = logger.info("12:00", "done", Some("act"), Some(aux)).unwrap();
    assert_eq!(
        default_log_handler(&record),
        vec!["[12:00] INFO  [act] done".to_string(), r#"    {"a":[1],"b":2}"#.to_string()]
    );
    let record = logger.error("12:01", "bad", None, Some(JsonValue::null())).unwrap();
    assert_eq!(default_log_handler(&record), vec!["[12:01] ERROR bad".to_string()]);
}

#[test]
fn session_logger_lines() {
    let logger = StagehandLogger::new(Verbosity::Detailed);
    let record = logger.debug("t", "m", Some("c"), None).unwrap();
    assert_eq!(external_log_line(&record), "[DEBUG][c] m");
    let record = logger.info("t", "m", None, None).unwrap();
    assert_eq!(external_log_line(&record), "[INFO] m");
}

#[test]
fn session_configuration() {
    let mut config = StagehandConfig::default();
    config.env = Environment::Local;
    config.use_rich_logging = false;
    config.verbose = Verbosity::Minimal;
    let log = LogConfig::for_session(&config, true);
    assert_eq!(log.env, "LOCAL");
    assert!(!log.use_rich && log.external_logger && log.quiet_dependencies);
    assert_eq!(log.verbose, Verbosity::Minimal);
}

#[test]
fn notes_become_records() {
    let note = |level| Note {
        level,
        message: "m".to_string(),
        category: "c".to_string(),
        auxiliary: put_beside("url", "https://x"),
    };
    let logger = StagehandLogger::new(Verbosity::Minimal);
    assert_eq!(logger.keep("now", note(LogLevel::Debug)), None);
    let record = logger.keep("now", note(LogLevel::Error)).unwrap();
    assert_eq!(record.timestamp, "now");
    assert_eq!(record.message, "m");
    assert_eq!(record.level, LogLevel::Error);
    assert_eq!(record.category.as_deref(), Some("c"));
    assert_eq!(record.auxiliary, JsonValue::parse(r#"{"url": "https://x"}"#).ok());
}

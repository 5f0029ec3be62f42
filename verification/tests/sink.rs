use kafka_logger::{init, shutdown};
use kafka_logger::{
    Delivery, FlushError, InitError, Level, LevelFilter, Logger, ProducerHandle, Publication, Registry,
};

use rdkafka::error::KafkaError;

const LEVELS: [Level; 5] = [Level::Error, Level::Warn, Level::Info, Level::Debug, Level::Trace];

fn sink(filter: LevelFilter, topic: &str) -> Logger {
    Logger::init("localhost:9093", filter, topic).unwrap()
}

#[test]
fn test_env_init() {
    let mut registry = Registry::new();
    let filter = LevelFilter::from_setting(None);
    assert_eq!(init(&mut registry, "localhost", filter, "logging"), Ok(()));
    assert_eq!(shutdown(&registry), Ok(()));
}

#[test]
fn init_installs_the_sink_it_was_asked_for() {
    let mut registry = Registry::new();
    assert!(!registry.is_installed());
    assert!(registry.sink().is_none());
    assert_eq!(registry.max_level(), LevelFilter::Off);

    assert_eq!(init(&mut registry, "localhost:9093", LevelFilter::Debug, "logging"), Ok(()));
    assert!(registry.is_installed());
    assert_eq!(registry.max_level(), LevelFilter::Debug);
    let installed = registry.sink().unwrap();
    assert_eq!(installed.filter(), LevelFilter::Debug);
    assert_eq!(installed.topic(), "logging");
}

#[test]
fn second_init_fails_with_already_initialized() {
    let mut registry = Registry::new();
    assert_eq!(init(&mut registry, "localhost:9093", LevelFilter::Info, "logging"), Ok(()));
    assert_eq!(
        init(&mut registry, "localhost:9093", LevelFilter::Trace, "other"),
        Err(InitError::AlreadyInitialized)
    );
    assert_eq!(registry.max_level(), LevelFilter::Info);
    assert_eq!(registry.sink().unwrap().topic(), "logging");
}

#[test]
fn install_keeps_the_first_sink() {
    let mut registry = Registry::new();
    assert_eq!(registry.install(sink(LevelFilter::Warn, "first")), Ok(()));
    assert_eq!(registry.install(sink(LevelFilter::Trace, "second")), Err(InitError::AlreadyInitialized));
    assert_eq!(registry.sink().unwrap().topic(), "first");
    assert_eq!(registry.sink().unwrap().filter(), LevelFilter::Warn);
}

#[test]
fn init_fails_where_the_client_cannot_be_constructed() {
    let mut registry = Registry::new();
    assert_eq!(
        init(&mut registry, "local\0host:9093", LevelFilter::Info, "logging"),
        Err(InitError::ProducerCreationFailed)
    );
    assert!(!registry.is_installed());
    assert_eq!(registry.max_level(), LevelFilter::Off);
    assert!(matches!(
        Logger::init("\0", LevelFilter::Info, "logging"),
        Err(InitError::ProducerCreationFailed)
    ));
    assert!(matches!(ProducerHandle::connect("a\0"), Err(InitError::ProducerCreationFailed)));
}

#[test]
fn failed_init_on_an_installed_registry_changes_nothing() {
    let mut registry = Registry::new();
    assert_eq!(init(&mut registry, "localhost:9093", LevelFilter::Error, "logging"), Ok(()));
    assert_eq!(
        init(&mut registry, "bad\0address", LevelFilter::Trace, "other"),
        Err(InitError::ProducerCreationFailed)
    );
    assert_eq!(registry.max_level(), LevelFilter::Error);
    assert_eq!(registry.sink().unwrap().topic(), "logging");
}

#[test]
fn new_sink_on_a_connected_handle() {
    let handle = ProducerHandle::connect("localhost:9093").unwrap();
    let made = Logger::new(handle, LevelFilter::Trace, "audit");
    assert_eq!(made.filter(), LevelFilter::Trace);
    assert_eq!(made.topic(), "audit");
}

#[test]
fn enabled_at_or_above_the_threshold() {
    let info = sink(LevelFilter::Info, "logging");
    assert!(info.enabled(Level::Error, "app"));
    assert!(info.enabled(Level::Warn, "app"));
    assert!(info.enabled(Level::Info, "app"));
    assert!(!info.enabled(Level::Debug, "app"));
    assert!(!info.enabled(Level::Trace, "app"));
}

#[test]
fn enabled_is_false_below_the_threshold_for_every_threshold() {
    let filters = [
        LevelFilter::Off,
        LevelFilter::Error,
        LevelFilter::Warn,
        LevelFilter::Info,
        LevelFilter::Debug,
        LevelFilter::Trace,
    ];
    for filter in filters {
        let made = sink(filter, "logging");
        for level in LEVELS {
            let expected = level.severity() <= filter.severity();
            assert_eq!(made.enabled(level, "app.billing"), expected);
            assert_eq!(made.enabled(level, ""), expected);
            assert!(!made.enabled(level, "rdkafka::client"));
        }
    }
}

#[test]
fn enabled_is_false_inside_the_suppressed_namespace() {
    let trace = sink(LevelFilter::Trace, "logging");
    for level in LEVELS {
        assert!(!trace.enabled(level, "rdkafka"));
        assert!(!trace.enabled(level, "rdkafka::internal"));
        assert!(!trace.enabled(level, "rdkafka_sys"));
        assert!(trace.enabled(level, "rdkafk"));
        assert!(trace.enabled(level, "my::rdkafka"));
        assert!(trace.enabled(level, "Rdkafka"));
        assert!(trace.enabled(level, " rdkafka"));
        assert!(trace.enabled(level, "librdkafka"));
    }
}

#[test]
fn warn_record_is_published_to_the_topic() {
    let mut registry = Registry::new();
    assert_eq!(init(&mut registry, "localhost:9093", LevelFilter::Info, "logging"), Ok(()));
    let installed = registry.sink().unwrap();
    assert_eq!(installed.topic(), "logging");
    assert_eq!(
        installed.publication_for(Level::Warn, "app.billing", "charge failed"),
        Some(Publication {
            topic: "logging",
            payload: r#"{"level":"WARN","target":"app.billing","message":"charge failed"}"#.to_string(),
        })
    );
    assert_eq!(installed.log(Level::Warn, "app.billing", "charge failed"), Delivery::Enqueued);
}

#[test]
fn debug_record_below_info_is_not_published() {
    let info = sink(LevelFilter::Info, "logging");
    assert_eq!(info.publication_for(Level::Debug, "app.billing", "retrying"), None);
    assert_eq!(info.log(Level::Debug, "app.billing", "retrying"), Delivery::Suppressed);
}

#[test]
fn record_of_the_client_is_not_published() {
    let filters = [LevelFilter::Info, LevelFilter::Trace, LevelFilter::Error, LevelFilter::Off];
    for filter in filters {
        let made = sink(filter, "logging");
        assert_eq!(made.publication_for(Level::Info, "rdkafka::internal", "connected"), None);
        assert_eq!(made.log(Level::Info, "rdkafka::internal", "connected"), Delivery::Suppressed);
        assert_eq!(made.log(Level::Error, "rdkafka::internal", "connected"), Delivery::Suppressed);
    }
}

#[test]
fn flush_with_nothing_pending_returns_at_once() {
    let made = sink(LevelFilter::Info, "logging");
    assert_eq!(made.flush(), Ok(()));
}

#[test]
fn flush_twice_in_succession_gives_no_error() {
    let mut registry = Registry::new();
    assert_eq!(init(&mut registry, "localhost:9093", LevelFilter::Info, "logging"), Ok(()));
    assert_eq!(shutdown(&registry), Ok(()));
    assert_eq!(shutdown(&registry), Ok(()));
    assert_eq!(registry.sink().unwrap().flush(), Ok(()));
}

#[test]
fn shutdown_of_an_empty_registry_is_ok() {
    let registry = Registry::new();
    assert_eq!(shutdown(&registry), Ok(()));
    assert_eq!(shutdown(&registry), Ok(()));
}

#[test]
fn flush_times_out_while_the_broker_is_away() {
    let made = Logger::init("127.0.0.1:1", LevelFilter::Info, "logging").unwrap();
    assert_eq!(made.log(Level::Error, "app", "lost"), Delivery::Enqueued);
    assert_eq!(made.flush(), Err(FlushError::TimedOut));
}

#[test]
fn record_for_a_topic_with_nul_is_dropped() {
    let made = sink(LevelFilter::Info, "log\0ging");
    assert_eq!(made.topic(), "log\0ging");
    assert!(made.enabled(Level::Error, "app"));
    assert_eq!(made.log(Level::Error, "app", "lost"), Delivery::Dropped);
    assert_eq!(made.log(Level::Trace, "app", "chatter"), Delivery::Suppressed);
    assert_eq!(made.flush(), Ok(()));
}

#[test]
fn publication_carries_the_topic_and_the_rendered_record() {
    let trace = sink(LevelFilter::Trace, "audit.log");
    assert_eq!(
        trace.publication_for(Level::Trace, "a\"b", "line one\nline two"),
        Some(Publication {
            topic: "audit.log",
            payload: r#"{"level":"TRACE","target":"a\"b","message":"line one\nline two"}"#.to_string(),
        })
    );
    assert_eq!(
        trace.publication_for(Level::Error, "", ""),
        Some(Publication {
            topic: "audit.log",
            payload: r#"{"level":"ERROR","target":"","message":""}"#.to_string(),
        })
    );
}

#[test]
fn flush_bound_is_two_seconds() {
    assert_eq!(Logger::flush_bound(), 2);
}

#[test]
fn servers_with_leading_white_space_are_accepted() {
    let made = Logger::init(" \tlocalhost:9093", LevelFilter::Info, "logging");
    assert!(made.is_ok());
    assert_eq!(made.unwrap().flush(), Ok(()));
}

#[test]
fn records_of_one_thread_are_all_taken() {
    let made = sink(LevelFilter::Info, "logging");
    for index in 0..100 {
        assert_eq!(made.log(Level::Info, "app", &format!("record {}", index)), Delivery::Enqueued);
    }
}

#[test]
fn delivery_follows_the_answer_of_the_client() {
    assert_eq!(Delivery::of(Ok(())), Delivery::Enqueued);
    assert_eq!(Delivery::of(Err(KafkaError::Canceled)), Delivery::Dropped);
    assert_eq!(Delivery::of(Err(KafkaError::NoMessageReceived)), Delivery::Dropped);
}

#[test]
fn flush_result_follows_the_answer_of_the_client() {
    assert_eq!(FlushError::check(Ok(())), Ok(()));
    assert_eq!(FlushError::check(Err(KafkaError::Canceled)), Err(FlushError::TimedOut));
}

#[test]
fn creation_result_follows_the_answer_of_the_client() {
    let refused = InitError::check(Err(KafkaError::ClientCreation("refused".to_string())));
    assert!(matches!(refused, Err(InitError::ProducerCreationFailed)));
    let handle = ProducerHandle::connect("localhost:9093");
    assert!(handle.is_ok());
    let kept = InitError::check(Ok(handle.unwrap()));
    assert!(kept.is_ok());
}

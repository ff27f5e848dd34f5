use udp_p2p::logger::{Level, LevelFilter, LogLine, Logger, Stream};

const LEVELS: [Level; 5] = [Level::Error, Level::Warn, Level::Info, Level::Debug, Level::Trace];

#[test]
fn a_record_passes_when_it_is_at_least_as_serious_as_the_filter() {
    let filters = [
        (LevelFilter::Off, 0),
        (LevelFilter::Error, 1),
        (LevelFilter::Warn, 2),
        (LevelFilter::Info, 3),
        (LevelFilter::Debug, 4),
        (LevelFilter::Trace, 5),
    ];
    for (filter, passing) in filters {
        let logger = Logger { level: filter };
        for (place, level) in LEVELS.iter().enumerate() {
            assert_eq!(logger.enabled(*level), place < passing, "{filter:?} {level:?}");
        }
    }
}

#[test]
fn levels_are_ranked_from_error_to_trace() {
    assert_eq!(LEVELS.map(|level| level.severity()), [1, 2, 3, 4, 5]);
    assert_eq!(LEVELS.map(|level| level.as_str()), ["ERROR", "WARN", "INFO", "DEBUG", "TRACE"]);
    assert_eq!(LevelFilter::Off.threshold(), 0);
    assert_eq!(LevelFilter::Trace.threshold(), 5);
}

#[test]
fn information_is_printed_as_it_is() {
    let logger = Logger { level: LevelFilter::Debug };
    assert_eq!(
        logger.log(Level::Info, "Your code is: Ab3d"),
        Some(LogLine { stream: Stream::Stdout, text: "Your code is: Ab3d".to_string() })
    );
}

#[test]
fn errors_go_to_the_error_stream() {
    let logger = Logger { level: LevelFilter::Debug };
    assert_eq!(
        logger.log(Level::Error, "no reply"),
        Some(LogLine { stream: Stream::Stderr, text: "ERROR: no reply".to_string() })
    );
}

#[test]
fn other_levels_are_printed_with_their_name() {
    let logger = Logger { level: LevelFilter::Trace };
    assert_eq!(
        logger.log(Level::Debug, "code: \"WXYZ\""),
        Some(LogLine { stream: Stream::Stdout, text: "[DEBUG] => code: \"WXYZ\"".to_string() })
    );
    assert_eq!(
        logger.log(Level::Warn, ""),
        Some(LogLine { stream: Stream::Stdout, text: "[WARN] => ".to_string() })
    );
    assert_eq!(
        logger.log(Level::Trace, "x"),
        Some(LogLine { stream: Stream::Stdout, text: "[TRACE] => x".to_string() })
    );
}

#[test]
fn filtered_records_make_no_line() {
    let logger = Logger { level: LevelFilter::Debug };
    assert_eq!(logger.log(Level::Trace, "x"), None);
    let logger = Logger { level: LevelFilter::Off };
    assert_eq!(logger.log(Level::Error, "x"), None);
}

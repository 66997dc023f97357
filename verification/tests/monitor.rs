use limon_core::monitor::collectors::{Http, Ping, Reply, Response, ResponseBody, Timings};
use limon_core::monitor::errors::{CollectorError, HttpError, PingError};
use limon_core::monitor::measure::Outcome;
use limon_core::monitor::models::{
    Config, Data, Header, HttpConfig, HttpData, Measurement, Monitor, PingConfig, PingData,
};
use limon_core::schedule::{Schedulable, Schedule};

fn timings() -> Timings {
    Timings {
        dns_lookup: 1_000,
        connect: 2_000,
        tls_handshake: 3_000,
        first_byte: 4_000,
        total: 10_000,
    }
}

#[test]
fn monitor_ping_is_schedulable() {
    let monitor = Monitor {
        id: 1,
        host: String::from("test"),
        config: Config::Ping(PingConfig {
            check_frequency: 10,
            ..Default::default()
        }),
    };

    assert_eq!(monitor.get_id(), 1, "monitor id is correct");
    assert_eq!(monitor.get_interval(), 10, "monitor interval is correct");
}

#[test]
fn monitor_http_is_schedulable() {
    let monitor = Monitor {
        id: 1,
        host: String::from("test"),
        config: Config::Http(HttpConfig {
            check_frequency: 10,
            ..Default::default()
        }),
    };

    assert_eq!(monitor.get_id(), 1, "monitor id is correct");
    assert_eq!(monitor.get_interval(), 10, "monitor interval is correct");
}

#[test]
fn default_configs_are_empty() {
    let ping = PingConfig::default();
    assert_eq!(
        (ping.check_frequency, ping.confirmation_period, ping.recovery_period, ping.timeout),
        (0, 0, 0, 0)
    );

    let http = HttpConfig::default();
    assert_eq!(
        (http.check_frequency, http.confirmation_period, http.recovery_period, http.timeout),
        (0, 0, 0, 0)
    );
    assert_eq!(http.method, "");
    assert_eq!(http.protocol, "");
    assert_eq!(http.port, None);
    assert_eq!(http.path, None);
    assert_eq!(http.body, None);
    assert_eq!(http.keyword, None);
    assert_eq!(http.expected_status_code, 0);
    assert!(!http.follow_redirects);
    assert!(!http.keep_cookies_on_redirects);
    assert!(http.header.is_none());
}

#[test]
fn monitors_are_scheduled_by_check_frequency() {
    let mut schedule: Schedule<Monitor> = Schedule::new();

    schedule.insert(Monitor {
        id: 1,
        host: String::from("a"),
        config: Config::Ping(PingConfig {
            check_frequency: 30,
            ..Default::default()
        }),
    });
    schedule.insert(Monitor {
        id: 2,
        host: String::from("b"),
        config: Config::Http(HttpConfig {
            check_frequency: 60,
            ..Default::default()
        }),
    });

    let mut due: Vec<i64> = schedule.get_due(0, 30).iter().map(|m| m.id).collect();
    due.sort();
    assert_eq!(due, vec![1]);

    let mut due: Vec<i64> = schedule.get_due(30, 60).iter().map(|m| m.id).collect();
    due.sort();
    assert_eq!(due, vec![1, 2]);
}

#[test]
fn measure_http_with_data() {
    let config = HttpConfig {
        timeout: 3,
        method: String::from("GET"),
        protocol: String::from("HTTP"),
        path: Some(String::from("/check")),
        header: Some(Header {
            name: String::from("Authorization"),
            value: String::from("token"),
        }),
        expected_status_code: 200,
        keyword: Some(String::from("index")),
        ..Default::default()
    };
    let response = Response {
        status: 200,
        body: ResponseBody(Vec::from("index".as_bytes())),
        timings: timings(),
    };
    let outcome = Outcome::Http(Http::measure(&config, &response));
    let monitor = Monitor {
        id: 1,
        host: String::from("127.0.0.1:8080"),
        config: Config::Http(config),
    };

    let result = monitor.measure(outcome);

    assert!(
        result.data.is_some() && result.error.is_none(),
        "monitor measurement has data"
    );
    assert_eq!(result.monitor_id, 1);
}

#[test]
fn measure_http_with_error() {
    let config = HttpConfig {
        timeout: 3,
        method: String::from("GET"),
        protocol: String::from("HTTP"),
        path: Some(String::from("/check")),
        expected_status_code: 200,
        ..Default::default()
    };
    let response = Response {
        status: 400,
        body: ResponseBody::default(),
        timings: timings(),
    };
    let outcome = Outcome::Http(Http::measure(&config, &response));
    let monitor = Monitor {
        id: 1,
        host: String::from("127.0.0.1:8080"),
        config: Config::Http(config),
    };

    let result = monitor.measure(outcome);

    assert!(
        result.data.is_none() && result.error.is_some(),
        "monitor measurement has error"
    );
    assert!(matches!(
        result.error,
        Some(CollectorError::Http(HttpError::StatusMismatch {
            expected: 200,
            actual: 400
        }))
    ));
}

#[test]
fn measure_ping_with_data() {
    let monitor = Monitor {
        id: 2,
        host: String::from("example.org"),
        config: Config::Ping(PingConfig {
            timeout: 5,
            ..Default::default()
        }),
    };

    let result = monitor.measure(Outcome::Ping(Ping::measure(
        1_500,
        Reply::Receive { rtt: 20_000 },
    )));

    assert_eq!(result.monitor_id, 2);
    assert!(result.error.is_none());
    match result.data {
        Some(Data::Ping(data)) => assert_eq!(
            data,
            PingData {
                dns_lookup: 1_500,
                ping: 20_000
            }
        ),
        _ => panic!("ping data expected"),
    }
}

#[test]
fn measure_ping_with_error_is_tagged_as_ping() {
    let monitor = Monitor {
        id: 2,
        host: String::from("example.org"),
        config: Config::Ping(PingConfig::default()),
    };

    let result = monitor.measure(Outcome::Ping(Err(PingError::Unreachable)));

    assert!(result.data.is_none());
    assert!(matches!(
        result.error,
        Some(CollectorError::Ping(PingError::Unreachable))
    ));
}

#[test]
fn record_keeps_timestamp_and_identifier() {
    let data = Data::Http(HttpData {
        dns_lookup: 1,
        connect: 2,
        tls_handshake: 3,
        data_transfer: 4,
    });

    let measurement = Measurement::record(1_700_000_000, 7, Outcome::Http(Ok(data)));

    assert_eq!(measurement.timestamp, 1_700_000_000);
    assert_eq!(measurement.monitor_id, 7);
    assert!(measurement.error.is_none());
    match measurement.data {
        Some(Data::Http(data)) => assert_eq!(
            data,
            HttpData {
                dns_lookup: 1,
                connect: 2,
                tls_handshake: 3,
                data_transfer: 4
            }
        ),
        _ => panic!("http data expected"),
    }
}

#[test]
fn every_outcome_gives_data_or_error_and_not_both() {
    let outcomes = vec![
        Outcome::Ping(Ping::measure(1, Reply::Receive { rtt: 2 })),
        Outcome::Ping(Ping::measure(
            1,
            Reply::Idle {
                addr: String::from("10.0.0.1"),
            },
        )),
        Outcome::Ping(Ping::measure(1, Reply::Lost)),
        Outcome::Ping(Ping::target(&Vec::new()).map(|_| Data::Ping(PingData::default()))),
        Outcome::Http(Ok(Data::Http(HttpData::default()))),
        Outcome::Http(Err(HttpError::KeywordNotFound {
            keyword: String::from("index"),
        })),
        Outcome::Http(Err(HttpError::from(curl::Error::new(7)))),
    ];

    for outcome in outcomes {
        let measurement = Measurement::record(0, 1, outcome);
        assert!(measurement.data.is_some() != measurement.error.is_some());
    }
}

#[test]
fn outcome_belongs_to_the_config_of_its_probe() {
    let ping = Config::Ping(PingConfig::default());
    let http = Config::Http(HttpConfig::default());

    assert!(Outcome::Ping(Err(PingError::Unreachable)).belongs_to(&ping));
    assert!(!Outcome::Ping(Err(PingError::Unreachable)).belongs_to(&http));
    assert!(Outcome::Http(Ok(Data::Http(HttpData::default()))).belongs_to(&http));
    assert!(!Outcome::Http(Ok(Data::Http(HttpData::default()))).belongs_to(&ping));
}

#[test]
fn measure_stamps_the_current_time() {
    let monitor = Monitor {
        id: 3,
        host: String::from("example.org"),
        config: Config::Ping(PingConfig::default()),
    };

    let result = monitor.measure(Outcome::Ping(Err(PingError::Unreachable)));

    assert!(result.timestamp > 1_600_000_000);
}

#[test]
fn errors_are_tagged_by_their_probe() {
    assert!(matches!(
        CollectorError::from(PingError::Unreachable),
        CollectorError::Ping(PingError::Unreachable)
    ));
    assert!(matches!(
        CollectorError::from(HttpError::StatusMismatch {
            expected: 200,
            actual: 500
        }),
        CollectorError::Http(HttpError::StatusMismatch {
            expected: 200,
            actual: 500
        })
    ));
    assert!(matches!(
        HttpError::from(curl::Error::new(28)),
        HttpError::Unknown(_)
    ));
}

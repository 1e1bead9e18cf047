use logxide::{record_fields, Scalar};
use logxide::{
    decimal, decimal_signed, format_message, percent_format, render_template, Config, DefaultFormatter, Field,
    Filter, Formatter, AllowAllFilter, LogArg, LogLevel, LogRecord, PythonFormatter, ThreadInfo, Timestamp,
};

fn record() -> LogRecord {
    let t = ThreadInfo { id: 77, platform_name: Some("MainThread".to_string()), override_name: None };
    let mut r = logxide::create_log_record(
        "app.db".to_string(),
        LogLevel::Warning,
        "disk full".to_string(),
        Timestamp { secs: 1_700_000_000, millis: 5 },
        &t,
        321,
    );
    r.lineno = 12;
    r.func_name = "run".to_string();
    r
}

#[test]
fn template_with_widths() {
    let r = record();
    assert_eq!(
        render_template("%(levelname)-8s|%(name)10s|%(msecs)03d|%(message)s", &r, "T"),
        "WARNING |    app.db|005|disk full"
    );
    assert_eq!(render_template("%(asctime)s %(threadName)-12s!", &r, "2023-11-14"), "2023-11-14 MainThread  !");
}

#[test]
fn template_numeric_fields() {
    let r = record();
    assert_eq!(
        render_template("%(levelno)d %(lineno)d %(funcName)s %(thread)d %(process)d %(created)f %(relativeCreated)f", &r, ""),
        "30 12 run 77 321 1700000000.005 0"
    );
}

#[test]
fn unknown_placeholders_pass_through() {
    let r = record();
    assert_eq!(render_template("%(bogus)s %(name)d %(name %", &r, ""), "%(bogus)s %(name)d %(name %");
    assert_eq!(render_template("", &r, ""), "");
    assert_eq!(render_template("%(name)99999999999999999999s", &r, ""), "app.db");
    assert_eq!(render_template("%(name)00008s|", &r, "").len(), 9);
}

#[test]
fn placeholder_positions() {
    let t: Vec<char> = "ab%(msecs)d".chars().collect();
    assert!(logxide::placeholder_at(&t, 0).is_none());
    let s = logxide::placeholder_at(&t, 2).unwrap();
    assert_eq!(s.field, Field::Msecs);
    assert_eq!(s.end, 11);
}

#[test]
fn default_formatter_layout() {
    assert_eq!(DefaultFormatter.format(&record()), "[WARNING] app.db: disk full");
}

#[test]
fn python_formatter_renders_time() {
    let f = PythonFormatter::with_date_format("%(asctime)s|%(message)s".to_string(), "%Y".to_string());
    let out = f.format(&record());
    assert_eq!(out.len(), "2023|disk full".len());
    assert!(out.ends_with("|disk full"));
    assert!(out.starts_with("20"));
    let g = PythonFormatter::new("%(message)s".to_string());
    assert!(g.date_format.is_none());
    assert_eq!(g.format(&record()), "disk full");
}

#[test]
fn clock_reading_is_plausible() {
    let now = Timestamp::now();
    assert!(now.secs > 1_600_000_000);
    assert!(now.millis < 2000);
}

#[test]
fn percent_substitution() {
    assert_eq!(percent_format("disk at %d%%", &vec![LogArg::Int(91)]).unwrap(), "disk at 91%");
    assert_eq!(percent_format("%s=%i", &vec![LogArg::Str("k".to_string()), LogArg::Int(-3)]).unwrap(), "k=-3");
    assert!(percent_format("%d", &vec![LogArg::Str("x".to_string())]).is_none());
    assert!(percent_format("%s %s", &vec![LogArg::Int(1)]).is_none());
    assert!(percent_format("none", &vec![LogArg::Int(1)]).is_none());
    assert!(percent_format("bad %q", &vec![LogArg::Int(1)]).is_none());
    assert_eq!(format_message("100%%", &vec![]), "100%%");
    assert_eq!(format_message("%d", &vec![LogArg::Str("x".to_string())]), "");
}

#[test]
fn decimals() {
    assert_eq!(decimal(0), "0");
    assert_eq!(decimal(1234567890), "1234567890");
    assert_eq!(decimal(u64::MAX), "18446744073709551615");
    assert_eq!(decimal_signed(-42), "-42");
    assert_eq!(decimal_signed(i64::MIN), "-9223372036854775808");
}

#[test]
fn levels() {
    assert_eq!(LogLevel::from_usize(20), LogLevel::Info);
    assert_eq!(LogLevel::from_usize(999), LogLevel::NotSet);
    assert_eq!(LogLevel::Critical.value(), 50);
    assert_eq!(LogLevel::Warning.name(), "WARNING");
    assert_eq!(LogLevel::NotSet.name(), "NOTSET");
    assert!(LogLevel::Error.is_at_least(LogLevel::Warning));
    assert!(!LogLevel::Debug.is_at_least(LogLevel::Info));
    assert_eq!(LogLevel::Debug.otlp_severity(), 5);
    assert_eq!(LogLevel::Info.otlp_severity(), 9);
    assert_eq!(LogLevel::Warning.otlp_severity(), 13);
    assert_eq!(LogLevel::Error.otlp_severity(), 17);
    assert_eq!(LogLevel::Critical.otlp_severity(), 21);
    assert_eq!(LogLevel::NotSet.otlp_severity(), 0);
}

#[test]
fn config_loading_is_refused() {
    let _c = Config::new();
    assert!(Config::from_yaml("a: 1").is_err());
    assert!(Config::from_json("{}").is_err());
}

#[test]
fn allow_all_filter_passes() {
    assert!(AllowAllFilter.filter(&record()));
}

#[test]
fn record_copies_and_extras() {
    let r = record();
    let c = r.duplicate();
    assert_eq!(c.name, r.name);
    assert_eq!(c.msg, r.msg);
    let e = c.with_extra(vec![("user".to_string(), "bob".to_string())]);
    assert_eq!(e.extra.len(), 1);
}

#[test]
fn outgoing_fields_in_order() {
    let r = record().with_extra(vec![("user".to_string(), "bob".to_string())]);
    let ctx = vec![("service".to_string(), Scalar::Text("api".to_string()))];
    let f = record_fields(&r, &ctx);
    assert_eq!(f.len(), 14);
    assert_eq!(f[0], ("service".to_string(), Scalar::Text("api".to_string())));
    assert_eq!(f[1], ("name".to_string(), Scalar::Text("app.db".to_string())));
    assert_eq!(f[2], ("levelno".to_string(), Scalar::Int(30)));
    assert_eq!(f[7], ("thread".to_string(), Scalar::Nat(77)));
    assert_eq!(f[13], ("user".to_string(), Scalar::Text("bob".to_string())));
}

#[test]
fn otlp_shape() {
    let o = logxide::otlp_record(&record());
    assert_eq!(o.time_unix_nano, 1_700_000_000_005_000_000);
    assert_eq!(o.severity_number, 13);
    assert_eq!(o.severity_text, "WARNING");
    assert_eq!(o.body, "disk full");
    assert_eq!(o.attributes[0], ("logger.name".to_string(), "app.db".to_string()));
    assert_eq!(o.attributes[1], ("thread.id".to_string(), "77".to_string()));
}

#[test]
fn python_formatter_formats_templates() {
    let t = ThreadInfo { id: 1, platform_name: None, override_name: None };
    let mut r = logxide::create_log_record("app".to_string(), LogLevel::Info, "hi".to_string(), Timestamp { secs: 0, millis: 0 }, &t, 1);
    assert_eq!(PythonFormatter::new("%(name)s - %(levelname)s - %(message)s".to_string()).format(&r), "app - INFO - hi");
    assert_eq!(PythonFormatter::new("[%(levelname)-8s|%(name)6s]".to_string()).format(&r), "[INFO    |   app]");
    r.msecs = 7;
    assert_eq!(PythonFormatter::new("%(msecs)03d".to_string()).format(&r), "007");
    assert_eq!(PythonFormatter::new("%(foo)s plain".to_string()).format(&r), "%(foo)s plain");
    let (pattern, secs, nanos) = PythonFormatter::new("x".to_string()).asctime_request(&r);
    assert_eq!(pattern, "%Y-%m-%d %H:%M:%S");
    assert_eq!(secs, 0);
    assert_eq!(nanos, 7_000_000);
}

#[test]
fn config_errors_are_fixed_text() {
    assert_eq!(Config::from_yaml("a: 1").unwrap_err(), "YAML parsing not yet implemented");
    assert_eq!(Config::from_json("{}").unwrap_err(), "JSON parsing not yet implemented");
}

#[test]
fn otlp_log_record_bytes() {
    let o = logxide::OtlpRecord {
        time_unix_nano: 1,
        severity_number: 9,
        severity_text: "INFO".to_string(),
        body: "hi".to_string(),
        attributes: vec![("k".to_string(), "v".to_string())],
    };
    let b = logxide::encode_log_record(&o);
    let mut want = vec![0x09, 1, 0, 0, 0, 0, 0, 0, 0, 0x10, 9, 0x1a, 4, b'I', b'N', b'F', b'O', 0x2a, 4, 0x0a, 2, b'h', b'i'];
    want.extend_from_slice(&[0x32, 8, 0x0a, 1, b'k', 0x12, 3, 0x0a, 1, b'v']);
    assert_eq!(b, want);
    let o2 = logxide::OtlpRecord { time_unix_nano: -5, attributes: vec![], ..o };
    assert_eq!(&logxide::encode_log_record(&o2)[1..9], &[0u8; 8]);
}

#[test]
fn otlp_request_bytes() {
    let r = logxide::encode_export_request("svc", "s", &vec![]);
    let key_value = [0x0a, 12, b's', b'e', b'r', b'v', b'i', b'c', b'e', b'.', b'n', b'a', b'm', b'e', 0x12, 5, 0x0a, 3, b's', b'v', b'c'];
    let mut resource = vec![0x0a, key_value.len() as u8];
    resource.extend_from_slice(&key_value);
    let scope_logs = vec![0x0a, 3, 0x0a, 1, b's'];
    let mut rl = vec![0x0a, resource.len() as u8];
    rl.extend_from_slice(&resource);
    rl.push(0x12);
    rl.push(scope_logs.len() as u8);
    rl.extend_from_slice(&scope_logs);
    let mut want = vec![0x0a, rl.len() as u8];
    want.extend_from_slice(&rl);
    assert_eq!(r, want);
}

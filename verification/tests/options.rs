use anduin::cmdline::{CmdLineError, CmdLineOptions};
use anduin::text::{parse_uint, render_dec, render_dec_string};

#[test]
fn defaults_without_arguments() {
    let args: Vec<String> = vec!["prog".to_string()];
    let (o, bad) = CmdLineOptions::parse(&args).unwrap();
    assert_eq!(o.host, "0.0.0.0");
    assert_eq!(o.port, 8000);
    assert!(o.sandbox);
    assert!(bad.is_empty());
    let d = CmdLineOptions::default();
    assert_eq!(d.host, "0.0.0.0");
    assert_eq!(d.port, 8000);
    assert!(d.sandbox);
}

#[test]
fn host_port_and_sandbox_options() {
    let args: Vec<String> = vec![
        "prog".to_string(),
        "-i".to_string(),
        "127.0.0.1".to_string(),
        "--port".to_string(),
        "9000".to_string(),
        "--no-sandbox".to_string(),
    ];
    let (o, bad) = CmdLineOptions::parse(&args).unwrap();
    assert_eq!(o.host, "127.0.0.1");
    assert_eq!(o.port, 9000);
    assert!(!o.sandbox);
    assert!(bad.is_empty());
}

#[test]
fn option_errors() {
    let a: Vec<String> = vec!["prog".to_string(), "-p".to_string(), "x9".to_string()];
    assert!(matches!(CmdLineOptions::parse(&a), Err(CmdLineError::InvalidPort)));
    let b: Vec<String> = vec!["prog".to_string(), "-p".to_string()];
    assert!(matches!(CmdLineOptions::parse(&b), Err(CmdLineError::NoPort)));
    let c: Vec<String> = vec!["prog".to_string(), "--host".to_string()];
    assert!(matches!(CmdLineOptions::parse(&c), Err(CmdLineError::NoHost)));
    let d: Vec<String> = vec!["prog".to_string(), "-h".to_string()];
    assert!(matches!(CmdLineOptions::parse(&d), Err(CmdLineError::HelpRequested)));
    assert_eq!(CmdLineError::NoHost.message(), "No host provided");
    assert_eq!(CmdLineError::NoPort.message(), "No port provided");
    assert_eq!(CmdLineError::InvalidPort.message(), "Invalid Port");
}

#[test]
fn unknown_arguments_are_collected() {
    let a: Vec<String> = vec![
        "prog".to_string(),
        "bogus".to_string(),
        "-p".to_string(),
        "81".to_string(),
    ];
    let (o, bad) = CmdLineOptions::parse(&a).unwrap();
    assert_eq!(o.port, 81);
    assert_eq!(bad, vec!["bogus".to_string()]);
}

#[test]
fn decimal_rendering() {
    assert_eq!(render_dec(0), b"0".to_vec());
    assert_eq!(render_dec(200), b"200".to_vec());
    assert_eq!(render_dec(1024), b"1024".to_vec());
    assert_eq!(render_dec_string(12345), "12345");
}

#[test]
fn unsigned_parsing() {
    assert_eq!(parse_uint("42", 0, 2), Some(42));
    assert_eq!(parse_uint("+42", 0, 3), Some(42));
    assert_eq!(parse_uint("", 0, 0), None);
    assert_eq!(parse_uint("+", 0, 1), None);
    assert_eq!(parse_uint("4x", 0, 2), None);
    assert_eq!(parse_uint("-4", 0, 2), None);
    assert_eq!(parse_uint("99999999999999999999999999", 0, 26), None);
}

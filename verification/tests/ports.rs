use betterprocs::ports::extract_ports;
use betterprocs::types::ProcessConfig;

#[test]
fn test_explicit_port() {
    let config = ProcessConfig {
        port: Some(3000),
        ..Default::default()
    };
    assert_eq!(extract_ports(&config), vec![3000]);
}

#[test]
fn test_port_from_command() {
    let config = ProcessConfig {
        command: "node server.js --port 8080".to_string(),
        ..Default::default()
    };
    assert_eq!(extract_ports(&config), vec![8080]);
}

#[test]
fn test_port_env_var() {
    let config = ProcessConfig {
        command: "PORT=3000 node app.js".to_string(),
        ..Default::default()
    };
    assert_eq!(extract_ports(&config), vec![3000]);
}

#[test]
fn test_short_flag_and_localhost() {
    let config = ProcessConfig {
        command: "serve -p 5173 and open localhost:4000".to_string(),
        ..Default::default()
    };
    assert_eq!(extract_ports(&config), vec![4000, 5173]);
}

#[test]
fn test_ports_sorted_and_deduplicated() {
    let config = ProcessConfig {
        command: "PORT=9000 node x.js --port 8080 localhost:8080".to_string(),
        port: Some(9999),
        ..Default::default()
    };
    assert_eq!(extract_ports(&config), vec![8080, 9000, 9999]);
}

#[test]
fn test_low_ports_dropped_but_explicit_kept() {
    let config = ProcessConfig {
        command: "run -p 79 then --port 81".to_string(),
        port: Some(23),
        ..Default::default()
    };
    // 79 is below the noise floor; the declared port is kept regardless.
    assert_eq!(extract_ports(&config), vec![23, 81]);
}

#[test]
fn test_single_digit_not_a_port() {
    let config = ProcessConfig {
        command: "nice -p 7 task".to_string(),
        ..Default::default()
    };
    assert_eq!(extract_ports(&config), Vec::<u16>::new());
}

#[test]
fn test_uppercase_flag_and_long_digit_run() {
    let config = ProcessConfig {
        command: "x --PORT 1234567".to_string(),
        ..Default::default()
    };
    // only the first five digits form the port, as the pattern reads 2..5
    assert_eq!(extract_ports(&config), vec![12345]);
}

#[test]
fn test_empty_command_no_ports() {
    let config = ProcessConfig::default();
    assert_eq!(extract_ports(&config), Vec::<u16>::new());
}

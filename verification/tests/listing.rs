use betterprocs::browser::{parse_port_filter, PortKiller};
use betterprocs::detector::detect_conflicts;
use betterprocs::lsof::{extract_port_from_addr, parse_lsof_output, PortEntry};
use betterprocs::types::ProcessConfig;

#[test]
fn parse_lsof_groups_lines_into_entries() {
    let out = "p123\ncnode\nn*:3000\np77\ncpython\nn127.0.0.1:8080\n";
    let entries = parse_lsof_output(out);
    assert_eq!(entries.len(), 2);
    assert_eq!(entries[0].port, 3000);
    assert_eq!(entries[0].pid, 123);
    assert_eq!(entries[0].process_name, "node");
    assert_eq!(entries[0].protocol, "TCP");
    assert_eq!(entries[1].port, 8080);
    assert_eq!(entries[1].pid, 77);
    assert_eq!(entries[1].process_name, "python");
}

#[test]
fn parse_lsof_sorts_by_port_and_deduplicates() {
    let out = "p9\ncweb\nn[::1]:9090\nnlocalhost:9090\nn*:81\n";
    let entries = parse_lsof_output(out);
    // the same pid and port pair appears once; listing is port-sorted
    assert_eq!(entries.len(), 2);
    assert_eq!(entries[0].port, 81);
    assert_eq!(entries[1].port, 9090);
}

#[test]
fn parse_lsof_ignores_orphan_addresses_and_bad_pids() {
    // an address before any pid or name, and an unparsable pid
    let out = "n*:3000\npnope\ncx\nn*:4000\n";
    let entries = parse_lsof_output(out);
    assert_eq!(entries.len(), 0);
}

#[test]
fn address_port_extraction() {
    assert_eq!(extract_port_from_addr("*:3000"), Some(3000));
    assert_eq!(extract_port_from_addr("127.0.0.1:8080"), Some(8080));
    assert_eq!(extract_port_from_addr("[::1]:5173"), Some(5173));
    assert_eq!(extract_port_from_addr("localhost:3001"), Some(3001));
    assert_eq!(extract_port_from_addr("nonsense"), None);
    assert_eq!(extract_port_from_addr("x:99999"), None);
}

#[test]
fn port_filter_parsing() {
    assert_eq!(parse_port_filter("3000, 5173 8080"), vec![3000, 5173, 8080]);
    assert_eq!(parse_port_filter(""), Vec::<u16>::new());
    assert_eq!(parse_port_filter("abc,70000,90"), vec![90]);
}

fn entry(port: u16, pid: u32, name: &str) -> PortEntry {
    PortEntry {
        port,
        pid,
        process_name: name.to_string(),
        protocol: "TCP".to_string(),
    }
}

#[test]
fn port_killer_filter_and_selection() {
    let mut pk = PortKiller::new();
    assert_eq!(pk.port_input, "");
    assert!(pk.type_char('3'));
    assert!(pk.type_char('0'));
    assert!(!pk.type_char('x'));
    assert_eq!(pk.port_input, "30");
    pk.backspace();
    assert_eq!(pk.port_input, "3");
    pk.clear_input();
    assert_eq!(pk.port_input, "");

    pk.refresh(vec![entry(80, 1, "a"), entry(81, 2, "b"), entry(82, 3, "c")]);
    assert_eq!(pk.selected, 0);
    pk.select_next();
    assert_eq!(pk.selected, 1);
    pk.select_prev();
    pk.select_prev();
    assert_eq!(pk.selected, 2);
    pk.select_next();
    assert_eq!(pk.selected, 0);
    assert_eq!(pk.selected_pid(), Some(1));

    // a shrinking listing pulls the selection back into range
    pk.select_prev();
    assert_eq!(pk.selected, 2);
    pk.refresh(vec![entry(80, 9, "z")]);
    assert_eq!(pk.selected, 0);
    assert_eq!(pk.selected_pid(), Some(9));
    assert_eq!(pk.entries().len(), 1);
}

#[test]
fn maybe_refresh_respects_the_interval() {
    let mut pk = PortKiller::new();
    assert!(!pk.maybe_refresh(2, vec![entry(80, 1, "a")]));
    assert_eq!(pk.entries().len(), 0);
    assert!(pk.maybe_refresh(3, vec![entry(80, 1, "a")]));
    assert_eq!(pk.entries().len(), 1);
}

#[test]
fn conflicts_found_for_derived_ports() {
    let configs = vec![
        ProcessConfig {
            name: "web".to_string(),
            command: "node server.js --port 8080".to_string(),
            ..Default::default()
        },
        ProcessConfig {
            name: "db".to_string(),
            port: Some(5432),
            ..Default::default()
        },
    ];
    let listeners = vec![entry(8080, 41, "node"), entry(9999, 42, "other")];
    let conflicts = detect_conflicts(&configs, &listeners);
    assert_eq!(conflicts.len(), 1);
    assert_eq!(conflicts[0].port, 8080);
    assert_eq!(conflicts[0].pid, 41);
    assert_eq!(conflicts[0].process_name, "node");
    assert_eq!(conflicts[0].our_process, "web");
}

#[test]
fn duplicate_name_and_port_reported_once() {
    let one = ProcessConfig {
        name: "web".to_string(),
        port: Some(8080),
        ..Default::default()
    };
    let two = ProcessConfig {
        name: "web".to_string(),
        command: "serve --port 8080".to_string(),
        ..Default::default()
    };
    let listeners = vec![entry(8080, 41, "node")];
    let conflicts = detect_conflicts(&vec![one, two], &listeners);
    assert_eq!(conflicts.len(), 1);
    assert_eq!(conflicts[0].port, 8080);
    assert_eq!(conflicts[0].our_process, "web");
}

#[test]
fn no_conflicts_without_listeners() {
    let configs = vec![ProcessConfig {
        name: "web".to_string(),
        port: Some(8080),
        ..Default::default()
    }];
    let conflicts = detect_conflicts(&configs, &Vec::new());
    assert_eq!(conflicts.len(), 0);
}

use rust_motd::component::compose_report;
use rust_motd::component::negotiate_width;
use rust_motd::component::prepare_all;
use rust_motd::component::Constraints;
use rust_motd::component::PanelData;
use rust_motd::config::config_base_path;
use rust_motd::config::parse_config;
use rust_motd::config::Config;
use rust_motd::config::ConfigError;

fn parsed(text: &str) -> Config {
    match parse_config(text) {
        Ok(c) => c,
        Err(e) => panic!("configuration should parse: {}", e.message()),
    }
}

fn lines(v: &[&str]) -> PanelData {
    PanelData::Lines(Ok(v.iter().map(|s| s.to_string()).collect()))
}

#[test]
fn prepare_yields_one_component_and_one_constraint_per_panel() {
    let config = parsed("[uptime]\n[banner]\n[docker]\n[memory]\n");
    assert_eq!(config.components.len(), 4);
    let (comps, cons) = prepare_all(config.components, &config.global);
    assert_eq!(comps.len(), 4);
    assert_eq!(cons.len(), 4);
}

#[test]
fn memory_then_filesystems_negotiates_width_twelve() {
    let config = parsed("[memory]\n[filesystems]\nroot = \"/\"\n");
    let global = config.global;
    let (comps, cons) = prepare_all(config.components, &global);
    assert_eq!(cons.len(), 2);
    assert!(cons[0].is_none());
    match &cons[1] {
        Some(c) => assert_eq!(c.min_width, Some(12)),
        None => panic!("filesystems must declare a width"),
    }
    let width = negotiate_width(&cons);
    assert_eq!(width, Some(12));
    // memory's print is invoked with Some(12) even though it asked for none
    let data = vec![lines(&["Memory: 1G/2G"]), lines(&["root /"])];
    let sections = compose_report(comps, &global, width, data);
    assert_eq!(sections.len(), 2);
    assert_eq!(sections[0], vec!["Memory: 1G/2G".to_string(), String::new()]);
}

#[test]
fn long_filesystem_label_widens_the_table() {
    let config = parsed("[filesystems]\nthisisaverylongname = \"/mnt\"\n");
    let (_comps, cons) = prepare_all(config.components, &config.global);
    match &cons[0] {
        // 2 columns of indent plus the 19-character label
        Some(c) => assert_eq!(c.min_width, Some(21)),
        None => panic!("filesystems must declare a width"),
    }
}

#[test]
fn negotiated_width_is_maximum_of_present_widths() {
    let cons = vec![
        Some(Constraints { min_width: Some(5) }),
        None,
        Some(Constraints { min_width: None }),
        Some(Constraints { min_width: Some(12) }),
        Some(Constraints { min_width: Some(7) }),
    ];
    assert_eq!(negotiate_width(&cons), Some(12));
}

#[test]
fn no_constraints_means_absent_width_not_zero() {
    assert_eq!(negotiate_width(&vec![]), None);
    let cons = vec![None, Some(Constraints { min_width: None })];
    assert_eq!(negotiate_width(&cons), None);
}

#[test]
fn panels_print_in_configuration_order() {
    let config = parsed("[weather]\n[banner]\n[uptime]\n");
    let global = config.global;
    let (comps, cons) = prepare_all(config.components, &global);
    let width = negotiate_width(&cons);
    let data = vec![lines(&["sunny"]), lines(&["welcome"]), lines(&["up 3 days"])];
    let sections = compose_report(comps, &global, width, data);
    assert_eq!(sections.len(), 3);
    assert_eq!(sections[0], vec!["sunny".to_string(), String::new()]);
    assert_eq!(sections[1], vec!["welcome".to_string(), String::new()]);
    assert_eq!(sections[2], vec!["up 3 days".to_string(), String::new()]);
}

#[test]
fn failed_panel_is_one_error_line_and_later_panels_still_print() {
    let config = parsed("[banner]\n[uptime]\n[memory]\n");
    let global = config.global;
    let (comps, cons) = prepare_all(config.components, &global);
    let width = negotiate_width(&cons);
    let data = vec![
        lines(&["welcome"]),
        PanelData::Lines(Err("probe failed".to_string())),
        lines(&["Memory: fine"]),
    ];
    let sections = compose_report(comps, &global, width, data);
    assert_eq!(sections.len(), 3);
    assert_eq!(sections[1], vec!["Uptime error: probe failed".to_string(), String::new()]);
    assert_eq!(sections[2], vec!["Memory: fine".to_string(), String::new()]);
}

#[test]
fn preparing_the_same_configuration_twice_gives_equal_constraints() {
    let text = "[memory]\n[filesystems]\nhome = \"/home\"\n[uptime]\n";
    let first = parsed(text);
    let second = parsed(text);
    let (_c1, cons1) = prepare_all(first.components, &first.global);
    let (_c2, cons2) = prepare_all(second.components, &second.global);
    assert_eq!(cons1.len(), cons2.len());
    for i in 0..cons1.len() {
        let w1 = match &cons1[i] {
            Some(c) => Some(c.min_width),
            None => None,
        };
        let w2 = match &cons2[i] {
            Some(c) => Some(c.min_width),
            None => None,
        };
        assert_eq!(w1, w2);
    }
}

#[test]
fn unknown_top_level_key_is_a_parse_error() {
    match parse_config("[nonsense]\n") {
        Ok(_) => panic!("unknown keys must be rejected"),
        Err(e) => assert_eq!(e.message(), "unknown configuration key: nonsense"),
    }
}

#[test]
fn malformed_toml_is_a_parse_error() {
    assert!(matches!(parse_config("not ]["), Err(ConfigError::ConfigParse(_))));
}

#[test]
fn bad_sort_method_is_a_parse_error() {
    match parse_config("[s_s_l_certs]\nsort_method = \"bogus\"\n") {
        Ok(_) => panic!("a bogus sort method must be rejected"),
        Err(e) => assert_eq!(e.message(), "invalid value for configuration key: sort_method"),
    }
}

#[test]
fn missing_certs_field_is_a_parse_error() {
    match parse_config("[s_s_l_certs]\nsort_method = \"manual\"\n") {
        Ok(_) => panic!("certs is a required field"),
        Err(e) => assert_eq!(e.message(), "missing field certs"),
    }
}

#[test]
fn panel_value_of_the_wrong_shape_is_a_parse_error() {
    match parse_config("uptime = 5\n") {
        Ok(_) => panic!("a panel value must be a table"),
        Err(e) => assert_eq!(e.message(), "invalid value for configuration key: uptime"),
    }
}

#[test]
fn global_time_format_is_read_and_defaulted() {
    let with = parsed("[global]\ntime_format = \"%Y\"\n[uptime]\n");
    assert_eq!(with.global.time_format, "%Y");
    let without = parsed("[uptime]\n");
    assert_eq!(without.global.time_format, "%Y-%m-%d %H:%M:%S");
}

#[test]
fn config_path_resolution_prefers_config_home() {
    match config_base_path(Some("/xdg".to_string()), Some("/home/u".to_string())) {
        Ok(p) => assert_eq!(p, "/xdg/rust-motd/config.toml"),
        Err(_) => panic!("a set configuration home must resolve"),
    }
    match config_base_path(None, Some("/home/u".to_string())) {
        Ok(p) => assert_eq!(p, "/home/u/.config/rust-motd/config.toml"),
        Err(_) => panic!("a home directory must resolve"),
    }
    assert!(matches!(config_base_path(None, None), Err(ConfigError::ConfigHome(_))));
}

#[test]
fn missing_configuration_file_error_is_fatal_class() {
    let e = ConfigError::ConfigNotFound;
    assert!(e.message().starts_with("Configuration file not found."));
}

use daily_commando::cli::{config_from_cli, parse_names};

#[test]
fn names_are_split_trimmed_and_filtered() {
    assert_eq!(parse_names("a, b ,,c"), vec!["a".to_string(), "b".to_string(), "c".to_string()]);
    assert_eq!(parse_names(""), Vec::<String>::new());
    assert_eq!(parse_names(" , \t,"), Vec::<String>::new());
    assert_eq!(parse_names("Mary Jane,\u{3000}Li\u{a0}"), vec!["Mary Jane".to_string(), "Li".to_string()]);
    for s in ["a, b ,,c", "", " x\u{2028}", "\u{85}y,\u{200b}z", ",,", "one"] {
        let std_way: Vec<String> =
            s.split(',').map(|x| x.trim().to_string()).filter(|x| !x.is_empty()).collect();
        assert_eq!(parse_names(s), std_way);
    }
}

#[test]
fn configuration_from_the_command_line() {
    let c = config_from_cli(5, 15, None);
    assert_eq!(c.soldiers, 5);
    assert_eq!(c.total_seconds, 900);
    assert!(c.names.is_empty());
    let c = config_from_cli(0, 0, Some("x,y"));
    assert_eq!(c.soldiers, 1);
    assert_eq!(c.total_seconds, 60);
    assert_eq!(c.names, vec!["x".to_string(), "y".to_string()]);
    assert_eq!(config_from_cli(99, 1, None).soldiers, 20);
}

use kiss_xmpp::args::Args;

fn args(list: &[&str]) -> Args {
    Args::new(list.iter().map(|s| s.to_string()).collect())
}

#[test]
fn flags_consumes_the_first_spelling_found() {
    let mut a = args(&["-h", "target@example.com"]);
    assert!(a.flags(&["-h", "--help"]));
    assert_eq!(a.remaining(), vec!["target@example.com".to_string()]);
}

#[test]
fn flags_reports_absence_and_keeps_the_list() {
    let mut a = args(&["target@example.com"]);
    assert!(!a.flags(&["-h", "--help"]));
    assert_eq!(a.remaining(), vec!["target@example.com".to_string()]);
}

#[test]
fn flags_removes_only_the_first_occurrence() {
    let mut a = args(&["-v", "-v", "x"]);
    assert!(a.flags(&["-v"]));
    assert_eq!(a.remaining(), vec!["-v".to_string(), "x".to_string()]);
}

#[test]
fn flag_matches_one_spelling() {
    let mut a = args(&["x", "--verbose", "y"]);
    assert!(a.flag("--verbose"));
    assert!(!a.flag("--verbose"));
    assert_eq!(a.remaining(), vec!["x".to_string(), "y".to_string()]);
}

#[test]
fn get_option_takes_the_following_value() {
    let mut a = args(&["-c", "kiss.toml", "target@example.com"]);
    assert_eq!(a.get_option(&["-c", "--config"]), Some("kiss.toml".to_string()));
    assert_eq!(a.remaining(), vec!["target@example.com".to_string()]);
}

#[test]
fn get_option_with_trailing_flag_yields_no_value() {
    let mut a = args(&["target@example.com", "-c"]);
    assert_eq!(a.get_option(&["-c", "--config"]), None);
    assert_eq!(a.remaining(), vec!["target@example.com".to_string()]);
}

#[test]
fn get_option_without_the_flag_changes_nothing() {
    let mut a = args(&["target@example.com"]);
    assert_eq!(a.get_option(&["-c", "--config"]), None);
    assert_eq!(a.remaining(), vec!["target@example.com".to_string()]);
}

#[test]
fn get_str_falls_back_to_the_default() {
    let mut a = args(&["--level", "debug", "x"]);
    assert_eq!(a.get_str(&["--level"], "info"), "debug".to_string());
    assert_eq!(a.get_str(&["--level"], "info"), "info".to_string());
    assert_eq!(a.remaining(), vec!["x".to_string()]);
}

use minigrep::Config;

#[test]
fn config_without_the_variable_is_case_sensitive() {
    let args = vec![
        String::from("minigrep"),
        String::from("query"),
        String::from("poem.txt"),
    ];
    let config = Config::new(args, None).ok().unwrap();
    assert_eq!(config.query, "query");
    assert_eq!(config.filename, "poem.txt");
    assert!(config.case_sensitive);
}

#[test]
fn config_with_the_variable_set_is_case_insensitive() {
    let args = vec![
        String::from("minigrep"),
        String::from("query"),
        String::from("poem.txt"),
    ];
    let config = Config::new(args, Some(String::from("1"))).ok().unwrap();
    assert!(!config.case_sensitive);
}

#[test]
fn config_with_the_variable_set_empty_is_case_insensitive() {
    let args = vec![
        String::from("minigrep"),
        String::from("query"),
        String::from("poem.txt"),
    ];
    let config = Config::new(args, Some(String::new())).ok().unwrap();
    assert!(!config.case_sensitive);
}

#[test]
fn config_missing_the_file_name_is_a_usage_error() {
    let args = vec![String::from("minigrep"), String::from("query")];
    match Config::new(args, None) {
        Err(e) => assert_eq!(e, "didn't get a file name"),
        Ok(_) => panic!("expected a usage error"),
    }
}

#[test]
fn config_missing_the_query_is_a_usage_error() {
    let args = vec![String::from("minigrep")];
    match Config::new(args, None) {
        Err(e) => assert_eq!(e, "didn't get a query string"),
        Ok(_) => panic!("expected a usage error"),
    }
}

#[test]
fn config_with_no_arguments_at_all_is_a_usage_error() {
    match Config::new(Vec::new(), None) {
        Err(e) => assert_eq!(e, "didn't get a query string"),
        Ok(_) => panic!("expected a usage error"),
    }
}

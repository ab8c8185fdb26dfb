use hack_vmtranslator::cli::parse_args;

#[test]
fn the_first_argument_names_the_source() {
    let args = vec!["prog".to_string(), "Main.vm".to_string(), "more".to_string()];
    assert_eq!(parse_args(&args), Ok("Main.vm".to_string()));
    let args = vec!["prog".to_string(), "dir".to_string()];
    assert_eq!(parse_args(&args), Ok("dir".to_string()));
}

#[test]
fn a_missing_argument_is_reported() {
    assert_eq!(parse_args(&["prog".to_string()]), Err("not enough arguments"));
    assert_eq!(parse_args(&[]), Err("not enough arguments"));
}

use jb::Config;

#[test]
fn lib_test_build() {
    let result = Config::build(&[]);
    assert_eq!(result.is_err(), true);
}

#[test]
fn config_build_gives_its_message() {
    let args = vec!["jb".to_string(), "in".to_string(), "out".to_string()];
    assert_eq!(Config::build(&args).err(), Some("Not implemented"));
}

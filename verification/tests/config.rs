use shapshap::config::Config;

#[test]
fn default_config() {
    let c = Config::default();
    assert_eq!(c.default_prefix.as_deref(), Some("PATCH"));
    assert!(c.author.is_none() && c.email.is_none() && c.default_output.is_none());
    assert!(c.send_email.is_none());
    let v = c.validation.unwrap();
    assert_eq!(v.max_line_length, Some(80));
    assert_eq!(v.check_line_length, Some(true));
    assert_eq!(v.require_sign_off, Some(true));
}

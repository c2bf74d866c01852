//! The settings a user keeps in the configuration file.

use vstd::prelude::*;
use crate::commit::opt_view;

verus! {

/// User settings: default author, prefix and output directory, mail
/// sending, and validation.
#[derive(Debug, Clone)]
pub struct Config {
    pub author: Option<String>,
    pub email: Option<String>,
    pub default_prefix: Option<String>,
    /// The default output directory, as path text.
    pub default_output: Option<String>,
    pub send_email: Option<SendEmailConfig>,
    pub validation: Option<ValidationConfig>,
}

/// Settings for sending patches by mail.
#[derive(Debug, Clone)]
pub struct SendEmailConfig {
    pub smtp_server: Option<String>,
    pub smtp_port: Option<u16>,
    pub from_email: Option<String>,
    pub default_to: Option<Vec<String>>,
    pub default_cc: Option<Vec<String>>,
}

/// Settings for patch validation.
#[derive(Debug, Clone)]
pub struct ValidationConfig {
    pub check_line_length: Option<bool>,
    pub max_line_length: Option<usize>,
    pub check_trailing_whitespace: Option<bool>,
    pub check_tab_indentation: Option<bool>,
    pub require_sign_off: Option<bool>,
    pub check_commit_message_format: Option<bool>,
}

/// The validation settings of a default configuration: every check on,
/// lines of at most 80 bytes.
pub open spec fn is_default_validation(v: ValidationConfig) -> bool {
    &&& v.check_line_length == Some(true)
    &&& v.max_line_length == Some(80usize)
    &&& v.check_trailing_whitespace == Some(true)
    &&& v.check_tab_indentation == Some(true)
    &&& v.require_sign_off == Some(true)
    &&& v.check_commit_message_format == Some(true)
}

impl Default for Config {
    /// No author, address or output directory, the `PATCH` prefix, no mail
    /// settings, and every validation check on with an 80-byte line limit.
    fn default() -> (c: Self)
        ensures
            c.author is None,
            c.email is None,
            opt_view(c.default_prefix) == Some("PATCH"@),
            c.default_output is None,
            c.send_email is None,
            c.validation matches Some(v) && is_default_validation(v),
    {
        Config {
            author: None,
            email: None,
            default_prefix: Some(String::from_str("PATCH")),
            default_output: None,
            send_email: None,
            validation: Some(
                ValidationConfig {
                    check_line_length: Some(true),
                    max_line_length: Some(80),
                    check_trailing_whitespace: Some(true),
                    check_tab_indentation: Some(true),
                    require_sign_off: Some(true),
                    check_commit_message_format: Some(true),
                },
            ),
        }
    }
}

} // verus!

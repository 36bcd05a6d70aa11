use wifiqr::code::{auth, open_network, secured_network, Credentials, ErrorKind, FormatError};

/// Basic functionality test
#[test]
fn test_credentials() {
    assert_eq!(
        Credentials::new(Some("test"), Some("password"), Some("WPA2"), false, false)
            .format()
            .unwrap(),
        "WIFI:T:WPA2;S:test;P:password;;"
    );
}

/// Test credential escaping; per Zxing guidelines on how to format a `WIFI:` string
#[test]
fn test_credentials_escapes() {
    assert_eq!(
        Credentials::new(
            Some(r###""foo;bar\baz""###),
            Some("randompassword"),
            Some("wpa2"),
            false,
            false
        )
        .format()
        .unwrap(),
        r###"WIFI:T:WPA2;S:\"foo\;bar\\baz\";P:randompassword;;"###
    );
}

/// Ensure that the hidden flag is added if requested
#[test]
fn test_hidden_ssid() {
    assert_eq!(
        Credentials::new(
            Some(r###""foo;bar\baz""###),
            Some("randompassword"),
            Some("WPA2"),
            true,
            false
        )
        .format()
        .unwrap(),
        r###"WIFI:T:WPA2;S:\"foo\;bar\\baz\";P:randompassword;H:true;;"###
    );
}

/// If a ssid isn't hidden, it shouldn't be set in the formatted string
#[test]
fn test_normal_ssid() {
    assert_eq!(
        Credentials::new(
            Some(r###""foo;bar\baz""###),
            Some("randompassword"),
            Some("WPA2"),
            false,
            false
        )
        .format()
        .unwrap(),
        r###"WIFI:T:WPA2;S:\"foo\;bar\\baz\";P:randompassword;;"###
    );
}

/// Require a password when wpa/wpa2 is requested
#[test]
fn test_nopassword_with_wpa2() {
    assert!(
        Credentials::new(
            Some(r###""foo;bar\baz""###),
            Some(""),
            Some("wpa"),
            false,
            false
        )
        .format()
        .is_err(),
        "wpa2 requires a password"
    );

    assert!(
        Credentials::new(
            Some(r###""foo;bar\baz""###),
            Some(""),
            Some("wpa2"),
            false,
            false
        )
        .format()
        .is_err(),
        "wpa2 requires a password"
    );
}

/// Require a password when using wep
#[test]
fn test_nopassword_with_wep() {
    assert!(
        Credentials::new(
            Some(r###""foo;bar\baz""###),
            Some(""),
            Some("wep"),
            false,
            false
        )
        .format()
        .is_err(),
        "wep requires a password"
    );
}

#[test]
fn test_nopassword_with_nopassword() {
    assert!(
        Credentials::new(Some("bane"), Some(""), Some("nopass"), false, false)
            .format()
            .is_ok(),
        "nopass specified with a blank password should work"
    );
}

/// Test various auth (T) types, like WPA/WPA2
#[test]
fn test_auth_types() {
    // wep
    assert_eq!(
        Credentials::new(Some("test"), Some("password"), Some("wep"), false, false)
            .format()
            .unwrap(),
        "WIFI:T:WEP;S:test;P:password;;"
    );

    // wpa
    assert_eq!(
        Credentials::new(Some("test"), Some("password"), Some("WPA"), false, false)
            .format()
            .unwrap(),
        "WIFI:T:WPA;S:test;P:password;;"
    );

    // wpa2 -- the token is written in capitals: some scanners find no usable
    // data behind a lower-case T: parameter
    assert_eq!(
        Credentials::new(Some("test"), Some("password"), Some("wpa2"), false, false)
            .format()
            .unwrap(),
        "WIFI:T:WPA2;S:test;P:password;;"
    );

    // wpa3
    assert_eq!(
        Credentials::new(Some("test"), Some("password"), Some("wpa3"), false, false)
            .format()
            .unwrap(),
        "WIFI:T:WPA3;S:test;P:password;;"
    );

    // nopass -- unlike wpa2/wpa3, nopass is accepted uncapitalized
    assert_eq!(
        Credentials::new(Some("test"), Some(""), Some("nopass"), false, false)
            .format()
            .unwrap(),
        "WIFI:T:nopass;S:test;;"
    );
}

#[test]
fn test_empty_passwords_with_nopass_encr() {
    assert!(
        Credentials::new(
            Some(r###""foo;bar\baz""###),
            Some("password"),
            Some("nopass"),
            false,
            false
        )
        .format()
        .is_err(),
        "nopass cannot be specified with a password"
    );
}

/// ensure that nopass is set along with an empty password when it is requested by the user
#[test]
fn test_encr_nopass_with_empty_password() {
    assert_eq!(
        Credentials::new(Some("test"), Some(""), Some("nopass"), false, false)
            .format()
            .unwrap(),
        "WIFI:T:nopass;S:test;;"
    );
}

/// when quote is set, ensure that the result is quoted
#[test]
fn test_quoted_ssid_password() {
    assert_eq!(
        Credentials::new(Some("test"), Some("password"), Some("wpa2"), false, true)
            .format()
            .unwrap(),
        "WIFI:T:WPA2;S:\"test\";P:\"password\";;"
    );
}

fn kind_of(ssid: &str, pass: &str, encr: &str, hidden: bool, quote: bool) -> ErrorKind {
    Credentials::new(Some(ssid), Some(pass), Some(encr), hidden, quote)
        .format()
        .unwrap_err()
        .kind()
}

fn text_of(ssid: &str, pass: &str, encr: &str, hidden: bool, quote: bool) -> String {
    Credentials::new(Some(ssid), Some(pass), Some(encr), hidden, quote)
        .format()
        .unwrap()
}

#[test]
fn test_open_auth_with_password_is_incompatible() {
    for encr in ["", "nopass"] {
        for pass in ["p", "password", "\\", " "] {
            for hidden in [false, true] {
                for quote in [false, true] {
                    assert_eq!(
                        kind_of("net", pass, encr, hidden, quote),
                        ErrorKind::IncompatibleAuthPassword
                    );
                }
            }
        }
    }
}

#[test]
fn test_password_mode_without_password_is_missing() {
    for encr in ["wep", "wpa", "wpa2", "WPA3", "x", "NOPASS", "NoPass", "nopass "] {
        for hidden in [false, true] {
            for quote in [false, true] {
                assert_eq!(
                    kind_of("bane", "", encr, hidden, quote),
                    ErrorKind::MissingRequiredPassword
                );
            }
        }
    }
}

#[test]
fn test_incompatible_is_checked_first() {
    // an empty mode with a password fails the first check, never the second
    assert_eq!(kind_of("", "pw", "", false, false), ErrorKind::IncompatibleAuthPassword);
}

#[test]
fn test_missing_password_error() {
    let err = Credentials::new(Some("bane"), Some(""), Some("wpa"), false, false)
        .format()
        .unwrap_err();
    assert_eq!(err, FormatError { kind: ErrorKind::MissingRequiredPassword });
}

#[test]
fn test_format_twice_gives_the_same() {
    let good = Credentials::new(Some("a;b"), Some("p:w"), Some("wpa2"), true, true);
    let first = good.format().unwrap();
    let second = good.format().unwrap();
    assert_eq!(first, second);
    assert_eq!(first, "WIFI:T:WPA2;S:a\\;b;P:p\\:w;H:true;;");
    let bad = Credentials::new(Some("a"), Some("pw"), Some("nopass"), false, false);
    assert_eq!(bad.format().unwrap_err(), bad.format().unwrap_err());
}

#[test]
fn test_format_leaves_the_record_alone() {
    let cred = Credentials::new(Some("a\"b"), Some("secret"), Some("wpa"), false, true);
    let _ = cred.format();
    assert_eq!(cred.ssid, "a\"b");
    assert_eq!(cred.pass, "secret");
    assert_eq!(cred.encr, "wpa");
    assert!(!cred.hidden);
    assert!(cred.quote);
}

#[test]
fn test_hidden_open_network() {
    assert_eq!(text_of("test", "", "nopass", true, false), "WIFI:T:nopass;S:test;H:true;;");
}

#[test]
fn test_empty_mode_is_written_as_nopass() {
    assert_eq!(text_of("test", "", "", false, false), "WIFI:T:nopass;S:test;;");
    assert_eq!(text_of("test", "", "", true, false), "WIFI:T:nopass;S:test;H:true;;");
}

#[test]
fn test_open_network_quoted() {
    assert_eq!(text_of("cafe", "", "nopass", false, true), "WIFI:T:nopass;S:\"cafe\";;");
    assert_eq!(text_of("cafe", "", "", true, true), "WIFI:T:nopass;S:\"cafe\";H:true;;");
}

#[test]
fn test_each_reserved_character_is_escaped_once() {
    assert_eq!(text_of("a\\b", "pw", "wpa", false, false), "WIFI:T:WPA;S:a\\\\b;P:pw;;");
    assert_eq!(text_of("a\"b", "pw", "wpa", false, false), "WIFI:T:WPA;S:a\\\"b;P:pw;;");
    assert_eq!(text_of("a;b", "pw", "wpa", false, false), "WIFI:T:WPA;S:a\\;b;P:pw;;");
    assert_eq!(text_of("a:b", "pw", "wpa", false, false), "WIFI:T:WPA;S:a\\:b;P:pw;;");
    assert_eq!(
        text_of("net", "\\\";:", "wpa", false, false),
        "WIFI:T:WPA;S:net;P:\\\\\\\"\\;\\:;;"
    );
    assert_eq!(text_of(";;", "::", "wpa", true, false), "WIFI:T:WPA;S:\\;\\;;P:\\:\\:;H:true;;");
}

#[test]
fn test_other_characters_are_left_alone() {
    assert_eq!(
        text_of("caf\u{e9} ,'/", "p w\t", "wpa2", false, false),
        "WIFI:T:WPA2;S:caf\u{e9} ,'/;P:p w\t;;"
    );
}

#[test]
fn test_quote_skips_fields_that_were_escaped() {
    // the SSID holds a reserved character: escaped, not quoted; the password holds none
    assert_eq!(
        text_of("a;b", "password", "wpa2", false, true),
        "WIFI:T:WPA2;S:a\\;b;P:\"password\";;"
    );
    assert_eq!(
        text_of("test", "p:w", "wpa2", false, true),
        "WIFI:T:WPA2;S:\"test\";P:p\\:w;;"
    );
}

#[test]
fn test_quote_compares_a_field_with_itself_only() {
    // the escaped SSID reads like the password: it stays escaped all the same
    assert_eq!(
        text_of("a;b", "a\\;b", "wpa2", false, true),
        "WIFI:T:WPA2;S:a\\;b;P:a\\\\\\;b;;"
    );
}

#[test]
fn test_quote_of_an_empty_ssid() {
    assert_eq!(text_of("", "pw", "wpa", false, true), "WIFI:T:WPA;S:\"\";P:\"pw\";;");
    assert_eq!(text_of("", "pw", "wpa", false, false), "WIFI:T:WPA;S:;P:pw;;");
}

#[test]
fn test_unknown_modes_are_written_in_upper_case() {
    assert_eq!(text_of("n", "p", "sae", false, false), "WIFI:T:SAE;S:n;P:p;;");
    // a token that reads nopass in another case is written as it came
    assert_eq!(text_of("n", "p", "NoPass", false, false), "WIFI:T:NoPass;S:n;P:p;;");
    assert_eq!(text_of("n", "p", "NOPASS", false, false), "WIFI:T:NOPASS;S:n;P:p;;");
    assert_eq!(text_of("n", "p", "nopasS", true, false), "WIFI:T:nopasS;S:n;P:p;H:true;;");
    assert_eq!(text_of("n", "p", "nopass1", false, false), "WIFI:T:NOPASS1;S:n;P:p;;");
    assert_eq!(text_of("n", "p", "stra\u{df}e", false, false), "WIFI:T:STRASSE;S:n;P:p;;");
    // the mode is not a free-text field: nothing in it is escaped
    assert_eq!(text_of("n", "p", "a;b", false, false), "WIFI:T:A;B;S:n;P:p;;");
}

#[test]
fn test_filter_encr() {
    let cred = Credentials::new(Some("n"), Some("p"), Some("wpa"), false, false);
    assert_eq!(cred.filter_encr("wpa2"), "WPA2");
    assert_eq!(cred.filter_encr("WPA2"), "WPA2");
    assert_eq!(cred.filter_encr("nopass"), "nopass");
    assert_eq!(cred.filter_encr(""), "nopass");
    assert_eq!(cred.filter_encr("Nopass"), "Nopass");
    assert_eq!(cred.filter_encr("NoPass"), "NoPass");
    assert_eq!(cred.filter_encr("NOPASS"), "NOPASS");
    assert_eq!(cred.filter_encr("nOpAsS"), "nOpAsS");
    assert_eq!(cred.filter_encr("nopas"), "NOPAS");
    assert_eq!(cred.filter_encr("nopasss"), "NOPASSS");
    assert_eq!(cred.filter_encr("n\u{f6}pass"), "N\u{d6}PASS");
    assert_eq!(cred.filter_encr("a-z_{`09"), "A-Z_{`09");
}

#[test]
fn test_filter_credentials() {
    let plain = Credentials::new(Some("n"), Some("p"), Some("wpa"), false, false);
    assert_eq!(plain.filter_credentials("abc"), "abc");
    assert_eq!(plain.filter_credentials("a;c"), "a\\;c");
    let quoting = Credentials::new(Some("n"), Some("p"), Some("wpa"), false, true);
    assert_eq!(quoting.filter_credentials("abc"), "\"abc\"");
    assert_eq!(quoting.filter_credentials("a;c"), "a\\;c");
    assert_eq!(quoting.filter_credentials("ABCDEF"), "\"ABCDEF\"");
}

#[test]
fn test_templates() {
    assert_eq!(open_network("s", false), "WIFI:T:nopass;S:s;;");
    assert_eq!(open_network("s", true), "WIFI:T:nopass;S:s;H:true;;");
    assert_eq!(secured_network("A", "s", "p", false), "WIFI:T:A;S:s;P:p;;");
    assert_eq!(secured_network("A", "s", "p", true), "WIFI:T:A;S:s;P:p;H:true;;");
    assert_eq!(secured_network("", "", "", false), "WIFI:T:;S:;P:;;");
}

#[test]
fn test_auth_builds_the_same_record() {
    let made = auth(Some("net"), Some("pw"), Some("wpa2"), true, true);
    assert_eq!(made.ssid, "net");
    assert_eq!(made.pass, "pw");
    assert_eq!(made.encr, "wpa2");
    assert!(made.hidden);
    assert!(made.quote);
    assert_eq!(
        made.format().unwrap(),
        Credentials::new(Some("net"), Some("pw"), Some("wpa2"), true, true).format().unwrap()
    );
}

#[test]
fn test_error_messages() {
    let missing = FormatError { kind: ErrorKind::MissingRequiredPassword };
    assert_eq!(missing.message(), "The encryption method requested requires a password.");
    let incompatible = FormatError { kind: ErrorKind::IncompatibleAuthPassword };
    let text = incompatible.message();
    assert!(text.starts_with("With nopass as the encryption type (or unset encryption type), \n"));
    assert!(text.ends_with("to something like wpa2)"));
    assert_eq!(incompatible.kind(), ErrorKind::IncompatibleAuthPassword);
}

#[test]
fn test_ascii_tokens_are_upper_cased_letter_by_letter() {
    let cred = Credentials::new(Some("n"), Some("p"), Some("wpa"), false, false);
    for code in 0u8..128 {
        let token = format!("x{}y", code as char);
        let upper = cred.filter_encr(&token);
        assert_eq!(upper, token.to_ascii_uppercase());
        assert_eq!(upper.chars().count(), 3);
    }
    assert_eq!(cred.filter_encr("abcdefghijklmnopqrstuvwxyz"), "ABCDEFGHIJKLMNOPQRSTUVWXYZ");
    assert_eq!(cred.filter_encr("@[`{ AZaz09"), "@[`{ AZAZ09");
}

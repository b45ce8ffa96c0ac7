use infrahub_credential_helper::askpass::{
    parse_askpass_prompt, request_from_captures, unrecognized_prompt_message, PromptError,
    RequestKind,
};
use infrahub_credential_helper::text::{char_is_white_space, join_with_spaces, trim};

#[test]
fn askpass_username_prompt() {
    let req = parse_askpass_prompt("Username for 'https://github.com/opsmill/repo.git': ").unwrap();
    assert_eq!(req.location, "https://github.com/opsmill/repo.git");
    assert_eq!(req.kind, RequestKind::Username);
}

#[test]
fn askpass_password_prompt_drops_user() {
    let req =
        parse_askpass_prompt("Password for 'https://bob@github.com/opsmill/repo.git': ").unwrap();
    assert_eq!(req.location, "https://github.com/opsmill/repo.git");
    assert_eq!(req.kind, RequestKind::Password);
}

#[test]
fn askpass_unrecognized_prompt() {
    let err = parse_askpass_prompt("Passphrase for key: ").unwrap_err();
    assert_eq!(err, PromptError::Unrecognized);
}

#[test]
fn askpass_password_prompt_without_user_is_unrecognized() {
    let err = parse_askpass_prompt("Password for 'https://github.com/repo.git': ").unwrap_err();
    assert_eq!(err, PromptError::Unrecognized);
}

#[test]
fn askpass_location_is_in_the_last_quotes() {
    let req = parse_askpass_prompt("Username 'a' for 'https://h/x': ").unwrap();
    assert_eq!(req.location, "https://h/x");
}

#[test]
fn askpass_request_from_captures_cases() {
    let user = Some(Some(vec![Some("x".to_string()), Some("loc".to_string())]));
    let req = request_from_captures(user, Some(None)).unwrap();
    assert_eq!(req.location, "loc");
    assert_eq!(req.kind, RequestKind::Username);

    let pass = Some(Some(vec![
        Some("all".to_string()),
        Some("https://".to_string()),
        Some("bob".to_string()),
        Some("h/p".to_string()),
    ]));
    let req = request_from_captures(Some(None), pass).unwrap();
    assert_eq!(req.location, "https://h/p");
    assert_eq!(req.kind, RequestKind::Password);

    assert_eq!(
        request_from_captures(None, Some(None)).unwrap_err(),
        PromptError::PatternFailure
    );
    assert_eq!(
        request_from_captures(Some(Some(vec![Some("x".to_string())])), Some(None)).unwrap_err(),
        PromptError::PatternFailure
    );
    assert_eq!(
        request_from_captures(Some(None), Some(None)).unwrap_err(),
        PromptError::Unrecognized
    );
}

#[test]
fn askpass_pick_requested_credential() {
    assert_eq!(RequestKind::Username.pick("u".to_string(), "p".to_string()), "u");
    assert_eq!(RequestKind::Password.pick("u".to_string(), "p".to_string()), "p");
}

#[test]
fn askpass_unrecognized_message() {
    assert_eq!(
        unrecognized_prompt_message("Hello"),
        "Unable to identify the request type in 'Hello'"
    );
}

#[test]
fn askpass_arguments_joined_by_spaces() {
    let words = vec!["Username".to_string(), "for".to_string(), "'https://h':".to_string()];
    assert_eq!(join_with_spaces(&words), "Username for 'https://h':");
    assert_eq!(join_with_spaces(&vec![]), "");
}

#[test]
fn input_trimmed_of_white_space() {
    assert_eq!(trim("  protocol=https\nhost=h \n\t"), "protocol=https\nhost=h");
    assert_eq!(trim("\u{3000}x\u{2003}"), "x");
    assert_eq!(trim(" \n "), "");
    assert_eq!(trim("a"), "a");
}

#[test]
fn white_space_agrees_with_std() {
    for u in 0..=0x10FFFFu32 {
        if let Some(c) = char::from_u32(u) {
            assert_eq!(char_is_white_space(c), c.is_whitespace(), "at U+{u:04X}");
        }
    }
}

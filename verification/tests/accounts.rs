use chatalone::account::{
    evaluate_login, evaluate_register, is_valid_email, Email, LoginOutcome, RegisterOutcome,
    RegisterParams, UserTable,
};
use chatalone::uuid::{UuidError, UUID};

#[test]
fn the_address_grammar_is_the_documented_one() {
    assert!(is_valid_email("someone@example.com"));
    assert!(is_valid_email("a.b_c%d+e-f@my-host.asia"));
    assert!(is_valid_email("x@y.z.com"));
    assert!(!is_valid_email(""));
    assert!(!is_valid_email("plain"));
    assert!(!is_valid_email("@example.com"));
    assert!(!is_valid_email("user@example.org"));
    assert!(!is_valid_email("user@.com"));
    assert!(!is_valid_email("user@host.com "));
    assert!(!is_valid_email("us er@host.com"));
    assert!(!is_valid_email("user@@host.com"));
    assert!(!is_valid_email("user@host.asia.net"));
}

#[test]
fn login_is_decided_in_the_documented_order() {
    let user = UserTable::new("a@b.com", "ann", "secret");
    let uid = user.userid.to_i64();
    assert_eq!(
        evaluate_login(&None, &Some("x".into()), &Some(user.clone())),
        LoginOutcome::NullParams
    );
    assert_eq!(
        evaluate_login(&Some("a@b.com".into()), &None, &Some(user.clone())),
        LoginOutcome::NullParams
    );
    assert_eq!(
        evaluate_login(&Some("not-an-address".into()), &Some("secret".into()), &Some(user.clone())),
        LoginOutcome::IllegalParams
    );
    assert_eq!(
        evaluate_login(&Some("a@b.com".into()), &Some("secret".into()), &None),
        LoginOutcome::InvalidCredentials
    );
    assert_eq!(
        evaluate_login(&Some("a@b.com".into()), &Some("wrong".into()), &Some(user.clone())),
        LoginOutcome::InvalidCredentials
    );
    assert_eq!(
        evaluate_login(&Some("a@b.com".into()), &Some("secret".into()), &Some(user)),
        LoginOutcome::Accepted(uid)
    );
}

#[test]
fn registration_is_decided_in_the_documented_order() {
    let full = RegisterParams {
        email: Some("a@b.com".into()),
        username: Some("ann".into()),
        password: Some("pw".into()),
    };
    let partial = RegisterParams { email: Some("a@b.com".into()), username: None, password: Some("pw".into()) };
    assert!(full.is_legal());
    assert!(!partial.is_legal());
    assert_eq!(evaluate_register(&partial, false), RegisterOutcome::InvalidParams);
    assert_eq!(evaluate_register(&full, true), RegisterOutcome::EmailExists);
    assert_eq!(evaluate_register(&full, false), RegisterOutcome::Accepted);
}

#[test]
fn a_legal_registration_becomes_a_record() {
    let full = RegisterParams {
        email: Some("a@b.com".into()),
        username: Some("ann".into()),
        password: Some("pw".into()),
    };
    let record = full.into_user_table().unwrap();
    assert_eq!(record.email, "a@b.com");
    assert_eq!(record.username, "ann");
    assert!(record.verify_password(&"pw".to_string()));
    let partial = RegisterParams { email: None, username: Some("ann".into()), password: None };
    assert_eq!(partial.into_user_table().unwrap_err(), RegisterOutcome::InvalidParams);
}

#[test]
fn passwords_compare_by_content() {
    let user = UserTable::new("a@b.com", "ann", "hunter2");
    assert!(user.verify_password(&"hunter2".to_string()));
    assert!(!user.verify_password(&"hunter3".to_string()));
    assert_eq!(user.email, "a@b.com");
    assert_eq!(user.username, "ann");
}

#[test]
fn mail_configuration_is_kept_verbatim() {
    let mail = Email::new("no-reply@chatalone.asia", "mail-password", "smtp.example.com", "<p>{{code}}</p>");
    assert_eq!(mail.address, "no-reply@chatalone.asia");
    assert_eq!(mail.smtp_address, "smtp.example.com");
    assert_eq!(mail.template, "<p>{{code}}</p>");
}

#[test]
fn uuid_text_form_round_trips() {
    let u = UUID::from_str("00ff10a2b3c4d5e6").unwrap();
    assert_eq!(u.to_string(), "00ff10a2b3c4d5e6");
    // Uppercase digits are read, written back lowercase.
    let v = UUID::from_str("00FF10A2B3C4D5E6").unwrap();
    assert_eq!(v.to_string(), "00ff10a2b3c4d5e6");
    assert_eq!(UUID::from_str("0123"), Err(UuidError::BadLength));
    assert_eq!(UUID::from_str("00ff10a2b3c4d5ez"), Err(UuidError::BadChar));
}

#[test]
fn uuid_packs_to_and_from_an_integer() {
    for &v in &[0i64, 1, -1, 114514, i64::MAX, i64::MIN, 0x0123_4567_89ab_cdef] {
        assert_eq!(UUID::from_i64(v).to_i64(), v);
    }
    assert_eq!(UUID::from_i64(0x0123_4567_89ab_cdef).to_string(), "0123456789abcdef");
    let fresh = UUID::new();
    let text = fresh.to_string();
    assert_eq!(text.len(), 16);
    assert_eq!(UUID::from_str(&text).unwrap(), fresh);
}

#[test]
fn boundary_codes_and_messages_follow_the_outcomes() {
    assert_eq!(LoginOutcome::Accepted(7).errcode(), 0);
    assert_eq!(LoginOutcome::NullParams.errcode(), 1);
    assert_eq!(LoginOutcome::IllegalParams.errcode(), 2);
    assert_eq!(LoginOutcome::InvalidCredentials.errcode(), 3);
    assert_eq!(LoginOutcome::Accepted(7).errmsg(), "Success");
    assert_eq!(LoginOutcome::NullParams.errmsg(), "Null email or password");
    assert_eq!(LoginOutcome::IllegalParams.errmsg(), "Illegal email or password");
    assert_eq!(LoginOutcome::InvalidCredentials.errmsg(), "Invalid email or password");
    assert_eq!(RegisterOutcome::Accepted.errcode(), 0);
    assert_eq!(RegisterOutcome::InvalidParams.errcode(), 4);
    assert_eq!(RegisterOutcome::EmailExists.errcode(), 5);
    assert_eq!(RegisterOutcome::InvalidParams.errmsg(), "Invalid register params");
    assert_eq!(RegisterOutcome::EmailExists.errmsg(), "Email already exists");
}

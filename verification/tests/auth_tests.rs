use svoyak::auth::{
    create_new_user, csrf_check, generate_session_token, get_user_role, go_to_log_in_page, go_to_sign_up_page, login,
    login_landing, new_user_from_hash, register_user, role_gate, CsrfCheck, LandingPage, LogInPage, LoginRefusal,
    SignupRefusal,
};
use csrf::CsrfProtection;
use svoyak::web::{SessionError, UserFormSignup};

const KEY: [u8; 32] = [7u8; 32];

#[test]
fn csrf_pair_made_with_the_key_passes() {
    let protect = csrf::AesGcmCsrfProtection::from_key(KEY);
    let (token, cookie) = protect.generate_token_pair(None, 300).unwrap();
    assert_eq!(csrf_check(KEY, &token.b64_string(), Some(&cookie.b64_string())), CsrfCheck::Passed);
    assert_eq!(csrf_check(KEY, &token.b64_string(), None), CsrfCheck::NoCookie);
    assert_eq!(csrf_check(KEY, "@@not base64@@", Some(&cookie.b64_string())), CsrfCheck::Malformed);
    let other = csrf::AesGcmCsrfProtection::from_key([9u8; 32]);
    let (token2, _) = other.generate_token_pair(None, 300).unwrap();
    assert_eq!(csrf_check(KEY, &token2.b64_string(), Some(&cookie.b64_string())), CsrfCheck::Malformed);
}

#[test]
fn password_check() {
    let hash = bcrypt::hash("секрет", 4).unwrap();
    assert_eq!(login(CsrfCheck::Passed, Some(&hash), "секрет"), Ok(()));
    assert_eq!(login(CsrfCheck::Passed, Some(&hash), "другой"), Err(LoginRefusal::PasswordIncorrect));
    assert_eq!(login(CsrfCheck::Passed, Some("not a hash"), "секрет"), Err(LoginRefusal::VerificationError));
    assert_eq!(login(CsrfCheck::Passed, None, "секрет"), Err(LoginRefusal::UnknownUser));
    assert_eq!(login(CsrfCheck::Failed, Some(&hash), "секрет"), Err(LoginRefusal::CsrfFailed));
    assert_eq!(login(CsrfCheck::NoCookie, Some(&hash), "секрет"), Err(LoginRefusal::NoCsrfCookie));
    assert_eq!(LoginRefusal::UnknownUser.header(), "Пользователь с таким логином не зарегистрирован");
    assert_eq!(LoginRefusal::NoCsrfCookie.header(), "Login failed");
}

#[test]
fn landing_by_role() {
    assert_eq!(login_landing("organiser"), Ok((LandingPage::LoggedIn, "Вы вошли в систему".to_string())));
    assert_eq!(login_landing("visitor"), Ok((LandingPage::Visitor, String::new())));
    assert_eq!(login_landing("admin"), Ok((LandingPage::Admin, String::new())));
    assert_eq!(login_landing("superadmin"), Ok((LandingPage::Superadmin, String::new())));
    assert_eq!(login_landing("guest"), Err(LoginRefusal::RoleUnknown));
    assert_eq!(get_user_role(None), "visitor");
    assert_eq!(get_user_role(Some("admin".into())), "admin");
}

#[test]
fn session_token_is_hex() {
    let token = generate_session_token(64);
    assert_eq!(token.len(), 128);
    assert!(token.chars().all(|c| c.is_ascii_digit() || ('A'..='F').contains(&c)));
    assert_ne!(generate_session_token(64), token);
    assert_eq!(generate_session_token(0), "");
}

#[test]
fn page_gates() {
    let gate = |user: Result<i64, SessionError>, role: Option<&str>| {
        role_gate(user, role, "admin", Some("superadmin"), "нет", "роль?", "чужая")
    };
    assert_eq!(gate(Ok(3), Some("admin")), Ok(3));
    assert_eq!(gate(Ok(3), Some("superadmin")), Ok(3));
    assert_eq!(gate(Ok(3), Some("organiser")), Err("чужая".to_string()));
    assert_eq!(gate(Ok(3), None), Err("роль?".to_string()));
    assert_eq!(gate(Err(SessionError::NoTokenFound), Some("admin")), Err("нет".to_string()));
}

#[test]
fn logins_are_unique() {
    let names = vec!["anna".to_string(), "boris".to_string()];
    assert_eq!(create_new_user(&names, "boris"), Err(SignupRefusal::LoginTaken));
    assert_eq!(create_new_user(&names, "vera"), Ok(()));
}

#[test]
fn log_in_page_hands_out_a_pair_that_passes() {
    assert!(matches!(go_to_log_in_page(Ok(3), KEY), LogInPage::LoggedIn));
    match go_to_log_in_page(Err(SessionError::NoTokenFound), KEY) {
        LogInPage::Form(pair) => {
            assert_eq!(csrf_check(KEY, &pair.token, Some(&pair.cookie)), CsrfCheck::Passed);
            let other = match go_to_log_in_page(Err(SessionError::NoTokenFound), KEY) {
                LogInPage::Form(p) => p,
                LogInPage::LoggedIn => panic!("the sign-in form was expected"),
            };
            assert_eq!(csrf_check(KEY, &pair.token, Some(&other.cookie)), CsrfCheck::Failed);
        }
        LogInPage::LoggedIn => panic!("the sign-in form was expected"),
    }
}

#[test]
fn sign_up_page_only_for_the_superadmin() {
    let (pair, access) = go_to_sign_up_page(Ok(5), Some("superadmin"), KEY);
    assert_eq!(access, Ok(5));
    assert_eq!(csrf_check(KEY, &pair.token, Some(&pair.cookie)), CsrfCheck::Passed);
    assert_eq!(go_to_sign_up_page(Ok(5), Some("organiser"), KEY).1, Err("Только для superadmin".to_string()));
    assert_eq!(go_to_sign_up_page(Ok(5), None, KEY).1, Err("Ваша роль не определена".to_string()));
    assert_eq!(go_to_sign_up_page(Err(SessionError::NoTokenFound), None, KEY).1, Err("Ваша ID не определен".to_string()));
}

fn signup(login: &str) -> UserFormSignup {
    UserFormSignup {
        username_signup: login.into(),
        password_signup: "пароль".into(),
        city_signup: "Омск".into(),
        role_signup: "organiser".into(),
        first_name_user: "Иван".into(),
        patronymic_user: "Иванович".into(),
        last_name_user: "Иванов".into(),
        phone_user: "1".into(),
        mail_user: "m@m".into(),
        csrf: String::new(),
    }
}

#[test]
fn new_user_from_the_hash() {
    let taken = vec!["olga".to_string()];
    match new_user_from_hash(Some("HASH".into()), &taken, &signup("ivan")) {
        Ok(u) => {
            assert_eq!(u.username_new_user, "ivan");
            assert_eq!(u.password_new_user, "HASH");
            assert_eq!(u.city_new_user, "Омск");
            assert_eq!(u.role_new_user, "organiser");
        }
        Err(e) => panic!("{}", e),
    }
    assert!(matches!(new_user_from_hash(Some("HASH".into()), &taken, &signup("olga")), Err(e) if e == "Логин уже занят!"));
    assert!(matches!(new_user_from_hash(None, &taken, &signup("ivan")), Err(e) if e == "Registration Failed!"));
}

#[test]
fn sign_up_stores_a_hash_of_the_password() {
    match register_user(CsrfCheck::Passed, Ok(1), Some("superadmin"), &vec![], &signup("ivan")) {
        Ok(u) => assert!(bcrypt::verify("пароль", &u.password_new_user).unwrap()),
        Err(e) => panic!("{}", e),
    }
    assert!(matches!(register_user(CsrfCheck::Passed, Ok(1), Some("organiser"), &vec![], &signup("ivan")), Err(e) if e == "роль не определена"));
    assert!(matches!(register_user(CsrfCheck::Failed, Ok(1), Some("admin"), &vec![], &signup("ivan")), Err(e) if e == "CSRF Verification Failed!"));
}

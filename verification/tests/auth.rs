use rn_site::auth::next::{is_same_origin_path, validate, DEFAULT, REFUSED};
use rn_site::auth::session::{clear, cookie, secure, COOKIE};
use rn_site::auth::session;
use rn_site::auth::page::{AuthPage, Failure, Fields};
use rn_site::config::Mode;

#[test]
fn a_path_on_this_origin_survives_with_its_query_and_fragment() {
    for path in ["/app", "/org/documents", "/app?tab=sessions", "/app#top"] {
        assert_eq!(validate(Some(path)), path, "{path}");
    }
}

#[test]
fn nothing_that_could_name_another_host_gets_through() {
    for hostile in [
        "https://evil.example/",
        "//evil.example/",
        "/\\evil.example/",
        "http:/evil.example",
        "javascript:alert(1)",
        "evil.example",
        "",
    ] {
        assert_eq!(validate(Some(hostile)), DEFAULT, "{hostile} was accepted");
    }
}

#[test]
fn a_value_cannot_split_the_location_header() {
    for injection in [
        "/app\r\nSet-Cookie: rn_session=stolen",
        "/app\nLocation: https://evil.example",
        "/app\u{0}",
    ] {
        assert_eq!(validate(Some(injection)), DEFAULT);
    }
}

#[test]
fn signing_in_never_lands_back_on_the_sign_in_page() {
    assert_eq!(validate(Some("/auth")), DEFAULT);
    assert_eq!(validate(Some("/auth/register")), DEFAULT);
    assert_eq!(validate(Some("/auth?next=/app")), DEFAULT);
    assert_eq!(validate(Some("/authors")), "/authors");
}

#[test]
fn an_absent_parameter_is_the_member_shell() {
    assert_eq!(validate(None), DEFAULT);
}

#[test]
fn the_fallback_is_itself_a_path_on_this_origin() {
    assert!(is_same_origin_path(DEFAULT));
    assert_eq!(validate(Some(validate(Some("//evil.example")).as_str())), DEFAULT);
    assert!(!is_same_origin_path(REFUSED[0]));
    assert!(is_same_origin_path("/"));
    assert!(!is_same_origin_path("/app\u{85}"), "a C1 control is a control");
    assert!(is_same_origin_path("/auth#x/y") == false);
    assert!(is_same_origin_path("/x?/auth"));
}

#[test]
fn the_session_cookie_is_found_among_its_neighbours() {
    let jar = Some("rn_theme=dark; rn_session=abc123; other=1");
    assert_eq!(cookie(jar, COOKIE).as_deref(), Some("abc123"));
    assert_eq!(cookie(jar, "rn_theme").as_deref(), Some("dark"));
    assert_eq!(cookie(jar, "absent"), None);
    assert_eq!(cookie(None, COOKIE), None);
}

#[test]
fn the_first_cookie_of_a_name_wins_and_a_piece_without_equals_is_skipped() {
    assert_eq!(cookie(Some("junk; rn_session = a=b ; rn_session=c"), COOKIE).as_deref(), Some("a=b"));
    assert_eq!(cookie(Some(""), COOKIE), None);
}

#[test]
fn production_marks_the_cookie_secure_and_dev_cannot_afford_to() {
    let prod = session::set("a-fake-token", 100, Mode::Prod);
    assert!(prod.contains("; Secure"), "{prod}");
    assert!(prod.contains("HttpOnly"));
    assert!(prod.contains("SameSite=Lax"));
    assert!(prod.starts_with("rn_session=a-fake-token; Path=/"));
    assert!(!session::set("a-fake-token", 100, Mode::Dev).contains("Secure"));
}

#[test]
fn a_cookie_is_written_exactly() {
    assert_eq!(
        session::set("t", 100, Mode::Prod),
        "rn_session=t; Path=/; HttpOnly; SameSite=Lax; Max-Age=100; Secure"
    );
    assert_eq!(
        session::set("t", -5, Mode::Dev),
        "rn_session=t; Path=/; HttpOnly; SameSite=Lax; Max-Age=0",
        "a negative age is no age"
    );
    assert_eq!(secure(Mode::Dev), "");
}

#[test]
fn clearing_expires_the_cookie_on_the_same_path_it_was_set() {
    let cleared = clear(Mode::Prod);
    assert!(cleared.contains("Max-Age=0"));
    assert!(cleared.contains("Path=/"));
    assert!(cleared.contains("; Secure"));
}

#[test]
fn clearing_in_dev_is_not_secure() {
    assert_eq!(clear(Mode::Dev), "rn_session=; Path=/; HttpOnly; SameSite=Lax; Max-Age=0");
}

#[test]
fn the_cookie_a_session_start_sets_is_read_back_from_the_next_request() {
    let written = session::set("tok_123", 3600, Mode::Prod);
    let returned = written.split(';').next().unwrap().to_string();
    assert_eq!(returned, "rn_session=tok_123");
    assert_eq!(cookie(Some(&returned), COOKIE), Some("tok_123".to_string()));
    let among = format!("theme=dark; {returned}");
    assert_eq!(cookie(Some(&among), COOKIE), Some("tok_123".to_string()));
}

fn fresh_page() -> AuthPage {
    AuthPage::new("dark", "1.2.3".to_string(), "/app".to_string(), ("", ""))
}

#[test]
fn a_fresh_page_opens_on_the_sign_in_form_with_nothing_typed() {
    let page = fresh_page();
    assert_eq!(page.focus, "sign-in");
    assert_eq!(page.sign_in, Fields::blank());
    assert_eq!(page.register, Fields::blank());
    assert_eq!(page.next, "/app");
}

#[test]
fn a_shape_error_lands_beside_its_field_in_the_form_it_came_from() {
    let mut page = fresh_page();
    page.registering("Ada".to_string(), "ada".to_string(), "ada@example.invalid".to_string());
    let (status, page) = page.refuse(&Failure::Invalid { field: "handle", message: "that handle is taken".to_string() });
    assert_eq!(status, 422);
    assert_eq!(page.register.error_handle, "that handle is taken");
    assert_eq!(page.register.email, "ada@example.invalid");
    assert_eq!(page.sign_in, Fields::blank());

    let (_, page) = fresh_page().refuse(&Failure::Invalid { field: "kind", message: "no such factor".to_string() });
    assert_eq!(page.sign_in.error_form, "no such factor");
}

#[test]
fn every_other_refusal_reads_the_same_and_an_unreadable_form_says_so() {
    let (status, page) = fresh_page().refuse(&Failure::Refused);
    assert_eq!(status, 403);
    assert_eq!(page.sign_in.error_form, "that did not work");
    let (status, page) = fresh_page().refuse(&Failure::Malformed);
    assert_eq!(status, 422);
    assert_eq!(page.sign_in.error_form, "that form could not be read");
}

#[test]
fn a_login_hint_prefills_the_address_and_a_blank_one_does_nothing() {
    let mut page = fresh_page();
    page.prefill(Some("  ada@example.invalid "));
    assert_eq!(page.sign_in.email, "ada@example.invalid");
    let mut blank = fresh_page();
    blank.prefill(Some("   "));
    assert_eq!(blank, fresh_page());
    blank.prefill(None);
    assert_eq!(blank, fresh_page());
}

#[test]
fn the_focused_form_is_the_one_the_reader_was_in() {
    let mut page = fresh_page();
    page.focused().email = "x@example.invalid".to_string();
    assert_eq!(page.sign_in.email, "x@example.invalid");
    page.registering(String::new(), String::new(), String::new());
    page.focused().error_form = "y".to_string();
    assert_eq!(page.register.error_form, "y");
}

use onyx::relay::{greet, relay_link_url, relay_otp_url};
use onyx::templates::{generate_base_template, magic_link_email, otp_email};

#[test]
fn otp_email_has_the_exact_plain_body() {
    let m = otp_email("123456");
    assert_eq!(m.subject, "Onyx Verification Code");
    assert_eq!(
        m.text,
        "ONYX\n\nVerify your identity.\n\nYour code: 123456\n\nExpires in 15 minutes.\n\nIf you didn't request this, ignore this email.\n\n—\nStateless relay · Zero-knowledge · No logs"
    );
}

#[test]
fn otp_email_boxes_each_digit() {
    let m = otp_email("427");
    assert!(m.html.contains("Verify Your Identity"));
    assert!(m.html.contains("Enter this code in the app to continue."));
    // the hidden preheader carries the whole code
    assert!(m.html.contains("mso-hide: all;\">427</div>"));
    // one styled cell per digit, spacers between neighbours
    for d in ["4", "2", "7"] {
        let cell = format!("letter-spacing: 0;\">{}</td>", d);
        assert!(m.html.contains(&cell));
    }
    let spacers = m.html.matches("<td style=\"width: 8px;\"></td>").count();
    assert_eq!(spacers, 2);
    assert!(m.html.contains("15 minutes"));
}

#[test]
fn otp_email_with_an_empty_code_still_renders() {
    let m = otp_email("");
    assert!(m.html.contains("<!DOCTYPE html>"));
    assert!(!m.html.contains("<td style=\"width: 8px;\"></td>"));
    assert!(m.text.contains("Your code: \n"));
}

#[test]
fn magic_link_email_has_the_exact_plain_body() {
    let m = magic_link_email("https://example.invalid/login?t=abc");
    assert_eq!(m.subject, "Log in to Onyx");
    assert_eq!(
        m.text,
        "ONYX\n\nWelcome back.\n\nOpen this link to log in:\nhttps://example.invalid/login?t=abc\n\nExpires in 1 hour.\n\n—\nStateless relay · Zero-knowledge · No logs"
    );
}

#[test]
fn magic_link_email_puts_the_link_on_the_button() {
    let m = magic_link_email("https://example.invalid/login?t=abc");
    assert!(m.html.contains("<a href=\"https://example.invalid/login?t=abc\""));
    assert!(m.html.contains("Open Onyx</a>"));
    assert!(m.html.contains("Welcome Back"));
    assert!(m.html.contains("Tap below to decrypt your workspace."));
    assert!(m.html.contains("1 hour"));
}

#[test]
fn base_template_frames_title_message_and_content() {
    let html = generate_base_template("A Title", "A message.", "<tr><td>X</td></tr>");
    assert!(html.contains("<!DOCTYPE html>"));
    assert!(html.contains("letter-spacing: -0.3px;\">A Title</h1>"));
    assert!(html.contains("A message.</p>"));
    assert!(html.contains("<tr><td>X</td></tr>"));
    assert!(html.contains("Zero-Knowledge"));
    assert!(html.trim_end().ends_with("</html>"));
}

#[test]
fn relay_urls_trim_trailing_slashes() {
    assert_eq!(relay_otp_url("http://127.0.0.1:3005"), "http://127.0.0.1:3005/api/email/otp");
    assert_eq!(relay_otp_url("http://127.0.0.1:3005/"), "http://127.0.0.1:3005/api/email/otp");
    assert_eq!(relay_link_url("https://relay.test///"), "https://relay.test/api/email/link");
    assert_eq!(relay_link_url(""), "/api/email/link");
    assert_eq!(relay_link_url("///"), "/api/email/link");
}

#[test]
fn greet_names_the_operator() {
    assert_eq!(greet("Neo"), "Welcome to ONYX, Operator Neo!");
    assert_eq!(greet(""), "Welcome to ONYX, Operator !");
}

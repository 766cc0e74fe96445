use vstd::prelude::*;

verus! {

/// The subject and the two alternative bodies -- styled and plain -- of one
/// transactional email the relay dispatches.
pub struct EmailContent {
    pub subject: String,
    pub html: String,
    pub text: String,
}

/// The frame of every message: the shared dark-styled document around a
/// title, a lead message and one block of action markup.
pub open spec fn spec_base_template(
    title: Seq<char>,
    message: Seq<char>,
    content: Seq<char>,
) -> Seq<char> {
    "
<!DOCTYPE html>
<html>
<head>
  <meta charset=\"utf-8\">
  <meta name=\"viewport\" content=\"width=device-width, initial-scale=1.0\">
  <meta name=\"color-scheme\" content=\"dark\">
  <meta name=\"supported-color-schemes\" content=\"dark\">
  <title>Onyx</title>
  <!--[if mso]>
  <style>
    table { border-collapse: collapse; }
    .card { background-color: #0a0a0c !important; }
  </style>
  <![endif]-->
</head>
<body style=\"margin: 0; padding: 0; background-color: #030304; font-family: -apple-system, BlinkMacSystemFont, 'Segoe UI', Roboto, Helvetica, Arial, sans-serif; -webkit-font-smoothing: antialiased; -webkit-text-size-adjust: 100%;\">

  <!-- Outer wrapper -->
  <table width=\"100%\" cellpadding=\"0\" cellspacing=\"0\" border=\"0\" style=\"background-color: #030304;\">
    <tr>
      <td align=\"center\" style=\"padding: 48px 20px;\">

        <!-- Card -->
        <table width=\"100%\" cellpadding=\"0\" cellspacing=\"0\" border=\"0\" style=\"max-width: 440px; border-collapse: collapse;\">
          <tr>
            <td class=\"card\" style=\"background-color: #0a0a0c; border-radius: 24px; padding: 0; border: 1px solid rgba(255,255,255,0.04); overflow: hidden;\">

              <!-- Purple accent bar at top -->
              <table width=\"100%\" cellpadding=\"0\" cellspacing=\"0\" border=\"0\" style=\"border-collapse: collapse;\">
                <tr>
                  <td style=\"height: 3px; background: linear-gradient(90deg, transparent 0%, #7c3aed 25%, #a855f7 50%, #7c3aed 75%, transparent 100%);\"></td>
                </tr>
              </table>

              <!-- Inner content -->
              <table width=\"100%\" cellpadding=\"0\" cellspacing=\"0\" border=\"0\" style=\"border-collapse: collapse; padding: 0;\">
                <tr>
                  <td style=\"padding: 36px 32px 28px 32px;\">

                    <table width=\"100%\" cellpadding=\"0\" cellspacing=\"0\" border=\"0\" style=\"border-collapse: collapse;\">

                      <!-- Logo -->
                      <tr>
                        <td align=\"center\" style=\"padding: 0 0 24px 0;\">
                          <span style=\"font-size: 20px; font-weight: 800; color: #ffffff; letter-spacing: 4px; font-family: -apple-system, BlinkMacSystemFont, 'Segoe UI', Roboto, sans-serif;\">ONYX</span><span style=\"color: #a855f7; font-size: 20px; font-weight: 800;\">.</span>
                        </td>
                      </tr>

                      <!-- Title -->
                      <tr>
                        <td align=\"center\" style=\"padding: 0 0 6px 0;\">
                          <h1 style=\"margin: 0; font-size: 22px; font-weight: 700; color: #fafafa; font-family: -apple-system, BlinkMacSystemFont, 'Segoe UI', Roboto, sans-serif; letter-spacing: -0.3px;\">"@ + title + "</h1>
                        </td>
                      </tr>

                      <!-- Message -->
                      <tr>
                        <td align=\"center\" style=\"padding: 0 0 28px 0;\">
                          <p style=\"margin: 0; font-size: 14px; color: #71717a; line-height: 1.6; font-family: -apple-system, BlinkMacSystemFont, 'Segoe UI', Roboto, sans-serif;\">"@ + message + "</p>
                        </td>
                      </tr>

                      <!-- Dynamic Content -->
                      "@ + content + "

                      <!-- Divider -->
                      <tr>
                        <td style=\"padding: 18px 20px 16px 20px;\">
                          <div style=\"height: 2px; background: linear-gradient(90deg, transparent, rgba(168, 85, 247, 0.25), transparent); border-radius: 1px;\"></div>
                        </td>
                      </tr>

                      <!-- ZK Badge -->
                      <tr>
                        <td align=\"center\" style=\"padding: 0 0 10px 0;\">
                          <table cellpadding=\"0\" cellspacing=\"0\" border=\"0\" style=\"border-collapse: collapse;\">
                            <tr>
                              <td style=\"background-color: rgba(124, 58, 237, 0.08); border-radius: 100px; padding: 7px 18px; border: 1px solid rgba(255,255,255,0.06);\">
                                <span style=\"font-size: 10px; font-weight: 700; color: #a78bfa; letter-spacing: 1.2px; text-transform: uppercase; font-family: -apple-system, BlinkMacSystemFont, 'Segoe UI', Roboto, sans-serif;\">&#128274;&ensp;Zero-Knowledge</span>
                              </td>
                            </tr>
                          </table>
                        </td>
                      </tr>

                      <!-- Footer -->
                      <tr>
                        <td align=\"center\" style=\"padding: 0 0 4px 0;\">
                          <p style=\"margin: 0; font-size: 10px; color: #3f3f46; line-height: 1.8; font-family: -apple-system, BlinkMacSystemFont, 'Segoe UI', Roboto, sans-serif; letter-spacing: 0.3px;\">Dispatched via stateless relay<br>No metadata or content logged</p>
                        </td>
                      </tr>

                    </table>

                  </td>
                </tr>
              </table>

            </td>
          </tr>
        </table>

        <!-- Outside-card footer -->
        <table width=\"100%\" cellpadding=\"0\" cellspacing=\"0\" border=\"0\" style=\"max-width: 440px; border-collapse: collapse;\">
          <tr>
            <td align=\"center\" style=\"padding: 20px 0 0 0;\">
              <p style=\"margin: 0; font-size: 10px; color: #27272a; font-family: -apple-system, BlinkMacSystemFont, 'Segoe UI', Roboto, sans-serif; letter-spacing: 0.3px;\">If you didn't request this, you can safely ignore it.</p>
            </td>
          </tr>
        </table>

      </td>
    </tr>
  </table>
</body>
</html>
        "@
}

/// Renders the shared frame around a title, a message and action markup.
pub fn generate_base_template(title: &str, message: &str, content: &str) -> (r: String)
    ensures
        r@ == spec_base_template(title@, message@, content@),
{
    let mut s = "
<!DOCTYPE html>
<html>
<head>
  <meta charset=\"utf-8\">
  <meta name=\"viewport\" content=\"width=device-width, initial-scale=1.0\">
  <meta name=\"color-scheme\" content=\"dark\">
  <meta name=\"supported-color-schemes\" content=\"dark\">
  <title>Onyx</title>
  <!--[if mso]>
  <style>
    table { border-collapse: collapse; }
    .card { background-color: #0a0a0c !important; }
  </style>
  <![endif]-->
</head>
<body style=\"margin: 0; padding: 0; background-color: #030304; font-family: -apple-system, BlinkMacSystemFont, 'Segoe UI', Roboto, Helvetica, Arial, sans-serif; -webkit-font-smoothing: antialiased; -webkit-text-size-adjust: 100%;\">

  <!-- Outer wrapper -->
  <table width=\"100%\" cellpadding=\"0\" cellspacing=\"0\" border=\"0\" style=\"background-color: #030304;\">
    <tr>
      <td align=\"center\" style=\"padding: 48px 20px;\">

        <!-- Card -->
        <table width=\"100%\" cellpadding=\"0\" cellspacing=\"0\" border=\"0\" style=\"max-width: 440px; border-collapse: collapse;\">
          <tr>
            <td class=\"card\" style=\"background-color: #0a0a0c; border-radius: 24px; padding: 0; border: 1px solid rgba(255,255,255,0.04); overflow: hidden;\">

              <!-- Purple accent bar at top -->
              <table width=\"100%\" cellpadding=\"0\" cellspacing=\"0\" border=\"0\" style=\"border-collapse: collapse;\">
                <tr>
                  <td style=\"height: 3px; background: linear-gradient(90deg, transparent 0%, #7c3aed 25%, #a855f7 50%, #7c3aed 75%, transparent 100%);\"></td>
                </tr>
              </table>

              <!-- Inner content -->
              <table width=\"100%\" cellpadding=\"0\" cellspacing=\"0\" border=\"0\" style=\"border-collapse: collapse; padding: 0;\">
                <tr>
                  <td style=\"padding: 36px 32px 28px 32px;\">

                    <table width=\"100%\" cellpadding=\"0\" cellspacing=\"0\" border=\"0\" style=\"border-collapse: collapse;\">

                      <!-- Logo -->
                      <tr>
                        <td align=\"center\" style=\"padding: 0 0 24px 0;\">
                          <span style=\"font-size: 20px; font-weight: 800; color: #ffffff; letter-spacing: 4px; font-family: -apple-system, BlinkMacSystemFont, 'Segoe UI', Roboto, sans-serif;\">ONYX</span><span style=\"color: #a855f7; font-size: 20px; font-weight: 800;\">.</span>
                        </td>
                      </tr>

                      <!-- Title -->
                      <tr>
                        <td align=\"center\" style=\"padding: 0 0 6px 0;\">
                          <h1 style=\"margin: 0; font-size: 22px; font-weight: 700; color: #fafafa; font-family: -apple-system, BlinkMacSystemFont, 'Segoe UI', Roboto, sans-serif; letter-spacing: -0.3px;\">".to_owned();
    s.append(title);
    s.append("</h1>
                        </td>
                      </tr>

                      <!-- Message -->
                      <tr>
                        <td align=\"center\" style=\"padding: 0 0 28px 0;\">
                          <p style=\"margin: 0; font-size: 14px; color: #71717a; line-height: 1.6; font-family: -apple-system, BlinkMacSystemFont, 'Segoe UI', Roboto, sans-serif;\">");
    s.append(message);
    s.append("</p>
                        </td>
                      </tr>

                      <!-- Dynamic Content -->
                      ");
    s.append(content);
    s.append("

                      <!-- Divider -->
                      <tr>
                        <td style=\"padding: 18px 20px 16px 20px;\">
                          <div style=\"height: 2px; background: linear-gradient(90deg, transparent, rgba(168, 85, 247, 0.25), transparent); border-radius: 1px;\"></div>
                        </td>
                      </tr>

                      <!-- ZK Badge -->
                      <tr>
                        <td align=\"center\" style=\"padding: 0 0 10px 0;\">
                          <table cellpadding=\"0\" cellspacing=\"0\" border=\"0\" style=\"border-collapse: collapse;\">
                            <tr>
                              <td style=\"background-color: rgba(124, 58, 237, 0.08); border-radius: 100px; padding: 7px 18px; border: 1px solid rgba(255,255,255,0.06);\">
                                <span style=\"font-size: 10px; font-weight: 700; color: #a78bfa; letter-spacing: 1.2px; text-transform: uppercase; font-family: -apple-system, BlinkMacSystemFont, 'Segoe UI', Roboto, sans-serif;\">&#128274;&ensp;Zero-Knowledge</span>
                              </td>
                            </tr>
                          </table>
                        </td>
                      </tr>

                      <!-- Footer -->
                      <tr>
                        <td align=\"center\" style=\"padding: 0 0 4px 0;\">
                          <p style=\"margin: 0; font-size: 10px; color: #3f3f46; line-height: 1.8; font-family: -apple-system, BlinkMacSystemFont, 'Segoe UI', Roboto, sans-serif; letter-spacing: 0.3px;\">Dispatched via stateless relay<br>No metadata or content logged</p>
                        </td>
                      </tr>

                    </table>

                  </td>
                </tr>
              </table>

            </td>
          </tr>
        </table>

        <!-- Outside-card footer -->
        <table width=\"100%\" cellpadding=\"0\" cellspacing=\"0\" border=\"0\" style=\"max-width: 440px; border-collapse: collapse;\">
          <tr>
            <td align=\"center\" style=\"padding: 20px 0 0 0;\">
              <p style=\"margin: 0; font-size: 10px; color: #27272a; font-family: -apple-system, BlinkMacSystemFont, 'Segoe UI', Roboto, sans-serif; letter-spacing: 0.3px;\">If you didn't request this, you can safely ignore it.</p>
            </td>
          </tr>
        </table>

      </td>
    </tr>
  </table>
</body>
</html>
        ");
    s
}

/// One passcode digit, boxed as a table cell.
pub open spec fn spec_digit_cell(c: char) -> Seq<char> {
    "<td style=\"width: 48px; height: 60px; background-color: #141416; border-radius: 12px; text-align: center; vertical-align: middle; border: 1px solid rgba(255,255,255,0.06); font-family: -apple-system, BlinkMacSystemFont, 'Segoe UI', Roboto, sans-serif; font-size: 30px; font-weight: 800; color: #fafafa; letter-spacing: 0;\">"@ + seq![c] + "</td>"@
}

/// All passcode digits as cells, a narrow spacer cell between neighbours.
pub open spec fn spec_digit_cells(code: Seq<char>) -> Seq<char>
    decreases code.len(),
{
    if code.len() == 0 {
        Seq::<char>::empty()
    } else if code.len() == 1 {
        spec_digit_cell(code[0])
    } else {
        spec_digit_cells(code.drop_last()) + "<td style=\"width: 8px;\"></td>"@ + spec_digit_cell(code.last())
    }
}

/// Renders the passcode digits as spaced cells.
fn digit_cells(code: &str) -> (r: String)
    ensures
        r@ == spec_digit_cells(code@),
{
    let n = code.unicode_len();
    let mut digits = String::new();
    let mut i: usize = 0;
    proof {
        assert(code@.subrange(0, 0) =~= Seq::<char>::empty());
    }
    while i < n
        invariant
            i <= n,
            n == code@.len(),
            digits@ == spec_digit_cells(code@.subrange(0, i as int)),
        decreases n - i,
    {
        if i > 0 {
            digits.append("<td style=\"width: 8px;\"></td>");
        }
        digits.append("<td style=\"width: 48px; height: 60px; background-color: #141416; border-radius: 12px; text-align: center; vertical-align: middle; border: 1px solid rgba(255,255,255,0.06); font-family: -apple-system, BlinkMacSystemFont, 'Segoe UI', Roboto, sans-serif; font-size: 30px; font-weight: 800; color: #fafafa; letter-spacing: 0;\">");
        digits.append(code.substring_char(i, i + 1));
        digits.append("</td>");
        proof {
            let pre = code@.subrange(0, i as int);
            let nxt = code@.subrange(0, i as int + 1);
            assert(nxt.drop_last() =~= pre);
            assert(nxt.last() == code@[i as int]);
            assert(code@.subrange(i as int, i as int + 1) =~= seq![code@[i as int]]);
            if i == 0 {
                assert(digits@ =~= spec_digit_cell(code@[0]));
            } else {
                assert(digits@ =~= spec_digit_cells(pre) + "<td style=\"width: 8px;\"></td>"@ + spec_digit_cell(
                    code@[i as int],
                ));
            }
            assert(digits@ == spec_digit_cells(nxt));
        }
        i = i + 1;
    }
    proof {
        assert(code@.subrange(0, n as int) =~= code@);
    }
    digits
}

/// The action block of the passcode message: a copy-safe hidden preheader
/// carrying the code, the digit cells, and the expiry note.
pub open spec fn spec_otp_action(code: Seq<char>) -> Seq<char> {
    "
        <tr>
          <td align=\"center\" style=\"padding: 0 0 0 0;\">
            <div style=\"max-height: 0; overflow: hidden; font-size: 1px; line-height: 1px; color: #030304; mso-hide: all;\">"@ + code + "</div>
            <table cellpadding=\"0\" cellspacing=\"0\" border=\"0\" style=\"border-collapse: collapse;\" aria-hidden=\"true\">
              <tr>
                "@ + spec_digit_cells(code) + "
              </tr>
            </table>
          </td>
        </tr>
        <tr>
          <td align=\"center\" style=\"padding: 12px 0 4px 0;\">
            <p style=\"margin: 0; font-size: 12px; color: #52525b; font-family: -apple-system, BlinkMacSystemFont, 'Segoe UI', Roboto, sans-serif;\">Expires in <span style=\"color: #a78bfa; font-weight: 600;\">15 minutes</span></p>
          </td>
        </tr>
        "@
}

/// The styled body of the passcode message.
pub open spec fn spec_otp_html(code: Seq<char>) -> Seq<char> {
    spec_base_template(
        "Verify Your Identity"@,
        "Enter this code in the app to continue."@,
        spec_otp_action(code),
    )
}

/// The plain body of the passcode message.
pub open spec fn spec_otp_text(code: Seq<char>) -> Seq<char> {
    "ONYX\n\nVerify your identity.\n\nYour code: "@ + code + "\n\nExpires in 15 minutes.\n\nIf you didn't request this, ignore this email.\n\n—\nStateless relay · Zero-knowledge · No logs"@
}

/// The one-time-passcode message for a given code: subject, styled body and
/// plain body, the code standing verbatim in both bodies.
pub fn otp_email(code: &str) -> (r: EmailContent)
    ensures
        r.subject@ == "Onyx Verification Code"@,
        r.html@ == spec_otp_html(code@),
        r.text@ == spec_otp_text(code@),
{
    let subject = "Onyx Verification Code".to_owned();
    let digits = digit_cells(code);
    let mut action = "
        <tr>
          <td align=\"center\" style=\"padding: 0 0 0 0;\">
            <div style=\"max-height: 0; overflow: hidden; font-size: 1px; line-height: 1px; color: #030304; mso-hide: all;\">".to_owned();
    action.append(code);
    action.append("</div>
            <table cellpadding=\"0\" cellspacing=\"0\" border=\"0\" style=\"border-collapse: collapse;\" aria-hidden=\"true\">
              <tr>
                ");
    action.append(digits.as_str());
    action.append("
              </tr>
            </table>
          </td>
        </tr>
        <tr>
          <td align=\"center\" style=\"padding: 12px 0 4px 0;\">
            <p style=\"margin: 0; font-size: 12px; color: #52525b; font-family: -apple-system, BlinkMacSystemFont, 'Segoe UI', Roboto, sans-serif;\">Expires in <span style=\"color: #a78bfa; font-weight: 600;\">15 minutes</span></p>
          </td>
        </tr>
        ");
    let html = generate_base_template(
        "Verify Your Identity",
        "Enter this code in the app to continue.",
        action.as_str(),
    );
    let mut text = "ONYX\n\nVerify your identity.\n\nYour code: ".to_owned();
    text.append(code);
    text.append("\n\nExpires in 15 minutes.\n\nIf you didn't request this, ignore this email.\n\n—\nStateless relay · Zero-knowledge · No logs");
    EmailContent { subject: subject, html: html, text: text }
}

/// The action block of the sign-in-link message: the button holding the
/// link, and the expiry note.
pub open spec fn spec_link_action(link: Seq<char>) -> Seq<char> {
    "
        <tr>
          <td align=\"center\" style=\"padding: 4px 0 12px 0;\">
            <table cellpadding=\"0\" cellspacing=\"0\" border=\"0\" style=\"border-collapse: collapse;\">
              <tr>
                <td align=\"center\" style=\"background: linear-gradient(135deg, #7c3aed, #a855f7); border-radius: 14px; mso-padding-alt: 16px 44px;\">
                  <a href=\""@ + link + "\" style=\"display: inline-block; padding: 16px 44px; color: #ffffff; text-decoration: none; font-weight: 700; font-size: 15px; font-family: -apple-system, BlinkMacSystemFont, 'Segoe UI', Roboto, sans-serif; letter-spacing: 0.3px;\">Open Onyx</a>
                </td>
              </tr>
            </table>
          </td>
        </tr>
        <tr>
          <td align=\"center\" style=\"padding: 12px 0 4px 0;\">
            <p style=\"margin: 0; font-size: 12px; color: #52525b; font-family: -apple-system, BlinkMacSystemFont, 'Segoe UI', Roboto, sans-serif;\">Link expires in <span style=\"color: #a78bfa; font-weight: 600;\">1 hour</span></p>
          </td>
        </tr>
        "@
}

/// The styled body of the sign-in-link message.
pub open spec fn spec_link_html(link: Seq<char>) -> Seq<char> {
    spec_base_template(
        "Welcome Back"@,
        "Tap below to decrypt your workspace."@,
        spec_link_action(link),
    )
}

/// The plain body of the sign-in-link message.
pub open spec fn spec_link_text(link: Seq<char>) -> Seq<char> {
    "ONYX\n\nWelcome back.\n\nOpen this link to log in:\n"@ + link + "\n\nExpires in 1 hour.\n\n—\nStateless relay · Zero-knowledge · No logs"@
}

/// The sign-in-link message for a given link: subject, styled body and
/// plain body, the link standing verbatim in both bodies.
pub fn magic_link_email(link: &str) -> (r: EmailContent)
    ensures
        r.subject@ == "Log in to Onyx"@,
        r.html@ == spec_link_html(link@),
        r.text@ == spec_link_text(link@),
{
    let subject = "Log in to Onyx".to_owned();
    let mut action = "
        <tr>
          <td align=\"center\" style=\"padding: 4px 0 12px 0;\">
            <table cellpadding=\"0\" cellspacing=\"0\" border=\"0\" style=\"border-collapse: collapse;\">
              <tr>
                <td align=\"center\" style=\"background: linear-gradient(135deg, #7c3aed, #a855f7); border-radius: 14px; mso-padding-alt: 16px 44px;\">
                  <a href=\"".to_owned();
    action.append(link);
    action.append("\" style=\"display: inline-block; padding: 16px 44px; color: #ffffff; text-decoration: none; font-weight: 700; font-size: 15px; font-family: -apple-system, BlinkMacSystemFont, 'Segoe UI', Roboto, sans-serif; letter-spacing: 0.3px;\">Open Onyx</a>
                </td>
              </tr>
            </table>
          </td>
        </tr>
        <tr>
          <td align=\"center\" style=\"padding: 12px 0 4px 0;\">
            <p style=\"margin: 0; font-size: 12px; color: #52525b; font-family: -apple-system, BlinkMacSystemFont, 'Segoe UI', Roboto, sans-serif;\">Link expires in <span style=\"color: #a78bfa; font-weight: 600;\">1 hour</span></p>
          </td>
        </tr>
        ");
    let html = generate_base_template(
        "Welcome Back",
        "Tap below to decrypt your workspace.",
        action.as_str(),
    );
    let mut text = "ONYX\n\nWelcome back.\n\nOpen this link to log in:\n".to_owned();
    text.append(link);
    text.append("\n\nExpires in 1 hour.\n\n—\nStateless relay · Zero-knowledge · No logs");
    EmailContent { subject: subject, html: html, text: text }
}

} // verus!

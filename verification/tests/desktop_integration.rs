use jira_gpui::desktop_integration::{
    escape_exec_argument, resolve_data_home, rewrite_desktop_entry, validate_png, MAX_ICON_BYTES,
};

const DESKTOP: &[u8] = b"[Desktop Entry]\nType=Application\nName=Jira Desk\nComment=Focused Jira workspace\nExec=jira-gpui\nIcon=dev.jiradesk.JiraDesk\nTerminal=false\n";

fn png_256() -> Vec<u8> {
    let mut png = b"\x89PNG\r\n\x1a\n\x00\x00\x00\x0dIHDR".to_vec();
    png.extend_from_slice(&256_u32.to_be_bytes());
    png.extend_from_slice(&256_u32.to_be_bytes());
    png.extend_from_slice(&[8, 6, 0, 0, 0]);
    png
}

#[test]
fn resolves_data_home_and_home_fallback_only_when_absolute() {
    assert_eq!(
        resolve_data_home(Some("/xdg"), Some("/home")),
        Some("/xdg".to_owned())
    );
    assert_eq!(
        resolve_data_home(None, Some("/home")),
        Some("/home/.local/share".to_owned())
    );
    assert_eq!(
        resolve_data_home(Some("relative"), Some("/home")),
        Some("/home/.local/share".to_owned())
    );
    assert_eq!(resolve_data_home(None, Some("relative")), None);
}

#[test]
fn rewrites_exact_exec_line_and_escapes_special_characters() {
    let appimage = format!(
        "/tmp/Jira Desk \"release\\100%$file{}tick.AppImage",
        96_u8 as char
    );
    let result = rewrite_desktop_entry(DESKTOP, &appimage).expect("desktop");
    assert!(std::str::from_utf8(&result)
        .expect("utf8")
        .contains("Name=Jira Desk"));
    assert!(std::str::from_utf8(&result)
        .expect("utf8")
        .contains("Icon=dev.jiradesk.JiraDesk"));
    assert!(std::str::from_utf8(&result)
        .expect("utf8")
        .contains(&format!(
            r#"Exec="/tmp/Jira Desk \"release\\100%%\$file\{}tick.AppImage""#,
            96_u8 as char
        )));
    assert!(rewrite_desktop_entry(DESKTOP, "/tmp/new\nline").is_err());
}

#[test]
fn rejects_ambiguous_unlocalized_desktop_fields() {
    let template = [
        DESKTOP,
        b"Name=Attacker\n",
        b"Icon=attacker\n",
        b"Exec=attacker\n",
    ]
    .concat();
    assert!(rewrite_desktop_entry(&template, "/tmp/jira.AppImage").is_err());
}

#[test]
fn embedded_fixture_png_is_bounded_and_256_pixels() {
    let png = png_256();
    validate_png(&png).expect("png");
    assert!(png.len() < MAX_ICON_BYTES);
}

#[test]
fn rewrite_keeps_every_other_byte_of_the_template() {
    let result = rewrite_desktop_entry(DESKTOP, "/opt/Jira.AppImage").expect("desktop");
    let expected = b"[Desktop Entry]\nType=Application\nName=Jira Desk\nComment=Focused Jira workspace\nExec=\"/opt/Jira.AppImage\"\nIcon=dev.jiradesk.JiraDesk\nTerminal=false\n";
    assert_eq!(result, expected.to_vec());
}

#[test]
fn rewrite_accepts_a_last_line_without_newline() {
    let template = b"Name=Jira Desk\nIcon=dev.jiradesk.JiraDesk\nExec=jira-gpui";
    let result = rewrite_desktop_entry(template, "/a").expect("desktop");
    assert_eq!(
        result,
        b"Name=Jira Desk\nIcon=dev.jiradesk.JiraDesk\nExec=\"/a\"".to_vec()
    );
}

#[test]
fn rewrite_rejects_missing_placeholder_empty_path_and_invalid_utf8() {
    let without_exec = b"Name=Jira Desk\nIcon=dev.jiradesk.JiraDesk\n";
    assert!(rewrite_desktop_entry(without_exec, "/a").is_err());
    assert!(rewrite_desktop_entry(DESKTOP, "").is_err());
    let mut invalid = DESKTOP.to_vec();
    invalid.push(0xff);
    assert!(rewrite_desktop_entry(&invalid, "/a").is_err());
    let oversized = vec![b'a'; 65537];
    assert!(rewrite_desktop_entry(&oversized, "/a").is_err());
}

#[test]
fn exec_argument_escaping_covers_each_special_character() {
    assert_eq!(escape_exec_argument("plain"), "plain");
    assert_eq!(escape_exec_argument("a\"b"), "a\\\"b");
    assert_eq!(escape_exec_argument("$"), "\\$");
    assert_eq!(escape_exec_argument("%"), "%%");
    assert_eq!(escape_exec_argument("\\"), "\\\\");
    assert_eq!(escape_exec_argument("`"), "\\`");
}

#[test]
fn icon_validation_rejects_wrong_size_signature_and_length() {
    let mut wrong_width = png_256();
    wrong_width[18] = 2;
    assert!(validate_png(&wrong_width).is_err());
    let mut wrong_signature = png_256();
    wrong_signature[0] = 0;
    assert!(validate_png(&wrong_signature).is_err());
    assert!(validate_png(&png_256()[..23]).is_err());
    let mut wrong_chunk = png_256();
    wrong_chunk[12] = b'X';
    assert!(validate_png(&wrong_chunk).is_err());
}

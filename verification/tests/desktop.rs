use outlook_for_linux::desktop::{
    compose_window_label, first_mailto, is_main_window, notification_text, parse_unread,
    second_launch_action, shows_unread_badge, tray_menu_action, tray_update, LaunchAction, TrayAction, TrayIcon,
};

#[test]
fn unread_from_title() {
    assert_eq!(parse_unread("Inbox (5) - nikolai@example.com - Outlook"), 5);
    assert_eq!(parse_unread("(2) Inbox - Outlook"), 2);
    assert_eq!(parse_unread("Inbox - Outlook"), 0);
    assert_eq!(parse_unread("Re: report (final) - Outlook"), 0);
    assert_eq!(parse_unread(""), 0);
}

#[test]
fn unread_group_edge_cases() {
    // White space around the number is allowed, as is a leading plus sign.
    assert_eq!(parse_unread("Inbox ( 12 ) - Outlook"), 12);
    assert_eq!(parse_unread("(+7) Inbox"), 7);
    // Only the first group counts.
    assert_eq!(parse_unread("(3) Inbox (9)"), 3);
    assert_eq!(parse_unread("(x) Inbox (9)"), 0);
    // A group ends at the first ')' or '(' after it; a title that ends
    // first has no group.
    assert_eq!(parse_unread("(4 Inbox"), 0);
    assert_eq!(parse_unread("Inbox (5"), 0);
    assert_eq!(parse_unread("(4(5)"), 4);
    assert_eq!(parse_unread("( 7 (x"), 7);
    assert_eq!(parse_unread("Inbox (6)) - Outlook"), 6);
    // Values that do not fit a u32, and negative ones, read as 0.
    assert_eq!(parse_unread("(4294967295)"), 4294967295);
    assert_eq!(parse_unread("(4294967296)"), 0);
    assert_eq!(parse_unread("(-1)"), 0);
    assert_eq!(parse_unread("()"), 0);
    // Non-ASCII white space is trimmed as str::trim does.
    assert_eq!(parse_unread("(\u{3000}8\u{a0})"), 8);
}

#[test]
fn unread_count_round_trip() {
    for n in [0u32, 1, 9, 10, 99, 100, 12345, u32::MAX] {
        let title = format!("Inbox ({n}) - someone@example.com - Outlook");
        assert_eq!(parse_unread(&title), n);
        assert_eq!(parse_unread(&format!("({n})")), n);
    }
}

#[test]
fn tray_tooltip_and_icon() {
    let u = tray_update(3, false);
    assert_eq!(u.tooltip, "Outlook, 3 unread");
    assert!(u.show_unread);
    assert!(matches!(u.icon, Some(TrayIcon::Unread)));

    let u = tray_update(1234, true);
    assert_eq!(u.tooltip, "Outlook, 1234 unread");
    assert!(u.icon.is_none());

    let u = tray_update(0, true);
    assert_eq!(u.tooltip, "Outlook");
    assert!(!u.show_unread);
    assert!(matches!(u.icon, Some(TrayIcon::Default)));

    let u = tray_update(0, false);
    assert!(u.icon.is_none());
    assert!(shows_unread_badge(1));
    assert!(!shows_unread_badge(0));
}

#[test]
fn tray_menu_ids() {
    assert!(matches!(tray_menu_action("open"), Some(TrayAction::Open)));
    assert!(matches!(tray_menu_action("hide"), Some(TrayAction::Hide)));
    assert!(matches!(tray_menu_action("refresh"), Some(TrayAction::Refresh)));
    assert!(matches!(tray_menu_action("quit"), Some(TrayAction::Quit)));
    assert!(tray_menu_action("Quit").is_none());
    assert!(tray_menu_action("").is_none());
}

#[test]
fn launches_and_windows() {
    let args = vec![
        "outlook".to_string(),
        "--flag".to_string(),
        "mailto:a@b.com".to_string(),
        "mailto:c@d.com".to_string(),
    ];
    assert_eq!(first_mailto(&args).as_deref(), Some("mailto:a@b.com"));
    assert!(first_mailto(&vec!["outlook".to_string()]).is_none());
    match second_launch_action(&args) {
        LaunchAction::Compose(m) => assert_eq!(m, "mailto:a@b.com"),
        LaunchAction::ShowMain => panic!("expected a compose window"),
    }
    assert!(matches!(second_launch_action(&vec![]), LaunchAction::ShowMain));
    assert!(is_main_window("main"));
    assert!(!is_main_window("compose-0"));
    assert_eq!(compose_window_label(0), "compose-0");
    assert_eq!(compose_window_label(42), "compose-42");
}

#[test]
fn notification_defaults() {
    let (s, b) = notification_text(None, None);
    assert_eq!(s, "Outlook");
    assert_eq!(b, "");
    let (s, b) = notification_text(Some("New mail".into()), Some("Hello".into()));
    assert_eq!(s, "New mail");
    assert_eq!(b, "Hello");
}

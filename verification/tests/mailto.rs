use outlook_for_linux::mailto::{compose_pairs, mailto_to_compose};

#[test]
fn mailto_translation() {
    assert_eq!(
        mailto_to_compose("mailto:a@b.com").unwrap(),
        "https://outlook.office.com/mail/deeplink/compose?to=a%40b.com"
    );
    let full = mailto_to_compose("mailto:a@b.com?subject=Hi%20there&cc=c@d.com&body=Line%20one").unwrap();
    assert!(full.contains("to=a%40b.com"));
    assert!(full.contains("subject=Hi+there") || full.contains("subject=Hi%20there"));
    assert!(full.contains("cc=c%40d.com"));
    // No recipient, subject only: valid mailto, compose still opens.
    assert!(mailto_to_compose("mailto:?subject=x").unwrap().contains("subject=x"));
    // Junk and non-mailto schemes are refused.
    assert!(mailto_to_compose("https://evil.example").is_none());
    assert!(mailto_to_compose("not a url").is_none());
}

#[test]
fn mailto_fields_are_filtered_and_lowercased() {
    let url = mailto_to_compose("mailto:x@y.org?Subject=Hey&X-Mailer=evil&BCC=z@w.org").unwrap();
    assert_eq!(
        url,
        "https://outlook.office.com/mail/deeplink/compose?to=x%40y.org&subject=Hey&bcc=z%40w.org"
    );
}

#[test]
fn mailto_recipient_is_percent_decoded() {
    let url = mailto_to_compose("mailto:first%20last%40example.com").unwrap();
    assert_eq!(
        url,
        "https://outlook.office.com/mail/deeplink/compose?to=first+last%40example.com"
    );
    // Percent-encoded bytes that are not UTF-8 refuse the link.
    assert!(mailto_to_compose("mailto:%FF").is_none());
}

#[test]
fn mailto_without_fields_opens_empty_compose() {
    assert_eq!(
        mailto_to_compose("mailto:").unwrap(),
        "https://outlook.office.com/mail/deeplink/compose?"
    );
}

#[test]
fn compose_pairs_order_and_filter() {
    let incoming = vec![
        ("CC".to_string(), "a@b".to_string()),
        ("reply-to".to_string(), "x".to_string()),
        ("body".to_string(), "text".to_string()),
        ("To".to_string(), "c@d".to_string()),
    ];
    let out = compose_pairs("r@s", &incoming);
    let expected: Vec<(String, String)> = vec![
        ("to".into(), "r@s".into()),
        ("cc".into(), "a@b".into()),
        ("body".into(), "text".into()),
        ("to".into(), "c@d".into()),
    ];
    assert_eq!(out, expected);
    let out = compose_pairs("", &incoming);
    assert_eq!(out.len(), 3);
    assert_eq!(out[0], ("cc".to_string(), "a@b".to_string()));
}

#[test]
fn recipient_percent_decoding() {
    let to = |m: &str| mailto_to_compose(m).map(|u| u.trim_start_matches("https://outlook.office.com/mail/deeplink/compose?").to_string());
    assert_eq!(to("mailto:a%40b.com").as_deref(), Some("to=a%40b.com"));
    // A lone or malformed escape stays as it is.
    assert_eq!(to("mailto:100%").as_deref(), Some("to=100%25"));
    assert_eq!(to("mailto:%zz").as_deref(), Some("to=%25zz"));
    // Escapes of a multi-byte character decode to it.
    assert_eq!(to("mailto:%C3%A9").as_deref(), Some("to=%C3%A9"));
}

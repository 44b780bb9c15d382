use funkfabrik::calendar::format_timestamp;
use funkfabrik::guestbook::{
    entry_views, flash_success, submit_entry, GuestEntry, GuestbookForm, Submission,
};

fn form(name: &str, message: &str, captcha: &str) -> GuestbookForm {
    GuestbookForm {
        name: name.to_string(),
        message: message.to_string(),
        captcha: captcha.to_string(),
    }
}

#[test]
fn submit_with_correct_captcha_is_saved() {
    let mut book = Vec::new();
    let r = submit_entry(&mut book, &form("Punk", "Oi!", "B"), 1_700_000_000);
    assert_eq!(r, Submission::Saved);
    assert_eq!(r.location(), "/666?success=1");
    assert_eq!(book.len(), 1);
}

#[test]
fn submit_with_lowercase_captcha_is_saved() {
    let mut book = Vec::new();
    let r = submit_entry(&mut book, &form("Punk", "Oi!", "b"), 1_700_000_000);
    assert_eq!(r.location(), "/666?success=1");
}

#[test]
fn submit_trims_the_captcha() {
    let mut book = Vec::new();
    let r = submit_entry(&mut book, &form("Punk", "Oi!", "  b \t"), 1);
    assert_eq!(r, Submission::Saved);
}

#[test]
fn submit_with_wrong_captcha_is_rejected() {
    let mut book = Vec::new();
    for captcha in ["X", "", "bb", "ba", "\u{0062}\u{0301}"] {
        let r = submit_entry(&mut book, &form("Punk", "Oi!", captcha), 1);
        assert_eq!(r.location(), "/666?error=captcha", "captcha {captcha:?}");
    }
    assert!(book.is_empty());
}

#[test]
fn submit_with_url_in_message_is_rejected() {
    let mut book = Vec::new();
    for message in [
        "visit https://example.com",
        "visit http://example.com",
        "ftp://example.com",
    ] {
        let r = submit_entry(&mut book, &form("Spam", message, "B"), 1);
        assert_eq!(r.location(), "/666?error=url", "message: {message}");
    }
    assert!(book.is_empty());
}

#[test]
fn submit_with_empty_message_is_rejected() {
    let mut book = Vec::new();
    let r = submit_entry(&mut book, &form("Punk", "", "B"), 1);
    assert_eq!(r.location(), "/666?error=empty");
    let r = submit_entry(&mut book, &form("Punk", "  \n ", "B"), 1);
    assert_eq!(r, Submission::EmptyMessage);
    assert!(book.is_empty());
}

#[test]
fn guestbook_captcha_is_checked_before_the_message() {
    let mut book = Vec::new();
    let r = submit_entry(&mut book, &form("Punk", "", "X"), 1);
    assert_eq!(r, Submission::WrongCaptcha);
    let r = submit_entry(&mut book, &form("Punk", "http://x", "X"), 1);
    assert_eq!(r, Submission::WrongCaptcha);
}

#[test]
fn flash_success_needs_the_value_one() {
    assert!(flash_success(Some("1")));
    assert!(!flash_success(Some("0")));
    assert!(!flash_success(Some("")));
    assert!(!flash_success(None));
}

#[test]
fn saved_entry_is_listed() {
    let mut book = Vec::new();
    let r = submit_entry(&mut book, &form("TestUser", "Hallo Welt", "B"), 1_710_513_000);
    assert_eq!(r, Submission::Saved);
    let views = entry_views(&book);
    assert_eq!(views.len(), 1);
    assert_eq!(views[0].name, "TestUser");
    assert_eq!(views[0].message, "Hallo Welt");
    assert_eq!(views[0].date, "15.03.2024 14:30");
}

#[test]
fn empty_name_is_listed_as_anonym() {
    let mut book = Vec::new();
    submit_entry(&mut book, &form("", "Ohne Namen", "B"), 0);
    submit_entry(&mut book, &form("   ", "Auch ohne", "B"), 0);
    let views = entry_views(&book);
    assert_eq!(views[0].name, "Anonym");
    assert_eq!(views[0].message, "Auch ohne");
    assert_eq!(views[1].name, "Anonym");
    assert_eq!(views[1].message, "Ohne Namen");
}

#[test]
fn submit_trims_name_and_message() {
    let mut book = Vec::new();
    submit_entry(&mut book, &form("  Punk ", "\tOi! \n", "B"), 5);
    assert_eq!(book[0].name, "Punk");
    assert_eq!(book[0].message, "Oi!");
    assert_eq!(book[0].timestamp_secs, 5);
}

#[test]
fn guestbook_entries_are_shown_newest_first() {
    let book = vec![
        GuestEntry { name: "A".into(), message: "erste".into(), timestamp_secs: 0 },
        GuestEntry { name: "B".into(), message: "zweite".into(), timestamp_secs: 86_400 },
        GuestEntry { name: "".into(), message: "dritte".into(), timestamp_secs: 1_710_513_000 },
    ];
    let views = entry_views(&book);
    assert_eq!(views.len(), 3);
    assert_eq!(views[0].name, "Anonym");
    assert_eq!(views[0].message, "dritte");
    assert_eq!(views[0].date, format_timestamp(1_710_513_000));
    assert_eq!(views[1].name, "B");
    assert_eq!(views[1].date, "02.01.1970 00:00");
    assert_eq!(views[2].name, "A");
    assert_eq!(views[2].date, "01.01.1970 00:00");
}

#[test]
fn guestbook_new_entry_goes_after_the_stored_ones() {
    let mut book = vec![GuestEntry { name: "Alt".into(), message: "vorher".into(), timestamp_secs: 0 }];
    submit_entry(&mut book, &form("Neu", "nachher", "b"), 60);
    assert_eq!(book.len(), 2);
    assert_eq!(book[0].name, "Alt");
    let views = entry_views(&book);
    assert_eq!(views[0].name, "Neu");
    assert_eq!(views[0].date, "01.01.1970 00:01");
    assert_eq!(views[1].name, "Alt");
}

#[test]
fn submission_locations() {
    assert_eq!(Submission::Saved.location(), "/666?success=1");
    assert_eq!(Submission::WrongCaptcha.location(), "/666?error=captcha");
    assert_eq!(Submission::EmptyMessage.location(), "/666?error=empty");
    assert_eq!(Submission::UrlInMessage.location(), "/666?error=url");
}

#[test]
fn listed_entries_are_escaped_when_rendered() {
    // The guestbook list goes through Tera's autoescaping for `.html`
    // templates: markup from a post must reach the page only as text.
    let mut book = Vec::new();
    let r = submit_entry(
        &mut book,
        &form("<b>Evil</b>", "<script>alert(\"x&y's\")</script>", "B"),
        0,
    );
    assert_eq!(r, Submission::Saved);
    let views = entry_views(&book);
    let mut tera = tera::Tera::new();
    tera.add_raw_template("entry.html", "{{ name }}|{{ message }}|{{ date }}")
        .unwrap();
    let mut ctx = tera::Context::new();
    ctx.insert("name", &views[0].name);
    ctx.insert("message", &views[0].message);
    ctx.insert("date", &views[0].date);
    let body = tera.render("entry.html", &ctx).unwrap();
    assert!(!body.contains("<script>alert("), "{body}");
    assert!(!body.contains("<b>Evil</b>"), "{body}");
    assert!(body.contains("&lt;script&gt;"), "{body}");
    assert!(body.contains("&amp;"), "{body}");
    assert!(body.contains("&quot;") || body.contains("&#34;"), "{body}");
    assert!(body.contains("&#39;") || body.contains("&#x27;") || body.contains("&apos;"), "{body}");
    assert!(body.ends_with("|01.01.1970 00:00"), "{body}");
}

use funkfabrik::pages::{game_template, nav_pages, page_title_for, page_view};

#[test]
fn page_title_known_pages() {
    assert_eq!(page_title_for("100"), "Startseite");
    assert_eq!(page_title_for("101"), "Radio hören");
    assert_eq!(page_title_for("170"), "Wettermagazin");
    assert_eq!(page_title_for("300"), "20 Jahre Brutto");
    assert_eq!(page_title_for("404"), "Fanseite");
    assert_eq!(page_title_for("666"), "Kontakt");
    assert_eq!(page_title_for("777"), "Spiele");
    assert_eq!(page_title_for("999"), "Impressum");
}

#[test]
fn page_title_unknown_returns_fallback() {
    assert_eq!(page_title_for("000"), "???");
    assert_eq!(page_title_for(""), "???");
    assert_eq!(page_title_for("abc"), "???");
}

#[test]
fn page_title_needs_the_exact_number() {
    assert_eq!(page_title_for("1000"), "???");
    assert_eq!(page_title_for("10"), "???");
    assert_eq!(page_title_for(" 100"), "???");
}

#[test]
fn known_page_uses_its_own_template() {
    for num in ["100", "101", "170", "300", "404", "666", "777", "999"] {
        let v = page_view(num);
        assert_eq!(v.template, format!("{}.html", num), "page {num}");
    }
}

#[test]
fn only_page_170_shows_weather() {
    for num in ["100", "101", "300", "404", "666", "777", "999", "000", "17"] {
        assert!(!page_view(num).shows_weather, "page {num}");
    }
    assert!(page_view("170").shows_weather);
}

#[test]
fn unknown_page_uses_not_found_template() {
    let v = page_view("000");
    assert_eq!(v.template, "not_found.html");
    assert!(!v.shows_weather);
}

#[test]
fn path_traversal_uses_not_found_template() {
    for page in ["../../etc/passwd", "../secret", "100/../etc", "100.html", "base"] {
        assert_eq!(page_view(page).template, "not_found.html", "page {page}");
    }
}

#[test]
fn nav_pages_lists_the_table_in_order() {
    let pages = nav_pages();
    let expected = [
        ("100", "Startseite", false),
        ("101", "Radio hören", false),
        ("170", "Wettermagazin", false),
        ("300", "20 Jahre Brutto", true),
        ("404", "Fanseite", false),
        ("666", "Kontakt", false),
        ("777", "Spiele", false),
        ("999", "Impressum", false),
    ];
    assert_eq!(pages.len(), expected.len());
    for (p, (num, title, blink)) in pages.iter().zip(expected.iter()) {
        assert_eq!(p.num, *num);
        assert_eq!(p.title, *title);
        assert_eq!(p.blink, *blink);
    }
}

#[test]
fn known_games_use_their_templates() {
    for game in ["tetris", "invaders", "snake"] {
        assert_eq!(game_template(game), format!("777_{}.html", game));
    }
}

#[test]
fn unknown_game_uses_not_found_template() {
    assert_eq!(game_template("pong"), "not_found.html");
    assert_eq!(game_template(""), "not_found.html");
    assert_eq!(game_template("Tetris"), "not_found.html");
    assert_eq!(game_template("../tetris"), "not_found.html");
}

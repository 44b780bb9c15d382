//! The page table of the teletext site and the choice of what a request
//! for a page or a game renders.

use vstd::prelude::*;
use crate::text::same_text;

verus! {

/// One entry of the navigation bar.
pub struct NavPage {
    /// Three-digit page number; also the URL segment and template stem.
    pub num: String,
    /// Human-readable title.
    pub title: String,
    /// Whether the number flashes in the nav bar.
    pub blink: bool,
}

/// Number of navigable pages.
pub open spec fn page_count() -> int {
    8
}

/// Page number of entry `i` of the page table, in display order.
pub open spec fn page_num(i: int) -> Seq<char> {
    if i == 0 { "100"@ }
    else if i == 1 { "101"@ }
    else if i == 2 { "170"@ }
    else if i == 3 { "300"@ }
    else if i == 4 { "404"@ }
    else if i == 5 { "666"@ }
    else if i == 6 { "777"@ }
    else { "999"@ }
}

/// Title of entry `i` of the page table.
pub open spec fn page_title(i: int) -> Seq<char> {
    if i == 0 { "Startseite"@ }
    else if i == 1 { "Radio h\u{f6}ren"@ }
    else if i == 2 { "Wettermagazin"@ }
    else if i == 3 { "20 Jahre Brutto"@ }
    else if i == 4 { "Fanseite"@ }
    else if i == 5 { "Kontakt"@ }
    else if i == 6 { "Spiele"@ }
    else { "Impressum"@ }
}

/// Whether entry `i` of the page table blinks (only the event page does).
pub open spec fn page_blinks(i: int) -> bool {
    i == 3
}

fn page_num_text(i: usize) -> (t: &'static str)
    ensures
        t@ == page_num(i as int),
{
    match i {
        0 => "100",
        1 => "101",
        2 => "170",
        3 => "300",
        4 => "404",
        5 => "666",
        6 => "777",
        _ => "999",
    }
}

fn page_title_text(i: usize) -> (t: &'static str)
    ensures
        t@ == page_title(i as int),
{
    match i {
        0 => "Startseite",
        1 => "Radio h\u{f6}ren",
        2 => "Wettermagazin",
        3 => "20 Jahre Brutto",
        4 => "Fanseite",
        5 => "Kontakt",
        6 => "Spiele",
        _ => "Impressum",
    }
}

/// `page` is one of the numbers in the page table.
pub open spec fn is_known_page(page: Seq<char>) -> bool {
    exists|i: int| 0 <= i < page_count() && page_num(i) == page
}

/// Index of the page-table entry numbered `page`, if any.
fn page_index(page: &str) -> (r: Option<usize>)
    ensures
        r matches Some(i) ==> i < page_count() && page_num(i as int) == page@,
        r is None ==> !is_known_page(page@),
{
    let mut i: usize = 0;
    while i < 8
        invariant
            i <= 8,
            forall|j: int| 0 <= j < i ==> page_num(j) != page@,
        decreases 8 - i,
    {
        if same_text(page_num_text(i), page) {
            return Some(i);
        }
        i = i + 1;
    }
    None
}

/// The navigation bar: every page of the table, in display order.
pub fn nav_pages() -> (v: Vec<NavPage>)
    ensures
        v@.len() == page_count(),
        forall|i: int| 0 <= i < page_count() ==> {
            &&& (#[trigger] v@[i]).num@ == page_num(i)
            &&& v@[i].title@ == page_title(i)
            &&& v@[i].blink == page_blinks(i)
        },
{
    let mut v: Vec<NavPage> = Vec::new();
    let mut i: usize = 0;
    while i < 8
        invariant
            i <= 8,
            v@.len() == i,
            forall|j: int| 0 <= j < i ==> {
                &&& (#[trigger] v@[j]).num@ == page_num(j)
                &&& v@[j].title@ == page_title(j)
                &&& v@[j].blink == page_blinks(j)
            },
        decreases 8 - i,
    {
        v.push(NavPage {
            num: String::from_str(page_num_text(i)),
            title: String::from_str(page_title_text(i)),
            blink: i == 3,
        });
        i = i + 1;
    }
    v
}

/// Title of the page numbered `page`, or `???` for a number not in the table.
pub open spec fn title_for(page: Seq<char>) -> Seq<char> {
    if is_known_page(page) {
        page_title(choose|i: int| 0 <= i < page_count() && page_num(i) == page)
    } else {
        "???"@
    }
}

/// The number a three-character page number spells.
spec fn spelled_number(s: Seq<char>) -> int {
    (s[0] as int - 48) * 100 + (s[1] as int - 48) * 10 + (s[2] as int - 48)
}

/// The number page-table entry `i` spells.
spec fn page_code(i: int) -> int {
    if i == 0 { 100 }
    else if i == 1 { 101 }
    else if i == 2 { 170 }
    else if i == 3 { 300 }
    else if i == 4 { 404 }
    else if i == 5 { 666 }
    else if i == 6 { 777 }
    else { 999 }
}

proof fn lemma_page_num_spells(i: int)
    requires
        0 <= i < page_count(),
    ensures
        spelled_number(page_num(i)) == page_code(i),
{
    if i == 0 { reveal_strlit("100"); }
    else if i == 1 { reveal_strlit("101"); }
    else if i == 2 { reveal_strlit("170"); }
    else if i == 3 { reveal_strlit("300"); }
    else if i == 4 { reveal_strlit("404"); }
    else if i == 5 { reveal_strlit("666"); }
    else if i == 6 { reveal_strlit("777"); }
    else { reveal_strlit("999"); }
}

/// The page numbers of the table are distinct.
proof fn lemma_page_nums_distinct(i: int, j: int)
    requires
        0 <= i < page_count(),
        0 <= j < page_count(),
        page_num(i) == page_num(j),
    ensures
        i == j,
{
    lemma_page_num_spells(i);
    lemma_page_num_spells(j);
}

/// Human-readable title for a page number, `???` when the number is unknown.
pub fn page_title_for(page: &str) -> (t: &'static str)
    ensures
        t@ == title_for(page@),
{
    match page_index(page) {
        Some(i) => {
            proof {
                let k = choose|k: int| 0 <= k < page_count() && page_num(k) == page@;
                lemma_page_nums_distinct(i as int, k);
            }
            page_title_text(i)
        }
        None => "???",
    }
}

/// The template rendered for the page numbered `page`: its own for a page
/// of the table, `not_found.html` for anything else (`404` is a content
/// page, not the error page).
pub open spec fn template_for_page(page: Seq<char>) -> Seq<char> {
    if is_known_page(page) { page + ".html"@ } else { "not_found.html"@ }
}

/// What a request for a page renders.
pub struct PageView {
    /// Template to render.
    pub template: String,
    /// Whether the page shows current weather and the forecast (page 170).
    pub shows_weather: bool,
}

/// Chooses the template for a page request.  Only numbers of the page
/// table ever reach a template name; page 170 also shows the weather.
pub fn page_view(page: &str) -> (v: PageView)
    ensures
        v.template@ == template_for_page(page@),
        v.shows_weather == (page@ == seq!['1', '7', '0']),
{
    match page_index(page) {
        Some(i) => {
            let mut template = String::from_str(page);
            template.append(".html");
            proof {
                reveal_strlit("170");
                assert("170"@ =~= seq!['1', '7', '0']);
                if page@ == "170"@ {
                    lemma_page_nums_distinct(i as int, 2);
                }
            }
            PageView { template, shows_weather: i == 2 }
        }
        None => {
            proof { reveal_strlit("170"); assert(page@ != page_num(2)); assert("170"@ =~= seq!['1', '7', '0']); }
            PageView { template: String::from_str("not_found.html"), shows_weather: false }
        }
    }
}

/// Every template a page request can render is a page of the table or
/// the not-found page.
pub proof fn lemma_page_template_is_known(page: Seq<char>)
    ensures
        template_for_page(page) == "not_found.html"@
            || exists|i: int| 0 <= i < page_count() && template_for_page(page) == page_num(i) + ".html"@,
{
}

/// The three games of page 777.
pub open spec fn is_game(game: Seq<char>) -> bool {
    game == "tetris"@ || game == "invaders"@ || game == "snake"@
}

/// Template of a game sub-page: `777_<game>.html` for a known game,
/// `not_found.html` for anything else.
pub open spec fn template_for_game(game: Seq<char>) -> Seq<char> {
    if is_game(game) { "777_"@ + game + ".html"@ } else { "not_found.html"@ }
}

/// Chooses the template for `/777/{game}`.
pub fn game_template(game: &str) -> (t: String)
    ensures
        t@ == template_for_game(game@),
{
    if same_text(game, "tetris") || same_text(game, "invaders") || same_text(game, "snake") {
        let mut t = String::from_str("777_");
        t.append(game);
        t.append(".html");
        t
    } else {
        String::from_str("not_found.html")
    }
}


/// The page table, in display order: numbers 100, 101, 170, 300, 404,
/// 666, 777, 999 titled Startseite, Radio hören, Wettermagazin,
/// 20 Jahre Brutto, Fanseite, Kontakt, Spiele, Impressum; only 300 blinks.
pub proof fn lemma_page_table()
    ensures
        page_num(0) == seq!['1', '0', '0'],
        page_title(0) == seq!['S', 't', 'a', 'r', 't', 's', 'e', 'i', 't', 'e'],
        page_num(1) == seq!['1', '0', '1'],
        page_title(1) == seq!['R', 'a', 'd', 'i', 'o', ' ', 'h', '\u{f6}', 'r', 'e', 'n'],
        page_num(2) == seq!['1', '7', '0'],
        page_title(2) == seq!['W', 'e', 't', 't', 'e', 'r', 'm', 'a', 'g', 'a', 'z', 'i', 'n'],
        page_num(3) == seq!['3', '0', '0'],
        page_title(3) == seq!['2', '0', ' ', 'J', 'a', 'h', 'r', 'e', ' ', 'B', 'r', 'u', 't', 't', 'o'],
        page_num(4) == seq!['4', '0', '4'],
        page_title(4) == seq!['F', 'a', 'n', 's', 'e', 'i', 't', 'e'],
        page_num(5) == seq!['6', '6', '6'],
        page_title(5) == seq!['K', 'o', 'n', 't', 'a', 'k', 't'],
        page_num(6) == seq!['7', '7', '7'],
        page_title(6) == seq!['S', 'p', 'i', 'e', 'l', 'e'],
        page_num(7) == seq!['9', '9', '9'],
        page_title(7) == seq!['I', 'm', 'p', 'r', 'e', 's', 's', 'u', 'm'],
        forall|i: int| 0 <= i < page_count() ==> (page_blinks(i) <==> i == 3),
        page_count() == 8,
{
    reveal_strlit("100");
    reveal_strlit("101");
    reveal_strlit("170");
    reveal_strlit("300");
    reveal_strlit("404");
    reveal_strlit("666");
    reveal_strlit("777");
    reveal_strlit("999");
    reveal_strlit("Startseite");
    reveal_strlit("Radio h\u{f6}ren");
    reveal_strlit("Wettermagazin");
    reveal_strlit("20 Jahre Brutto");
    reveal_strlit("Fanseite");
    reveal_strlit("Kontakt");
    reveal_strlit("Spiele");
    reveal_strlit("Impressum");
    assert(page_num(0) =~= seq!['1', '0', '0']);
    assert(page_title(0) =~= seq!['S', 't', 'a', 'r', 't', 's', 'e', 'i', 't', 'e']);
    assert(page_num(1) =~= seq!['1', '0', '1']);
    assert(page_title(1) =~= seq!['R', 'a', 'd', 'i', 'o', ' ', 'h', '\u{f6}', 'r', 'e', 'n']);
    assert(page_num(2) =~= seq!['1', '7', '0']);
    assert(page_title(2) =~= seq!['W', 'e', 't', 't', 'e', 'r', 'm', 'a', 'g', 'a', 'z', 'i', 'n']);
    assert(page_num(3) =~= seq!['3', '0', '0']);
    assert(page_title(3) =~= seq!['2', '0', ' ', 'J', 'a', 'h', 'r', 'e', ' ', 'B', 'r', 'u', 't', 't', 'o']);
    assert(page_num(4) =~= seq!['4', '0', '4']);
    assert(page_title(4) =~= seq!['F', 'a', 'n', 's', 'e', 'i', 't', 'e']);
    assert(page_num(5) =~= seq!['6', '6', '6']);
    assert(page_title(5) =~= seq!['K', 'o', 'n', 't', 'a', 'k', 't']);
    assert(page_num(6) =~= seq!['7', '7', '7']);
    assert(page_title(6) =~= seq!['S', 'p', 'i', 'e', 'l', 'e']);
    assert(page_num(7) =~= seq!['9', '9', '9']);
    assert(page_title(7) =~= seq!['I', 'm', 'p', 'r', 'e', 's', 's', 'u', 'm']);
}

/// A known page renders its own number followed by `.html`; anything
/// else renders `not_found.html`.
pub proof fn lemma_page_templates(page: Seq<char>)
    ensures
        is_known_page(page) ==> template_for_page(page) == page + seq!['.', 'h', 't', 'm', 'l'],
        !is_known_page(page) ==> template_for_page(page)
            == seq!['n', 'o', 't', '_', 'f', 'o', 'u', 'n', 'd', '.', 'h', 't', 'm', 'l'],
        is_known_page(page) <==> exists|i: int| 0 <= i < page_count() && #[trigger] page_num(i) == page,
{
    reveal_strlit(".html");
    reveal_strlit("not_found.html");
    assert(".html"@ =~= seq!['.', 'h', 't', 'm', 'l']);
    assert("not_found.html"@ =~= seq!['n', 'o', 't', '_', 'f', 'o', 'u', 'n', 'd', '.', 'h', 't', 'm', 'l']);
}

/// A game page renders `777_<game>.html` for tetris, invaders and snake,
/// and `not_found.html` for any other name.
pub proof fn lemma_game_templates(game: Seq<char>)
    ensures
        is_game(game) <==> (game == seq!['t', 'e', 't', 'r', 'i', 's']
            || game == seq!['i', 'n', 'v', 'a', 'd', 'e', 'r', 's']
            || game == seq!['s', 'n', 'a', 'k', 'e']),
        is_game(game) ==> template_for_game(game)
            == seq!['7', '7', '7', '_'] + game + seq!['.', 'h', 't', 'm', 'l'],
        !is_game(game) ==> template_for_game(game)
            == seq!['n', 'o', 't', '_', 'f', 'o', 'u', 'n', 'd', '.', 'h', 't', 'm', 'l'],
{
    reveal_strlit("tetris");
    reveal_strlit("invaders");
    reveal_strlit("snake");
    reveal_strlit("777_");
    reveal_strlit(".html");
    reveal_strlit("not_found.html");
    assert("tetris"@ =~= seq!['t', 'e', 't', 'r', 'i', 's']);
    assert("invaders"@ =~= seq!['i', 'n', 'v', 'a', 'd', 'e', 'r', 's']);
    assert("snake"@ =~= seq!['s', 'n', 'a', 'k', 'e']);
    assert("777_"@ =~= seq!['7', '7', '7', '_']);
    assert(".html"@ =~= seq!['.', 'h', 't', 'm', 'l']);
    assert("not_found.html"@ =~= seq!['n', 'o', 't', '_', 'f', 'o', 'u', 'n', 'd', '.', 'h', 't', 'm', 'l']);
}

/// The title of a known page number is the title of its table entry;
/// an unknown number gets `???`.
pub proof fn lemma_titles(page: Seq<char>)
    ensures
        forall|i: int| 0 <= i < page_count() && page_num(i) == page ==> #[trigger] page_title(i) == title_for(page),
        !is_known_page(page) ==> title_for(page) == seq!['?', '?', '?'],
{
    reveal_strlit("???");
    assert("???"@ =~= seq!['?', '?', '?']);
    assert forall|i: int| 0 <= i < page_count() && page_num(i) == page implies #[trigger] page_title(i) == title_for(page) by {
        let k = choose|k: int| 0 <= k < page_count() && page_num(k) == page;
        lemma_page_nums_distinct(i, k);
    }
}

} // verus!

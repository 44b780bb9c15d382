//! The guestbook: entries, the checks a submission must pass, and what the
//! guestbook page shows of the entries.

use vstd::prelude::*;
use crate::calendar::{format_timestamp, timestamp_in_range, timestamp_text};
use crate::text::{contains, contains_text, same_text, trim, trimmed};

verus! {

/// A single guestbook entry as stored.
#[derive(Debug, Clone)]
pub struct GuestEntry {
    /// Visitor-supplied display name; may be empty (shown as "Anonym").
    pub name: String,
    /// The body of the entry.
    pub message: String,
    /// Unix timestamp (seconds since the epoch) when the entry was submitted.
    pub timestamp_secs: u64,
}

/// The fields of a submitted guestbook form.
pub struct GuestbookForm {
    /// Visitor-supplied display name (optional).
    pub name: String,
    /// Body of the entry.
    pub message: String,
    /// Answer to the captcha question; must be `b` in either case.
    pub captcha: String,
}

/// How a submission was answered.
#[derive(PartialEq, Eq, Structural, Clone, Copy, Debug)]
pub enum Submission {
    /// The entry was added.
    Saved,
    /// The captcha answer was wrong.
    WrongCaptcha,
    /// The message was empty.
    EmptyMessage,
    /// The message contained a URL (`://`).
    UrlInMessage,
}

/// The captcha answer, without surrounding white space, is `b` or `B`.
pub open spec fn captcha_accepted(captcha: Seq<char>) -> bool {
    trimmed(captcha) == "b"@ || trimmed(captcha) == "B"@
}

/// The answer a form gets: the captcha is checked first, then that the
/// message is not empty, then that it carries no URL.
pub open spec fn submission_outcome(form: GuestbookForm) -> Submission {
    if !captcha_accepted(form.captcha@) {
        Submission::WrongCaptcha
    } else if trimmed(form.message@).len() == 0 {
        Submission::EmptyMessage
    } else if contains_text(trimmed(form.message@), "://"@) {
        Submission::UrlInMessage
    } else {
        Submission::Saved
    }
}

/// The entry a saved form adds at time `now`: name and message without
/// surrounding white space.
pub open spec fn is_posted_entry(e: GuestEntry, form: GuestbookForm, now: u64) -> bool {
    &&& e.name@ == trimmed(form.name@)
    &&& e.message@ == trimmed(form.message@)
    &&& e.timestamp_secs == now
}

/// Checks a submitted form and, when it passes, appends its entry at time
/// `now_secs`.  A rejected form leaves the book as it was.
pub fn submit_entry(book: &mut Vec<GuestEntry>, form: &GuestbookForm, now_secs: u64) -> (r: Submission)
    ensures
        r == submission_outcome(*form),
        r == Submission::Saved ==> {
            &&& final(book)@.len() == old(book)@.len() + 1
            &&& final(book)@.subrange(0, old(book)@.len() as int) == old(book)@
            &&& is_posted_entry(final(book)@.last(), *form, now_secs)
        },
        r != Submission::Saved ==> final(book)@ == old(book)@,
{
    let name = trim(form.name.as_str());
    let message = trim(form.message.as_str());
    let captcha = trim(form.captcha.as_str());
    if !(same_text(captcha, "b") || same_text(captcha, "B")) {
        return Submission::WrongCaptcha;
    }
    if message.is_empty() {
        return Submission::EmptyMessage;
    }
    if contains(message, "://") {
        return Submission::UrlInMessage;
    }
    book.push(GuestEntry {
        name: String::from_str(name),
        message: String::from_str(message),
        timestamp_secs: now_secs,
    });
    assert(book@.subrange(0, old(book)@.len() as int) =~= old(book)@);
    Submission::Saved
}

impl Submission {
    /// Where the browser is sent after the submission (post-redirect-get).
    pub open spec fn location_text(self) -> Seq<char> {
        match self {
            Submission::Saved => "/666?success=1"@,
            Submission::WrongCaptcha => "/666?error=captcha"@,
            Submission::EmptyMessage => "/666?error=empty"@,
            Submission::UrlInMessage => "/666?error=url"@,
        }
    }

    /// The redirect target of this answer.
    pub fn location(&self) -> (l: &'static str)
        ensures
            l@ == self.location_text(),
    {
        match self {
            Submission::Saved => "/666?success=1",
            Submission::WrongCaptcha => "/666?error=captcha",
            Submission::EmptyMessage => "/666?error=empty",
            Submission::UrlInMessage => "/666?error=url",
        }
    }
}

/// An entry as the guestbook page shows it.
pub struct EntryView {
    /// Display name ("Anonym" for an empty name).
    pub name: String,
    /// The message.
    pub message: String,
    /// Submission time as `DD.MM.YYYY HH:MM`.
    pub date: String,
}

/// The name shown for a stored name.
pub open spec fn display_name(name: Seq<char>) -> Seq<char> {
    if name.len() == 0 { "Anonym"@ } else { name }
}

/// What the page shows of entry `e`: name, message and date.
pub open spec fn shown(e: GuestEntry) -> (Seq<char>, Seq<char>, Seq<char>) {
    (display_name(e.name@), e.message@, timestamp_text(e.timestamp_secs))
}

/// The entries as shown, newest first.
pub open spec fn shown_entries(book: Seq<GuestEntry>) -> Seq<(Seq<char>, Seq<char>, Seq<char>)> {
    Seq::new(book.len(), |i: int| shown(book[book.len() - 1 - i]))
}

/// Every stored timestamp can be formatted.
pub open spec fn dates_in_range(book: Seq<GuestEntry>) -> bool {
    forall|i: int| 0 <= i < book.len() ==> timestamp_in_range(#[trigger] book[i].timestamp_secs)
}

/// The entries of the guestbook page, newest first.
pub fn entry_views(book: &Vec<GuestEntry>) -> (v: Vec<EntryView>)
    requires
        dates_in_range(book@),
    ensures
        v@.len() == book@.len(),
        forall|i: int| 0 <= i < v@.len() ==>
            ((#[trigger] v@[i]).name@, v@[i].message@, v@[i].date@) == shown_entries(book@)[i],
{
    let n = book.len();
    let mut v: Vec<EntryView> = Vec::new();
    let mut k: usize = 0;
    while k < n
        invariant
            n == book@.len(),
            dates_in_range(book@),
            k <= n,
            v@.len() == k,
            forall|i: int| 0 <= i < k ==>
                ((#[trigger] v@[i]).name@, v@[i].message@, v@[i].date@) == shown_entries(book@)[i],
        decreases n - k,
    {
        let e = &book[n - 1 - k];
        let name = if e.name.as_str().is_empty() {
            String::from_str("Anonym")
        } else {
            e.name.clone()
        };
        let date = format_timestamp(e.timestamp_secs);
        v.push(EntryView { name, message: e.message.clone(), date });
        k = k + 1;
    }
    v
}

/// Whether the `success` query parameter asks for the success notice.
pub fn flash_success(param: Option<&str>) -> (r: bool)
    ensures
        r == (param matches Some(p) && p@ == seq!['1']),
{
    proof { reveal_strlit("1"); assert("1"@ =~= seq!['1']); }
    match param {
        Some(p) => same_text(p, "1"),
        None => false,
    }
}

/// After a saved submission the page shows the new entry first (name,
/// message, time of posting) and every earlier entry after it, in the
/// order shown before.
pub proof fn lemma_saved_entry_shown_first(
    before: Seq<GuestEntry>,
    after: Seq<GuestEntry>,
    form: GuestbookForm,
    now: u64,
)
    requires
        after.len() == before.len() + 1,
        after.subrange(0, before.len() as int) == before,
        is_posted_entry(after.last(), form, now),
    ensures
        shown_entries(after)[0] == (display_name(trimmed(form.name@)), trimmed(form.message@), timestamp_text(now)),
        shown_entries(after).drop_first() == shown_entries(before),
{
    assert forall|i: int| 0 <= i < before.len() implies after[i] == before[i] by {
        assert(after.subrange(0, before.len() as int)[i] == after[i]);
    }
    assert(shown_entries(after).drop_first() =~= shown_entries(before));
}


/// The name shown for an entry is its stored name, unchanged, whenever
/// that is not empty, and `Anonym` only when it is empty; message and
/// date are the stored message and the formatted timestamp.
pub proof fn lemma_shown_entry(e: GuestEntry)
    ensures
        shown(e).0 == (if e.name@.len() == 0 { seq!['A', 'n', 'o', 'n', 'y', 'm'] } else { e.name@ }),
        shown(e).1 == e.message@,
        shown(e).2 == timestamp_text(e.timestamp_secs),
{
    reveal_strlit("Anonym");
    assert("Anonym"@ =~= seq!['A', 'n', 'o', 'n', 'y', 'm']);
}

/// The answer to a form, in terms of the trimmed fields: the captcha must
/// be exactly `b` or `B`, checked first; then an empty message is
/// refused; then a message holding `://` (colon, slash, slash) anywhere is
/// refused as a URL; every other form is saved.
pub proof fn lemma_submission_outcome(form: GuestbookForm)
    ensures
        submission_outcome(form) == Submission::WrongCaptcha
            <==> !(trimmed(form.captcha@) == seq!['b'] || trimmed(form.captcha@) == seq!['B']),
        (trimmed(form.captcha@) == seq!['b'] || trimmed(form.captcha@) == seq!['B'])
            && trimmed(form.message@).len() == 0
            ==> submission_outcome(form) == Submission::EmptyMessage,
        (trimmed(form.captcha@) == seq!['b'] || trimmed(form.captcha@) == seq!['B'])
            && trimmed(form.message@).len() > 0
            ==> (submission_outcome(form) == Submission::UrlInMessage <==> exists|i: int|
                0 <= i && i + 2 < trimmed(form.message@).len()
                && #[trigger] trimmed(form.message@)[i] == ':'
                && trimmed(form.message@)[i + 1] == '/'
                && trimmed(form.message@)[i + 2] == '/'),
        (trimmed(form.captcha@) == seq!['b'] || trimmed(form.captcha@) == seq!['B'])
            && trimmed(form.message@).len() > 0
            ==> (submission_outcome(form) == Submission::Saved <==> !exists|i: int|
                0 <= i && i + 2 < trimmed(form.message@).len()
                && #[trigger] trimmed(form.message@)[i] == ':'
                && trimmed(form.message@)[i + 1] == '/'
                && trimmed(form.message@)[i + 2] == '/'),
{
    reveal_strlit("b");
    reveal_strlit("B");
    reveal_strlit("://");
    assert("b"@ =~= seq!['b']);
    assert("B"@ =~= seq!['B']);
    let m = trimmed(form.message@);
    if contains_text(m, "://"@) {
        let i = choose|i: int| crate::text::occurs_at(m, "://"@, i);
        assert(m.subrange(i, i + 3)[0] == m[i]);
        assert(m.subrange(i, i + 3)[1] == m[i + 1]);
        assert(m.subrange(i, i + 3)[2] == m[i + 2]);
    }
    if exists|i: int| 0 <= i && i + 2 < m.len() && #[trigger] m[i] == ':' && m[i + 1] == '/' && m[i + 2] == '/' {
        let i = choose|i: int| 0 <= i && i + 2 < m.len() && #[trigger] m[i] == ':' && m[i + 1] == '/' && m[i + 2] == '/';
        assert(m.subrange(i, i + 3) =~= "://"@);
        assert(crate::text::occurs_at(m, "://"@, i));
    }
}

/// A saved form stores its name and message without surrounding white
/// space and the time of posting.
pub proof fn lemma_posted_entry(e: GuestEntry, form: GuestbookForm, now: u64)
    ensures
        is_posted_entry(e, form, now) <==> (e.name@ == trimmed(form.name@)
            && e.message@ == trimmed(form.message@) && e.timestamp_secs == now),
{
}

/// Where each answer sends the browser.
pub proof fn lemma_locations()
    ensures
        Submission::Saved.location_text() == seq!['/', '6', '6', '6', '?', 's', 'u', 'c', 'c', 'e', 's', 's', '=', '1'],
        Submission::WrongCaptcha.location_text()
            == seq!['/', '6', '6', '6', '?', 'e', 'r', 'r', 'o', 'r', '=', 'c', 'a', 'p', 't', 'c', 'h', 'a'],
        Submission::EmptyMessage.location_text()
            == seq!['/', '6', '6', '6', '?', 'e', 'r', 'r', 'o', 'r', '=', 'e', 'm', 'p', 't', 'y'],
        Submission::UrlInMessage.location_text()
            == seq!['/', '6', '6', '6', '?', 'e', 'r', 'r', 'o', 'r', '=', 'u', 'r', 'l'],
{
    reveal_strlit("/666?success=1");
    reveal_strlit("/666?error=captcha");
    reveal_strlit("/666?error=empty");
    reveal_strlit("/666?error=url");
    assert(Submission::Saved.location_text() =~= seq!['/', '6', '6', '6', '?', 's', 'u', 'c', 'c', 'e', 's', 's', '=', '1']);
    assert(Submission::WrongCaptcha.location_text()
        =~= seq!['/', '6', '6', '6', '?', 'e', 'r', 'r', 'o', 'r', '=', 'c', 'a', 'p', 't', 'c', 'h', 'a']);
    assert(Submission::EmptyMessage.location_text()
        =~= seq!['/', '6', '6', '6', '?', 'e', 'r', 'r', 'o', 'r', '=', 'e', 'm', 'p', 't', 'y']);
    assert(Submission::UrlInMessage.location_text()
        =~= seq!['/', '6', '6', '6', '?', 'e', 'r', 'r', 'o', 'r', '=', 'u', 'r', 'l']);
}


/// The page lists every entry once, newest first: position `i` shows the
/// entry `i` places before the last one stored.
pub proof fn lemma_shown_newest_first(book: Seq<GuestEntry>)
    ensures
        shown_entries(book).len() == book.len(),
        forall|i: int| 0 <= i < book.len() ==> #[trigger] shown_entries(book)[i] == shown(book[book.len() - 1 - i]),
{
}

} // verus!

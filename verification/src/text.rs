//! Text helpers shared by the rest of the crate: decimal numbers,
//! whitespace trimming, equality and substring search on `str`.

use vstd::prelude::*;
use vstd::std_specs::iter::IteratorSpec;

verus! {

/// The ASCII digit character for `d` (0..=9).
pub open spec fn digit_char(d: int) -> char {
    (48 + d) as char
}

/// Decimal digits of `n`, most significant first, without leading zeros.
pub open spec fn decimal_digits(n: nat) -> Seq<char>
    decreases n,
{
    if n < 10 {
        seq![digit_char(n as int)]
    } else {
        decimal_digits(n / 10).push(digit_char((n % 10) as int))
    }
}

/// `k` zero characters (none when `k` is not positive).
pub open spec fn zeros(k: int) -> Seq<char> {
    Seq::new(if k > 0 { k as nat } else { 0 }, |i: int| '0')
}

/// `n` in decimal, zero-padded to at least `width` characters; a negative
/// number keeps its minus sign in front of the zeros.
pub open spec fn padded_decimal(n: int, width: int) -> Seq<char> {
    if n >= 0 {
        let ds = decimal_digits(n as nat);
        zeros(width - ds.len()) + ds
    } else {
        let ds = decimal_digits((-n) as nat);
        seq!['-'] + zeros(width - 1 - ds.len()) + ds
    }
}

/// The one-character text of digit `d`.
fn digit_text(d: u64) -> (t: &'static str)
    requires
        d < 10,
    ensures
        t@ == seq![digit_char(d as int)],
{
    proof {
        reveal_strlit("0");
        reveal_strlit("1");
        reveal_strlit("2");
        reveal_strlit("3");
        reveal_strlit("4");
        reveal_strlit("5");
        reveal_strlit("6");
        reveal_strlit("7");
        reveal_strlit("8");
        reveal_strlit("9");
    }
    match d {
        0 => "0",
        1 => "1",
        2 => "2",
        3 => "3",
        4 => "4",
        5 => "5",
        6 => "6",
        7 => "7",
        8 => "8",
        _ => "9",
    }
}

/// Appends the decimal digits of `n`.
pub fn push_decimal(out: &mut String, n: u64)
    ensures
        final(out)@ == old(out)@ + decimal_digits(n as nat),
    decreases n,
{
    if n >= 10 {
        push_decimal(out, n / 10);
    }
    out.append(digit_text(n % 10));
    proof {
        assert(old(out)@ + decimal_digits(n as nat) =~= if n >= 10 {
            old(out)@ + decimal_digits((n / 10) as nat) + seq![digit_char((n % 10) as int)]
        } else {
            old(out)@ + seq![digit_char((n % 10) as int)]
        });
    }
}

/// Number of decimal digits of `n`.
fn decimal_len(n: u64) -> (k: u64)
    ensures
        k == decimal_digits(n as nat).len(),
        1 <= k <= 20,
    decreases n,
{
    proof {
        assert(pow10(20) == 100000000000000000000nat) by { reveal_with_fuel(pow10, 21); }
        lemma_decimal_len_bound(n as nat, 20);
    }
    if n >= 10 {
        1 + decimal_len(n / 10)
    } else {
        1
    }
}

/// Ten to the power `k`.
pub open spec fn pow10(k: nat) -> nat
    decreases k,
{
    if k == 0 { 1 } else { 10 * pow10((k - 1) as nat) }
}

/// A number below `10^k` has at most `k` digits.
proof fn lemma_decimal_len_bound(n: nat, k: nat)
    requires
        1 <= k,
        n < pow10(k),
    ensures
        decimal_digits(n).len() <= k,
    decreases k,
{
    if n >= 10 {
        assert(k >= 2) by {
            if k == 1 { assert(pow10(1) == 10) by { reveal_with_fuel(pow10, 2); } }
        }
        lemma_decimal_len_bound(n / 10, (k - 1) as nat);
    }
}

/// Zero padding fills a number up to exactly `width` characters when its
/// digits (and sign) fit.
pub proof fn lemma_padded_decimal_len(n: int, width: int)
    requires
        1 <= width,
        n >= 0 ==> n < pow10(width as nat),
        n < 0 ==> -n < pow10((width - 1) as nat) && width >= 2,
    ensures
        padded_decimal(n, width).len() == width,
{
    if n >= 0 {
        lemma_decimal_len_bound(n as nat, width as nat);
    } else {
        lemma_decimal_len_bound((-n) as nat, (width - 1) as nat);
    }
}

/// Appends `n` zero-padded to `width`, as `format!("{:0width$}", n)` does.
pub fn push_padded(out: &mut String, n: i64, width: u64)
    requires
        n > i64::MIN,
        width <= 64,
    ensures
        final(out)@ == old(out)@ + padded_decimal(n as int, width as int),
{
    let negative = n < 0;
    let magnitude: u64 = if negative { (-n) as u64 } else { n as u64 };
    let len = decimal_len(magnitude);
    let mut fill: u64 = if negative {
        if width > len + 1 { width - len - 1 } else { 0 }
    } else {
        if width > len { width - len } else { 0 }
    };
    if negative {
        proof { reveal_strlit("-"); }
        out.append("-");
    }
    let ghost start = out@;
    proof { reveal_strlit("0"); }
    while fill > 0
        invariant
            out@ == start + zeros((if negative { width - len - 1 } else { width - len }) - fill),
            fill <= (if negative { if width > len + 1 { width - len - 1 } else { 0 } } else { if width > len { width - len } else { 0 } }),
        decreases fill,
    {
        proof { reveal_strlit("0"); }
        out.append("0");
        fill = fill - 1;
        proof {
            assert(out@ =~= start + zeros((if negative { width - len - 1 } else { width - len }) - fill));
        }
    }
    push_decimal(out, magnitude);
    proof {
        assert(out@ =~= old(out)@ + padded_decimal(n as int, width as int));
    }
}

/// The characters of `s`, in order.
pub fn chars_of(s: &str) -> (v: Vec<char>)
    ensures
        v@ == s@,
{
    let mut v: Vec<char> = Vec::new();
    let mut it = s.chars();
    proof {
        broadcast use vstd::string::group_string_axioms;
    }
    loop
        invariant
            it.obeys_prophetic_iter_laws(),
            it.decrease() is Some,
            v@ + it.remaining() == s@,
        ensures
            v@ == s@,
        decreases it.decrease()->0,
    {
        proof {
            broadcast use vstd::string::group_string_axioms;
        }
        match it.next() {
            Some(c) => {
                v.push(c);
            }
            None => {
                assert(v@ =~= s@);
                break;
            }
        }
    }
    v
}

/// Whether `s` and `t` are the same text.
pub fn same_text(s: &str, t: &str) -> (r: bool)
    ensures
        r == (s@ == t@),
{
    let a = String::from_str(s);
    let b = String::from_str(t);
    a == b
}

/// `needle` occurs in `hay` starting at position `i`.
pub open spec fn occurs_at(hay: Seq<char>, needle: Seq<char>, i: int) -> bool {
    0 <= i && i + needle.len() <= hay.len() && hay.subrange(i, i + needle.len()) == needle
}

/// `needle` occurs somewhere in `hay`.
pub open spec fn contains_text(hay: Seq<char>, needle: Seq<char>) -> bool {
    exists|i: int| occurs_at(hay, needle, i)
}

/// Whether `needle` occurs at position `i` of `hay`.
fn matches_at(hay: &Vec<char>, needle: &Vec<char>, i: usize) -> (r: bool)
    requires
        i + needle@.len() <= hay@.len(),
    ensures
        r == occurs_at(hay@, needle@, i as int),
{
    let hay_len = hay.len();
    let mut k: usize = 0;
    while k < needle.len()
        invariant
            hay_len == hay@.len(),
            i + needle@.len() <= hay@.len(),
            k <= needle@.len(),
            forall|j: int| 0 <= j < k ==> hay@[i + j] == needle@[j],
        decreases needle@.len() - k,
    {
        if hay[i + k] != needle[k] {
            assert(hay@.subrange(i as int, i + needle@.len())[k as int] != needle@[k as int]);
            return false;
        }
        k = k + 1;
    }
    assert(hay@.subrange(i as int, i + needle@.len()) =~= needle@);
    true
}

/// Whether `needle` occurs in `hay`, as `str::contains` answers it.
pub fn contains(hay: &str, needle: &str) -> (r: bool)
    ensures
        r == contains_text(hay@, needle@),
{
    let h = chars_of(hay);
    let n = chars_of(needle);
    if n.len() > h.len() {
        assert(!contains_text(hay@, needle@));
        return false;
    }
    let last = h.len() - n.len();
    let mut i: usize = 0;
    loop
        invariant_except_break
            h@ == hay@,
            n@ == needle@,
            last == h@.len() - n@.len(),
            i <= last,
            forall|j: int| 0 <= j < i ==> !occurs_at(hay@, needle@, j),
        ensures
            forall|j: int| 0 <= j <= last ==> !occurs_at(hay@, needle@, j),
        decreases last - i,
    {
        if matches_at(&h, &n, i) {
            return true;
        }
        if i == last {
            break;
        }
        i = i + 1;
    }
    assert forall|j: int| !occurs_at(hay@, needle@, j) by {
        if 0 <= j <= last {
        }
    }
    false
}

/// Unicode `White_Space`, the set `char::is_whitespace` tests.
pub open spec fn is_white_space(c: char) -> bool {
    ||| ('\u{9}' <= c && c <= '\u{d}')
    ||| c == ' '
    ||| c == '\u{85}'
    ||| c == '\u{a0}'
    ||| c == '\u{1680}'
    ||| ('\u{2000}' <= c && c <= '\u{200a}')
    ||| c == '\u{2028}'
    ||| c == '\u{2029}'
    ||| c == '\u{202f}'
    ||| c == '\u{205f}'
    ||| c == '\u{3000}'
}

/// Whether `c` is white space.
pub fn white_space(c: char) -> (r: bool)
    ensures
        r == is_white_space(c),
{
    ('\u{9}' <= c && c <= '\u{d}') || c == ' ' || c == '\u{85}' || c == '\u{a0}'
        || c == '\u{1680}' || ('\u{2000}' <= c && c <= '\u{200a}') || c == '\u{2028}'
        || c == '\u{2029}' || c == '\u{202f}' || c == '\u{205f}' || c == '\u{3000}'
}

/// `s` without its leading white space.
pub open spec fn trim_start(s: Seq<char>) -> Seq<char>
    decreases s.len(),
{
    if s.len() > 0 && is_white_space(s[0]) { trim_start(s.drop_first()) } else { s }
}

/// `s` without its trailing white space.
pub open spec fn trim_end(s: Seq<char>) -> Seq<char>
    decreases s.len(),
{
    if s.len() > 0 && is_white_space(s.last()) { trim_end(s.drop_last()) } else { s }
}

/// `s` without its leading and trailing white space, as `str::trim` gives it.
pub open spec fn trimmed(s: Seq<char>) -> Seq<char> {
    trim_end(trim_start(s))
}

/// `s` without leading and trailing white space.
pub fn trim(s: &str) -> (r: &str)
    ensures
        r@ == trimmed(s@),
{
    let cs = chars_of(s);
    let n = cs.len();
    let mut i: usize = 0;
    assert(s@.subrange(0, n as int) =~= s@);
    while i < n && white_space(cs[i])
        invariant
            cs@ == s@,
            n == s@.len(),
            i <= n,
            trim_start(s@) == trim_start(s@.subrange(i as int, n as int)),
        decreases n - i,
    {
        assert(s@.subrange(i as int, n as int).drop_first() =~= s@.subrange(i + 1, n as int));
        i = i + 1;
    }
    assert(trim_start(s@) == s@.subrange(i as int, n as int));
    let mut j: usize = n;
    while j > i && white_space(cs[j - 1])
        invariant
            cs@ == s@,
            n == s@.len(),
            i <= j <= n,
            trimmed(s@) == trim_end(s@.subrange(i as int, j as int)),
        decreases j,
    {
        assert(s@.subrange(i as int, j as int).drop_last() =~= s@.subrange(i as int, j - 1));
        j = j - 1;
    }
    s.substring_char(i, j)
}


/// White space is the Unicode `White_Space` set, by code point:
/// U+0009..U+000D, U+0020, U+0085, U+00A0, U+1680, U+2000..U+200A,
/// U+2028, U+2029, U+202F, U+205F, U+3000.
pub proof fn lemma_white_space_code_points(c: char)
    ensures
        is_white_space(c) <==> {
            let u = c as u32;
            ||| 9 <= u <= 13
            ||| u == 32
            ||| u == 133
            ||| u == 160
            ||| u == 5760
            ||| 8192 <= u <= 8202
            ||| u == 8232
            ||| u == 8233
            ||| u == 8239
            ||| u == 8287
            ||| u == 12288
        },
{
}

proof fn lemma_trim_start_cut(s: Seq<char>) -> (i: int)
    ensures
        0 <= i <= s.len(),
        trim_start(s) == s.subrange(i, s.len() as int),
        forall|k: int| 0 <= k < i ==> is_white_space(#[trigger] s[k]),
        i < s.len() ==> !is_white_space(s[i]),
    decreases s.len(),
{
    if s.len() > 0 && is_white_space(s[0]) {
        let j = lemma_trim_start_cut(s.drop_first());
        assert(s.drop_first().subrange(j, s.drop_first().len() as int) =~= s.subrange(j + 1, s.len() as int));
        assert forall|k: int| 0 <= k < j + 1 implies is_white_space(#[trigger] s[k]) by {
            if k > 0 {
                assert(s[k] == s.drop_first()[k - 1]);
            }
        }
        j + 1
    } else {
        assert(s.subrange(0, s.len() as int) =~= s);
        0
    }
}

proof fn lemma_trim_end_cut(s: Seq<char>) -> (j: int)
    ensures
        0 <= j <= s.len(),
        trim_end(s) == s.subrange(0, j),
        forall|k: int| j <= k < s.len() ==> is_white_space(#[trigger] s[k]),
        j > 0 ==> !is_white_space(s[j - 1]),
    decreases s.len(),
{
    if s.len() > 0 && is_white_space(s.last()) {
        let j = lemma_trim_end_cut(s.drop_last());
        assert(s.drop_last().subrange(0, j) =~= s.subrange(0, j));
        assert forall|k: int| j <= k < s.len() implies is_white_space(#[trigger] s[k]) by {
            if k < s.len() - 1 {
                assert(s[k] == s.drop_last()[k]);
            }
        }
        j
    } else {
        assert(s.subrange(0, s.len() as int) =~= s);
        s.len() as int
    }
}

/// Trimming cuts `s` to the stretch from its first to its last character
/// that is not white space (nothing when every character is white space):
/// everything cut off is white space and nothing else is changed.
pub proof fn lemma_trimmed_cut(s: Seq<char>)
    ensures
        exists|i: int, j: int| {
            &&& 0 <= i <= j <= s.len()
            &&& trimmed(s) == s.subrange(i, j)
            &&& forall|k: int| 0 <= k < i ==> is_white_space(#[trigger] s[k])
            &&& forall|k: int| j <= k < s.len() ==> is_white_space(#[trigger] s[k])
            &&& i < j ==> !is_white_space(s[i]) && !is_white_space(s[j - 1])
        },
{
    let i = lemma_trim_start_cut(s);
    let t = s.subrange(i, s.len() as int);
    let jj = lemma_trim_end_cut(t);
    let j = i + jj;
    assert(t.subrange(0, jj) =~= s.subrange(i, j));
    assert forall|k: int| j <= k < s.len() implies is_white_space(#[trigger] s[k]) by {
        assert(s[k] == t[k - i]);
    }
    if i < s.len() {
        assert(t[0] == s[i]);
        if jj == 0 {
            assert(is_white_space(t[0]));
        }
        assert(s[j - 1] == t[jj - 1]);
    }
    assert(0 <= i <= j <= s.len());
}

/// The number a string of decimal digits spells.
pub open spec fn decimal_value(s: Seq<char>) -> int
    decreases s.len(),
{
    if s.len() == 0 { 0 } else { decimal_value(s.drop_last()) * 10 + (s.last() as int - 48) }
}

/// The digits of `n` are characters `0` to `9` that spell `n`, with no
/// leading zero except for zero itself.
pub proof fn lemma_decimal_digits_spell(n: nat)
    ensures
        decimal_value(decimal_digits(n)) == n,
        decimal_digits(n).len() >= 1,
        forall|k: int| 0 <= k < decimal_digits(n).len() ==>
            '0' <= #[trigger] decimal_digits(n)[k] <= '9',
        decimal_digits(n)[0] == '0' ==> n == 0,
    decreases n,
{
    assert(digit_char((n % 10) as int) as int == 48 + n % 10);
    assert(n < 10 ==> digit_char(n as int) as int == 48 + n);
    if n >= 10 {
        lemma_decimal_digits_spell(n / 10);
        let d = decimal_digits(n);
        assert(decimal_value(d) == decimal_value(d.drop_last()) * 10 + (d.last() as int - 48));
        assert(d.drop_last() =~= decimal_digits(n / 10));
        assert forall|k: int| 0 <= k < d.len() implies '0' <= #[trigger] d[k] <= '9' by {
            if k < d.len() - 1 {
                assert(d[k] == decimal_digits(n / 10)[k]);
            }
        }
        assert(d[0] == decimal_digits(n / 10)[0]);
        assert(d.last() == digit_char((n % 10) as int));
        assert(n == (n / 10) * 10 + n % 10);
    } else {
        let d = decimal_digits(n);
        assert(d.drop_last() =~= Seq::<char>::empty());
        assert(decimal_value(d.drop_last()) == 0);
        assert(decimal_value(d) == decimal_value(d.drop_last()) * 10 + (d.last() as int - 48));
    }
}

/// Zero padding: `n` written in decimal with `0`s in front up to `width`
/// characters, and a negative number's minus sign before those zeros.
pub proof fn lemma_padded_decimal_shape(n: int, width: int)
    ensures
        n >= 0 ==> {
            let p = padded_decimal(n, width);
            let ds = decimal_digits(n as nat);
            &&& p.len() == if width > ds.len() { width } else { ds.len() as int }
            &&& p.subrange(p.len() - ds.len(), p.len() as int) == ds
            &&& forall|k: int| 0 <= k < p.len() - ds.len() ==> #[trigger] p[k] == '0'
        },
        n < 0 ==> {
            let p = padded_decimal(n, width);
            let ds = decimal_digits((-n) as nat);
            &&& p.len() == if width - 1 > ds.len() { width } else { (ds.len() + 1) as int }
            &&& p[0] == '-'
            &&& p.subrange(p.len() - ds.len(), p.len() as int) == ds
            &&& forall|k: int| 1 <= k < p.len() - ds.len() ==> #[trigger] p[k] == '0'
        },
{
    if n >= 0 {
        let p = padded_decimal(n, width);
        let ds = decimal_digits(n as nat);
        assert(p.subrange(p.len() - ds.len(), p.len() as int) =~= ds);
    } else {
        let p = padded_decimal(n, width);
        let ds = decimal_digits((-n) as nat);
        assert(p.subrange(p.len() - ds.len(), p.len() as int) =~= ds);
    }
}

} // verus!

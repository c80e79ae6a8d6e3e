use vstd::prelude::*;
use vstd::string::*;

use crate::prompts::joined;
use crate::text::{chars_of, is_space, is_space_char, same_text, string_from_chars, trim, trim_range};

verus! {

/// What `char::is_numeric` says of a character.
pub uninterp spec fn numeric_char(c: char) -> bool;

/// Relies on `char::is_numeric`: whether `c` is a numeric character in Unicode's sense,
/// which the ASCII digits are.
#[verifier::external_body]
fn is_numeric(c: char) -> (r: bool)
    ensures
        r == numeric_char(c),
        '0' <= c <= '9' ==> r,
{
    c.is_numeric()
}

/// Bytes that `c` takes in UTF-8.
pub open spec fn utf8_width(c: char) -> nat {
    if (c as u32) < 0x80 {
        1
    } else if (c as u32) < 0x800 {
        2
    } else if (c as u32) < 0x10000 {
        3
    } else {
        4
    }
}

/// Bytes that `s` takes in UTF-8.
pub open spec fn utf8_len(s: Seq<char>) -> nat
    decreases s.len(),
{
    if s.len() == 0 {
        0
    } else {
        utf8_len(s.drop_last()) + utf8_width(s.last())
    }
}

/// The words of `s`: its maximal runs of characters that are not white space.
pub open spec fn words(s: Seq<char>) -> Seq<Seq<char>>
    decreases s.len(),
{
    if s.len() == 0 {
        seq![]
    } else if is_space(s.last()) {
        words(s.drop_last())
    } else if s.len() > 1 && !is_space(s[s.len() - 2]) {
        let w = words(s.drop_last());
        w.update(w.len() - 1, w.last().push(s.last()))
    } else {
        words(s.drop_last()).push(seq![s.last()])
    }
}

/// Phrases that the speech model makes up on silence; a segment that is one of them is
/// dropped.
pub open spec fn discard_phrase(t: Seq<char>) -> bool {
    t == "이 영상은 자막을 사용하였습니다."@ || t == "자막을 사용하였습니다."@ || t
        == "이 영상은 자막을 사용합니다."@ || t == "자막을 사용합니다."@
}

/// Filler words; a segment that is one of them alone is dropped when filtering.
pub open spec fn filler_word(t: Seq<char>) -> bool {
    t == "아"@ || t == "으"@ || t == "음"@ || t == "어"@ || t == "저"@ || t == "그"@ || t == "뭐"@
        || t == "얍"@ || t == "흠"@ || t == "네"@ || t == "예"@
}

/// At most two distinct words occur in `ws`.
pub open spec fn at_most_two_distinct(ws: Seq<Seq<char>>) -> bool {
    exists|a: Seq<char>, b: Seq<char>| #[trigger] covered_by(ws, a, b)
}

/// Every word of `ws` is `a` or `b`.
pub open spec fn covered_by(ws: Seq<Seq<char>>, a: Seq<char>, b: Seq<char>) -> bool {
    forall|i: int| 0 <= i < ws.len() ==> #[trigger] ws[i] == a || ws[i] == b
}

/// Every character of `t` is white space, a period or numeric.
pub open spec fn numbers_only(t: Seq<char>) -> bool {
    forall|i: int| 0 <= i < t.len() ==> is_space(#[trigger] t[i]) || t[i] == '.' || numeric_char(t[i])
}

/// Whether a segment of text `text` is kept: once trimmed it is not empty, takes at least
/// `min_length` bytes and is no made-up phrase; when filtering, it is also no lone filler
/// word, and of ten words or more it neither repeats at most two distinct words nor holds
/// only numbers and periods.
pub open spec fn keeps_segment(text: Seq<char>, enable_filter: bool, min_length: nat) -> bool {
    let t = trim(text);
    &&& t.len() > 0
    &&& utf8_len(t) >= min_length
    &&& !discard_phrase(t)
    &&& enable_filter ==> {
        &&& !filler_word(t)
        &&& words(t).len() >= 10 ==> !at_most_two_distinct(words(t)) && !numbers_only(t)
    }
}

fn one_of_discard(t: &str) -> (r: bool)
    ensures
        r == discard_phrase(t@),
{
    same_text(t, "이 영상은 자막을 사용하였습니다.") || same_text(t, "자막을 사용하였습니다.")
        || same_text(t, "이 영상은 자막을 사용합니다.") || same_text(t, "자막을 사용합니다.")
}

fn one_of_fillers(t: &str) -> (r: bool)
    ensures
        r == filler_word(t@),
{
    same_text(t, "아") || same_text(t, "으") || same_text(t, "음") || same_text(t, "어")
        || same_text(t, "저") || same_text(t, "그") || same_text(t, "뭐") || same_text(t, "얍")
        || same_text(t, "흠") || same_text(t, "네") || same_text(t, "예")
}

fn utf8_width_of(c: char) -> (r: u128)
    ensures
        r == utf8_width(c),
{
    if (c as u32) < 0x80 {
        1
    } else if (c as u32) < 0x800 {
        2
    } else if (c as u32) < 0x10000 {
        3
    } else {
        4
    }
}

fn utf8_length(t: &Vec<char>) -> (r: u128)
    ensures
        r == utf8_len(t@),
{
    let mut acc: u128 = 0;
    let mut i: usize = 0;
    while i < t.len()
        invariant
            i <= t@.len(),
            acc == utf8_len(t@.subrange(0, i as int)),
            acc <= 4 * i,
        decreases t@.len() - i,
    {
        assert(t@.subrange(0, i + 1).drop_last() =~= t@.subrange(0, i as int));
        acc = acc + utf8_width_of(t[i]);
        i = i + 1;
    }
    assert(t@.subrange(0, t@.len() as int) =~= t@);
    acc
}

fn same_chars(a: &Vec<char>, b: &Vec<char>) -> (r: bool)
    ensures
        r == (a@ == b@),
{
    if a.len() != b.len() {
        return false;
    }
    let mut i: usize = 0;
    while i < a.len()
        invariant
            a@.len() == b@.len(),
            i <= a@.len(),
            forall|k: int| 0 <= k < i ==> a@[k] == b@[k],
        decreases a@.len() - i,
    {
        if a[i] != b[i] {
            assert(a@[i as int] != b@[i as int]);
            return false;
        }
        i = i + 1;
    }
    assert(a@ =~= b@);
    true
}

pub open spec fn char_views(v: Seq<Vec<char>>) -> Seq<Seq<char>> {
    v.map_values(|w: Vec<char>| w@)
}

/// The words of `t`.
fn split_words(t: &Vec<char>) -> (r: Vec<Vec<char>>)
    ensures
        char_views(r@) == words(t@),
{
    let mut ws: Vec<Vec<char>> = Vec::new();
    let mut i: usize = 0;
    while i < t.len()
        invariant
            i <= t@.len(),
            char_views(ws@) == words(t@.subrange(0, i as int)),
        decreases t@.len() - i,
    {
        let ghost pre = t@.subrange(0, i as int);
        let ghost cur = t@.subrange(0, i + 1);
        assert(cur.drop_last() =~= pre);
        let c = t[i];
        if is_space_char(c) {
        } else if i > 0 && !is_space_char(t[i - 1]) {
            proof {
                lemma_words_nonempty(pre);
            }
            let last = ws.len() - 1;
            let mut w = ws.remove(last);
            w.push(c);
            ws.push(w);
            assert(char_views(ws@) =~= words(cur));
        } else {
            let mut w: Vec<char> = Vec::new();
            w.push(c);
            ws.push(w);
            assert(char_views(ws@) =~= words(cur));
        }
        i = i + 1;
    }
    assert(t@.subrange(0, t@.len() as int) =~= t@);
    ws
}

proof fn lemma_words_nonempty(s: Seq<char>)
    requires
        s.len() > 0,
        !is_space(s.last()),
    ensures
        words(s).len() > 0,
    decreases s.len(),
{
    if s.len() > 1 && !is_space(s[s.len() - 2]) {
        assert(s.drop_last().last() == s[s.len() - 2]);
        lemma_words_nonempty(s.drop_last());
    }
}

fn at_most_two(ws: &Vec<Vec<char>>) -> (r: bool)
    requires
        ws@.len() > 0,
    ensures
        r == at_most_two_distinct(char_views(ws@)),
{
    let ghost v = char_views(ws@);
    let mut other: Option<usize> = None;
    let mut i: usize = 0;
    while i < ws.len()
        invariant
            v == char_views(ws@),
            ws@.len() > 0,
            i <= ws@.len(),
            match other {
                None => forall|k: int| 0 <= k < i ==> #[trigger] v[k] == v[0],
                Some(j) => j < i && v[j as int] != v[0] && forall|k: int|
                    0 <= k < i ==> #[trigger] v[k] == v[0] || v[k] == v[j as int],
            },
        decreases ws@.len() - i,
    {
        if !same_chars(&ws[i], &ws[0]) {
            match other {
                None => {
                    other = Some(i);
                },
                Some(j) => {
                    if !same_chars(&ws[i], &ws[j]) {
                        proof {
                            let (x, y, z) = (v[0], v[j as int], v[i as int]);
                            assert forall|a: Seq<char>, b: Seq<char>| !covered_by(v, a, b) by {
                                if covered_by(v, a, b) {
                                    assert(v[0] == a || v[0] == b);
                                    assert(v[j as int] == a || v[j as int] == b);
                                    assert(v[i as int] == a || v[i as int] == b);
                                }
                            }
                        }
                        return false;
                    }
                },
            }
        }
        i = i + 1;
    }
    proof {
        match other {
            None => {
                assert(covered_by(v, v[0], v[0]));
            },
            Some(j) => {
                assert(covered_by(v, v[0], v[j as int]));
            },
        }
    }
    true
}

fn numbers_only_exec(t: &Vec<char>) -> (r: bool)
    ensures
        r == numbers_only(t@),
{
    let mut i: usize = 0;
    while i < t.len()
        invariant
            i <= t@.len(),
            forall|k: int| 0 <= k < i ==> is_space(#[trigger] t@[k]) || t@[k] == '.' || numeric_char(t@[k]),
        decreases t@.len() - i,
    {
        let c = t[i];
        if !(is_space_char(c) || c == '.' || is_numeric(c)) {
            return false;
        }
        i = i + 1;
    }
    true
}

/// Whether a transcribed segment is worth keeping (see `keeps_segment`).
pub fn should_keep_segment(text: &str, enable_filter: bool, min_length: usize) -> (r: bool)
    ensures
        r == keeps_segment(text@, enable_filter, min_length as nat),
{
    let all = chars_of(text);
    let (a, b) = trim_range(&all, 0, all.len());
    assert(all@.subrange(0, all@.len() as int) =~= text@);
    let t_str = text.substring_char(a, b);
    let t = chars_of(t_str);
    if t.len() == 0 {
        return false;
    }
    if utf8_length(&t) < min_length as u128 {
        return false;
    }
    if one_of_discard(t_str) {
        return false;
    }
    if !enable_filter {
        return true;
    }
    if one_of_fillers(t_str) {
        return false;
    }
    let ws = split_words(&t);
    if ws.len() >= 10 {
        if at_most_two(&ws) {
            return false;
        }
        if numbers_only_exec(&t) {
            return false;
        }
    }
    true
}

/// `ws` without the third and later copies of each run of equal neighbouring words.
pub open spec fn without_long_runs(ws: Seq<Seq<char>>) -> Seq<Seq<char>>
    decreases ws.len(),
{
    if ws.len() == 0 {
        seq![]
    } else {
        let n = ws.len();
        let rest = without_long_runs(ws.drop_last());
        if n >= 3 && ws[n - 2] == ws[n - 1] && ws[n - 3] == ws[n - 1] {
            rest
        } else {
            rest.push(ws[n - 1])
        }
    }
}

/// Occurrences of `w` in `ws`.
pub open spec fn occurrences(ws: Seq<Seq<char>>, w: Seq<char>) -> nat
    decreases ws.len(),
{
    if ws.len() == 0 {
        0
    } else {
        occurrences(ws.drop_last(), w) + if ws.last() == w {
            1nat
        } else {
            0nat
        }
    }
}

/// How often a word may occur: three times for a word of at most two bytes, else five.
pub open spec fn word_limit(w: Seq<char>) -> nat {
    if utf8_len(w) <= 2 {
        3
    } else {
        5
    }
}

/// `ws` keeping each word only while it has occurred fewer times than its limit.
pub open spec fn capped(ws: Seq<Seq<char>>) -> Seq<Seq<char>>
    decreases ws.len(),
{
    if ws.len() == 0 {
        seq![]
    } else {
        let rest = capped(ws.drop_last());
        if occurrences(rest, ws.last()) < word_limit(ws.last()) {
            rest.push(ws.last())
        } else {
            rest
        }
    }
}

/// The text with repeated words removed: unchanged when it has at most one word, else its
/// words without long runs and capped in number, joined by single spaces.
pub open spec fn without_repetitions(t: Seq<char>) -> Seq<char> {
    if words(t).len() <= 1 {
        t
    } else {
        joined(capped(without_long_runs(words(t))), seq![' '])
    }
}

fn count_in(ws: &Vec<Vec<char>>, w: &Vec<char>) -> (r: usize)
    ensures
        r == occurrences(char_views(ws@), w@),
{
    let mut c: usize = 0;
    let mut i: usize = 0;
    while i < ws.len()
        invariant
            i <= ws@.len(),
            c <= i,
            c == occurrences(char_views(ws@.subrange(0, i as int)), w@),
        decreases ws@.len() - i,
    {
        assert(char_views(ws@.subrange(0, i + 1)).drop_last() =~= char_views(
            ws@.subrange(0, i as int),
        ));
        if same_chars(&ws[i], w) {
            c = c + 1;
        }
        i = i + 1;
    }
    assert(ws@.subrange(0, ws@.len() as int) =~= ws@);
    c
}

fn copy_chars(w: &Vec<char>) -> (r: Vec<char>)
    ensures
        r@ == w@,
{
    let mut r: Vec<char> = Vec::new();
    let mut i: usize = 0;
    while i < w.len()
        invariant
            i <= w@.len(),
            r@ == w@.subrange(0, i as int),
        decreases w@.len() - i,
    {
        r.push(w[i]);
        i = i + 1;
        assert(r@ =~= w@.subrange(0, i as int));
    }
    assert(w@.subrange(0, w@.len() as int) =~= w@);
    r
}

/// Words joined by single spaces.
fn join_words(ws: &Vec<Vec<char>>) -> (r: Vec<char>)
    ensures
        r@ == joined(char_views(ws@), seq![' ']),
{
    let mut r: Vec<char> = Vec::new();
    let mut i: usize = 0;
    while i < ws.len()
        invariant
            i <= ws@.len(),
            r@ == joined(char_views(ws@.subrange(0, i as int)), seq![' ']),
        decreases ws@.len() - i,
    {
        let ghost before = r@;
        assert(char_views(ws@.subrange(0, i + 1)).drop_last() =~= char_views(
            ws@.subrange(0, i as int),
        ));
        if i > 0 {
            r.push(' ');
        }
        let w = &ws[i];
        let mut k: usize = 0;
        let ghost mid = r@;
        while k < w.len()
            invariant
                k <= w@.len(),
                r@ == mid + w@.subrange(0, k as int),
            decreases w@.len() - k,
        {
            r.push(w[k]);
            k = k + 1;
            assert(r@ =~= mid + w@.subrange(0, k as int));
        }
        assert(w@.subrange(0, w@.len() as int) =~= w@);
        proof {
            if i > 0 {
                assert(r@ =~= before + seq![' '] + w@);
            } else {
                assert(char_views(ws@.subrange(0, 1)) =~= seq![w@]);
                assert(r@ =~= w@);
            }
        }
        i = i + 1;
    }
    assert(ws@.subrange(0, ws@.len() as int) =~= ws@);
    r
}

/// Removes repeated words from `text` (see `without_repetitions`).
pub fn remove_word_repetitions(text: &str) -> (r: String)
    ensures
        r@ == without_repetitions(text@),
{
    let chars = chars_of(text);
    let ws = split_words(&chars);
    if ws.len() <= 1 {
        return text.to_owned();
    }
    let ghost wv = char_views(ws@);
    let mut runs: Vec<Vec<char>> = Vec::new();
    let mut i: usize = 0;
    while i < ws.len()
        invariant
            wv == char_views(ws@),
            i <= ws@.len(),
            char_views(runs@) == without_long_runs(wv.subrange(0, i as int)),
        decreases ws@.len() - i,
    {
        let ghost pre = wv.subrange(0, i as int);
        assert(wv.subrange(0, i + 1).drop_last() =~= pre);
        let long_run = i >= 2 && same_chars(&ws[i - 1], &ws[i]) && same_chars(&ws[i - 2], &ws[i]);
        if !long_run {
            runs.push(copy_chars(&ws[i]));
            assert(char_views(runs@) =~= without_long_runs(pre).push(wv[i as int]));
        }
        i = i + 1;
    }
    assert(wv.subrange(0, wv.len() as int) =~= wv);
    let ghost rv = char_views(runs@);
    let mut kept: Vec<Vec<char>> = Vec::new();
    let mut j: usize = 0;
    while j < runs.len()
        invariant
            rv == char_views(runs@),
            j <= runs@.len(),
            char_views(kept@) == capped(rv.subrange(0, j as int)),
        decreases runs@.len() - j,
    {
        let ghost pre = rv.subrange(0, j as int);
        assert(rv.subrange(0, j + 1).drop_last() =~= pre);
        let w = &runs[j];
        let seen = count_in(&kept, w);
        let limit: usize = if utf8_length(w) <= 2 {
            3
        } else {
            5
        };
        if seen < limit {
            kept.push(copy_chars(w));
            assert(char_views(kept@) =~= capped(pre).push(rv[j as int]));
        }
        j = j + 1;
    }
    assert(rv.subrange(0, rv.len() as int) =~= rv);
    let out = join_words(&kept);
    string_from_chars(&out)
}

/// `s` with every run of four or more periods shortened to three.
pub open spec fn short_ellipses(s: Seq<char>) -> Seq<char>
    decreases s.len(),
{
    if s.len() == 0 {
        seq![]
    } else {
        let n = s.len();
        let rest = short_ellipses(s.drop_last());
        if n >= 4 && s[n - 1] == '.' && s[n - 2] == '.' && s[n - 3] == '.' && s[n - 4] == '.' {
            rest
        } else {
            rest.push(s[n - 1])
        }
    }
}

/// `s` with every run of white space replaced by one space.
pub open spec fn collapsed_spaces(s: Seq<char>) -> Seq<char>
    decreases s.len(),
{
    if s.len() == 0 {
        seq![]
    } else {
        let n = s.len();
        let rest = collapsed_spaces(s.drop_last());
        if is_space(s[n - 1]) {
            if n >= 2 && is_space(s[n - 2]) {
                rest
            } else {
                rest.push(' ')
            }
        } else {
            rest.push(s[n - 1])
        }
    }
}

/// Relies on `regex::Regex::replace_all` with the pattern `\s+` (Unicode white space) and
/// the replacement `" "`: every run of white space becomes one space.
#[verifier::external_body]
fn collapse_whitespace(s: &str) -> (r: String)
    ensures
        r@ == collapsed_spaces(s@),
{
    let re = regex::Regex::new(r"\s+").unwrap();
    re.replace_all(s, " ").to_string()
}

fn shorten_ellipses(s: &Vec<char>) -> (r: Vec<char>)
    ensures
        r@ == short_ellipses(s@),
{
    let mut out: Vec<char> = Vec::new();
    let mut i: usize = 0;
    while i < s.len()
        invariant
            i <= s@.len(),
            out@ == short_ellipses(s@.subrange(0, i as int)),
        decreases s@.len() - i,
    {
        let ghost pre = s@.subrange(0, i as int);
        assert(s@.subrange(0, i + 1).drop_last() =~= pre);
        let long = i >= 3 && s[i] == '.' && s[i - 1] == '.' && s[i - 2] == '.' && s[i - 3] == '.';
        if !long {
            out.push(s[i]);
        }
        i = i + 1;
    }
    assert(s@.subrange(0, s@.len() as int) =~= s@);
    out
}

/// The normalized form of a kept segment: trimmed, repeated words removed, and when
/// `normalize_punct` holds, long runs of periods shortened and white space collapsed.
pub open spec fn normalized(text: Seq<char>, normalize_punct: bool) -> Seq<char> {
    let t = without_repetitions(trim(text));
    if normalize_punct {
        collapsed_spaces(short_ellipses(t))
    } else {
        t
    }
}

/// Normalizes the text of a segment (see `normalized`).
pub fn normalize_text(text: &str, normalize_punct: bool) -> (r: String)
    ensures
        r@ == normalized(text@, normalize_punct),
{
    let all = chars_of(text);
    let (a, b) = trim_range(&all, 0, all.len());
    assert(all@.subrange(0, all@.len() as int) =~= text@);
    let t = text.substring_char(a, b);
    let cleaned = remove_word_repetitions(t);
    if normalize_punct {
        let c = chars_of(cleaned.as_str());
        let shortened = string_from_chars(&shorten_ellipses(&c));
        collapse_whitespace(shortened.as_str())
    } else {
        cleaned
    }
}

/// The text that a transcribed segment contributes: empty when the segment is not kept,
/// else its normalized form.
pub fn process_segment_text(
    text: &str,
    filter_fillers: bool,
    min_length: usize,
    normalize_punct: bool,
) -> (r: String)
    ensures
        keeps_segment(text@, filter_fillers, min_length as nat) ==> r@ == normalized(
            text@,
            normalize_punct,
        ),
        !keeps_segment(text@, filter_fillers, min_length as nat) ==> r@.len() == 0,
{
    if !should_keep_segment(text, filter_fillers, min_length) {
        return String::new();
    }
    normalize_text(text, normalize_punct)
}

} // verus!

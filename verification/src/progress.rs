//! Parser for the engine's line-oriented progress protocol.
//!
//! One line of engine output can carry a percentage (`[download]  45.2%`),
//! a transfer speed (`at 5.23MiB/s`), an ETA (`ETA 00:10`), or a signal
//! that the item was already downloaded or recorded. Extraction is
//! stateless: each function looks at one line, finds the leftmost place
//! where its pattern matches, and returns what the pattern captures.

use vstd::prelude::*;

use crate::strutil::{
    all_digits, chars_of, digit_char, digits_val, figure_run_end, figure_run_end_exec, is_digit_char,
    is_figure_char, lemma_digits_val_nonneg, lemma_figure_run_chars,
    lemma_skip_spaces_bounds, lower_code, lower_code_of, match_at, match_at_exec,
    nonspace_run_end, nonspace_run_end_exec, skip_spaces, skip_spaces_exec, word_run_end,
    word_run_end_exec,
};

verus! {

/// The tag that opens a progress line.
pub open spec fn download_tag() -> Seq<char> {
    seq!['[', 'd', 'o', 'w', 'n', 'l', 'o', 'a', 'd', ']']
}

/// A percent figure matches at `i`: the download tag, optional
/// whitespace, a nonempty run of digits and dots, then `%`.
/// The capture is the run.
pub open spec fn percent_cap_at(s: Seq<char>, i: int) -> Option<Seq<char>> {
    if match_at(s, download_tag(), i) {
        let j = skip_spaces(s, i + 10);
        let k = figure_run_end(s, j);
        if k > j && k < s.len() && s[k] == '%' {
            Some(s.subrange(j, k))
        } else {
            None
        }
    } else {
        None
    }
}

/// The leftmost percent capture at or after `i`.
pub open spec fn percent_scan(s: Seq<char>, i: int) -> Option<Seq<char>>
    decreases s.len() - i,
{
    if i < 0 || i >= s.len() {
        None
    } else if percent_cap_at(s, i) is Some {
        percent_cap_at(s, i)
    } else {
        percent_scan(s, i + 1)
    }
}

/// The leftmost percent capture of the line.
pub open spec fn percent_capture(s: Seq<char>) -> Option<Seq<char>> {
    percent_scan(s, 0)
}

/// First position at or after `i` holding a dot, or the length.
pub open spec fn first_dot(s: Seq<char>, i: int) -> int
    decreases s.len() - i,
{
    if i < 0 || i >= s.len() {
        s.len() as int
    } else if s[i] == '.' {
        i
    } else {
        first_dot(s, i + 1)
    }
}

/// The whole-percent value of a captured digits-and-dots run: the run
/// must hold at most one dot and at least one digit (what a float
/// reader accepts); the value is the integer part, capped at 100 so
/// that progress stays within its range.
pub open spec fn figure_value(run: Seq<char>) -> Option<u32> {
    let fd = first_dot(run, 0);
    let well_formed = fd == run.len() || (run.len() >= 2 && first_dot(run, fd + 1) == run.len());
    if well_formed {
        let v = digits_val(run.subrange(0, fd));
        if v > 100 {
            Some(100u32)
        } else {
            Some(v as u32)
        }
    } else {
        None
    }
}

/// The progress percentage reported by the line, if any.
pub open spec fn percent_value(s: Seq<char>) -> Option<u32> {
    match percent_capture(s) {
        Some(run) => figure_value(run),
        None => None,
    }
}

pub proof fn lemma_first_dot_bounds(s: Seq<char>, i: int)
    requires
        0 <= i <= s.len(),
    ensures
        i <= first_dot(s, i) <= s.len(),
    decreases s.len() - i,
{
    if i < s.len() && s[i] != '.' {
        lemma_first_dot_bounds(s, i + 1);
    }
}

/// No dot occurs before `first_dot`.
pub proof fn lemma_first_dot_chars(s: Seq<char>, i: int)
    requires
        0 <= i <= s.len(),
    ensures
        forall|k: int| i <= k < first_dot(s, i) ==> s[k] != '.',
    decreases s.len() - i,
{
    if i < s.len() && s[i] != '.' {
        lemma_first_dot_chars(s, i + 1);
    }
}

/// A percent capture is a run of digit-or-dot characters.
pub proof fn lemma_percent_scan_figures(s: Seq<char>, i: int)
    requires
        0 <= i,
    ensures
        percent_scan(s, i) matches Some(run) ==> forall|t: int|
            0 <= t < run.len() ==> is_figure_char(#[trigger] run[t]),
    decreases s.len() - i,
{
    if i < s.len() {
        if percent_cap_at(s, i) is Some {
            let j = skip_spaces(s, i + 10);
            let k = figure_run_end(s, j);
            lemma_skip_spaces_bounds(s, i + 10);
            lemma_figure_run_chars(s, j);
        } else {
            lemma_percent_scan_figures(s, i + 1);
        }
    }
}

/// The progress percentage a line reports never exceeds 100.
pub proof fn lemma_percent_value_bounded(s: Seq<char>)
    ensures
        percent_value(s) matches Some(p) ==> p <= 100,
{
    lemma_percent_scan_figures(s, 0);
    match percent_capture(s) {
        Some(run) => {
            let fd = first_dot(run, 0);
            lemma_first_dot_bounds(run, 0);
            lemma_first_dot_chars(run, 0);
            let ip = run.subrange(0, fd);
            assert(all_digits(ip)) by {
                assert(forall|t: int|
                    0 <= t < ip.len() ==> is_figure_char(#[trigger] run[t]) && run[t] != '.'
                        && ip[t] == run[t]);
            }
            lemma_digits_val_nonneg(ip);
        },
        None => {},
    }
}

/// Accumulates the decimal value of the digits `v[from..to]`, capped
/// at 101 (enough to decide whether the true value exceeds 100).
fn capped_digits_val(v: &Vec<char>, from: usize, to: usize) -> (r: u64)
    requires
        from <= to <= v@.len(),
        all_digits(v@.subrange(from as int, to as int)),
    ensures
        ({
            let value = digits_val(v@.subrange(from as int, to as int));
            (value > 101 ==> r == 101) && (value <= 101 ==> r == value)
        }),
{
    let ghost whole = v@.subrange(from as int, to as int);
    proof {
        lemma_digits_val_nonneg(whole);
    }
    let mut acc: u64 = 0;
    let mut i = from;
    while i < to
        invariant
            from <= i <= to <= v@.len(),
            all_digits(v@.subrange(from as int, to as int)),
            whole == v@.subrange(from as int, to as int),
            acc <= 101,
            ({
                let value = digits_val(whole.subrange(0, i - from));
                (value > 101 ==> acc == 101) && (value <= 101 ==> acc == value)
            }),
        decreases to - i,
    {
        let c = v[i];
        proof {
            let p = whole.subrange(0, i - from);
            let q = whole.subrange(0, i + 1 - from);
            assert(q.drop_last() =~= p);
            assert(q.last() == c);
            assert(is_digit_char(c));
            assert(all_digits(p));
            lemma_digits_val_nonneg(p);
        }
        let d: u64 = (c as u32 - 48) as u64;
        let x = acc * 10 + d;
        if x > 101 {
            acc = 101;
        } else {
            acc = x;
        }
        i = i + 1;
    }
    proof {
        assert(whole.subrange(0, to - from) =~= whole);
    }
    acc
}

/// Scans the digits-and-dots run `v[j..k]` and returns its whole-percent
/// value, as [`figure_value`] describes.
fn figure_value_exec(v: &Vec<char>, j: usize, k: usize) -> (r: Option<u32>)
    requires
        j <= k <= v@.len(),
        forall|x: int| j <= x < k ==> is_figure_char(v@[x]),
    ensures
        r == figure_value(v@.subrange(j as int, k as int)),
{
    let ghost run = v@.subrange(j as int, k as int);
    // find the first dot
    let mut x = j;
    while x < k && v[x] != '.'
        invariant
            j <= x <= k <= v@.len(),
            run == v@.subrange(j as int, k as int),
            first_dot(run, 0) == first_dot(run, x - j),
        decreases k - x,
    {
        x = x + 1;
    }
    let fd = x;
    proof {
        assert(first_dot(run, 0) == fd - j);
    }
    // check there is no second dot
    if fd < k {
        if k - j < 2 {
            return None;
        }
        let mut y = fd + 1;
        while y < k && v[y] != '.'
            invariant
                j <= fd < k,
                fd + 1 <= y <= k <= v@.len(),
                run == v@.subrange(j as int, k as int),
                first_dot(run, fd + 1 - j) == first_dot(run, y - j),
            decreases k - y,
        {
            proof {
                assert(run[y - j] == v@[y as int]);
                assert(first_dot(run, y - j) == first_dot(run, y + 1 - j));
            }
            y = y + 1;
        }
        if y < k {
            proof {
                assert(first_dot(run, fd + 1 - j) == y - j);
                assert(y - j < run.len());
            }
            return None;
        }
        proof {
            assert(first_dot(run, fd + 1 - j) == run.len());
        }
    }
    proof {
        lemma_first_dot_chars(run, 0);
        assert(forall|t: int|
            0 <= t < fd - j ==> is_figure_char(run[t]) && run[t] != '.' && is_digit_char(run[t]));
        assert(all_digits(v@.subrange(j as int, fd as int))) by {
            assert(forall|t: int|
                j <= t < fd ==> v@[t] == run[t - j] && is_digit_char(run[t - j]));
        }
        assert(run.subrange(0, fd - j) =~= v@.subrange(j as int, fd as int));
    }
    let capped = capped_digits_val(v, j, fd);
    if capped > 100 {
        Some(100)
    } else {
        Some(capped as u32)
    }
}

/// Extracts the progress percentage of the line, if it carries one.
pub fn line_percent(line: &str) -> (r: Option<u32>)
    ensures
        r == percent_value(line@),
{
    let v = chars_of(line);
    let tag = chars_of("[download]");
    proof {
        reveal_strlit("[download]");
        assert(tag@ =~= download_tag());
    }
    let n = v.len();
    let mut i: usize = 0;
    while i < n
        invariant
            i <= n,
            n == v@.len(),
            v@ == line@,
            tag@ == download_tag(),
            percent_scan(line@, 0) == percent_scan(line@, i as int),
        decreases n - i,
    {
        if match_at_exec(&v, &tag, i) {
            let j = skip_spaces_exec(&v, i + 10);
            let k = figure_run_end_exec(&v, j);
            if k > j && k < n {
                let is_pct = v[k] == '%';
                if is_pct {
                    proof {
                        assert(percent_cap_at(line@, i as int) == Some(
                            line@.subrange(j as int, k as int),
                        ));
                        lemma_figure_run_chars(line@, j as int);
                    }
                    return figure_value_exec(&v, j, k);
                }
            }
            proof {
                assert(percent_cap_at(line@, i as int) is None);
            }
        }
        i = i + 1;
    }
    None
}

/// A speed figure matches at `i`: the word `at`, whitespace, then a
/// rate such as `5.23MiB/s`. The rate is a nonempty run of digits and
/// dots, optional whitespace, a nonempty run of word characters, and
/// `/s`; when the unit run is empty and `/s` follows the figures
/// directly, the trailing digits of the run may serve as the unit
/// (`at 12/s`). The capture runs from the first figure through `/s`.
pub open spec fn speed_cap_at(s: Seq<char>, i: int) -> Option<Seq<char>> {
    if 0 <= i && i + 2 <= s.len() && s[i] == 'a' && s[i + 1] == 't' {
        let p = skip_spaces(s, i + 2);
        if p > i + 2 {
            let m = figure_run_end(s, p);
            if m > p {
                let q = skip_spaces(s, m);
                let w = word_run_end(s, q);
                if w > q && w + 2 <= s.len() && s[w] == '/' && s[w + 1] == 's' {
                    Some(s.subrange(p, w + 2))
                } else if q == m && m + 2 <= s.len() && s[m] == '/' && s[m + 1] == 's' && m - p
                    >= 2 && is_digit_char(s[m - 1]) {
                    Some(s.subrange(p, m + 2))
                } else {
                    None
                }
            } else {
                None
            }
        } else {
            None
        }
    } else {
        None
    }
}

pub open spec fn speed_scan(s: Seq<char>, i: int) -> Option<Seq<char>>
    decreases s.len() - i,
{
    if i < 0 || i >= s.len() {
        None
    } else if speed_cap_at(s, i) is Some {
        speed_cap_at(s, i)
    } else {
        speed_scan(s, i + 1)
    }
}

/// The leftmost speed capture of the line, if any.
pub open spec fn speed_capture(s: Seq<char>) -> Option<Seq<char>> {
    speed_scan(s, 0)
}

/// Extracts the transfer speed reported by the line, if any.
pub fn line_speed(line: &str) -> (r: Option<String>)
    ensures
        r.deep_view() == speed_capture(line@),
{
    let v = chars_of(line);
    let n = v.len();
    let mut i: usize = 0;
    while i < n
        invariant
            i <= n,
            n == v@.len(),
            v@ == line@,
            speed_scan(line@, 0) == speed_scan(line@, i as int),
        decreases n - i,
    {
        if i + 1 < n && v[i] == 'a' && v[i + 1] == 't' {
            let p = skip_spaces_exec(&v, i + 2);
            if p > i + 2 {
                let m = figure_run_end_exec(&v, p);
                if m > p {
                    let q = skip_spaces_exec(&v, m);
                    let w = word_run_end_exec(&v, q);
                    if w > q && w < n - 1 {
                        let slash_s = v[w] == '/' && v[w + 1] == 's';
                        if slash_s {
                            let cap = line.substring_char(p, w + 2).to_owned();
                            proof {
                                assert(speed_cap_at(line@, i as int) == Some(
                                    line@.subrange(p as int, w + 2),
                                ));
                            }
                            return Some(cap);
                        }
                    }
                    if q == m && m < n - 1 && m - p >= 2 {
                        let alt = v[m] == '/' && v[m + 1] == 's' && digit_char(v[m - 1]);
                        let prev = w > q && w < n - 1 && v[w] == '/' && v[w + 1] == 's';
                        if alt && !prev {
                            let cap = line.substring_char(p, m + 2).to_owned();
                            proof {
                                assert(speed_cap_at(line@, i as int) == Some(
                                    line@.subrange(p as int, m + 2),
                                ));
                            }
                            return Some(cap);
                        }
                    }
                }
            }
            proof {
                assert(speed_cap_at(line@, i as int) is None);
            }
        }
        i = i + 1;
    }
    None
}

/// The tag that opens an ETA figure.
pub open spec fn eta_tag() -> Seq<char> {
    seq!['E', 'T', 'A']
}

/// An ETA matches at `i`: the tag `ETA`, whitespace, then a nonempty
/// run of non-whitespace characters, which is the capture.
pub open spec fn eta_cap_at(s: Seq<char>, i: int) -> Option<Seq<char>> {
    if match_at(s, eta_tag(), i) {
        let p = skip_spaces(s, i + 3);
        if p > i + 3 {
            let w = nonspace_run_end(s, p);
            if w > p {
                Some(s.subrange(p, w))
            } else {
                None
            }
        } else {
            None
        }
    } else {
        None
    }
}

pub open spec fn eta_scan(s: Seq<char>, i: int) -> Option<Seq<char>>
    decreases s.len() - i,
{
    if i < 0 || i >= s.len() {
        None
    } else if eta_cap_at(s, i) is Some {
        eta_cap_at(s, i)
    } else {
        eta_scan(s, i + 1)
    }
}

/// The leftmost ETA capture of the line, if any.
pub open spec fn eta_capture(s: Seq<char>) -> Option<Seq<char>> {
    eta_scan(s, 0)
}

/// Extracts the estimated remaining time reported by the line, if any.
pub fn line_eta(line: &str) -> (r: Option<String>)
    ensures
        r.deep_view() == eta_capture(line@),
{
    let v = chars_of(line);
    let tag = chars_of("ETA");
    proof {
        reveal_strlit("ETA");
        assert(tag@ =~= eta_tag());
    }
    let n = v.len();
    let mut i: usize = 0;
    while i < n
        invariant
            i <= n,
            n == v@.len(),
            v@ == line@,
            tag@ == eta_tag(),
            eta_scan(line@, 0) == eta_scan(line@, i as int),
        decreases n - i,
    {
        if match_at_exec(&v, &tag, i) {
            let p = skip_spaces_exec(&v, i + 3);
            if p > i + 3 {
                let w = nonspace_run_end_exec(&v, p);
                if w > p {
                    let cap = line.substring_char(p, w).to_owned();
                    proof {
                        assert(eta_cap_at(line@, i as int) == Some(
                            line@.subrange(p as int, w as int),
                        ));
                    }
                    return Some(cap);
                }
            }
            proof {
                assert(eta_cap_at(line@, i as int) is None);
            }
        }
        i = i + 1;
    }
    None
}

/// Case-insensitive (ASCII) match of `kw` in `s` at position `i`.
pub open spec fn ci_match_at(s: Seq<char>, kw: Seq<char>, i: int) -> bool {
    &&& 0 <= i
    &&& i + kw.len() <= s.len()
    &&& forall|j: int| 0 <= j < kw.len() ==> lower_code(s[i + j]) == lower_code(kw[j])
}

pub open spec fn already_kw() -> Seq<char> {
    seq!['a', 'l', 'r', 'e', 'a', 'd', 'y']
}

pub open spec fn been_kw() -> Seq<char> {
    seq!['b', 'e', 'e', 'n']
}

pub open spec fn downloaded_kw() -> Seq<char> {
    seq!['d', 'o', 'w', 'n', 'l', 'o', 'a', 'd', 'e', 'd']
}

pub open spec fn recorded_kw() -> Seq<char> {
    seq![
        'h',
        'a',
        's',
        ' ',
        'a',
        'l',
        'r',
        'e',
        'a',
        'd',
        'y',
        ' ',
        'b',
        'e',
        'e',
        'n',
        ' ',
        'r',
        'e',
        'c',
        'o',
        'r',
        'd',
        'e',
        'd',
    ]
}

/// The already-done signal matches at `i`: case-insensitively, either
/// `already` then whitespace, optionally `been` then whitespace, then
/// `downloaded`; or the phrase `has already been recorded`.
pub open spec fn already_at(s: Seq<char>, i: int) -> bool {
    ||| ci_match_at(s, recorded_kw(), i)
    ||| (ci_match_at(s, already_kw(), i) && {
        let p = skip_spaces(s, i + 7);
        &&& p > i + 7
        &&& {
            ||| ci_match_at(s, downloaded_kw(), p)
            ||| (ci_match_at(s, been_kw(), p) && {
                let q = skip_spaces(s, p + 4);
                p + 4 < q && ci_match_at(s, downloaded_kw(), q)
            })
        }
    })
}

/// The line signals that the item was already downloaded or recorded.
pub open spec fn already_signal(s: Seq<char>) -> bool {
    exists|i: int| already_at(s, i)
}

fn ci_match_exec(v: &Vec<char>, kw: &Vec<char>, i: usize) -> (r: bool)
    requires
        i <= v@.len(),
    ensures
        r == ci_match_at(v@, kw@, i as int),
{
    if kw.len() > v.len() - i {
        return false;
    }
    let mut j: usize = 0;
    while j < kw.len()
        invariant
            j <= kw@.len(),
            i + kw@.len() <= v@.len(),
            v@.len() <= usize::MAX,
            forall|t: int| 0 <= t < j ==> lower_code(v@[i + t]) == lower_code(kw@[t]),
        decreases kw@.len() - j,
    {
        assert(i + j < v@.len());
        if lower_code_of(v[i + j]) != lower_code_of(kw[j]) {
            return false;
        }
        j = j + 1;
    }
    true
}

/// Whether the line signals that the item was already downloaded or
/// already recorded.
pub fn line_signals_already(line: &str) -> (r: bool)
    ensures
        r == already_signal(line@),
{
    let v = chars_of(line);
    let kw_already = chars_of("already");
    let kw_been = chars_of("been");
    let kw_downloaded = chars_of("downloaded");
    let kw_recorded = chars_of("has already been recorded");
    proof {
        reveal_strlit("already");
        reveal_strlit("been");
        reveal_strlit("downloaded");
        reveal_strlit("has already been recorded");
        assert(kw_already@ =~= already_kw());
        assert(kw_been@ =~= been_kw());
        assert(kw_downloaded@ =~= downloaded_kw());
        assert(kw_recorded@ =~= recorded_kw());
    }
    let n = v.len();
    let mut i: usize = 0;
    while i < n
        invariant
            i <= n,
            n == v@.len(),
            v@ == line@,
            kw_already@ == already_kw(),
            kw_been@ == been_kw(),
            kw_downloaded@ == downloaded_kw(),
            kw_recorded@ == recorded_kw(),
            forall|t: int| 0 <= t < i ==> !already_at(line@, t),
        decreases n - i,
    {
        if ci_match_exec(&v, &kw_recorded, i) {
            proof {
                assert(already_at(line@, i as int));
            }
            return true;
        }
        if ci_match_exec(&v, &kw_already, i) {
            let p = skip_spaces_exec(&v, i + 7);
            if p > i + 7 {
                if ci_match_exec(&v, &kw_downloaded, p) {
                    proof {
                        assert(already_at(line@, i as int));
                    }
                    return true;
                }
                if ci_match_exec(&v, &kw_been, p) {
                    let q = skip_spaces_exec(&v, p + 4);
                    if q > p + 4 && ci_match_exec(&v, &kw_downloaded, q) {
                        proof {
                            assert(already_at(line@, i as int));
                        }
                        return true;
                    }
                }
            }
        }
        proof {
            assert(!already_at(line@, i as int));
        }
        i = i + 1;
    }
    proof {
        assert(forall|t: int| already_at(line@, t) ==> 0 <= t < line@.len());
    }
    false
}

} // verus!

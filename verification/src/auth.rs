//! Login-state bookkeeping: whether the user is logged in, since when,
//! and by which method, together with the rendering of the stored
//! cookie file and the reading of its login-time header. File access
//! happens outside; its observations come in as plain values.

use vstd::prelude::*;

use crate::models::{CookiesValidationResult, LoginStatus};
use crate::strutil::{
    chars_of, dec_str, find_char, find_char_exec, is_digit_char, is_space_char,
    lemma_find_char_none, lemma_lines_acc_prefix, lemma_lines_acc_take_line, lines_acc, match_at,
    match_at_exec, parse_u64, parse_u64_spec, path_join, skip_spaces, split_char, split_char_spec,
    split_lines, split_lines_spec, trim_str, trimmed, u64_to_string,
};

verus! {

/// How long saved cookies are marked valid: one year, in seconds.
pub const COOKIE_LIFETIME_SECS: u64 = 365 * 24 * 60 * 60;

/// The header line that carries the login time.
pub open spec fn login_time_prefix() -> Seq<char> {
    seq!['#', ' ', 'L', 'o', 'g', 'i', 'n', ' ', 'T', 'i', 'm', 'e', ':']
}

/// The login time the first matching line among the first five names:
/// the text between the line's first and second colon, trimmed and
/// read as a number. The first line that carries the header prefix
/// decides, even when its number does not parse.
pub open spec fn login_time_in_lines(lines: Seq<Seq<char>>, i: int) -> Option<u64>
    decreases lines.len() - i,
{
    if i < 0 || i >= lines.len() || i >= 5 {
        None
    } else if match_at(lines[i], login_time_prefix(), 0) {
        let line = lines[i];
        let c2 = find_char(line, ':', 13);
        parse_u64_spec(trimmed(line.subrange(13, c2)))
    } else {
        login_time_in_lines(lines, i + 1)
    }
}

/// The login time recorded in a cookie file's text.
pub open spec fn cookies_login_time(content: Seq<char>) -> Option<u64> {
    login_time_in_lines(split_lines_spec(content), 0)
}

/// Reads the login time from a cookie file's text, as
/// [`cookies_login_time`] describes.
pub fn login_time_from_cookies(content: &str) -> (r: Option<u64>)
    ensures
        r == cookies_login_time(content@),
{
    let lines = split_lines(content);
    let ghost all = lines.deep_view();
    let prefix = chars_of("# Login Time:");
    proof {
        reveal_strlit("# Login Time:");
        assert(prefix@ =~= login_time_prefix());
    }
    let mut i: usize = 0;
    while i < lines.len() && i < 5
        invariant
            i <= all.len(),
            all == lines.deep_view(),
            all == split_lines_spec(content@),
            prefix@ == login_time_prefix(),
            login_time_in_lines(all, 0) == login_time_in_lines(all, i as int),
        decreases all.len() - i,
    {
        let line = &lines[i];
        let v = chars_of(line.as_str());
        proof {
            assert(all[i as int] == line@);
        }
        if match_at_exec(&v, &prefix, 0) {
            let c2 = find_char_exec(&v, ':', 13);
            let piece = line.as_str().substring_char(13, c2);
            let value = trim_str(piece);
            let vc = chars_of(value.as_str());
            return parse_u64(&vc);
        }
        i = i + 1;
    }
    None
}

/// One cookie's pair of stored lines: the trimmed piece must be
/// nonempty and carry `=`; its name and value, trimmed, are filed for
/// both domains with the expiry stamp.
pub open spec fn cookie_pair_lines(piece: Seq<char>, exp: u64) -> Seq<char> {
    let t = trimmed(piece);
    if t.len() == 0 {
        Seq::empty()
    } else {
        let e = find_char(t, '=', 0);
        if e >= t.len() {
            Seq::empty()
        } else {
            let name = trimmed(t.subrange(0, e));
            let value = trimmed(t.subrange(e + 1, t.len() as int));
            ".youtube.com\tTRUE\t/\tTRUE\t"@ + dec_str(exp as nat) + "\t"@ + name + "\t"@ + value
                + "\n"@ + ".google.com\tTRUE\t/\tTRUE\t"@ + dec_str(exp as nat) + "\t"@ + name
                + "\t"@ + value + "\n"@
        }
    }
}

/// The stored lines of all pieces, in order.
pub open spec fn cookie_body(pieces: Seq<Seq<char>>, exp: u64) -> Seq<char>
    decreases pieces.len(),
{
    if pieces.len() == 0 {
        Seq::empty()
    } else {
        cookie_body(pieces.drop_last(), exp) + cookie_pair_lines(pieces.last(), exp)
    }
}

/// The rendered cookie file: a Netscape-format header carrying the
/// login time, then two lines per `name=value` piece of the `;`-separated
/// input, with a one-year expiry.
pub open spec fn cookie_file_spec(cookies: Seq<char>, login_time: u64) -> Seq<char>
    recommends
        login_time + COOKIE_LIFETIME_SECS <= u64::MAX,
{
    "# Netscape HTTP Cookie File\n"@ + "# Login Time: "@ + dec_str(login_time as nat) + "\n"@
        + "# Generated by YouTube Downloader\n"@ + "\n"@ + cookie_body(
        split_char_spec(cookies, ';'),
        (login_time + COOKIE_LIFETIME_SECS) as u64,
    )
}

/// Saving and reading back are inverse: the login time a rendered
/// cookie file records is exactly what its header reader returns.
pub proof fn lemma_cookie_login_time_round_trip(cookies: Seq<char>, t: u64)
    requires
        t + COOKIE_LIFETIME_SECS <= u64::MAX,
    ensures
        cookies_login_time(cookie_file_spec(cookies, t)) == Some(t),
{
    reveal_strlit("# Netscape HTTP Cookie File\n");
    reveal_strlit("# Login Time: ");
    reveal_strlit("\n");
    reveal_strlit("# Generated by YouTube Downloader\n");
    let a = "# Netscape HTTP Cookie File\n"@;
    let b = "# Login Time: "@;
    let d = dec_str(t as nat);
    let nl = "\n"@;
    let e = "# Generated by YouTube Downloader\n"@;
    let body = cookie_body(
        split_char_spec(cookies, ';'),
        (t + COOKIE_LIFETIME_SECS) as u64,
    );
    let content = cookie_file_spec(cookies, t);
    assert(content =~= a + b + d + nl + e + nl + body);
    crate::strutil::lemma_dec_str_digits(t as nat);
    let dl = d.len() as int;
    assert(a.len() == 28 && b.len() == 14 && e.len() == 34);
    // where each header piece sits in the rendered text
    assert(forall|k: int| 0 <= k < 28 ==> content[k] == a[k]);
    assert(forall|k: int| 0 <= k < 14 ==> content[28 + k] == b[k]);
    assert(forall|k: int| 0 <= k < dl ==> content[42 + k] == d[k]);
    assert(content[42 + dl] == '\n');
    assert(forall|k: int| 0 <= k < 34 ==> content[43 + dl + k] == e[k]);
    assert(content[77 + dl] == '\n');
    // digits are not line breaks, colons or whitespace
    assert(forall|k: int|
        0 <= k < dl ==> is_digit_char(#[trigger] d[k]) && d[k] != '\n' && d[k] != '\r' && d[k]
            != ':' && !is_space_char(d[k]));
    // the first line: the Netscape banner
    lemma_lines_acc_take_line(content, 0, 27, Seq::empty(), Seq::empty());
    let l0 = Seq::<char>::empty() + content.subrange(0, 27);
    // the second line: the login time
    let l1 = Seq::<char>::empty() + content.subrange(28, 42 + dl);
    assert(l1 =~= b + d);
    lemma_lines_acc_take_line(content, 28, 42 + dl, Seq::empty(), seq![l0]);
    // the third line: the origin comment
    let l2 = Seq::<char>::empty() + content.subrange(43 + dl, 76 + dl);
    lemma_lines_acc_take_line(content, 43 + dl, 76 + dl, Seq::empty(), seq![l0, l1]);
    // the fourth line: the blank separator
    let l3 = Seq::<char>::empty() + content.subrange(77 + dl, 77 + dl);
    lemma_lines_acc_take_line(content, 77 + dl, 77 + dl, Seq::empty(), seq![l0, l1, l2]);
    assert(Seq::<Seq<char>>::empty().push(l0) =~= seq![l0]);
    assert(seq![l0].push(l1) =~= seq![l0, l1]);
    assert(seq![l0, l1].push(l2) =~= seq![l0, l1, l2]);
    assert(seq![l0, l1, l2].push(l3) =~= seq![l0, l1, l2, l3]);
    let lines = split_lines_spec(content);
    assert(lines == lines_acc(content, 78 + dl, Seq::empty(), seq![l0, l1, l2, l3]));
    lemma_lines_acc_prefix(content, 78 + dl, Seq::empty(), seq![l0, l1, l2, l3]);
    assert(lines.len() >= 4 && lines[0] == l0 && lines[1] == l1);
    // the banner is not the login-time header
    assert(!match_at(l0, login_time_prefix(), 0)) by {
        assert(l0[2] == 'N' && login_time_prefix()[2] == 'L');
    }
    // the second line is, and carries exactly the rendered number
    assert(match_at(l1, login_time_prefix(), 0));
    lemma_find_char_none(l1, ':', 13);
    assert(find_char(l1, ':', 13) == l1.len());
    let seg = l1.subrange(13, l1.len() as int);
    assert(seg.len() == 1 + dl);
    assert(seg[0] == ' ' && forall|k: int| 0 <= k < dl ==> seg[1 + k] == d[k]);
    assert(trimmed(seg) == d) by {
        assert(skip_spaces(seg, 0) == skip_spaces(seg, 1));
        assert(!is_space_char(seg[1]));
        assert(skip_spaces(seg, 1) == 1);
        assert(!is_space_char(seg[seg.len() - 1]));
        assert(crate::strutil::trim_end_idx(seg, seg.len() as int) == seg.len());
        assert(seg.subrange(1, seg.len() as int) =~= d);
    }
    crate::strutil::lemma_decimal_round_trip(t);
    assert(login_time_in_lines(lines, 1) == Some(t));
    assert(login_time_in_lines(lines, 0) == login_time_in_lines(lines, 1));
}

/// Whether one of the session cookies that only a logged-in account
/// carries is among the given cookie names.
pub open spec fn names_carry_auth_cookie(names: Seq<Seq<char>>) -> bool {
    exists|i: int|
        0 <= i < names.len() && (names[i] == "SID"@ || names[i] == "SSID"@ || names[i] == "HSID"@
            || names[i] == "APISID"@ || names[i] == "SAPISID"@)
}

/// Decides whether an exported cookie set carries authentication:
/// one of the account session cookies must be present by name.
pub fn has_auth_cookie(names: &Vec<String>) -> (r: bool)
    ensures
        r == names_carry_auth_cookie(names.deep_view()),
{
    let ghost all = names.deep_view();
    let mut i: usize = 0;
    while i < names.len()
        invariant
            i <= all.len(),
            all == names.deep_view(),
            forall|t: int|
                0 <= t < i ==> !(all[t] == "SID"@ || all[t] == "SSID"@ || all[t] == "HSID"@
                    || all[t] == "APISID"@ || all[t] == "SAPISID"@),
        decreases all.len() - i,
    {
        let n = names[i].as_str();
        proof {
            assert(all[i as int] == n@);
        }
        if crate::strutil::str_eq(n, "SID") || crate::strutil::str_eq(n, "SSID")
            || crate::strutil::str_eq(n, "HSID") || crate::strutil::str_eq(n, "APISID")
            || crate::strutil::str_eq(n, "SAPISID") {
            return true;
        }
        i = i + 1;
    }
    false
}

/// The login status as presented to the user: a remembered avatar from
/// the settings wins over the stored one, and a remembered avatar
/// together with a cookie file on disk counts as still logged in even
/// when the in-memory state says otherwise.
pub fn overlay_login_status(
    status: LoginStatus,
    settings_avatar: Option<String>,
    cookies_exist: bool,
) -> (r: LoginStatus)
    ensures
        r.login_time == status.login_time,
        r.auth_method == status.auth_method,
        r.avatar_url == (if settings_avatar is Some {
            settings_avatar
        } else {
            status.avatar_url
        }),
        ({
            let revived = !status.logged_in && (settings_avatar is Some) && cookies_exist;
            &&& r.logged_in == (status.logged_in || revived)
            &&& r.cookies_valid == (status.cookies_valid || revived)
        }),
{
    let mut r = status;
    let revive = !r.logged_in && settings_avatar.is_some() && cookies_exist;
    if settings_avatar.is_some() {
        r.avatar_url = settings_avatar;
    }
    if revive {
        r.logged_in = true;
        r.cookies_valid = true;
    }
    r
}

/// The verdict on a stored cookie file, from what the validators
/// observed: a missing file is reported without deleting anything; an
/// incomplete file carries the validator's reason; an expired or
/// unreadable file is reported as such. `deleted` says whether the
/// caller managed to delete the offending file.
pub fn cookie_validation_verdict(
    cookies_exist: bool,
    incomplete_reason: Option<String>,
    expiry_ok: Option<bool>,
    deleted: bool,
) -> (r: CookiesValidationResult)
    ensures
        !cookies_exist ==> r.status@ == "missing"@ && !r.deleted && r.message@
            == "No cookies file found. Downloading in anonymous mode."@,
        cookies_exist && (incomplete_reason is Some) ==> r.status@ == "incomplete"@ && r.deleted
            == deleted && r.message@ == "Cookies invalid: "@ + incomplete_reason->Some_0@
            + ". File deleted."@,
        cookies_exist && (incomplete_reason is None) && expiry_ok == Some(true) ==> r.status@
            == "valid"@ && !r.deleted && r.message@
            == "Using logged-in cookies for download."@,
        cookies_exist && (incomplete_reason is None) && expiry_ok == Some(false) ==> r.status@
            == "expired"@ && r.deleted == deleted && r.message@
            == "Cookies expired. File deleted. Please log in again."@,
        cookies_exist && (incomplete_reason is None) && (expiry_ok is None) ==> r.status@
            == "error"@ && r.deleted == deleted && r.message@
            == "Cookies file corrupted. File deleted."@,
{
    if !cookies_exist {
        return CookiesValidationResult {
            status: "missing".to_owned(),
            deleted: false,
            message: "No cookies file found. Downloading in anonymous mode.".to_owned(),
        };
    }
    match incomplete_reason {
        Some(reason) => {
            let mut message = "Cookies invalid: ".to_owned();
            message.append(reason.as_str());
            message.append(". File deleted.");
            CookiesValidationResult { status: "incomplete".to_owned(), deleted, message }
        },
        None => match expiry_ok {
            Some(true) => CookiesValidationResult {
                status: "valid".to_owned(),
                deleted: false,
                message: "Using logged-in cookies for download.".to_owned(),
            },
            Some(false) => CookiesValidationResult {
                status: "expired".to_owned(),
                deleted,
                message: "Cookies expired. File deleted. Please log in again.".to_owned(),
            },
            None => CookiesValidationResult {
                status: "error".to_owned(),
                deleted,
                message: "Cookies file corrupted. File deleted.".to_owned(),
            },
        },
    }
}

/// Relies on `std::time::SystemTime::now` and `duration_since`: the
/// seconds since the Unix epoch, zero if the clock reads before it.
/// The value depends on the clock, so nothing is stated about it.
#[verifier::external_body]
fn now_unix_secs() -> u64 {
    std::time::SystemTime::now()
        .duration_since(std::time::UNIX_EPOCH)
        .unwrap_or_default()
        .as_secs()
}

pub struct AuthManager {
    app_data_dir: String,
    status: LoginStatus,
}

impl AuthManager {
    pub closed spec fn app_data_dir(&self) -> Seq<char> {
        self.app_data_dir@
    }

    pub closed spec fn status(&self) -> LoginStatus {
        self.status
    }

    /// A manager initialized from what was observed on disk: an OAuth
    /// marker (and the time it holds) wins; otherwise a cookie file
    /// counts as a login exactly when it is of substantial size, with
    /// the login time read from its header.
    pub fn new(
        app_data_dir: String,
        oauth_exists: bool,
        oauth_time: Option<u64>,
        cookies_exist: bool,
        cookies_substantial: bool,
        cookies_time: Option<u64>,
    ) -> (r: Self)
        ensures
            r.app_data_dir() == app_data_dir@,
            r.status().avatar_url is None,
            oauth_exists ==> r.status().logged_in && r.status().login_time == oauth_time
                && !r.status().cookies_valid && r.status().auth_method@ == "oauth"@,
            !oauth_exists && cookies_exist ==> r.status().logged_in == cookies_substantial
                && r.status().login_time == cookies_time && r.status().cookies_valid
                == cookies_substantial && r.status().auth_method@ == "cookies"@,
            !oauth_exists && !cookies_exist ==> !r.status().logged_in && (r.status().login_time
                is None) && !r.status().cookies_valid && r.status().auth_method@ == "cookies"@,
    {
        let status = if oauth_exists {
            LoginStatus {
                logged_in: true,
                login_time: oauth_time,
                cookies_valid: false,
                auth_method: "oauth".to_owned(),
                avatar_url: None,
            }
        } else if cookies_exist {
            LoginStatus {
                logged_in: cookies_substantial,
                login_time: cookies_time,
                cookies_valid: cookies_substantial,
                auth_method: "cookies".to_owned(),
                avatar_url: None,
            }
        } else {
            LoginStatus {
                logged_in: false,
                login_time: None,
                cookies_valid: false,
                auth_method: "cookies".to_owned(),
                avatar_url: None,
            }
        };
        AuthManager { app_data_dir, status }
    }

    /// Where the cookie file is stored.
    pub fn get_cookies_path(&self) -> (r: String)
        ensures
            r@ == self.app_data_dir() + "/"@ + "youtube_cookies.txt"@,
    {
        path_join(self.app_data_dir.as_str(), "youtube_cookies.txt")
    }

    pub fn get_status(&self) -> (r: LoginStatus)
        ensures
            r == self.status(),
    {
        self.status.clone()
    }

    pub fn is_logged_in(&self) -> (r: bool)
        ensures
            r == self.status().logged_in,
    {
        self.status.logged_in
    }

    /// Sets the login flag. A logout clears the login time, the cookie
    /// validity and the avatar; a login stamps the current time and
    /// marks the cookies valid.
    pub fn set_logged_in(&mut self, logged_in: bool)
        ensures
            final(self).app_data_dir() == old(self).app_data_dir(),
            final(self).status().logged_in == logged_in,
            final(self).status().auth_method == old(self).status().auth_method,
            !logged_in ==> (final(self).status().login_time is None) && !final(self).status().cookies_valid && (final(self).status().avatar_url is None),
            logged_in ==> (final(self).status().login_time is Some) && final(self).status().cookies_valid && final(self).status().avatar_url == old(self).status().avatar_url,
    {
        self.status.logged_in = logged_in;
        if !logged_in {
            self.status.login_time = None;
            self.status.cookies_valid = false;
            self.status.avatar_url = None;
        } else {
            let t = now_unix_secs();
            self.status.login_time = Some(t);
            self.status.cookies_valid = true;
        }
    }

    pub fn set_avatar(&mut self, avatar_url: Option<String>)
        ensures
            final(self).app_data_dir() == old(self).app_data_dir(),
            final(self).status().avatar_url == avatar_url,
            final(self).status().logged_in == old(self).status().logged_in,
            final(self).status().login_time == old(self).status().login_time,
            final(self).status().cookies_valid == old(self).status().cookies_valid,
            final(self).status().auth_method == old(self).status().auth_method,
    {
        self.status.avatar_url = avatar_url;
    }

    /// Renders the cookie file for the given `name=value; ...` string
    /// and marks the user logged in by cookies at the given time. The
    /// caller persists the returned text.
    pub fn save_cookies(&mut self, cookies_str: &str, login_time: u64) -> (content: String)
        requires
            login_time + COOKIE_LIFETIME_SECS <= u64::MAX,
        ensures
            final(self).app_data_dir() == old(self).app_data_dir(),
            content@ == cookie_file_spec(cookies_str@, login_time),
            final(self).status().logged_in,
            final(self).status().login_time == Some(login_time),
            final(self).status().cookies_valid,
            final(self).status().auth_method@ == "cookies"@,
            final(self).status().avatar_url == old(self).status().avatar_url,
    {
        let exp: u64 = login_time + COOKIE_LIFETIME_SECS;
        let mut content = "# Netscape HTTP Cookie File\n".to_owned();
        content.append("# Login Time: ");
        content.append(u64_to_string(login_time).as_str());
        content.append("\n");
        content.append("# Generated by YouTube Downloader\n");
        content.append("\n");
        let ghost header = content@;
        let pieces = split_char(cookies_str, ';');
        let ghost all = pieces.deep_view();
        let mut i: usize = 0;
        proof {
            assert(cookie_body(all.subrange(0, 0), exp) =~= Seq::<char>::empty());
            assert(content@ =~= header + cookie_body(all.subrange(0, 0), exp));
        }
        while i < pieces.len()
            invariant
                i <= all.len(),
                all == pieces.deep_view(),
                exp == login_time + COOKIE_LIFETIME_SECS,
                content@ == header + cookie_body(all.subrange(0, i as int), exp),
            decreases all.len() - i,
        {
            let piece = &pieces[i];
            proof {
                assert(all[i as int] == piece@);
                assert(all.subrange(0, i + 1).drop_last() =~= all.subrange(0, i as int));
                assert(all.subrange(0, i + 1).last() == piece@);
            }
            let t = trim_str(piece.as_str());
            if !t.as_str().is_empty() {
                let v = chars_of(t.as_str());
                let e = find_char_exec(&v, '=', 0);
                if e < v.len() {
                    let name = trim_str(t.as_str().substring_char(0, e));
                    let value = trim_str(t.as_str().substring_char(e + 1, v.len()));
                    let exp_str = u64_to_string(exp);
                    let mut entry = ".youtube.com\tTRUE\t/\tTRUE\t".to_owned();
                    entry.append(exp_str.as_str());
                    entry.append("\t");
                    entry.append(name.as_str());
                    entry.append("\t");
                    entry.append(value.as_str());
                    entry.append("\n");
                    entry.append(".google.com\tTRUE\t/\tTRUE\t");
                    entry.append(exp_str.as_str());
                    entry.append("\t");
                    entry.append(name.as_str());
                    entry.append("\t");
                    entry.append(value.as_str());
                    entry.append("\n");
                    proof {
                        assert(entry@ =~= cookie_pair_lines(piece@, exp));
                    }
                    content.append(entry.as_str());
                    proof {
                        assert(content@ =~= header + cookie_body(all.subrange(0, i + 1), exp));
                    }
                } else {
                    proof {
                        assert(cookie_pair_lines(piece@, exp) =~= Seq::<char>::empty());
                        assert(content@ =~= header + cookie_body(all.subrange(0, i + 1), exp));
                    }
                }
            } else {
                proof {
                    assert(cookie_pair_lines(piece@, exp) =~= Seq::<char>::empty());
                    assert(content@ =~= header + cookie_body(all.subrange(0, i + 1), exp));
                }
            }
            i = i + 1;
        }
        proof {
            assert(all.subrange(0, all.len() as int) =~= all);
            assert(content@ =~= cookie_file_spec(cookies_str@, login_time));
        }
        self.status.logged_in = true;
        self.status.login_time = Some(login_time);
        self.status.cookies_valid = true;
        self.status.auth_method = "cookies".to_owned();
        content
    }

    /// Marks the user logged in after a cookie file was imported at the
    /// given time.
    pub fn record_cookies_import(&mut self, login_time: u64)
        ensures
            final(self).app_data_dir() == old(self).app_data_dir(),
            final(self).status().logged_in,
            final(self).status().login_time == Some(login_time),
            final(self).status().cookies_valid,
            final(self).status().auth_method@ == "cookies"@,
            final(self).status().avatar_url == old(self).status().avatar_url,
    {
        self.status.logged_in = true;
        self.status.login_time = Some(login_time);
        self.status.cookies_valid = true;
        self.status.auth_method = "cookies".to_owned();
    }

    /// Clears the login state; the caller removes the stored files.
    pub fn logout(&mut self)
        ensures
            final(self).app_data_dir() == old(self).app_data_dir(),
            !final(self).status().logged_in,
            final(self).status().login_time is None,
            !final(self).status().cookies_valid,
            final(self).status().auth_method@ == "cookies"@,
            final(self).status().avatar_url == old(self).status().avatar_url,
    {
        self.status.logged_in = false;
        self.status.login_time = None;
        self.status.cookies_valid = false;
        self.status.auth_method = "cookies".to_owned();
    }

    /// Reconciles the status with the cookie file as observed on disk:
    /// a substantial file counts as a browser login with the time read
    /// from its header; anything else as logged out.
    pub fn refresh_status(
        &mut self,
        cookies_exist: bool,
        cookies_substantial: bool,
        cookies_time: Option<u64>,
    )
        ensures
            final(self).app_data_dir() == old(self).app_data_dir(),
            final(self).status().auth_method@ == "browser"@,
            final(self).status().avatar_url == old(self).status().avatar_url,
            cookies_exist ==> final(self).status().logged_in == cookies_substantial && final(self).status().login_time == cookies_time && final(self).status().cookies_valid
                == cookies_substantial,
            !cookies_exist ==> !final(self).status().logged_in && (final(self).status().login_time is None) && !final(self).status().cookies_valid,
    {
        if cookies_exist {
            self.status.logged_in = cookies_substantial;
            self.status.login_time = cookies_time;
            self.status.cookies_valid = cookies_substantial;
        } else {
            self.status.logged_in = false;
            self.status.login_time = None;
            self.status.cookies_valid = false;
        }
        self.status.auth_method = "browser".to_owned();
    }
}

} // verus!

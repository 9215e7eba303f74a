//! Self-update decisions: whether a published release is an update for this
//! build, which download it uses, whether the downloaded archive matches the
//! release's checksum list, and which archive entries may be installed.
//! (Fetching, unpacking and restarting are done by the programs.)

use crate::crypto::{sha256, sha256_digest};
use crate::semver::{parse_semver, semver_of, strip_v};
use crate::text::{
    chars_eq_ignore_ascii_case, chars_equal, chars_of, eq_ascii_case, index_of, is_space,
    lemma_run_len_unique, push_text, run_len, string_from_chars, text_string, to_lowercase,
    unicode_lower,
};
use vstd::prelude::*;

verus! {

/// A newer release found on GitHub.
#[derive(Debug, Clone)]
pub struct UpdateInfo {
    /// Release tag (e.g. `v0.1.20`).
    pub tag: String,
    /// Parsed version (`0.1.20`).
    pub version: String,
    /// Direct download URL for the role asset.
    pub asset_url: String,
    /// Asset file name.
    pub asset_name: String,
    /// Release notes (truncated).
    pub notes: String,
    /// URL of the SHA256SUMS.txt asset when the release ships one.
    pub checksums_url: Option<String>,
}

/// One downloadable file of a release.
#[derive(Debug, Clone)]
pub struct ReleaseAsset {
    /// File name.
    pub name: String,
    /// Public download URL.
    pub browser_download_url: String,
    /// API URL (works on private repositories with a token).
    pub url: String,
}

/// The fields of a release that the update decision reads.
#[derive(Debug, Clone)]
pub struct Release {
    /// Release tag.
    pub tag_name: String,
    /// Release notes, if any.
    pub body: Option<String>,
    /// Attached files.
    pub assets: Vec<ReleaseAsset>,
    /// Draft release.
    pub draft: bool,
    /// Pre-release.
    pub prerelease: bool,
}

/// Why an update check or install is refused.
#[derive(Debug, Clone, PartialEq, Eq)]
pub enum UpdateError {
    /// The running build's version does not parse.
    BadCurrentVersion,
    /// The checksum list has no line for the asset.
    NoChecksumEntry,
    /// The archive's digest differs from the listed one.
    ChecksumMismatch {
        /// Listed digest (lower-case hex).
        expected: String,
        /// Digest of the downloaded bytes (lower-case hex).
        actual: String,
    },
    /// The archive holds nothing to install.
    NothingToInstall,
}

/// `(major, minor, patch)` ordered as tuples are.
pub open spec fn version_lt(a: (u64, u64, u64), b: (u64, u64, u64)) -> bool {
    a.0 < b.0 || (a.0 == b.0 && (a.1 < b.1 || (a.1 == b.1 && a.2 < b.2)))
}

fn version_less(a: (u64, u64, u64), b: (u64, u64, u64)) -> (r: bool)
    ensures
        r == version_lt(a, b),
{
    a.0 < b.0 || (a.0 == b.0 && (a.1 < b.1 || (a.1 == b.1 && a.2 < b.2)))
}

/// The number of UTF-8 bytes of a character.
pub open spec fn utf8_width(c: char) -> nat {
    let x = c as u32;
    if x < 0x80 {
        1
    } else if x < 0x800 {
        2
    } else if x < 0x10000 {
        3
    } else {
        4
    }
}

/// The number of UTF-8 bytes of a text.
pub open spec fn utf8_len(s: Seq<char>) -> nat
    decreases s.len(),
{
    if s.len() == 0 {
        0
    } else {
        utf8_len(s.drop_last()) + utf8_width(s.last())
    }
}

/// Release notes are cut to their first 400 bytes; this needs byte 400 to
/// fall between characters (else the cut panics).
pub open spec fn notes_cut_ok(body: Seq<char>) -> bool {
    utf8_len(body) <= 400 || exists|k: int| 0 <= k <= body.len() && utf8_len(#[trigger] body.take(k)) == 400
}

/// The notes shown: the body's first 400 bytes.
pub open spec fn notes_of(body: Seq<char>) -> Seq<char> {
    if utf8_len(body) <= 400 {
        body
    } else {
        body.take(choose|k: int| 0 <= k <= body.len() && utf8_len(#[trigger] body.take(k)) == 400)
    }
}

proof fn lemma_utf8_len_take_step(s: Seq<char>, k: int)
    requires
        0 <= k < s.len(),
    ensures
        utf8_len(s.take(k + 1)) == utf8_len(s.take(k)) + utf8_width(s[k]),
{
    assert(s.take(k + 1).drop_last() =~= s.take(k));
}

proof fn lemma_utf8_len_take_mono(s: Seq<char>, j: int, k: int)
    requires
        0 <= j <= k <= s.len(),
    ensures
        utf8_len(s.take(j)) <= utf8_len(s.take(k)),
        j < k ==> utf8_len(s.take(j)) < utf8_len(s.take(k)),
    decreases k - j,
{
    if j < k {
        lemma_utf8_len_take_mono(s, j, k - 1);
        lemma_utf8_len_take_step(s, k - 1);
    }
}

/// Whether release notes can be cut at byte 400 (see [`notes_cut_ok`]).
pub fn notes_ok(body: &str) -> (ok: bool)
    ensures
        ok == notes_cut_ok(body@),
{
    let v = chars_of(body);
    let mut bytes: usize = 0;
    let mut k: usize = 0;
    while k < v.len() && bytes < 400
        invariant
            v@ == body@,
            k <= v@.len(),
            bytes == utf8_len(v@.take(k as int)),
            bytes <= 403,
            k > 0 ==> utf8_len(v@.take(k - 1)) < 400,
        decreases v@.len() - k,
    {
        proof {
            lemma_utf8_len_take_step(v@, k as int);
        }
        let x = v[k] as u32;
        let w: usize = if x < 0x80 {
            1
        } else if x < 0x800 {
            2
        } else if x < 0x10000 {
            3
        } else {
            4
        };
        bytes = bytes + w;
        k = k + 1;
    }
    let ghost len = v@.len() as int;
    proof {
        assert(v@.take(len) =~= v@);
        lemma_utf8_len_take_mono(v@, k as int, len);
    }
    if k == v.len() && bytes <= 400 {
        true
    } else if bytes == 400 {
        assert(utf8_len(body@.take(k as int)) == 400);
        true
    } else {
        proof {
            assert forall|c: int| 0 <= c <= body@.len() implies utf8_len(#[trigger] body@.take(c)) != 400 by {
                if c < k {
                    lemma_utf8_len_take_mono(v@, c, k - 1);
                } else if c > k {
                    lemma_utf8_len_take_mono(v@, k as int, c);
                }
            }
        }
        false
    }
}

/// Cuts release notes to 400 bytes.
pub fn release_notes(body: &Option<String>) -> (notes: String)
    requires
        body matches Some(b) ==> notes_cut_ok(b@),
    ensures
        notes@ == (match body {
            Some(b) => notes_of(b@),
            None => Seq::empty(),
        }),
{
    match body {
        None => String::new(),
        Some(b) => {
            let v = chars_of(b.as_str());
            let mut bytes: usize = 0;
            let mut k: usize = 0;
            while k < v.len() && bytes < 400
                invariant
                    v@ == b@,
                    k <= v@.len(),
                    bytes == utf8_len(v@.take(k as int)),
                    bytes <= 403,
                    k > 0 ==> utf8_len(v@.take(k - 1)) < 400,
                decreases v@.len() - k,
            {
                proof {
                    lemma_utf8_len_take_step(v@, k as int);
                }
                let x = v[k] as u32;
                let w: usize = if x < 0x80 {
                    1
                } else if x < 0x800 {
                    2
                } else if x < 0x10000 {
                    3
                } else {
                    4
                };
                bytes = bytes + w;
                k = k + 1;
            }
            let ghost len = v@.len() as int;
            proof {
                assert(v@.take(len) =~= v@);
                assert(v@.take(0) =~= Seq::<char>::empty());
            }
            if k == v.len() && bytes <= 400 {
                string_from_chars(v.as_slice())
            } else {
                proof {
                    lemma_utf8_len_take_mono(v@, k as int, len);
                    if utf8_len(b@) <= 400 {
                        if (k as int) < len {
                            lemma_utf8_len_take_mono(v@, k as int, len);
                        }
                        assert(v@.take(k as int) =~= v@);
                    } else {
                        let c = choose|c: int| 0 <= c <= b@.len() && utf8_len(#[trigger] b@.take(c)) == 400;
                        if c < k {
                            lemma_utf8_len_take_mono(v@, c, k - 1);
                        }
                        if c > k {
                            lemma_utf8_len_take_mono(v@, k as int, c);
                        }
                        assert(c == k);
                    }
                }
                let head = vstd::slice::slice_subrange(v.as_slice(), 0, k);
                string_from_chars(head)
            }
        },
    }
}

/// The exact name of the checksum list asset (case ignored).
pub open spec fn is_checksum_list(name: Seq<char>) -> bool {
    eq_ascii_case(name, "SHA256SUMS.txt"@)
}

/// The download URL of an asset: the public one without a token, the API
/// one with it.
pub open spec fn asset_url_of(a: ReleaseAsset, token: Seq<char>) -> Seq<char> {
    if token.len() == 0 {
        a.browser_download_url@
    } else {
        a.url@
    }
}

/// The first asset whose name satisfies `p`.
pub open spec fn first_asset(assets: Seq<ReleaseAsset>, p: spec_fn(Seq<char>) -> bool) -> Option<int> {
    if exists|i: int| 0 <= i < assets.len() && p(assets[i].name@) {
        Some(choose|i: int| 0 <= i < assets.len() && p(#[trigger] assets[i].name@) && forall|j: int|
            0 <= j < i ==> !p(#[trigger] assets[j].name@))
    } else {
        None
    }
}

/// `i` is the first index whose asset name satisfies `p`.
pub open spec fn is_first_asset(assets: Seq<ReleaseAsset>, p: spec_fn(Seq<char>) -> bool, i: int) -> bool {
    0 <= i < assets.len() && p(assets[i].name@) && forall|j: int| 0 <= j < i ==> !p(#[trigger] assets[j].name@)
}

/// What a check finds for a build at `current` given the latest release:
/// nothing for drafts, pre-releases, unreadable or not newer tags, or a
/// release without the role's asset; otherwise the update, with the asset's
/// URL and the checksum list's URL when the release has one.
pub open spec fn update_found(
    current: (u64, u64, u64),
    release: Release,
    asset_name: Seq<char>,
    token: Seq<char>,
) -> Option<(int, Option<int>)> {
    if release.draft || release.prerelease {
        None
    } else {
        match semver_of(release.tag_name@) {
            None => None,
            Some(latest) => if !version_lt(current, latest) {
                None
            } else {
                match first_asset(release.assets@, |n: Seq<char>| n == asset_name) {
                    None => None,
                    Some(i) => Some((i, first_asset(release.assets@, |n: Seq<char>| is_checksum_list(n)))),
                }
            },
        }
    }
}

/// Finds the first asset named `name` (exactly, or up to ASCII case).
fn find_asset(assets: &[ReleaseAsset], name: &str, ignore_case: bool) -> (r: Option<usize>)
    ensures
        match r {
            Some(i) => is_first_asset(
                assets@,
                |n: Seq<char>| if ignore_case { eq_ascii_case(n, name@) } else { n == name@ },
                i as int,
            ),
            None => forall|j: int|
                0 <= j < assets@.len() ==> !(if ignore_case {
                    eq_ascii_case(#[trigger] assets@[j].name@, name@)
                } else {
                    assets@[j].name@ == name@
                }),
        },
{
    let want = chars_of(name);
    let mut i: usize = 0;
    while i < assets.len()
        invariant
            want@ == name@,
            i <= assets@.len(),
            forall|j: int|
                0 <= j < i ==> !(if ignore_case {
                    eq_ascii_case(#[trigger] assets@[j].name@, name@)
                } else {
                    assets@[j].name@ == name@
                }),
        decreases assets@.len() - i,
    {
        let n = chars_of(assets[i].name.as_str());
        let hit = if ignore_case {
            chars_eq_ignore_ascii_case(n.as_slice(), want.as_slice())
        } else {
            chars_equal(n.as_slice(), want.as_slice())
        };
        if hit {
            return Some(i);
        }
        i = i + 1;
    }
    None
}

proof fn lemma_first_asset_is(assets: Seq<ReleaseAsset>, p: spec_fn(Seq<char>) -> bool, i: int)
    requires
        is_first_asset(assets, p, i),
    ensures
        first_asset(assets, p) == Some(i),
{
    let c = choose|c: int| 0 <= c < assets.len() && p(#[trigger] assets[c].name@) && forall|j: int|
        0 <= j < c ==> !p(#[trigger] assets[j].name@);
    assert(p(assets[i].name@));
    if c < i {
        assert(!p(assets[c].name@));
    }
    if c > i {
        assert(!p(assets[i].name@));
    }
}

/// The update a release offers a build at `current_version`, if any (the
/// part of a check after the release was fetched).
pub fn select_update(
    current_version: &str,
    release: &Release,
    asset_name: &str,
    token: &str,
) -> (r: Result<Option<UpdateInfo>, UpdateError>)
    requires
        release.body matches Some(b) ==> notes_cut_ok(b@),
    ensures
        semver_of(current_version@) is None ==> r == Err::<Option<UpdateInfo>, UpdateError>(
            UpdateError::BadCurrentVersion,
        ),
        semver_of(current_version@) matches Some(cur) ==> r matches Ok(found) && match update_found(
            cur,
            *release,
            asset_name@,
            token@,
        ) {
            None => found is None,
            Some((i, sums)) => found matches Some(u) && u.tag@ == release.tag_name@ && u.version@
                == strip_v(release.tag_name@) && u.asset_url@ == asset_url_of(
                release.assets@[i],
                token@,
            ) && u.asset_name@ == asset_name@ && u.notes@ == (match release.body {
                Some(b) => notes_of(b@),
                None => Seq::empty(),
            }) && match sums {
                None => u.checksums_url is None,
                Some(k) => u.checksums_url matches Some(c) && c@ == asset_url_of(
                    release.assets@[k],
                    token@,
                ),
            },
        },
{
    let cur = match parse_semver(current_version) {
        Some(c) => c,
        None => return Err(UpdateError::BadCurrentVersion),
    };
    if release.draft || release.prerelease {
        return Ok(None);
    }
    let latest = match parse_semver(release.tag_name.as_str()) {
        Some(v) => v,
        None => return Ok(None),
    };
    if !version_less(cur, latest) {
        return Ok(None);
    }
    let ghost exact = |n: Seq<char>| n == asset_name@;
    let ghost sums_p = |n: Seq<char>| is_checksum_list(n);
    let i = match find_asset(release.assets.as_slice(), asset_name, false) {
        Some(i) => i,
        None => {
            proof {
                assert(!exists|j: int| 0 <= j < release.assets@.len() && exact(release.assets@[j].name@));
            }
            return Ok(None);
        },
    };
    proof {
        assert(is_first_asset(release.assets@, exact, i as int));
        lemma_first_asset_is(release.assets@, exact, i as int);
    }
    let token_empty = chars_of(token).len() == 0;
    let asset = &release.assets[i];
    let asset_url = if token_empty {
        text_string(asset.browser_download_url.as_str())
    } else {
        text_string(asset.url.as_str())
    };
    let checksums_url = match find_asset(release.assets.as_slice(), "SHA256SUMS.txt", true) {
        Some(k) => {
            proof {
                assert(is_first_asset(release.assets@, sums_p, k as int));
                lemma_first_asset_is(release.assets@, sums_p, k as int);
            }
            let a = &release.assets[k];
            Some(
                if token_empty {
                    text_string(a.browser_download_url.as_str())
                } else {
                    text_string(a.url.as_str())
                },
            )
        },
        None => {
            proof {
                assert(!exists|j: int| 0 <= j < release.assets@.len() && sums_p(release.assets@[j].name@));
            }
            None
        },
    };
    let notes = release_notes(&release.body);
    let tag_chars = chars_of(release.tag_name.as_str());
    let nv = leading_v(tag_chars.as_slice());
    let version = string_from_chars(vstd::slice::slice_subrange(tag_chars.as_slice(), nv, tag_chars.len()));
    Ok(
        Some(
            UpdateInfo {
                tag: text_string(release.tag_name.as_str()),
                version,
                asset_url,
                asset_name: text_string(asset_name),
                notes,
                checksums_url,
            },
        ),
    )
}

/// The number of leading 'v' characters.
fn leading_v(s: &[char]) -> (n: usize)
    ensures
        n as int == run_len(s@, |c: char| crate::semver::is_v(c)),
        n <= s@.len(),
{
    let mut n: usize = 0;
    while n < s.len() && s[n] == 'v'
        invariant
            n <= s@.len(),
            forall|j: int| 0 <= j < n ==> s@[j] == 'v',
        decreases s@.len() - n,
    {
        n = n + 1;
    }
    proof {
        lemma_run_len_unique(s@, |c: char| crate::semver::is_v(c), n as int);
    }
    n
}

// ---------------------------------------------------------------------------
// Checksum list.
// ---------------------------------------------------------------------------

/// A lower-case hexadecimal digit.
pub open spec fn hex_digit(n: nat) -> char {
    if n < 10 {
        (48 + n) as char
    } else {
        (87 + n) as char
    }
}

/// Lower-case hex text of bytes, two digits per byte, high nibble first.
pub open spec fn hex_text(b: Seq<u8>) -> Seq<char>
    decreases b.len(),
{
    if b.len() == 0 {
        Seq::empty()
    } else {
        hex_text(b.drop_last()) + seq![hex_digit((b.last() / 16) as nat), hex_digit((b.last() % 16) as nat)]
    }
}

/// Calls `hex::encode`, which writes each byte as two lower-case hex digits,
/// high nibble first (its table is "0123456789abcdef").
#[verifier::external_body]
fn hex_encode(bytes: &[u8]) -> (s: String)
    ensures
        s@ == hex_text(bytes@),
{
    hex::encode(bytes)
}

/// `s` without its leading white space.
pub open spec fn skip_space(s: Seq<char>) -> Seq<char> {
    s.skip(run_len(s, |c: char| is_space(c)))
}

/// The first white-space-separated word of `s` (empty when there is none).
pub open spec fn first_word(s: Seq<char>) -> Seq<char> {
    let t = skip_space(s);
    t.take(run_len(t, |c: char| !is_space(c)))
}

/// What follows the first word of `s`.
pub open spec fn after_first_word(s: Seq<char>) -> Seq<char> {
    let t = skip_space(s);
    t.skip(run_len(t, |c: char| !is_space(c)))
}

/// `s` without leading '*' characters (binary-mode marker).
pub open spec fn strip_stars(s: Seq<char>) -> Seq<char> {
    s.skip(run_len(s, |c: char| c == '*'))
}

/// The (name, hash) entry of a checksum line: its first two words, the
/// name without a leading '*'; `None` for a line with fewer words.
pub open spec fn line_entry(line: Seq<char>) -> Option<(Seq<char>, Seq<char>)> {
    let hash = first_word(line);
    let name = first_word(after_first_word(line));
    if hash.len() == 0 || name.len() == 0 {
        None
    } else {
        Some((strip_stars(name), hash))
    }
}

/// The lower-cased hash of a line listing `asset` (name compared ignoring
/// ASCII case).
pub open spec fn line_match(line: Seq<char>, asset: Seq<char>) -> Option<Seq<char>> {
    match line_entry(line) {
        Some((name, hash)) => if eq_ascii_case(name, asset) {
            Some(unicode_lower(hash))
        } else {
            None
        },
        None => None,
    }
}

/// The hash that the first line listing `asset` gives, lines being split at
/// '\n'.
pub open spec fn listed_checksum(text: Seq<char>, asset: Seq<char>) -> Option<Seq<char>>
    decreases text.len(),
{
    match index_of(text, '\n') {
        Some(i) => if 0 <= i < text.len() {
            match line_match(text.take(i), asset) {
                Some(h) => Some(h),
                None => listed_checksum(text.skip(i + 1), asset),
            }
        } else {
            None
        },
        None => line_match(text, asset),
    }
}

/// The index after the run of characters from `from` on that are white
/// space (`want_space`) or not.
fn run_end(s: &[char], from: usize, want_space: bool) -> (e: usize)
    requires
        from <= s@.len(),
    ensures
        from <= e <= s@.len(),
        want_space ==> e - from == run_len(s@.skip(from as int), |c: char| is_space(c)),
        !want_space ==> e - from == run_len(s@.skip(from as int), |c: char| !is_space(c)),
{
    let mut e = from;
    while e < s.len() && crate::text::char_is_space(s[e]) == want_space
        invariant
            from <= e <= s@.len(),
            forall|j: int| from <= j < e ==> is_space(#[trigger] s@[j]) == want_space,
        decreases s@.len() - e,
    {
        e = e + 1;
    }
    proof {
        let t = s@.skip(from as int);
        if want_space {
            assert forall|j: int| 0 <= j < e - from implies is_space(#[trigger] t[j]) by {
                assert(t[j] == s@[from + j]);
            }
            if e < s@.len() {
                assert(t[e - from] == s@[e as int]);
            }
            lemma_run_len_unique(t, |c: char| is_space(c), e - from);
        } else {
            assert forall|j: int| 0 <= j < e - from implies !is_space(#[trigger] t[j]) by {
                assert(t[j] == s@[from + j]);
            }
            if e < s@.len() {
                assert(t[e - from] == s@[e as int]);
            }
            lemma_run_len_unique(t, |c: char| !is_space(c), e - from);
        }
    }
    e
}

/// Reads the entry of one checksum line and compares its name.
fn match_line(line: &[char], asset: &[char]) -> (r: Option<String>)
    ensures
        crate::state::opt_text(r) == line_match(line@, asset@),
{
    let a = run_end(line, 0, true);
    let b = run_end(line, a, false);
    let c = run_end(line, b, true);
    let d = run_end(line, c, false);
    proof {
        let l = line@;
        assert(l.skip(0) =~= l);
        assert(skip_space(l) =~= l.skip(a as int));
        assert(first_word(l) =~= l.subrange(a as int, b as int)) by {
            assert(skip_space(l).skip(0) =~= skip_space(l));
        }
        assert(after_first_word(l) =~= l.skip(b as int)) by {
            assert(skip_space(l).skip(0) =~= skip_space(l));
            assert(l.skip(a as int).skip(b - a) =~= l.skip(b as int));
        }
        assert(skip_space(after_first_word(l)) =~= l.skip(c as int)) by {
            assert(l.skip(b as int).skip(c - b) =~= l.skip(c as int));
        }
        assert(first_word(after_first_word(l)) =~= l.subrange(c as int, d as int)) by {
            assert(l.skip(c as int).take(d - c) =~= l.subrange(c as int, d as int));
        }
    }
    if a == b || c == d {
        return None;
    }
    let mut st = c;
    while st < d && line[st] == '*'
        invariant
            c <= st <= d,
            d <= line@.len(),
            forall|j: int| c <= j < st ==> line@[j] == '*',
        decreases d - st,
    {
        st = st + 1;
    }
    proof {
        let w = line@.subrange(c as int, d as int);
        assert forall|j: int| 0 <= j < st - c implies #[trigger] w[j] == '*' by {
            assert(w[j] == line@[c + j]);
        }
        if st < d {
            assert(w[st - c] == line@[st as int]);
        }
        lemma_run_len_unique(w, |x: char| x == '*', st - c);
        assert(strip_stars(w) =~= line@.subrange(st as int, d as int));
    }
    let name = vstd::slice::slice_subrange(line, st, d);
    if chars_eq_ignore_ascii_case(name, asset) {
        let hash = string_from_chars(vstd::slice::slice_subrange(line, a, b));
        Some(to_lowercase(hash.as_str()))
    } else {
        None
    }
}

/// The hash that a SHA256SUMS.txt text lists for `asset_name`.
pub fn checksum_for(sums: &str, asset_name: &str) -> (r: Option<String>)
    ensures
        crate::state::opt_text(r) == listed_checksum(sums@, asset_name@),
{
    let all = chars_of(sums);
    let asset = chars_of(asset_name);
    let mut start: usize = 0;
    assert(all@.skip(0) =~= all@);
    while start <= all.len()
        invariant
            all@ == sums@,
            asset@ == asset_name@,
            start <= all@.len(),
            listed_checksum(sums@, asset_name@) == listed_checksum(
                all@.skip(start as int),
                asset_name@,
            ),
        decreases all@.len() + 1 - start,
    {
        let rest = vstd::slice::slice_subrange(all.as_slice(), start, all.len());
        assert(rest@ =~= all@.skip(start as int));
        match crate::text::find_char(rest, '\n') {
            Some(i) => {
                let line = vstd::slice::slice_subrange(rest, 0, i);
                assert(line@ =~= rest@.take(i as int));
                match match_line(line, asset.as_slice()) {
                    Some(h) => return Some(h),
                    None => {
                        assert(rest@.skip(i + 1) =~= all@.skip(start + i + 1));
                        start = start + i + 1;
                    },
                }
            },
            None => {
                return match_line(rest, asset.as_slice());
            },
        }
    }
    None
}

/// Whether a downloaded archive may be installed: without a checksum list
/// it is accepted unchecked; with one, the list must name the asset and its
/// hash must be the archive's SHA-256 (lower-case hex).
pub fn check_archive(sums: Option<&str>, asset_name: &str, archive: &[u8]) -> (r: Result<(), UpdateError>)
    ensures
        match sums {
            None => r is Ok,
            Some(t) => match listed_checksum(t@, asset_name@) {
                None => r == Err::<(), UpdateError>(UpdateError::NoChecksumEntry),
                Some(h) => if hex_text(sha256_digest(archive@)) == h {
                    r is Ok
                } else {
                    r matches Err(UpdateError::ChecksumMismatch { expected, actual }) && expected@ == h
                        && actual@ == hex_text(sha256_digest(archive@))
                },
            },
        },
{
    let t = match sums {
        None => return Ok(()),
        Some(t) => t,
    };
    let expected = match checksum_for(t, asset_name) {
        None => return Err(UpdateError::NoChecksumEntry),
        Some(h) => h,
    };
    let digest = sha256(archive);
    let actual = hex_encode(&digest);
    let a = chars_of(actual.as_str());
    let e = chars_of(expected.as_str());
    if chars_equal(a.as_slice(), e.as_slice()) {
        Ok(())
    } else {
        Err(UpdateError::ChecksumMismatch { expected, actual })
    }
}

// ---------------------------------------------------------------------------
// Staging the archive.
// ---------------------------------------------------------------------------

/// Archive entries under `config/` or `logs/` (any case) are never installed,
/// so user settings and logs survive an update.
pub open spec fn installable(first_component: Seq<char>) -> bool {
    let l = unicode_lower(first_component);
    l != "config"@ && l != "logs"@
}

/// Whether an archive entry whose path starts with `first_component` is installed.
pub fn entry_installable(first_component: &str) -> (r: bool)
    ensures
        r == installable(first_component@),
{
    let l = to_lowercase(first_component);
    let lc = chars_of(l.as_str());
    let config = chars_of("config");
    let logs = chars_of("logs");
    !chars_equal(lc.as_slice(), config.as_slice()) && !chars_equal(lc.as_slice(), logs.as_slice())
}

/// Whether the archive carries the running executable (file names compared
/// ignoring ASCII case); otherwise it is the wrong asset.
pub fn archive_has_exe(file_names: &[String], exe_name: &str) -> (r: bool)
    ensures
        r == exists|i: int| 0 <= i < file_names@.len() && eq_ascii_case(#[trigger] file_names@[i]@, exe_name@),
{
    let exe = chars_of(exe_name);
    let mut i: usize = 0;
    while i < file_names.len()
        invariant
            exe@ == exe_name@,
            i <= file_names@.len(),
            forall|j: int| 0 <= j < i ==> !eq_ascii_case(#[trigger] file_names@[j]@, exe_name@),
        decreases file_names@.len() - i,
    {
        let n = chars_of(file_names[i].as_str());
        if chars_eq_ignore_ascii_case(n.as_slice(), exe.as_slice()) {
            return true;
        }
        i = i + 1;
    }
    false
}

/// The extension an existing file is renamed to before it is replaced:
/// its own extension (or "bin") followed by ".old".
pub fn staged_extension(ext: Option<&str>) -> (r: String)
    ensures
        r@ == (match ext {
            Some(e) => e@,
            None => "bin"@,
        }) + ".old"@,
{
    let mut r = match ext {
        Some(e) => text_string(e),
        None => text_string("bin"),
    };
    push_text(&mut r, ".old");
    r
}

/// An update that installed nothing is an error.
pub fn staged_result(updated: Vec<String>) -> (r: Result<Vec<String>, UpdateError>)
    ensures
        updated@.len() == 0 ==> r == Err::<Vec<String>, UpdateError>(UpdateError::NothingToInstall),
        updated@.len() > 0 ==> (r matches Ok(v) && v@ == updated@),
{
    if updated.len() == 0 {
        Err(UpdateError::NothingToInstall)
    } else {
        Ok(updated)
    }
}

/// What to do with a newer release once it has been found.
#[derive(Clone, Copy, Debug, PartialEq, Eq, Structural)]
pub enum UpdateAction {
    /// Show it on the dashboard and wait for the user.
    Notify,
    /// Download, verify and install it now (the program restarts).
    Install,
}

/// A found update is installed on its own only when auto-update is on and
/// no laptop/desktop session is running.
pub open spec fn action_for(auto_update: bool, session_active: bool) -> UpdateAction {
    if auto_update && !session_active {
        UpdateAction::Install
    } else {
        UpdateAction::Notify
    }
}

/// Decision of the update task after a check found `update`: install only
/// while nothing is connected (at start-up nothing is connected yet).
pub fn update_action(auto_update: bool, session_active: bool) -> (a: UpdateAction)
    ensures
        a == action_for(auto_update, session_active),
{
    if auto_update && !session_active {
        UpdateAction::Install
    } else {
        UpdateAction::Notify
    }
}

/// Whether the periodic task asks GitHub again: with auto-update off and an
/// update already waiting for the user there is nothing new to learn.
pub fn periodic_check_wanted(auto_update: bool, update_pending: bool) -> (r: bool)
    ensures
        r == (auto_update || !update_pending),
{
    auto_update || !update_pending
}

/// An update never interrupts a running diagnostics/flash session, and with
/// auto-update switched off nothing is ever installed without the user.
pub proof fn lemma_update_never_interrupts_session(auto_update: bool, session_active: bool)
    ensures
        session_active ==> action_for(auto_update, session_active) == UpdateAction::Notify,
        !auto_update ==> action_for(auto_update, session_active) == UpdateAction::Notify,
        action_for(auto_update, session_active) == UpdateAction::Install <==> (auto_update
            && !session_active),
{
}

/// Release versions are ordered as `(major, minor, patch)` tuples are: a
/// strict total order in which a higher major wins, then a higher minor,
/// then a higher patch.
pub proof fn lemma_version_order(a: (u64, u64, u64), b: (u64, u64, u64), c: (u64, u64, u64))
    ensures
        !version_lt(a, a),
        version_lt(a, b) ==> !version_lt(b, a),
        version_lt(a, b) && version_lt(b, c) ==> version_lt(a, c),
        a != b ==> version_lt(a, b) || version_lt(b, a),
        a.0 < b.0 ==> version_lt(a, b),
        a.0 == b.0 && a.1 < b.1 ==> version_lt(a, b),
        a.0 == b.0 && a.1 == b.1 ==> (version_lt(a, b) <==> a.2 < b.2),
{
}

/// A published release (not a draft or pre-release) whose tag reads as a
/// version and which carries the role's asset is offered exactly when its
/// version is above the running one in `(major, minor, patch)` order; a
/// higher patch alone is enough.
pub proof fn lemma_newer_release_offered(
    current: (u64, u64, u64),
    latest: (u64, u64, u64),
    release: Release,
    asset_name: Seq<char>,
    token: Seq<char>,
)
    requires
        !release.draft,
        !release.prerelease,
        semver_of(release.tag_name@) == Some(latest),
        exists|i: int| 0 <= i < release.assets@.len() && #[trigger] release.assets@[i].name@ == asset_name,
    ensures
        update_found(current, release, asset_name, token) is Some <==> (current.0 < latest.0 || (
        current.0 == latest.0 && current.1 < latest.1) || (current.0 == latest.0 && current.1
            == latest.1 && current.2 < latest.2)),
        current.0 == latest.0 && current.1 == latest.1 && current.2 < latest.2 ==> update_found(
            current,
            release,
            asset_name,
            token,
        ) is Some,
{
    let i = choose|i: int| 0 <= i < release.assets@.len() && #[trigger] release.assets@[i].name@ == asset_name;
    let p = |n: Seq<char>| n == asset_name;
    assert(p(release.assets@[i].name@));
    assert(exists|k: int| 0 <= k < release.assets@.len() && p(release.assets@[k].name@));
}

} // verus!

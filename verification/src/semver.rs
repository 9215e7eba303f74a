//! Release version parsing for the self-updater.

use crate::text::{
    after_char, before_char, chars_of, decimal, find_char, index_of, is_digit, is_first_index, is_space,
    lemma_decimal_digits, lemma_digits_no_dot, lemma_index_of_after, lemma_parse_decimal,
    lemma_run_len_unique, lemma_trimmed_padded, parse_unsigned, parse_unsigned_chars, run_len,
    trim_bounds, trimmed,
};
use vstd::prelude::*;

verus! {

/// The character 'v'.
pub open spec fn is_v(c: char) -> bool {
    c == 'v'
}

/// `s` with all leading 'v' characters removed (as `trim_start_matches('v')`).
pub open spec fn strip_v(s: Seq<char>) -> Seq<char> {
    s.subrange(run_len(s, |c: char| is_v(c)), s.len() as int)
}

/// The leading ASCII digits of `s` (as `take_while(is_ascii_digit)`).
pub open spec fn digit_prefix(s: Seq<char>) -> Seq<char> {
    s.take(run_len(s, |c: char| is_digit(c)))
}

/// The patch number: the leading digits of the third dot-separated part, 0
/// when that part is missing or its digits do not form a `u64`.
pub open spec fn patch_of(rest: Option<Seq<char>>) -> u64 {
    match rest {
        None => 0,
        Some(r) => match parse_unsigned(digit_prefix(before_char(r, '.')), u64::MAX as nat) {
            Some(p) => p as u64,
            None => 0,
        },
    }
}

/// The `(major, minor, patch)` of a version text: trimmed, leading 'v's
/// dropped, then split on '.'; major and minor must parse as `u64`.
pub open spec fn semver_of(v: Seq<char>) -> Option<(u64, u64, u64)> {
    let s = strip_v(trimmed(v));
    match parse_unsigned(before_char(s, '.'), u64::MAX as nat) {
        None => None,
        Some(major) => match after_char(s, '.') {
            None => None,
            Some(r1) => match parse_unsigned(before_char(r1, '.'), u64::MAX as nat) {
                None => None,
                Some(minor) => Some((major as u64, minor as u64, patch_of(after_char(r1, '.')))),
            },
        },
    }
}

fn v_run(s: &[char]) -> (n: usize)
    ensures
        n as int == run_len(s@, |c: char| is_v(c)),
        n <= s@.len(),
{
    let mut n: usize = 0;
    while n < s.len() && s[n] == 'v'
        invariant
            n <= s@.len(),
            forall|j: int| 0 <= j < n ==> #[trigger] s@[j] == 'v',
        decreases s@.len() - n,
    {
        n = n + 1;
    }
    proof {
        lemma_run_len_unique(s@, |c: char| is_v(c), n as int);
    }
    n
}

fn digit_run(s: &[char]) -> (n: usize)
    ensures
        n as int == run_len(s@, |c: char| is_digit(c)),
        n <= s@.len(),
{
    let mut n: usize = 0;
    while n < s.len() && '0' <= s[n] && s[n] <= '9'
        invariant
            n <= s@.len(),
            forall|j: int| 0 <= j < n ==> is_digit(#[trigger] s@[j]),
        decreases s@.len() - n,
    {
        n = n + 1;
    }
    proof {
        lemma_run_len_unique(s@, |c: char| is_digit(c), n as int);
    }
    n
}

/// Splits at the first `c`: the part before it and, if it occurs, the part after.
fn split_first<'a>(s: &'a [char], c: char) -> (r: (&'a [char], Option<&'a [char]>))
    ensures
        r.0@ == before_char(s@, c),
        match r.1 {
            Some(a) => after_char(s@, c) == Some(a@),
            None => after_char(s@, c) is None,
        },
{
    let n = s.len();
    match find_char(s, c) {
        Some(i) => (
            vstd::slice::slice_subrange(s, 0, i),
            Some(vstd::slice::slice_subrange(s, i + 1, n)),
        ),
        None => (s, None),
    }
}

/// Parse a release version such as `v0.1.19` or `1.2.3` into `(major, minor, patch)`.
pub fn parse_semver(v: &str) -> (r: Option<(u64, u64, u64)>)
    ensures
        r == semver_of(v@),
{
    let all = chars_of(v);
    let (a, b) = trim_bounds(all.as_slice());
    let t = vstd::slice::slice_subrange(all.as_slice(), a, b);
    let nv = v_run(t);
    let s = vstd::slice::slice_subrange(t, nv, t.len());
    assert(s@ == strip_v(trimmed(v@)));
    let (major_text, rest1) = split_first(s, '.');
    let major = match parse_unsigned_chars(major_text, u64::MAX) {
        Some(x) => x,
        None => return None,
    };
    let r1 = match rest1 {
        Some(r) => r,
        None => return None,
    };
    let (minor_text, rest2) = split_first(r1, '.');
    let minor = match parse_unsigned_chars(minor_text, u64::MAX) {
        Some(x) => x,
        None => return None,
    };
    let patch: u64 = match rest2 {
        None => 0,
        Some(r2) => {
            let (third, _) = split_first(r2, '.');
            let n = digit_run(third);
            let digits = vstd::slice::slice_subrange(third, 0, n);
            assert(digits@ == digit_prefix(before_char(r2@, '.')));
            match parse_unsigned_chars(digits, u64::MAX) {
                Some(p) => p,
                None => 0,
            }
        },
    };
    Some((major, minor, patch))
}

/// `k` leading 'v' characters.
pub open spec fn v_prefix(k: nat) -> Seq<char> {
    Seq::new(k, |i: int| 'v')
}

/// The text of version `a.b.c`.
pub open spec fn version_text(a: u64, b: u64, c: u64) -> Seq<char> {
    decimal(a as nat) + seq!['.'] + decimal(b as nat) + seq!['.'] + decimal(c as nat)
}

/// `d` (a run of digits) followed by `t`, split at the first '.' .
proof fn lemma_split_after_digits(d: Seq<char>, t: Seq<char>)
    requires
        forall|i: int| 0 <= i < d.len() ==> is_digit(#[trigger] d[i]),
    ensures
        before_char(d + seq!['.'] + t, '.') == d,
        after_char(d + seq!['.'] + t, '.') == Some(t),
{
    lemma_digits_no_dot(d);
    lemma_index_of_after(d, '.', t);
    let s = d + seq!['.'] + t;
    assert(s.subrange(0, d.len() as int) =~= d);
    assert(s.subrange(d.len() as int + 1, s.len() as int) =~= t);
}

/// The patch part `c` followed by a suffix that does not go on with digits.
proof fn lemma_patch_with_suffix(c: u64, suffix: Seq<char>)
    requires
        suffix.len() == 0 || !is_digit(suffix[0]),
    ensures
        patch_of(Some(decimal(c as nat) + suffix)) == c,
{
    let dc = decimal(c as nat);
    lemma_decimal_digits(c as nat);
    lemma_digits_no_dot(dc);
    let x = dc + suffix;
    let y = before_char(x, '.');
    let m: int = match index_of(x, '.') {
        Some(i) => i,
        None => x.len() as int,
    };
    if index_of(x, '.') is Some {
        let i = choose|i: int| is_first_index(x, '.', i);
        assert(is_first_index(x, '.', i));
        if i < dc.len() {
            assert(x[i] == dc[i]);
            assert(dc.contains('.'));
        }
        assert(m == i);
    }
    assert(dc.len() <= m <= x.len());
    assert(y =~= x.take(m));
    assert forall|j: int| 0 <= j < dc.len() implies is_digit(#[trigger] y[j]) by {
        assert(y[j] == dc[j]);
    }
    if dc.len() < y.len() {
        assert(y[dc.len() as int] == suffix[0]);
    }
    lemma_run_len_unique(y, |ch: char| is_digit(ch), dc.len() as int);
    assert(y.take(dc.len() as int) =~= dc);
    lemma_parse_decimal(c as nat, u64::MAX as nat);
}

/// The three-part form of the round trip.
proof fn lemma_semver_three(a: u64, b: u64, c: u64, vs: nat, pre: Seq<char>, suffix: Seq<char>, post: Seq<char>)
    requires
        forall|i: int| 0 <= i < pre.len() ==> is_space(#[trigger] pre[i]),
        forall|i: int| 0 <= i < post.len() ==> is_space(#[trigger] post[i]),
        suffix.len() == 0 || (!is_digit(suffix[0]) && !is_space(suffix.last())),
    ensures
        semver_of(pre + (v_prefix(vs) + version_text(a, b, c) + suffix) + post) == Some((a, b, c)),
{
    let da = decimal(a as nat);
    let db = decimal(b as nat);
    let dc = decimal(c as nat);
    lemma_decimal_digits(a as nat);
    lemma_decimal_digits(c as nat);
    let vv = v_prefix(vs);
    let t = version_text(a, b, c) + suffix;
    let core = vv + t;
    assert(t[0] == da[0]);
    assert(core[vs as int] == t[0]);
    assert(!is_space(core[0])) by {
        if vs > 0 {
            assert(core[0] == 'v');
        }
    }
    assert(!is_space(core.last())) by {
        if suffix.len() > 0 {
            assert(core.last() == suffix.last());
        } else {
            assert(core.last() == dc.last());
            assert(dc.last() == dc[dc.len() - 1]);
        }
    }
    assert(vv + version_text(a, b, c) + suffix =~= core);
    lemma_trimmed_padded(pre, core, post);
    assert forall|j: int| 0 <= j < vs implies #[trigger] core[j] == 'v' by {
        assert(core[j] == vv[j]);
    }
    lemma_run_len_unique(core, |ch: char| is_v(ch), vs as int);
    let s1 = core.subrange(vs as int, core.len() as int);
    let r1 = db + seq!['.'] + (dc + suffix);
    assert(s1 =~= da + seq!['.'] + r1);
    lemma_semver_parts(a, b, c, suffix);
}

/// Splitting `a.b.c` followed by a suffix.
proof fn lemma_semver_parts(a: u64, b: u64, c: u64, suffix: Seq<char>)
    requires
        suffix.len() == 0 || !is_digit(suffix[0]),
    ensures
        parse_unsigned(
            before_char(decimal(a as nat) + seq!['.'] + (decimal(b as nat) + seq!['.'] + (decimal(c as nat) + suffix)), '.'),
            u64::MAX as nat,
        ) == Some(a as nat),
        after_char(decimal(a as nat) + seq!['.'] + (decimal(b as nat) + seq!['.'] + (decimal(c as nat) + suffix)), '.')
            == Some(decimal(b as nat) + seq!['.'] + (decimal(c as nat) + suffix)),
        parse_unsigned(before_char(decimal(b as nat) + seq!['.'] + (decimal(c as nat) + suffix), '.'), u64::MAX as nat)
            == Some(b as nat),
        patch_of(after_char(decimal(b as nat) + seq!['.'] + (decimal(c as nat) + suffix), '.')) == c,
{
    let da = decimal(a as nat);
    let db = decimal(b as nat);
    let dc = decimal(c as nat);
    lemma_decimal_digits(a as nat);
    lemma_decimal_digits(b as nat);
    lemma_parse_decimal(a as nat, u64::MAX as nat);
    lemma_parse_decimal(b as nat, u64::MAX as nat);
    lemma_split_after_digits(da, db + seq!['.'] + (dc + suffix));
    lemma_split_after_digits(db, dc + suffix);
    lemma_patch_with_suffix(c, suffix);
}

/// The two-part form of the round trip.
proof fn lemma_semver_two(a: u64, b: u64, vs: nat, pre: Seq<char>, post: Seq<char>)
    requires
        forall|i: int| 0 <= i < pre.len() ==> is_space(#[trigger] pre[i]),
        forall|i: int| 0 <= i < post.len() ==> is_space(#[trigger] post[i]),
    ensures
        semver_of(pre + (v_prefix(vs) + (decimal(a as nat) + seq!['.'] + decimal(b as nat))) + post)
            == Some((a, b, 0u64)),
{
    let da = decimal(a as nat);
    let db = decimal(b as nat);
    lemma_decimal_digits(a as nat);
    lemma_decimal_digits(b as nat);
    lemma_parse_decimal(a as nat, u64::MAX as nat);
    lemma_parse_decimal(b as nat, u64::MAX as nat);
    let vv = v_prefix(vs);
    let core2 = vv + (da + seq!['.'] + db);
    assert(core2[vs as int] == da[0]);
    assert(!is_space(core2[0])) by {
        if vs > 0 {
            assert(core2[0] == 'v');
        }
    }
    assert(core2.last() == db[db.len() - 1]);
    lemma_trimmed_padded(pre, core2, post);
    assert forall|j: int| 0 <= j < vs implies #[trigger] core2[j] == 'v' by {
        assert(core2[j] == vv[j]);
    }
    lemma_run_len_unique(core2, |ch: char| is_v(ch), vs as int);
    let s2 = core2.subrange(vs as int, core2.len() as int);
    assert(s2 =~= da + seq!['.'] + db);
    lemma_split_after_digits(da, db);
    lemma_digits_no_dot(db);
}

/// Writing a version and reading it back gives it back: `a.b.c`, with any
/// number of leading 'v', white space around it and a suffix that does not
/// go on with digits (such as "-rc1"), reads as `(a, b, c)`; `a.b` reads as
/// `(a, b, 0)`.
pub proof fn lemma_semver_roundtrip(
    a: u64,
    b: u64,
    c: u64,
    vs: nat,
    pre: Seq<char>,
    suffix: Seq<char>,
    post: Seq<char>,
)
    requires
        forall|i: int| 0 <= i < pre.len() ==> is_space(#[trigger] pre[i]),
        forall|i: int| 0 <= i < post.len() ==> is_space(#[trigger] post[i]),
        suffix.len() == 0 || (!is_digit(suffix[0]) && !is_space(suffix.last())),
    ensures
        semver_of(pre + (v_prefix(vs) + version_text(a, b, c) + suffix) + post) == Some((a, b, c)),
        semver_of(pre + (v_prefix(vs) + (decimal(a as nat) + seq!['.'] + decimal(b as nat))) + post)
            == Some((a, b, 0u64)),
{
    lemma_semver_three(a, b, c, vs, pre, suffix, post);
    lemma_semver_two(a, b, vs, pre, post);
}

} // verus!

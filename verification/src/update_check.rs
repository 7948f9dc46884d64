//! Whether a release is newer than the running build.

use vstd::prelude::*;

use crate::text;
use crate::text::{parse_number, split_first, strip_front};

verus! {

/// A release.
#[derive(Debug, Clone)]
pub struct UpdateInfo {
    /// Its version, without a leading `v`.
    pub version: String,
    /// Where it can be had.
    pub url: String,
}

/// The number of one part of a version: what stands before the first hyphen,
/// or 0 where that is no number.
pub open spec fn part_number(part: Seq<char>) -> int {
    match text::number_in(text::before_first(part, '-'), u64::MAX as int) {
        Some(n) => n,
        None => 0,
    }
}

/// The numbers of the parts of a version, between the dots.
pub open spec fn version_numbers(s: Seq<char>) -> Seq<int>
    decreases s.len(),
{
    match text::after_first(s, '.') {
        Some(rest) => if rest.len() < s.len() {
            seq![part_number(text::before_first(s, '.'))] + version_numbers(rest)
        } else {
            Seq::empty()
        },
        None => seq![part_number(s)],
    }
}

/// A number of a version; versions go on with zeros.
pub open spec fn number_at(v: Seq<int>, i: int) -> int {
    if 0 <= i < v.len() {
        v[i]
    } else {
        0
    }
}

/// Whether the versions agree before their place `i`, where the first one is
/// higher.
pub open spec fn higher_at(a: Seq<int>, b: Seq<int>, i: int) -> bool {
    &&& number_at(a, i) > number_at(b, i)
    &&& forall|j: int| 0 <= j < i ==> #[trigger] number_at(a, j) == number_at(b, j)
}

/// Whether the first version is higher than the second one.
pub open spec fn higher(a: Seq<int>, b: Seq<int>) -> bool {
    exists|i: int| 0 <= i && #[trigger] higher_at(a, b, i)
}

/// The numbers of a version.
fn parse_version(s: &str) -> (v: Vec<u64>)
    ensures
        v@.map_values(|n: u64| n as int) == version_numbers(s@),
{
    let mut v: Vec<u64> = Vec::new();
    let mut left: String = text::owned(s);
    let mut more = true;
    let ghost done = v@.map_values(|n: u64| n as int);
    assert(done + version_numbers(left@) =~= version_numbers(s@));
    while more
        invariant
            more ==> v@.map_values(|n: u64| n as int) + version_numbers(left@) == version_numbers(
                s@,
            ),
            !more ==> v@.map_values(|n: u64| n as int) == version_numbers(s@),
        decreases left@.len() + (if more { 1int } else { 0 }),
    {
        let ghost before = v@.map_values(|n: u64| n as int);
        let (part, rest) = split_first(left.as_str(), '.');
        let (head, _suffix) = split_first(part.as_str(), '-');
        let n: u64 = match parse_number(head.as_str(), u64::MAX) {
            Some(n) => n,
            None => 0,
        };
        v.push(n);
        assert(v@.map_values(|n: u64| n as int) =~= before.push(part_number(part@)));
        proof {
            text::lemma_first_index(left@, '.');
        }
        match rest {
            Some(r) => {
                assert(v@.map_values(|n: u64| n as int) + version_numbers(r@) =~= before
                    + version_numbers(left@));
                left = r;
            },
            None => {
                assert(part@ =~= left@);
                assert(v@.map_values(|n: u64| n as int) =~= before + version_numbers(left@));
                more = false;
            },
        }
    }
    v
}

/// Whether `candidate` is a higher version than `current`. A part that is
/// missing or no number counts as 0, so a malformed version is never newer
/// for that.
pub fn is_newer(candidate: &str, current: &str) -> (r: bool)
    ensures
        r == higher(version_numbers(candidate@), version_numbers(current@)),
{
    let a = parse_version(candidate);
    let b = parse_version(current);
    let ghost va = version_numbers(candidate@);
    let ghost vb = version_numbers(current@);
    let n: usize = if a.len() >= b.len() {
        a.len()
    } else {
        b.len()
    };
    let mut i: usize = 0;
    while i < n
        invariant
            i <= n,
            n >= a@.len(),
            n >= b@.len(),
            a@.map_values(|n: u64| n as int) == va,
            b@.map_values(|n: u64| n as int) == vb,
            va == version_numbers(candidate@),
            vb == version_numbers(current@),
            forall|j: int| 0 <= j < i ==> #[trigger] number_at(va, j) == number_at(vb, j),
        decreases n - i,
    {
        let x: u64 = if i < a.len() {
            a[i]
        } else {
            0
        };
        let y: u64 = if i < b.len() {
            b[i]
        } else {
            0
        };
        assert(va.len() == a@.len() && vb.len() == b@.len());
        assert(number_at(va, i as int) == x && number_at(vb, i as int) == y);
        if x != y {
            proof {
                if x > y {
                    assert(higher_at(va, vb, i as int));
                } else {
                    assert forall|k: int| 0 <= k implies !#[trigger] higher_at(va, vb, k) by {
                        if k > i {
                            assert(number_at(va, i as int) != number_at(vb, i as int));
                        } else if k < i {
                            assert(number_at(va, k) == number_at(vb, k));
                        }
                    }
                }
            }
            return x > y;
        }
        i = i + 1;
    }
    proof {
        assert(va.len() == a@.len() && vb.len() == b@.len());
        assert forall|k: int| 0 <= k implies !#[trigger] higher_at(va, vb, k) by {
            if k < i {
                assert(number_at(va, k) == number_at(vb, k));
            }
        }
    }
    false
}

/// No version is newer than itself, and of two versions at most one is newer.
pub proof fn law_newer_is_strict(a: Seq<int>, b: Seq<int>)
    ensures
        !higher(a, a),
        higher(a, b) ==> !higher(b, a),
{
    if higher(a, b) && higher(b, a) {
        let i = choose|i: int| 0 <= i && #[trigger] higher_at(a, b, i);
        let j = choose|j: int| 0 <= j && #[trigger] higher_at(b, a, j);
        if i < j {
            assert(number_at(b, i) == number_at(a, i));
        } else if j < i {
            assert(number_at(a, j) == number_at(b, j));
        }
    }
}

/// Newer than newer is newer.
pub proof fn law_newer_is_transitive(a: Seq<int>, b: Seq<int>, c: Seq<int>)
    requires
        higher(a, b),
        higher(b, c),
    ensures
        higher(a, c),
{
    let i = choose|i: int| 0 <= i && #[trigger] higher_at(a, b, i);
    let j = choose|j: int| 0 <= j && #[trigger] higher_at(b, c, j);
    let k = if i < j {
        i
    } else {
        j
    };
    assert forall|m: int| 0 <= m < k implies #[trigger] number_at(a, m) == number_at(c, m) by {
        assert(number_at(a, m) == number_at(b, m));
        assert(number_at(b, m) == number_at(c, m));
    }
    if i < j {
        assert(number_at(b, i) == number_at(c, i));
    } else if j < i {
        assert(number_at(a, j) == number_at(b, j));
    }
    assert(higher_at(a, c, k));
}

/// The version of a release whose tag may start with `v`, and where it can be
/// had; drafts and pre-releases do not count.
pub fn release_info(tag_name: &str, html_url: &str, draft: bool, prerelease: bool) -> (r: Option<
    UpdateInfo,
>)
    ensures
        r is Some <==> !draft && !prerelease,
        r matches Some(i) ==> i.version@ == text::without_front(tag_name@, 'v') && i.url@
            == html_url@,
{
    if draft || prerelease {
        return None;
    }
    Some(UpdateInfo { version: strip_front(tag_name, 'v'), url: text::owned(html_url) })
}

/// The release that the user is told of: the latest one, if it is newer than
/// the running build. A failed look-up tells nothing.
pub fn update_to_offer(latest: Option<UpdateInfo>, current: &str) -> (r: Option<UpdateInfo>)
    ensures
        match latest {
            Some(i) => if higher(version_numbers(i.version@), version_numbers(current@)) {
                r == Some(i)
            } else {
                r is None
            },
            None => r is None,
        },
{
    match latest {
        Some(info) => if is_newer(info.version.as_str(), current) {
            Some(info)
        } else {
            None
        },
        None => None,
    }
}

/// Versions are compared by their first numbers, and by the numbers after them
/// only where those are equal.
pub proof fn law_first_number_decides(x: int, a: Seq<int>, y: int, b: Seq<int>)
    ensures
        x > y ==> higher(seq![x] + a, seq![y] + b),
        x < y ==> !higher(seq![x] + a, seq![y] + b),
        x == y ==> (higher(seq![x] + a, seq![y] + b) <==> higher(a, b)),
{
    let p = seq![x] + a;
    let q = seq![y] + b;
    assert(number_at(p, 0) == x && number_at(q, 0) == y);
    assert forall|j: int| j > 0 implies #[trigger] number_at(p, j) == number_at(a, j - 1)
        && number_at(q, j) == number_at(b, j - 1) by {}
    if x > y {
        assert(higher_at(p, q, 0));
    }
    if higher(p, q) {
        let i = choose|i: int| 0 <= i && #[trigger] higher_at(p, q, i);
        if i > 0 {
            assert(number_at(p, 0) == number_at(q, 0));
            assert(number_at(a, i - 1) > number_at(b, i - 1)) by {
                assert(number_at(p, i) == number_at(a, i - 1));
            }
            assert forall|j: int| 0 <= j < i - 1 implies #[trigger] number_at(a, j) == number_at(
                b,
                j,
            ) by {
                assert(number_at(p, j + 1) == number_at(q, j + 1));
            }
            assert(higher_at(a, b, i - 1));
        }
    }
    if x == y && higher(a, b) {
        let i = choose|i: int| 0 <= i && #[trigger] higher_at(a, b, i);
        assert(number_at(p, i + 1) == number_at(a, i));
        assert forall|j: int| 0 <= j < i + 1 implies #[trigger] number_at(p, j) == number_at(
            q,
            j,
        ) by {
            if j > 0 {
                assert(number_at(a, j - 1) == number_at(b, j - 1));
            }
        }
        assert(higher_at(p, q, i + 1));
    }
}

/// A version without further numbers is as high as one that goes on with
/// zeros.
pub proof fn law_missing_numbers_are_zero(a: Seq<int>, b: Seq<int>)
    ensures
        higher(a.push(0), b) <==> higher(a, b),
        higher(b, a.push(0)) <==> higher(b, a),
{
    assert forall|j: int| #[trigger] number_at(a.push(0), j) == number_at(a, j) by {}
    if higher(a.push(0), b) {
        let i = choose|i: int| 0 <= i && #[trigger] higher_at(a.push(0), b, i);
        assert forall|j: int| 0 <= j < i implies #[trigger] number_at(a, j) == number_at(b, j) by {
            assert(number_at(a.push(0), j) == number_at(b, j));
        }
        assert(number_at(a.push(0), i) > number_at(b, i));
        assert(higher_at(a, b, i));
    }
    if higher(a, b) {
        let i = choose|i: int| 0 <= i && #[trigger] higher_at(a, b, i);
        assert forall|j: int| 0 <= j < i implies #[trigger] number_at(a.push(0), j) == number_at(
            b,
            j,
        ) by {
            assert(number_at(a, j) == number_at(b, j));
        }
        assert(number_at(a.push(0), i) == number_at(a, i));
        assert(higher_at(a.push(0), b, i));
    }
    if higher(b, a.push(0)) {
        let i = choose|i: int| 0 <= i && #[trigger] higher_at(b, a.push(0), i);
        assert forall|j: int| 0 <= j < i implies #[trigger] number_at(b, j) == number_at(a, j) by {
            assert(number_at(b, j) == number_at(a.push(0), j));
        }
        assert(number_at(a.push(0), i) == number_at(a, i));
        assert(higher_at(b, a, i));
    }
    if higher(b, a) {
        let i = choose|i: int| 0 <= i && #[trigger] higher_at(b, a, i);
        assert forall|j: int| 0 <= j < i implies #[trigger] number_at(b, j) == number_at(
            a.push(0),
            j,
        ) by {
            assert(number_at(b, j) == number_at(a, j));
        }
        assert(number_at(a.push(0), i) == number_at(a, i));
        assert(higher_at(b, a.push(0), i));
    }
}

/// A version that is written with dots between numbers is read as those
/// numbers.
pub proof fn law_version_is_read(n: nat, rest: Seq<char>)
    requires
        n <= u64::MAX,
    ensures
        version_numbers(text::decimal(n)) == seq![n as int],
        version_numbers(text::decimal(n) + "."@ + rest) == seq![n as int] + version_numbers(rest),
{
    let d = text::decimal(n);
    text::law_decimal_is_read(n, u64::MAX as int);
    text::law_decimal_round_trip(n);
    text::lemma_first_index(d, '.');
    text::lemma_first_index(d, '-');
    if d.contains('.') {
        let i = choose|i: int| 0 <= i < d.len() && d[i] == '.';
        assert('0' <= d[i] <= '9');
    }
    if d.contains('-') {
        let i = choose|i: int| 0 <= i < d.len() && d[i] == '-';
        assert('0' <= d[i] <= '9');
    }
    assert(text::before_first(d, '-') =~= d);
    assert(part_number(d) == n);
    assert(version_numbers(d) =~= seq![n as int]);
    reveal_strlit(".");
    let s = d + "."@ + rest;
    text::lemma_first_index(s, '.');
    let k = text::first_index(s, '.');
    assert(s[d.len() as int] == '.');
    if k < d.len() {
        assert(s[k] == d[k]);
        assert('0' <= d[k] <= '9');
    }
    assert(k == d.len()) by {
        if k > d.len() {
            assert(s[d.len() as int] != '.');
        }
    }
    assert(text::before_first(s, '.') =~= d);
    assert(s.subrange(k + 1, s.len() as int) =~= rest);
}

} // verus!

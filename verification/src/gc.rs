use vstd::prelude::*;
use vstd::string::{StrSliceExecFns, StringExecFns};

use crate::lockfile::{cache_files_of, entry_ok, lock_ok, LockfileParseError};
use crate::manifest::MetaRecord;
use crate::scan::{find_first, range_lacks};

verus! {

/// A lowercase hexadecimal digit.
pub open spec fn is_hex_char(c: char) -> bool {
    (48 <= c as u32 && c as u32 <= 57) || (97 <= c as u32 && c as u32 <= 102)
}

/// An ASCII decimal digit.
pub open spec fn is_digit_char(c: char) -> bool {
    48 <= c as u32 && c as u32 <= 57
}

/// A character of a package-manager name: ASCII letters, digits, underscore,
/// hyphen.
pub open spec fn is_word_char(c: char) -> bool {
    ||| (48 <= c as u32 && c as u32 <= 57)
    ||| (65 <= c as u32 && c as u32 <= 90)
    ||| (97 <= c as u32 && c as u32 <= 122)
    ||| c == '_'
    ||| c == '-'
}

fn hex_char(c: char) -> (r: bool)
    ensures
        r == is_hex_char(c),
{
    let u = c as u32;
    (48 <= u && u <= 57) || (97 <= u && u <= 102)
}

/// Whether the character range `[from, to)` of `s` is all hexadecimal.
fn all_hex(s: &str, from: usize, to: usize) -> (r: bool)
    requires
        from <= to <= s@.len(),
    ensures
        r <==> (forall|j: int| from <= j < to ==> is_hex_char(s@[j])),
{
    let mut i = from;
    while i < to
        invariant
            from <= i <= to <= s@.len(),
            forall|j: int| from <= j < i ==> is_hex_char(s@[j]),
        decreases to - i,
    {
        if !hex_char(s.get_char(i)) {
            return false;
        }
        i = i + 1;
    }
    true
}

/// Whether the character range `[from, to)` of `s` is all decimal digits.
fn all_digits(s: &str, from: usize, to: usize) -> (r: bool)
    requires
        from <= to <= s@.len(),
    ensures
        r <==> (forall|j: int| from <= j < to ==> is_digit_char(s@[j])),
{
    let mut i = from;
    while i < to
        invariant
            from <= i <= to <= s@.len(),
            forall|j: int| from <= j < i ==> is_digit_char(s@[j]),
        decreases to - i,
    {
        let u = s.get_char(i) as u32;
        if !(48 <= u && u <= 57) {
            return false;
        }
        i = i + 1;
    }
    true
}

/// Whether the character range `[from, to)` of `s` is all word characters.
fn all_word(s: &str, from: usize, to: usize) -> (r: bool)
    requires
        from <= to <= s@.len(),
    ensures
        r <==> (forall|j: int| from <= j < to ==> is_word_char(s@[j])),
{
    let mut i = from;
    while i < to
        invariant
            from <= i <= to <= s@.len(),
            forall|j: int| from <= j < i ==> is_word_char(s@[j]),
        decreases to - i,
    {
        let c = s.get_char(i);
        let u = c as u32;
        if !((48 <= u && u <= 57) || (65 <= u && u <= 90) || (97 <= u && u <= 122) || c == '_'
            || c == '-') {
            return false;
        }
        i = i + 1;
    }
    true
}

/// Last occurrence of `c` in the character range `[from, to)` of `s`, if any.
fn find_last(s: &str, from: usize, to: usize, c: char) -> (r: Option<usize>)
    requires
        from <= to <= s@.len(),
    ensures
        match r {
            Some(i) => from <= i < to && s@[i as int] == c && (forall|x: int|
                i < x < to ==> s@[x] != c),
            None => forall|x: int| from <= x < to ==> s@[x] != c,
        },
{
    let mut found: Option<usize> = None;
    let mut i = from;
    while i < to
        invariant
            from <= i <= to <= s@.len(),
            match found {
                Some(f) => from <= f < i && s@[f as int] == c && (forall|x: int|
                    f < x < i ==> s@[x] != c),
                None => forall|x: int| from <= x < i ==> s@[x] != c,
            },
        decreases to - i,
    {
        if s.get_char(i) == c {
            found = Some(i);
        }
        i = i + 1;
    }
    found
}

/// The `.zip` suffix of a cache artifact name.
pub open spec fn zip_suffix() -> Seq<char> {
    seq!['.', 'z', 'i', 'p']
}

/// A slug as it stands in a cache artifact name: nonempty, free of line
/// breaks.
pub open spec fn valid_slug(s: Seq<char>) -> bool {
    s.len() > 0 && (forall|i: int| 0 <= i < s.len() ==> s[i] != '\n')
}

/// A cache key as it stands in a cache artifact name: nonempty, lowercase
/// hexadecimal.
pub open spec fn valid_cache_key(s: Seq<char>) -> bool {
    s.len() > 0 && (forall|i: int| 0 <= i < s.len() ==> is_hex_char(s[i]))
}

/// The cache artifact grammar `slug-key.zip`: the key runs from the last
/// hyphen and is hexadecimal.
pub open spec fn cache_name_splits(s: Seq<char>, slug: Seq<char>, key: Seq<char>) -> bool {
    &&& s == slug + seq!['-'] + key + zip_suffix()
    &&& valid_slug(slug)
    &&& valid_cache_key(key)
}

/// Whether a filename names a cache artifact.
pub open spec fn cache_name_ok(s: Seq<char>) -> bool {
    exists|slug: Seq<char>, key: Seq<char>| cache_name_splits(s, slug, key)
}

/// The (unique) slug and key of a cache artifact name.
pub open spec fn cache_name_parts(s: Seq<char>) -> (Seq<char>, Seq<char>) {
    choose|slug: Seq<char>, key: Seq<char>| cache_name_splits(s, slug, key)
}

/// A cache artifact name decomposes in at most one way: the key may hold no
/// hyphen, so the split sits at the last one.
pub proof fn lemma_cache_name_unique(
    s: Seq<char>,
    slug1: Seq<char>,
    key1: Seq<char>,
    slug2: Seq<char>,
    key2: Seq<char>,
)
    requires
        cache_name_splits(s, slug1, key1),
        cache_name_splits(s, slug2, key2),
    ensures
        slug1 == slug2,
        key1 == key2,
{
    assert(s.len() == slug1.len() + 1 + key1.len() + 4);
    assert(s.len() == slug2.len() + 1 + key2.len() + 4);
    if slug1.len() < slug2.len() {
        assert(s[slug2.len() as int] == '-');
        assert(key1[slug2.len() - slug1.len() - 1] == s[slug2.len() as int]);
        assert(is_hex_char(key1[slug2.len() - slug1.len() - 1]));
        assert(false);
    }
    if slug2.len() < slug1.len() {
        assert(s[slug1.len() as int] == '-');
        assert(key2[slug1.len() - slug2.len() - 1] == s[slug1.len() as int]);
        assert(is_hex_char(key2[slug1.len() - slug2.len() - 1]));
        assert(false);
    }
    assert(slug1 =~= slug2) by {
        assert(forall|i: int| 0 <= i < slug1.len() ==> slug1[i] == s[i] && slug2[i] == s[i]);
    }
    assert(key1 =~= key2) by {
        assert(forall|i: int| 0 <= i < key1.len()
            ==> key1[i] == s[slug1.len() + 1 + i] && key2[i] == s[slug1.len() + 1 + i]);
    }
}

/// Parse a cache artifact filename `slug-key.zip` into its slug and key.
/// Filenames of any other shape are no candidates for collection.
pub fn parse_cache_filename(name: &str) -> (r: Option<(String, String)>)
    ensures
        r is Some <==> cache_name_ok(name@),
        match r {
            Some(parts) => cache_name_splits(name@, parts.0@, parts.1@),
            None => true,
        },
{
    let ghost s = name@;
    let n = name.unicode_len();
    if n < 7 {
        proof {
            if cache_name_ok(s) {
                let (slug, key) = choose|slug: Seq<char>, key: Seq<char>|
                    cache_name_splits(s, slug, key);
                assert(s.len() == slug.len() + 1 + key.len() + 4);
                assert(false);
            }
        }
        return None;
    }
    if !(name.get_char(n - 4) == '.' && name.get_char(n - 3) == 'z' && name.get_char(n - 2) == 'i'
        && name.get_char(n - 1) == 'p') {
        proof {
            if cache_name_ok(s) {
                let (slug, key) = choose|slug: Seq<char>, key: Seq<char>|
                    cache_name_splits(s, slug, key);
                assert(s.len() == slug.len() + 1 + key.len() + 4);
                assert(s[s.len() - 4] == '.' && s[s.len() - 3] == 'z' && s[s.len() - 2] == 'i'
                    && s[s.len() - 1] == 'p');
                assert(false);
            }
        }
        return None;
    }
    let body_end = n - 4;
    let dopt = find_last(name, 0, body_end, '-');
    match dopt {
        None => {
            proof {
                if cache_name_ok(s) {
                    let (slug, key) = choose|slug: Seq<char>, key: Seq<char>|
                        cache_name_splits(s, slug, key);
                    assert(s.len() == slug.len() + 1 + key.len() + 4);
                    assert(s[slug.len() as int] == '-');
                    assert(false);
                }
            }
            None
        },
        Some(d) => {
            if d == 0 || d + 1 == body_end || !all_hex(name, d + 1, body_end) || !range_lacks(
                name,
                0,
                d,
                '\n',
            ) {
                proof {
                    if cache_name_ok(s) {
                        let (slug, key) = choose|slug: Seq<char>, key: Seq<char>|
                            cache_name_splits(s, slug, key);
                        assert(s.len() == slug.len() + 1 + key.len() + 4);
                        assert(s[slug.len() as int] == '-');
                        assert(slug.len() < body_end);
                        if slug.len() < d {
                            assert(key[d - slug.len() - 1] == s[d as int]);
                            assert(is_hex_char(key[d - slug.len() - 1]));
                            assert(false);
                        }
                        if d < slug.len() {
                            assert(s[slug.len() as int] != '-');
                            assert(false);
                        }
                        // so the split sits exactly at d
                        assert(slug.len() == d);
                        assert(forall|x: int| d < x < body_end ==> {
                            &&& s[x] == key[x - d - 1]
                            &&& is_hex_char(s[x])
                        });
                        assert(forall|i: int| 0 <= i < d ==> s[i] == slug[i] && s[i] != '\n');
                        assert(false);
                    }
                }
                None
            } else {
                let slug = String::from_str(name.substring_char(0, d));
                let key = String::from_str(name.substring_char(d + 1, body_end));
                proof {
                    assert(s =~= slug@ + seq!['-'] + key@ + zip_suffix());
                    assert(valid_slug(slug@)) by {
                        assert(forall|i: int| 0 <= i < slug@.len() ==> slug@[i] == s[i]);
                    }
                    assert(valid_cache_key(key@)) by {
                        assert(forall|i: int| 0 <= i < key@.len() ==> key@[i] == s[d + 1 + i]);
                    }
                    assert(cache_name_splits(s, slug@, key@));
                }
                Some((slug, key))
            }
        },
    }
}

/// A package-manager name: nonempty, word characters only.
pub open spec fn valid_pm_name(s: Seq<char>) -> bool {
    s.len() > 0 && (forall|i: int| 0 <= i < s.len() ==> is_word_char(s[i]))
}

/// One numeric component of a version: nonempty, decimal digits only.
pub open spec fn valid_version_part(s: Seq<char>) -> bool {
    s.len() > 0 && (forall|i: int| 0 <= i < s.len() ==> is_digit_char(s[i]))
}

/// A `major.minor.patch` version: three numeric components joined by dots.
pub open spec fn version_splits(v: Seq<char>, a: Seq<char>, b: Seq<char>, c: Seq<char>) -> bool {
    &&& v == a + seq!['.'] + b + seq!['.'] + c
    &&& valid_version_part(a)
    &&& valid_version_part(b)
    &&& valid_version_part(c)
}

/// Whether a string is a `major.minor.patch` version.
pub open spec fn version_ok(v: Seq<char>) -> bool {
    exists|a: Seq<char>, b: Seq<char>, c: Seq<char>| version_splits(v, a, b, c)
}

/// The package-manager descriptor grammar `name@major.minor.patch`.
pub open spec fn pm_splits(s: Seq<char>, name: Seq<char>, version: Seq<char>) -> bool {
    &&& s == name + seq!['@'] + version
    &&& valid_pm_name(name)
    &&& version_ok(version)
}

/// Whether a string is a package-manager descriptor.
pub open spec fn pm_ok(s: Seq<char>) -> bool {
    exists|name: Seq<char>, version: Seq<char>| pm_splits(s, name, version)
}

/// The (unique) name and version of a package-manager descriptor.
pub open spec fn pm_parts(s: Seq<char>) -> (Seq<char>, Seq<char>) {
    choose|name: Seq<char>, version: Seq<char>| pm_splits(s, name, version)
}

/// A package-manager descriptor decomposes in at most one way: neither side
/// of the separator may hold an `@`.
pub proof fn lemma_pm_unique(
    s: Seq<char>,
    name1: Seq<char>,
    version1: Seq<char>,
    name2: Seq<char>,
    version2: Seq<char>,
)
    requires
        pm_splits(s, name1, version1),
        pm_splits(s, name2, version2),
    ensures
        name1 == name2,
        version1 == version2,
{
    assert(s.len() == name1.len() + 1 + version1.len());
    assert(s.len() == name2.len() + 1 + version2.len());
    if name1.len() < name2.len() {
        assert(s[name1.len() as int] == '@');
        assert(name2[name1.len() as int] == s[name1.len() as int]);
        assert(is_word_char(name2[name1.len() as int]));
        assert(false);
    }
    if name2.len() < name1.len() {
        assert(s[name2.len() as int] == '@');
        assert(name1[name2.len() as int] == s[name2.len() as int]);
        assert(is_word_char(name1[name2.len() as int]));
        assert(false);
    }
    assert(name1 =~= name2) by {
        assert(forall|i: int| 0 <= i < name1.len() ==> name1[i] == s[i] && name2[i] == s[i]);
    }
    assert(version1 =~= version2) by {
        assert(forall|i: int| 0 <= i < version1.len()
            ==> version1[i] == s[name1.len() + 1 + i] && version2[i] == s[name1.len() + 1 + i]);
    }
}

/// In an accepted descriptor whose first `@` stands at `k`, the name is
/// everything before `k` and the version follows it.
proof fn lemma_pm_at_split(s: Seq<char>, k: int)
    requires
        pm_ok(s),
        0 <= k < s.len(),
        s[k] == '@',
        forall|x: int| 0 <= x < k ==> s[x] != '@',
    ensures
        k >= 1,
        forall|x: int| 0 <= x < k ==> is_word_char(s[x]),
        version_ok(s.skip(k + 1)),
{
    let (nm, v) = choose|nm: Seq<char>, v: Seq<char>| pm_splits(s, nm, v);
    assert(s.len() == nm.len() + 1 + v.len());
    assert(s[nm.len() as int] == '@');
    if nm.len() < k {
        assert(s[nm.len() as int] != '@');
        assert(false);
    }
    if k < nm.len() {
        assert(nm[k] == s[k]);
        assert(is_word_char(nm[k]));
        assert(false);
    }
    assert(forall|x: int| 0 <= x < k ==> s[x] == nm[x] && is_word_char(nm[x]));
    assert(v =~= s.skip(k + 1)) by {
        assert(forall|i: int| 0 <= i < v.len() ==> v[i] == s[k + 1 + i]);
    }
}

/// In an accepted version whose first dot stands at `d` (or that holds no dot
/// before `d == v.len()`), the major part is everything before `d` and a
/// `minor.patch` remainder follows it.  With no dot at all the premises are
/// impossible, which the conclusion `d < v.len()` records.
proof fn lemma_version_first_dot(v: Seq<char>, d: int)
    requires
        version_ok(v),
        0 <= d <= v.len(),
        d < v.len() ==> v[d] == '.',
        forall|x: int| 0 <= x < d ==> v[x] != '.',
    ensures
        1 <= d < v.len(),
        forall|x: int| 0 <= x < d ==> is_digit_char(v[x]),
        version_tail_ok(v.skip(d + 1)),
{
    let (a, b, c) = choose|a: Seq<char>, b: Seq<char>, c: Seq<char>| version_splits(v, a, b, c);
    assert(v.len() == a.len() + 1 + b.len() + 1 + c.len());
    assert(v[a.len() as int] == '.');
    if a.len() < d {
        assert(v[a.len() as int] != '.');
        assert(false);
    }
    if d < a.len() {
        assert(a[d] == v[d]);
        assert(is_digit_char(a[d]));
        assert(false);
    }
    assert(forall|x: int| 0 <= x < d ==> v[x] == a[x] && is_digit_char(a[x]));
    let w = v.skip(d + 1);
    assert(w =~= b + seq!['.'] + c) by {
        assert(forall|i: int| 0 <= i < w.len() ==> w[i] == v[d + 1 + i]);
        assert(forall|i: int| 0 <= i < b.len() ==> b[i] == v[a.len() + 1 + i]);
        assert(forall|i: int| 0 <= i < c.len() ==> c[i] == v[a.len() + 1 + b.len() + 1 + i]);
    }
    assert(version_tail_ok(w));
}

/// A `minor.patch` remainder: two numeric components joined by a dot.
pub open spec fn version_tail_ok(w: Seq<char>) -> bool {
    exists|b: Seq<char>, c: Seq<char>|
        {
            &&& w == b + seq!['.'] + c
            &&& valid_version_part(b)
            &&& valid_version_part(c)
        }
}

/// In an accepted `minor.patch` remainder whose first dot stands at `d` (or
/// that holds no dot before `d == w.len()`), the minor part is everything
/// before `d` and the patch part, all digits, follows it.
proof fn lemma_version_second_dot(w: Seq<char>, d: int)
    requires
        version_tail_ok(w),
        0 <= d <= w.len(),
        d < w.len() ==> w[d] == '.',
        forall|x: int| 0 <= x < d ==> w[x] != '.',
    ensures
        1 <= d < w.len(),
        d + 1 < w.len(),
        forall|x: int| 0 <= x < d ==> is_digit_char(w[x]),
        forall|x: int| d < x < w.len() ==> is_digit_char(w[x]),
{
    let (b, c) = choose|b: Seq<char>, c: Seq<char>|
        {
            &&& w == b + seq!['.'] + c
            &&& valid_version_part(b)
            &&& valid_version_part(c)
        };
    assert(w.len() == b.len() + 1 + c.len());
    assert(w[b.len() as int] == '.');
    if b.len() < d {
        assert(w[b.len() as int] != '.');
        assert(false);
    }
    if d < b.len() {
        assert(b[d] == w[d]);
        assert(is_digit_char(b[d]));
        assert(false);
    }
    assert(forall|x: int| 0 <= x < d ==> w[x] == b[x] && is_digit_char(b[x]));
    assert(forall|x: int| d < x < w.len() ==> w[x] == c[x - d - 1] && is_digit_char(c[x - d - 1]));
}

/// Parse a package-manager descriptor `name@major.minor.patch` into its name
/// and version.
#[verifier::rlimit(80)]
pub fn parse_package_manager(s: &str) -> (r: Option<(String, String)>)
    ensures
        r is Some <==> pm_ok(s@),
        match r {
            Some(parts) => pm_splits(s@, parts.0@, parts.1@),
            None => true,
        },
{
    let ghost sv = s@;
    let n = s.unicode_len();
    let kopt = find_first(s, 0, '@');
    let k = match kopt {
        None => {
            proof {
                if pm_ok(sv) {
                    let (nm, v) = choose|nm: Seq<char>, v: Seq<char>| pm_splits(sv, nm, v);
                    assert(sv.len() == nm.len() + 1 + v.len());
                    assert(sv[nm.len() as int] == '@');
                    assert(false);
                }
            }
            return None;
        },
        Some(k) => k,
    };
    if k == 0 || !all_word(s, 0, k) {
        proof {
            if pm_ok(sv) {
                lemma_pm_at_split(sv, k as int);
                assert(false);
            }
        }
        return None;
    }
    let ghost ver = sv.skip(k + 1);
    proof {
        assert(ver.len() == n - k - 1);
        assert(forall|i: int| 0 <= i < ver.len() ==> ver[i] == sv[k + 1 + i]);
    }
    let d1opt = find_first(s, k + 1, '.');
    let d1 = match d1opt {
        None => {
            proof {
                if pm_ok(sv) {
                    lemma_pm_at_split(sv, k as int);
                    lemma_version_first_dot(ver, ver.len() as int);
                    assert(false);
                }
            }
            return None;
        },
        Some(d1) => d1,
    };
    if d1 == k + 1 || !all_digits(s, k + 1, d1) {
        proof {
            if pm_ok(sv) {
                lemma_pm_at_split(sv, k as int);
                lemma_version_first_dot(ver, d1 - k - 1);
                assert(forall|x: int| k + 1 <= x < d1 ==> is_digit_char(sv[x]));
                assert(false);
            }
        }
        return None;
    }
    let ghost tail = ver.skip(d1 - k);
    proof {
        assert(tail.len() == n - d1 - 1);
        assert(forall|i: int| 0 <= i < tail.len() ==> tail[i] == sv[d1 + 1 + i]);
    }
    let d2opt = find_first(s, d1 + 1, '.');
    let d2 = match d2opt {
        None => {
            proof {
                if pm_ok(sv) {
                    lemma_pm_at_split(sv, k as int);
                    lemma_version_first_dot(ver, d1 - k - 1);
                    lemma_version_second_dot(tail, tail.len() as int);
                    assert(false);
                }
            }
            return None;
        },
        Some(d2) => d2,
    };
    if d2 == d1 + 1 || !all_digits(s, d1 + 1, d2) || d2 + 1 == n || !all_digits(s, d2 + 1, n) {
        proof {
            if pm_ok(sv) {
                lemma_pm_at_split(sv, k as int);
                lemma_version_first_dot(ver, d1 - k - 1);
                lemma_version_second_dot(tail, d2 - d1 - 1);
                assert(forall|x: int| d1 + 1 <= x < d2 ==> is_digit_char(sv[x]));
                assert(forall|x: int| d2 + 1 <= x < n ==> is_digit_char(sv[x]));
                assert(false);
            }
        }
        return None;
    }
    let name = String::from_str(s.substring_char(0, k));
    let version = String::from_str(s.substring_char(k + 1, n));
    proof {
        let a = sv.subrange(k + 1, d1 as int);
        let b = sv.subrange(d1 + 1, d2 as int);
        let c = sv.subrange(d2 + 1, n as int);
        assert(version@ =~= a + seq!['.'] + b + seq!['.'] + c);
        assert(valid_version_part(a)) by {
            assert(forall|i: int| 0 <= i < a.len() ==> a[i] == sv[k + 1 + i]);
        }
        assert(valid_version_part(b)) by {
            assert(forall|i: int| 0 <= i < b.len() ==> b[i] == sv[d1 + 1 + i]);
        }
        assert(valid_version_part(c)) by {
            assert(forall|i: int| 0 <= i < c.len() ==> c[i] == sv[d2 + 1 + i]);
        }
        assert(version_splits(version@, a, b, c));
        assert(valid_pm_name(name@)) by {
            assert(forall|i: int| 0 <= i < name@.len() ==> name@[i] == sv[i]);
        }
        assert(sv =~= name@ + seq!['@'] + version@);
        assert(pm_splits(sv, name@, version@));
    }
    Some((name, version))
}


/// The release artifact that serves a package-manager version.
pub open spec fn release_name_of(version: Seq<char>) -> Seq<char> {
    seq!['y', 'a', 'r', 'n', '-'] + version + seq!['.', 'c', 'j', 's']
}

/// The one supported package manager.
pub open spec fn yarn_name() -> Seq<char> {
    seq!['y', 'a', 'r', 'n']
}

/// The filename of the release artifact for a version.
pub fn build_release_name(version: &str) -> (r: String)
    ensures
        r@ == release_name_of(version@),
{
    let mut r = String::from_str("yarn-");
    r.append(version);
    r.append(".cjs");
    proof {
        reveal_strlit("yarn-");
        reveal_strlit(".cjs");
        assert(r@ =~= release_name_of(version@));
    }
    r
}

/// Whether one application's metadata keeps a release artifact alive: its
/// descriptor parses, names the supported manager, and the artifact carries
/// that version.
pub open spec fn meta_protects_release(m: MetaRecord, name: Seq<char>) -> bool {
    &&& pm_ok(m.meta.package.package_manager@)
    &&& pm_parts(m.meta.package.package_manager@).0 == yarn_name()
    &&& name == release_name_of(pm_parts(m.meta.package.package_manager@).1)
}

/// Whether any application's metadata keeps a release artifact alive.
pub open spec fn release_protected(metas: Seq<MetaRecord>, name: Seq<char>) -> bool {
    exists|i: int| 0 <= i < metas.len() && meta_protects_release(metas[i], name)
}

/// Whether any application's metadata keeps a cache artifact alive: some
/// lockfile written under the same cache key still references the slug.
pub open spec fn cache_protected(metas: Seq<MetaRecord>, slug: Seq<char>, key: Seq<char>) -> bool {
    exists|i: int|
        {
            &&& 0 <= i < metas.len()
            &&& metas[i].meta.yarn_lock.metadata.cache_key@ == key
            &&& cache_files_of(metas[i].meta.yarn_lock.packages@).contains(slug)
        }
}

/// Whether every application's lockfile parses, which a collection pass
/// demands before it deletes anything.
pub open spec fn metas_ok(metas: Seq<MetaRecord>) -> bool {
    forall|i: int| 0 <= i < metas.len() ==> lock_ok(metas[i].meta.yarn_lock.packages@)
}

/// Whether a release filename falls to the sweep: nothing protects it.
pub open spec fn release_deletable(metas: Seq<MetaRecord>, name: Seq<char>) -> bool {
    !release_protected(metas, name)
}

/// Whether a cache filename falls to the sweep: it names a cache artifact
/// and nothing protects that slug under that key.  A filename of any other
/// shape is never touched.
pub open spec fn cache_deletable(metas: Seq<MetaRecord>, name: Seq<char>) -> bool {
    &&& cache_name_ok(name)
    &&& !cache_protected(metas, cache_name_parts(name).0, cache_name_parts(name).1)
}

/// The release filenames a collection pass deletes, in directory order.
pub open spec fn releases_to_delete(metas: Seq<MetaRecord>, names: Seq<Seq<char>>) -> Seq<Seq<char>>
    decreases names.len(),
{
    if names.len() == 0 {
        Seq::empty()
    } else {
        let rest = releases_to_delete(metas, names.drop_last());
        if release_deletable(metas, names.last()) {
            rest.push(names.last())
        } else {
            rest
        }
    }
}

/// The cache filenames a collection pass deletes, in directory order.
pub open spec fn cache_to_delete(metas: Seq<MetaRecord>, names: Seq<Seq<char>>) -> Seq<Seq<char>>
    decreases names.len(),
{
    if names.len() == 0 {
        Seq::empty()
    } else {
        let rest = cache_to_delete(metas, names.drop_last());
        if cache_deletable(metas, names.last()) {
            rest.push(names.last())
        } else {
            rest
        }
    }
}

/// The release filenames a collection pass leaves standing.
pub open spec fn releases_kept(metas: Seq<MetaRecord>, names: Seq<Seq<char>>) -> Seq<Seq<char>>
    decreases names.len(),
{
    if names.len() == 0 {
        Seq::empty()
    } else {
        let rest = releases_kept(metas, names.drop_last());
        if release_deletable(metas, names.last()) {
            rest
        } else {
            rest.push(names.last())
        }
    }
}

/// The cache filenames a collection pass leaves standing.
pub open spec fn cache_kept(metas: Seq<MetaRecord>, names: Seq<Seq<char>>) -> Seq<Seq<char>>
    decreases names.len(),
{
    if names.len() == 0 {
        Seq::empty()
    } else {
        let rest = cache_kept(metas, names.drop_last());
        if cache_deletable(metas, names.last()) {
            rest
        } else {
            rest.push(names.last())
        }
    }
}

/// Collection is idempotent: a second pass over what the first pass left,
/// with the application set unchanged, deletes nothing.
pub proof fn lemma_gc_idempotent(
    metas: Seq<MetaRecord>,
    cache_names: Seq<Seq<char>>,
    release_names: Seq<Seq<char>>,
)
    ensures
        releases_to_delete(metas, releases_kept(metas, release_names)) == Seq::<Seq<char>>::empty(),
        cache_to_delete(metas, cache_kept(metas, cache_names)) == Seq::<Seq<char>>::empty(),
    decreases cache_names.len() + release_names.len(),
{
    if release_names.len() > 0 {
        lemma_gc_idempotent(metas, cache_names, release_names.drop_last());
        let kept = releases_kept(metas, release_names);
        let rest = releases_kept(metas, release_names.drop_last());
        if !release_deletable(metas, release_names.last()) {
            assert(kept == rest.push(release_names.last()));
            assert(kept.drop_last() =~= rest);
            assert(releases_to_delete(metas, kept) == releases_to_delete(metas, rest));
        }
    } else if cache_names.len() > 0 {
        lemma_gc_idempotent(metas, cache_names.drop_last(), release_names);
        let kept = cache_kept(metas, cache_names);
        let rest = cache_kept(metas, cache_names.drop_last());
        if !cache_deletable(metas, cache_names.last()) {
            assert(kept == rest.push(cache_names.last()));
            assert(kept.drop_last() =~= rest);
            assert(cache_to_delete(metas, kept) == cache_to_delete(metas, rest));
        }
    }
}

/// What one collection pass will delete.
#[derive(Debug)]
pub struct GcPlan {
    pub delete_cache: Vec<String>,
    pub delete_releases: Vec<String>,
}

/// Whether `v` holds a string whose characters are `x`.
fn contains_string(v: &Vec<String>, x: &String) -> (r: bool)
    ensures
        r <==> (exists|j: int| 0 <= j < v@.len() && v@[j]@ == x@),
{
    let mut i: usize = 0;
    while i < v.len()
        invariant
            0 <= i <= v@.len(),
            forall|j: int| 0 <= j < i ==> v@[j]@ != x@,
        decreases v@.len() - i,
    {
        if v[i].eq(x) {
            return true;
        }
        i = i + 1;
    }
    false
}

/// Whether the pair lists hold `(key, slug)`.
fn contains_pair(keys: &Vec<String>, slugs: &Vec<String>, key: &String, slug: &String) -> (r: bool)
    requires
        keys@.len() == slugs@.len(),
    ensures
        r <==> (exists|j: int|
            0 <= j < keys@.len() && keys@[j]@ == key@ && slugs@[j]@ == slug@),
{
    let mut i: usize = 0;
    while i < keys.len()
        invariant
            keys@.len() == slugs@.len(),
            0 <= i <= keys@.len(),
            forall|j: int| 0 <= j < i ==> !(keys@[j]@ == key@ && slugs@[j]@ == slug@),
        decreases keys@.len() - i,
    {
        if keys[i].eq(key) && slugs[i].eq(slug) {
            return true;
        }
        i = i + 1;
    }
    false
}

/// The marking facts the sweep relies on, for the first `upto`
/// applications: every gathered name is protected by some application, and
/// everything the first `upto` applications protect has been gathered.
pub open spec fn releases_marked_upto(metas: Seq<MetaRecord>, marked: Seq<String>, upto: int) -> bool {
    &&& (forall|j: int| 0 <= j < marked.len() ==> exists|i: int|
        0 <= i < metas.len() && meta_protects_release(metas[i], #[trigger] marked[j]@))
    &&& (forall|i: int, nm: Seq<char>|
        0 <= i < upto && #[trigger] meta_protects_release(metas[i], nm) ==> exists|j: int|
            0 <= j < marked.len() && marked[j]@ == nm)
}

/// The marking facts the sweep relies on: the gathered names are exactly
/// what some application's metadata protects.
pub open spec fn releases_marked(metas: Seq<MetaRecord>, marked: Seq<String>) -> bool {
    releases_marked_upto(metas, marked, metas.len() as int)
}

/// The marking facts for cache artifacts, for the first `upto` applications.
pub open spec fn cache_marked_upto(
    metas: Seq<MetaRecord>,
    keys: Seq<String>,
    slugs: Seq<String>,
    upto: int,
) -> bool {
    &&& keys.len() == slugs.len()
    &&& (forall|j: int| 0 <= j < keys.len() ==> exists|i: int|
        {
            &&& 0 <= i < metas.len()
            &&& metas[i].meta.yarn_lock.metadata.cache_key@ == #[trigger] keys[j]@
            &&& cache_files_of(metas[i].meta.yarn_lock.packages@).contains(slugs[j]@)
        })
    &&& (forall|i: int, sl: Seq<char>|
        0 <= i < upto && #[trigger] cache_files_of(metas[i].meta.yarn_lock.packages@).contains(sl)
            ==> exists|j: int|
            {
                &&& 0 <= j < keys.len()
                &&& keys[j]@ == metas[i].meta.yarn_lock.metadata.cache_key@
                &&& slugs[j]@ == sl
            })
}

/// The marking facts for cache artifacts: the gathered (key, slug) pairs are
/// exactly what some application's lockfile still references.
pub open spec fn cache_marked(metas: Seq<MetaRecord>, keys: Seq<String>, slugs: Seq<String>) -> bool {
    cache_marked_upto(metas, keys, slugs, metas.len() as int)
}

/// Mark: read every application's metadata and gather what it protects.
fn mark_protected(metas: &Vec<MetaRecord>) -> (r: Result<
    (Vec<String>, Vec<String>, Vec<String>),
    LockfileParseError,
>)
    ensures
        r is Ok <==> metas_ok(metas@),
        match r {
            Ok(marked) => {
                &&& releases_marked(metas@, marked.0@)
                &&& cache_marked(metas@, marked.1@, marked.2@)
            },
            Err(e) => exists|i: int|
                {
                    &&& 0 <= i < metas@.len()
                    &&& !lock_ok(metas@[i].meta.yarn_lock.packages@)
                    &&& (forall|j: int| 0 <= j < i ==> lock_ok(metas@[j].meta.yarn_lock.packages@))
                    &&& exists|t: int|
                        {
                            &&& 0 <= t < metas@[i].meta.yarn_lock.packages@.len()
                            &&& !entry_ok(metas@[i].meta.yarn_lock.packages@[t])
                            &&& e.resolution == metas@[i].meta.yarn_lock.packages@[t].resolution
                        }
                },
        },
{
    let ghost ms = metas@;
    let mut protected_releases: Vec<String> = Vec::new();
    let mut protected_keys: Vec<String> = Vec::new();
    let mut protected_slugs: Vec<String> = Vec::new();
    let mut mi: usize = 0;
    while mi < metas.len()
        invariant
            ms == metas@,
            0 <= mi <= ms.len(),
            forall|j: int| 0 <= j < mi ==> lock_ok(ms[j].meta.yarn_lock.packages@),
            protected_keys@.len() == protected_slugs@.len(),
            releases_marked_upto(ms, protected_releases@, mi as int),
            cache_marked_upto(ms, protected_keys@, protected_slugs@, mi as int),
        decreases ms.len() - mi,
    {
        let m = &metas[mi];
        let files = match m.meta.yarn_lock.get_cache_files() {
            Err(e) => {
                proof {
                    assert(!lock_ok(ms[mi as int].meta.yarn_lock.packages@));
                }
                return Err(e);
            },
            Ok(files) => files,
        };
        let lock_key = m.meta.yarn_lock.metadata.cache_key.clone();
        let mut si: usize = 0;
        while si < files.len()
            invariant
                ms == metas@,
                0 <= mi < ms.len(),
                0 <= si <= files@.len(),
                files.deep_view() == cache_files_of(ms[mi as int].meta.yarn_lock.packages@),
                lock_key@ == ms[mi as int].meta.yarn_lock.metadata.cache_key@,
                cache_marked_upto(ms, protected_keys@, protected_slugs@, mi as int),
                releases_marked_upto(ms, protected_releases@, mi as int),
                forall|j2: int| 0 <= j2 < si ==> exists|j: int|
                    {
                        &&& 0 <= j < protected_keys@.len()
                        &&& protected_keys@[j]@ == ms[mi as int].meta.yarn_lock.metadata.cache_key@
                        &&& protected_slugs@[j]@ == #[trigger] files.deep_view()[j2]
                    },
            decreases files@.len() - si,
        {
            let key = lock_key.clone();
            let slug = files[si].clone();
            let ghost old_keys = protected_keys@;
            let ghost old_slugs = protected_slugs@;
            protected_keys.push(key);
            protected_slugs.push(slug);
            proof {
                let newlen = old_keys.len() as int;
                assert(protected_keys@[newlen]@ == ms[mi as int].meta.yarn_lock.metadata.cache_key@);
                assert(protected_slugs@[newlen]@ == files.deep_view()[si as int]);
                assert(cache_files_of(ms[mi as int].meta.yarn_lock.packages@).contains(
                    files.deep_view()[si as int],
                ));
                assert(forall|j: int| 0 <= j < newlen ==> protected_keys@[j] == old_keys[j]
                    && protected_slugs@[j] == old_slugs[j]);
            }
            si = si + 1;
        }
        // mark this application's release artifact
        match parse_package_manager(m.meta.package.package_manager.as_str()) {
            Some(parts) => {
                let (pname, pversion) = parts;
                proof {
                    let (cn, cv) = pm_parts(m.meta.package.package_manager@);
                    assert(pm_splits(m.meta.package.package_manager@, cn, cv));
                    lemma_pm_unique(m.meta.package.package_manager@, cn, cv, pname@, pversion@);
                }
                let yarn = String::from_str("yarn");
                proof {
                    reveal_strlit("yarn");
                    assert(yarn@ =~= yarn_name());
                }
                if pname.eq(&yarn) {
                    let rel = build_release_name(pversion.as_str());
                    let ghost old_rel = protected_releases@;
                    protected_releases.push(rel);
                    proof {
                        let newlen = old_rel.len() as int;
                        assert(meta_protects_release(
                            ms[mi as int],
                            protected_releases@[newlen]@,
                        ));
                        assert(forall|j: int| 0 <= j < newlen
                            ==> protected_releases@[j] == old_rel[j]);
                    }
                }
            },
            None => {},
        }
        proof {
            assert forall|i: int, nm: Seq<char>|
                0 <= i < mi + 1 && #[trigger] meta_protects_release(ms[i], nm) implies exists|
                j: int,
            | 0 <= j < protected_releases@.len() && protected_releases@[j]@ == nm by {
                if i == mi {
                    assert(pm_ok(ms[i].meta.package.package_manager@));
                }
            }
            assert forall|i: int, sl: Seq<char>|
                0 <= i < mi + 1 && #[trigger] cache_files_of(ms[i].meta.yarn_lock.packages@).contains(
                    sl,
                ) implies exists|j: int|
                {
                    &&& 0 <= j < protected_keys@.len()
                    &&& protected_keys@[j]@ == ms[i].meta.yarn_lock.metadata.cache_key@
                    &&& protected_slugs@[j]@ == sl
                } by {
                if i == mi {
                    let j2 = choose|j2: int|
                        0 <= j2 < cache_files_of(ms[i].meta.yarn_lock.packages@).len()
                            && cache_files_of(ms[i].meta.yarn_lock.packages@)[j2] == sl;
                    assert(files.deep_view()[j2] == sl);
                }
            }
            assert(releases_marked_upto(ms, protected_releases@, mi + 1));
            assert(cache_marked_upto(ms, protected_keys@, protected_slugs@, mi + 1));
        }
        mi = mi + 1;
    }
    proof {
        assert(metas_ok(ms));
        assert(releases_marked(ms, protected_releases@));
        assert(cache_marked(ms, protected_keys@, protected_slugs@));
    }
    Ok((protected_releases, protected_keys, protected_slugs))
}

/// Sweep the release candidates: delete exactly the unmarked ones.
fn sweep_releases(
    release_files: &Vec<String>,
    marked: &Vec<String>,
    Ghost(ms): Ghost<Seq<MetaRecord>>,
) -> (r: Vec<String>)
    requires
        releases_marked(ms, marked@),
    ensures
        r.deep_view() == releases_to_delete(ms, release_files.deep_view()),
{
    let mut delete_releases: Vec<String> = Vec::new();
    let mut ri: usize = 0;
    while ri < release_files.len()
        invariant
            releases_marked(ms, marked@),
            0 <= ri <= release_files@.len(),
            delete_releases.deep_view() == releases_to_delete(
                ms,
                release_files.deep_view().take(ri as int),
            ),
        decreases release_files@.len() - ri,
    {
        let ghost dprev = release_files.deep_view().take(ri as int);
        let ghost dcur = release_files.deep_view().take(ri + 1 as int);
        proof {
            assert(dcur.drop_last() =~= dprev);
            assert(dcur.last() == release_files.deep_view()[ri as int]);
            assert(release_files.deep_view()[ri as int] == release_files@[ri as int]@);
        }
        let name = &release_files[ri];
        if !contains_string(marked, name) {
            let ghost old_deep = delete_releases.deep_view();
            proof {
                if release_protected(ms, name@) {
                    let i = choose|i: int|
                        0 <= i < ms.len() && meta_protects_release(ms[i], name@);
                    assert(false);
                }
                assert(release_deletable(ms, dcur.last()));
            }
            delete_releases.push(name.clone());
            proof {
                assert(delete_releases.deep_view() =~= old_deep.push(name@));
            }
        } else {
            proof {
                let j = choose|j: int| 0 <= j < marked@.len() && marked@[j]@ == name@;
                assert(release_protected(ms, name@));
                assert(!release_deletable(ms, dcur.last()));
            }
        }
        ri = ri + 1;
    }
    proof {
        assert(release_files.deep_view().take(release_files.deep_view().len() as int)
            =~= release_files.deep_view());
    }
    delete_releases
}

/// Sweep the cache candidates: delete exactly the artifacts no (key, slug)
/// pair marks, and leave filenames of any other shape alone.
fn sweep_cache(
    cache_files: &Vec<String>,
    marked_keys: &Vec<String>,
    marked_slugs: &Vec<String>,
    Ghost(ms): Ghost<Seq<MetaRecord>>,
) -> (r: Vec<String>)
    requires
        cache_marked(ms, marked_keys@, marked_slugs@),
    ensures
        r.deep_view() == cache_to_delete(ms, cache_files.deep_view()),
{
    let mut delete_cache: Vec<String> = Vec::new();
    let mut ci: usize = 0;
    while ci < cache_files.len()
        invariant
            cache_marked(ms, marked_keys@, marked_slugs@),
            0 <= ci <= cache_files@.len(),
            delete_cache.deep_view() == cache_to_delete(ms, cache_files.deep_view().take(ci as int)),
        decreases cache_files@.len() - ci,
    {
        let ghost dprev = cache_files.deep_view().take(ci as int);
        let ghost dcur = cache_files.deep_view().take(ci + 1 as int);
        proof {
            assert(dcur.drop_last() =~= dprev);
            assert(dcur.last() == cache_files.deep_view()[ci as int]);
            assert(cache_files.deep_view()[ci as int] == cache_files@[ci as int]@);
        }
        let name = &cache_files[ci];
        match parse_cache_filename(name.as_str()) {
            None => {
                proof {
                    assert(!cache_deletable(ms, name@));
                }
            },
            Some(parts) => {
                let (slug, key) = parts;
                proof {
                    let (csl, cky) = cache_name_parts(name@);
                    assert(cache_name_splits(name@, csl, cky));
                    lemma_cache_name_unique(name@, csl, cky, slug@, key@);
                }
                if !contains_pair(marked_keys, marked_slugs, &key, &slug) {
                    let ghost old_deep = delete_cache.deep_view();
                    proof {
                        if cache_protected(ms, slug@, key@) {
                            let i = choose|i: int|
                                {
                                    &&& 0 <= i < ms.len()
                                    &&& ms[i].meta.yarn_lock.metadata.cache_key@ == key@
                                    &&& cache_files_of(ms[i].meta.yarn_lock.packages@).contains(slug@)
                                };
                            assert(false);
                        }
                        assert(cache_deletable(ms, dcur.last()));
                    }
                    delete_cache.push(name.clone());
                    proof {
                        assert(delete_cache.deep_view() =~= old_deep.push(name@));
                    }
                } else {
                    proof {
                        let j = choose|j: int|
                            0 <= j < marked_keys@.len() && marked_keys@[j]@ == key@
                                && marked_slugs@[j]@ == slug@;
                        let i = choose|i: int|
                            {
                                &&& 0 <= i < ms.len()
                                &&& ms[i].meta.yarn_lock.metadata.cache_key@ == marked_keys@[j]@
                                &&& cache_files_of(ms[i].meta.yarn_lock.packages@).contains(
                                    marked_slugs@[j]@,
                                )
                            };
                        assert(cache_protected(ms, slug@, key@));
                        assert(!cache_deletable(ms, name@));
                    }
                }
            },
        }
        ci = ci + 1;
    }
    proof {
        assert(cache_files.deep_view().take(cache_files.deep_view().len() as int)
            =~= cache_files.deep_view());
    }
    delete_cache
}

/// Plan one mark-and-sweep pass.  Marking reads every application's
/// dependency metadata; an unreadable lockfile aborts the whole pass, since
/// deleting on partial data could destroy live artifacts.  The plan deletes
/// exactly the unprotected candidates and never touches a filename that is
/// no cache artifact.
pub fn plan_gc(cache_files: &Vec<String>, release_files: &Vec<String>, metas: &Vec<MetaRecord>) -> (r:
    Result<GcPlan, LockfileParseError>)
    ensures
        r is Ok <==> metas_ok(metas@),
        match r {
            Ok(plan) => {
                &&& plan.delete_releases.deep_view() == releases_to_delete(
                    metas@,
                    release_files.deep_view(),
                )
                &&& plan.delete_cache.deep_view() == cache_to_delete(
                    metas@,
                    cache_files.deep_view(),
                )
            },
            Err(e) => exists|i: int|
                {
                    &&& 0 <= i < metas@.len()
                    &&& !lock_ok(metas@[i].meta.yarn_lock.packages@)
                    &&& (forall|j: int| 0 <= j < i ==> lock_ok(metas@[j].meta.yarn_lock.packages@))
                    &&& exists|t: int|
                        {
                            &&& 0 <= t < metas@[i].meta.yarn_lock.packages@.len()
                            &&& !entry_ok(metas@[i].meta.yarn_lock.packages@[t])
                            &&& e.resolution == metas@[i].meta.yarn_lock.packages@[t].resolution
                        }
                },
        },
{
    let marked = match mark_protected(metas) {
        Err(e) => {
            return Err(e);
        },
        Ok(marked) => marked,
    };
    let (marked_releases, marked_keys, marked_slugs) = marked;
    let delete_releases = sweep_releases(release_files, &marked_releases, Ghost(metas@));
    let delete_cache = sweep_cache(cache_files, &marked_keys, &marked_slugs, Ghost(metas@));
    Ok(GcPlan { delete_cache, delete_releases })
}

} // verus!

use vstd::prelude::*;
use vstd::string::{StrSliceExecFns, StringExecFns};
use vstd::utf8::encode_utf8;

use crate::hashing::{digest_hex, digest_hex_of};
use crate::scan::{find_first, range_lacks};

verus! {

/// Bytes hashed for an ident: the scope (when present) followed by the name,
/// both UTF-8 encoded, exactly as the two are fed to the digest in turn.
pub open spec fn ident_bytes(scope: Option<Seq<char>>, name: Seq<char>) -> Seq<u8> {
    match scope {
        Some(s) => encode_utf8(s) + encode_utf8(name),
        None => encode_utf8(name),
    }
}

/// The hash that keys an ident: lowercase hexadecimal SHA-512 over scope and
/// name.
pub open spec fn ident_hash_of(scope: Option<Seq<char>>, name: Seq<char>) -> Seq<char> {
    digest_hex_of(ident_bytes(scope, name))
}

/// Bytes hashed for a locator: the ident hash followed by the reference, both
/// UTF-8 encoded.
pub open spec fn locator_bytes(ident_hash: Seq<char>, reference: Seq<char>) -> Seq<u8> {
    encode_utf8(ident_hash) + encode_utf8(reference)
}

/// The hash that keys a locator: lowercase hexadecimal SHA-512 over the ident
/// hash and the reference.
pub open spec fn locator_hash_of(ident_hash: Seq<char>, reference: Seq<char>) -> Seq<char> {
    digest_hex_of(locator_bytes(ident_hash, reference))
}

/// Filesystem-safe rendering of an ident: the name alone when unscoped, else
/// `@scope-name`.
pub open spec fn slug_of(scope: Option<Seq<char>>, name: Seq<char>) -> Seq<char> {
    match scope {
        Some(s) => seq!['@'] + s + seq!['-'] + name,
        None => name,
    }
}

/// Combination of a scope and name, bound with a hash suitable for
/// comparisons.
pub struct Ident {
    /// Lowercase hexadecimal SHA-512 digest of scope and name, used as a key
    /// so that two idents can be quickly compared.
    pub ident_hash: String,
    /// Scope of the package, without the `@` prefix (eg. `types`).
    pub scope: Option<String>,
    /// Name of the package (eg. `node`).
    pub name: String,
}

impl Ident {
    /// The scope as a sequence of characters, when present.
    pub open spec fn scope_view(&self) -> Option<Seq<char>> {
        match self.scope {
            Some(s) => Some(s@),
            None => None,
        }
    }

    /// The stored hash is the hash of the stored scope and name.
    pub open spec fn wf(&self) -> bool {
        self.ident_hash@ == ident_hash_of(self.scope_view(), self.name@)
    }

    pub fn new(scope: Option<String>, name: String) -> (r: Ident)
        ensures
            r.scope == scope,
            r.name == name,
            r.wf(),
    {
        let mut data: Vec<u8> = Vec::new();
        match &scope {
            Some(s) => {
                let mut sb = s.as_str().as_bytes_vec();
                data.append(&mut sb);
            },
            None => {},
        }
        let mut nb = name.as_str().as_bytes_vec();
        data.append(&mut nb);
        proof {
            assert(data@ =~= ident_bytes(
                match scope {
                    Some(s) => Some(s@),
                    None => None,
                },
                name@,
            ));
        }
        let ident_hash = digest_hex(&data);
        Ident { ident_hash, scope, name }
    }

    pub fn slugify(&self) -> (r: String)
        ensures
            r@ == slug_of(self.scope_view(), self.name@),
    {
        match &self.scope {
            Some(scope) => {
                let mut r = String::new();
                r.append("@");
                r.append(scope.as_str());
                r.append("-");
                r.append(self.name.as_str());
                proof {
                    reveal_strlit("@");
                    reveal_strlit("-");
                    assert(r@ =~= slug_of(self.scope_view(), self.name@));
                }
                r
            },
            None => self.name.clone(),
        }
    }
}

/// A package name: nonempty, free of `@` and `/`.
pub open spec fn valid_name(s: Seq<char>) -> bool {
    s.len() > 0 && (forall|i: int| 0 <= i < s.len() ==> s[i] != '@' && s[i] != '/')
}

/// A package scope: nonempty, free of `/`.
pub open spec fn valid_scope(s: Seq<char>) -> bool {
    s.len() > 0 && (forall|i: int| 0 <= i < s.len() ==> s[i] != '/')
}

/// A package reference: nonempty, free of line breaks.
pub open spec fn valid_reference(s: Seq<char>) -> bool {
    s.len() > 0 && (forall|i: int| 0 <= i < s.len() ==> s[i] != '\n')
}

/// The reference a loose parse supplies when the locator string has none.
pub open spec fn default_reference() -> Seq<char> {
    seq!['u', 'n', 'k', 'n', 'o', 'w', 'n']
}

/// How the part of a locator string after any scope prefix decomposes: either
/// `name@reference`, or (loosely) a bare name with the default reference.
pub open spec fn tail_parses_to(t: Seq<char>, strict: bool, name: Seq<char>, reference: Seq<char>) -> bool {
    ||| (t == name + seq!['@'] + reference && valid_name(name) && valid_reference(reference))
    ||| (!strict && t == name && valid_name(name) && reference == default_reference())
}

/// The locator grammar `[@scope/]name[@reference]`: an optional scope prefix
/// running to the first slash, a name free of `@` and `/`, and a reference
/// after the first following `@` (mandatory when strict).
pub open spec fn parses_to(
    s: Seq<char>,
    strict: bool,
    scope: Option<Seq<char>>,
    name: Seq<char>,
    reference: Seq<char>,
) -> bool {
    match scope {
        Some(sc) => {
            &&& valid_scope(sc)
            &&& s == seq!['@'] + sc + seq!['/'] + s.skip(sc.len() + 2 as int)
            &&& tail_parses_to(s.skip(sc.len() + 2 as int), strict, name, reference)
        },
        None => tail_parses_to(s, strict, name, reference),
    }
}

/// Whether a locator string is accepted by the grammar.
pub open spec fn parse_ok(s: Seq<char>, strict: bool) -> bool {
    exists|scope: Option<Seq<char>>, name: Seq<char>, reference: Seq<char>|
        parses_to(s, strict, scope, name, reference)
}

/// The (unique) decomposition of an accepted locator string.
pub open spec fn parsed_parts(s: Seq<char>, strict: bool) -> (Option<Seq<char>>, Seq<char>, Seq<char>) {
    choose|scope: Option<Seq<char>>, name: Seq<char>, reference: Seq<char>|
        parses_to(s, strict, scope, name, reference)
}

/// The slug of an accepted locator string.
pub open spec fn parsed_slug(s: Seq<char>, strict: bool) -> Seq<char> {
    slug_of(parsed_parts(s, strict).0, parsed_parts(s, strict).1)
}

/// A locator string decomposes in at most one way.
pub proof fn lemma_parses_unique(
    s: Seq<char>,
    strict: bool,
    scope1: Option<Seq<char>>,
    name1: Seq<char>,
    reference1: Seq<char>,
    scope2: Option<Seq<char>>,
    name2: Seq<char>,
    reference2: Seq<char>,
)
    requires
        parses_to(s, strict, scope1, name1, reference1),
        parses_to(s, strict, scope2, name2, reference2),
    ensures
        scope1 == scope2,
        name1 == name2,
        reference1 == reference2,
{
    match (scope1, scope2) {
        (Some(sc1), Some(sc2)) => {
            if sc1.len() < sc2.len() {
                assert(s[1 + sc1.len() as int] == '/');
                assert(sc2[sc1.len() as int] == s[1 + sc1.len() as int]);
                assert(false);
            }
            if sc2.len() < sc1.len() {
                assert(s[1 + sc2.len() as int] == '/');
                assert(sc1[sc2.len() as int] == s[1 + sc2.len() as int]);
                assert(false);
            }
            assert(sc1 =~= sc2) by {
                assert(forall|i: int| 0 <= i < sc1.len() ==> sc1[i] == s[1 + i] && sc2[i] == s[1 + i]);
            }
            lemma_tail_parses_unique(s.skip(sc1.len() + 2 as int), strict, name1, reference1, name2, reference2);
        },
        (None, None) => {
            lemma_tail_parses_unique(s, strict, name1, reference1, name2, reference2);
        },
        (Some(sc1), None) => {
            assert(s[0] == '@');
            assert(s[0] == name2[0]);
            assert(false);
        },
        (None, Some(sc2)) => {
            assert(s[0] == '@');
            assert(s[0] == name1[0]);
            assert(false);
        },
    }
}

/// The part after any scope prefix decomposes in at most one way.
proof fn lemma_tail_parses_unique(
    t: Seq<char>,
    strict: bool,
    name1: Seq<char>,
    reference1: Seq<char>,
    name2: Seq<char>,
    reference2: Seq<char>,
)
    requires
        tail_parses_to(t, strict, name1, reference1),
        tail_parses_to(t, strict, name2, reference2),
    ensures
        name1 == name2,
        reference1 == reference2,
{
    let with_ref1 = t == name1 + seq!['@'] + reference1 && valid_name(name1) && valid_reference(reference1);
    let with_ref2 = t == name2 + seq!['@'] + reference2 && valid_name(name2) && valid_reference(reference2);
    if with_ref1 && with_ref2 {
        if name1.len() < name2.len() {
            assert(t[name1.len() as int] == '@');
            assert(name2[name1.len() as int] == t[name1.len() as int]);
            assert(false);
        }
        if name2.len() < name1.len() {
            assert(t[name2.len() as int] == '@');
            assert(name1[name2.len() as int] == t[name2.len() as int]);
            assert(false);
        }
        assert(name1 =~= name2) by {
            assert(forall|i: int| 0 <= i < name1.len() ==> name1[i] == t[i] && name2[i] == t[i]);
        }
        assert(t.len() == name1.len() + 1 + reference1.len());
        assert(t.len() == name2.len() + 1 + reference2.len());
        assert(reference1 =~= reference2) by {
            assert forall|i: int| 0 <= i < reference1.len() implies reference1[i] == reference2[i] by {
                assert(reference1[i] == t[name1.len() + 1 + i]);
                assert(reference2[i] == t[name2.len() + 1 + i]);
            }
        }
    } else if with_ref1 && !with_ref2 {
        assert(t[name1.len() as int] == '@');
        assert(name2[name1.len() as int] == t[name1.len() as int]);
        assert(false);
    } else if !with_ref1 && with_ref2 {
        assert(t[name2.len() as int] == '@');
        assert(name1[name2.len() as int] == t[name2.len() as int]);
        assert(false);
    } else {
        assert(name1 == t && name2 == t);
    }
}

/// A scope split at the first slash is the only scope a parse can use, and
/// what follows it is the only tail.
proof fn lemma_candidate_scope(
    s: Seq<char>,
    strict: bool,
    scope: Option<Seq<char>>,
    name: Seq<char>,
    reference: Seq<char>,
    j: int,
)
    requires
        parses_to(s, strict, scope, name, reference),
        1 < j < s.len(),
        s[0] == '@',
        s[j] == '/',
        forall|x: int| 1 <= x < j ==> s[x] != '/',
    ensures
        scope == Some(s.subrange(1, j)),
        tail_parses_to(s.skip(j + 1), strict, name, reference),
{
    match scope {
        Some(sc) => {
            assert(s.len() == 2 + sc.len() + s.skip(sc.len() + 2 as int).len());
            assert(s[1 + sc.len() as int] == '/');
            if 1 + sc.len() < j {
                assert(s[1 + sc.len() as int] != '/');
                assert(false);
            }
            if j < 1 + sc.len() {
                assert(sc[j - 1] == s[j]);
                assert(false);
            }
            assert(sc =~= s.subrange(1, j)) by {
                assert(forall|i: int| 0 <= i < sc.len() ==> sc[i] == s[1 + i]);
            }
        },
        None => {
            assert(name[0] == s[0]);
            assert(false);
        },
    }
}

/// A tail whose first `@` stands at `k` can only split there.
proof fn lemma_candidate_tail(
    t: Seq<char>,
    strict: bool,
    name: Seq<char>,
    reference: Seq<char>,
    k: int,
)
    requires
        tail_parses_to(t, strict, name, reference),
        0 <= k < t.len(),
        t[k] == '@',
        forall|x: int| 0 <= x < k ==> t[x] != '@',
    ensures
        name == t.subrange(0, k),
        reference == t.skip(k + 1),
{
    if t == name && valid_name(name) {
        assert(t[k] != '@');
        assert(false);
    }
    assert(t == name + seq!['@'] + reference);
    assert(t[name.len() as int] == '@');
    if name.len() < k {
        assert(t[name.len() as int] != '@');
        assert(false);
    }
    if k < name.len() {
        assert(name[k] == t[k]);
        assert(false);
    }
    assert(name =~= t.subrange(0, k));
    assert(reference =~= t.skip(k + 1)) by {
        assert(forall|i: int| 0 <= i < reference.len() ==> reference[i] == t[name.len() + 1 + i]);
    }
}

impl Locator {
    /// Parse a locator string of the form `[@scope/]name[@reference]`.  In
    /// strict form the reference is mandatory; in loose form a missing
    /// reference defaults to the literal `unknown`.
    #[verifier::rlimit(60)]
    pub fn try_parse(string: &str, strict: bool) -> (r: Option<Locator>)
        ensures
            r is Some <==> parse_ok(string@, strict),
            match r {
                Some(loc) => parses_to(
                    string@,
                    strict,
                    loc.ident.scope_view(),
                    loc.ident.name@,
                    loc.reference@,
                ) && loc.wf(),
                None => true,
            },
    {
        let ghost s = string@;
        let n = string.unicode_len();
        let scoped = n > 0 && string.get_char(0) == '@';
        let mut scope: Option<String> = None;
        let mut tail_start: usize = 0;
        if scoped {
            let jopt = find_first(string, 1, '/');
            match jopt {
                Some(j) => {
                    if j == 1 {
                        proof {
                            if parse_ok(s, strict) {
                                let (sc, nm, rf) = choose|sc: Option<Seq<char>>, nm: Seq<char>, rf: Seq<char>|
                                    parses_to(s, strict, sc, nm, rf);
                                match sc {
                                    Some(scv) => {
                                        assert(scv[0] == s[1]);
                                        assert(false);
                                    },
                                    None => {
                                        assert(nm[0] == s[0]);
                                        assert(false);
                                    },
                                }
                            }
                        }
                        return None;
                    }
                    scope = Some(String::from_str(string.substring_char(1, j)));
                    tail_start = j + 1;
                },
                None => {
                    proof {
                        if parse_ok(s, strict) {
                            let (sc, nm, rf) = choose|sc: Option<Seq<char>>, nm: Seq<char>, rf: Seq<char>|
                                parses_to(s, strict, sc, nm, rf);
                            match sc {
                                Some(scv) => {
                                    assert(s.len() == 2 + scv.len() + s.skip(
                                        scv.len() + 2 as int,
                                    ).len());
                                    assert(s[1 + scv.len() as int] == '/');
                                    assert(false);
                                },
                                None => {
                                    assert(nm[0] == s[0]);
                                    assert(false);
                                },
                            }
                        }
                    }
                    return None;
                },
            }
        }
        let ghost gscope: Option<Seq<char>> = match &scope {
            Some(sc) => Some(sc@),
            None => None,
        };
        proof {
            if scoped {
                assert(gscope == Some(s.subrange(1, tail_start - 1)));
            }
            // every accepted decomposition uses this scope and this tail
            assert forall|sc: Option<Seq<char>>, nm: Seq<char>, rf: Seq<char>|
                parses_to(s, strict, sc, nm, rf) implies sc == gscope && tail_parses_to(
                s.skip(tail_start as int),
                strict,
                nm,
                rf,
            ) by {
                if scoped {
                    lemma_candidate_scope(s, strict, sc, nm, rf, tail_start - 1);
                } else {
                    match sc {
                        Some(scv) => {
                            assert(s.len() == 2 + scv.len() + s.skip(scv.len() + 2 as int).len());
                            assert(s[0] == '@');
                            assert(false);
                        },
                        None => {
                            assert(s.skip(0) =~= s);
                        },
                    }
                }
            }
        }
        let ghost t = s.skip(tail_start as int);
        proof {
            assert(t.len() == n - tail_start);
            assert(forall|i: int| 0 <= i < t.len() ==> t[i] == s[tail_start + i]);
        }
        let kopt = find_first(string, tail_start, '@');
        match kopt {
            Some(k) => {
                if k == tail_start || !range_lacks(string, tail_start, k, '/') || k + 1 == n
                    || !range_lacks(string, k + 1, n, '\n') {
                    proof {
                        if parse_ok(s, strict) {
                            let (sc, nm, rf) = choose|sc: Option<Seq<char>>, nm: Seq<char>, rf: Seq<char>|
                                parses_to(s, strict, sc, nm, rf);
                            if k == tail_start {
                                assert(nm[0] == t[0]);
                                assert(false);
                            } else {
                                lemma_candidate_tail(t, strict, nm, rf, k - tail_start);
                                assert(nm =~= s.subrange(tail_start as int, k as int)) by {
                                    assert(forall|i: int| 0 <= i < nm.len() ==> nm[i] == t[i]);
                                }
                                assert(rf =~= s.subrange(k + 1, n as int)) by {
                                    assert(forall|i: int| 0 <= i < rf.len()
                                        ==> rf[i] == t[k - tail_start + 1 + i]);
                                }
                                assert(false);
                            }
                        }
                    }
                    return None;
                }
                let name = String::from_str(string.substring_char(tail_start, k));
                let reference = String::from_str(string.substring_char(k + 1, n));
                proof {
                    assert(t =~= name@ + seq!['@'] + reference@);
                    assert(valid_name(name@)) by {
                        assert(forall|i: int| 0 <= i < name@.len() ==> name@[i] == s[tail_start + i]);
                    }
                    assert(valid_reference(reference@)) by {
                        assert(forall|i: int| 0 <= i < reference@.len() ==> reference@[i] == s[k + 1 + i]);
                    }
                    assert(tail_parses_to(t, strict, name@, reference@));
                    if scoped {
                        assert(gscope.unwrap().len() + 2 == tail_start);
                        assert(s =~= seq!['@'] + gscope.unwrap() + seq!['/'] + t);
                    } else {
                        assert(t =~= s);
                    }
                    assert(parses_to(s, strict, gscope, name@, reference@));
                }
                let ident = Ident::new(scope, name);
                Some(Locator::new(ident, reference))
            },
            None => {
                if strict || tail_start == n || !range_lacks(string, tail_start, n, '/') {
                    proof {
                        if parse_ok(s, strict) {
                            let (sc, nm, rf) = choose|sc: Option<Seq<char>>, nm: Seq<char>, rf: Seq<char>|
                                parses_to(s, strict, sc, nm, rf);
                            if t == nm + seq!['@'] + rf && valid_name(nm) && valid_reference(rf) {
                                assert(t[nm.len() as int] == '@');
                                assert(false);
                            } else {
                                assert(t == nm && valid_name(nm));
                                assert(forall|i: int| 0 <= i < nm.len() ==> nm[i] == t[i]);
                                assert(false);
                            }
                        }
                    }
                    return None;
                }
                let name = String::from_str(string.substring_char(tail_start, n));
                let reference = String::from_str("unknown");
                proof {
                    reveal_strlit("unknown");
                    assert(reference@ =~= default_reference());
                    assert(t =~= name@);
                    assert(valid_name(name@)) by {
                        assert(forall|i: int| 0 <= i < name@.len() ==> name@[i] == s[tail_start + i]);
                    }
                    assert(tail_parses_to(t, strict, name@, reference@));
                    if scoped {
                        assert(gscope.unwrap().len() + 2 == tail_start);
                        assert(s =~= seq!['@'] + gscope.unwrap() + seq!['/'] + t);
                    } else {
                        assert(t =~= s);
                    }
                    assert(parses_to(s, strict, gscope, name@, reference@));
                }
                let ident = Ident::new(scope, name);
                Some(Locator::new(ident, reference))
            },
        }
    }
}


/// Slugs are stable under re-parsing: the slug of an accepted unscoped
/// locator string is itself accepted by the loose grammar, and slugifies to
/// itself.
pub proof fn lemma_slug_reparse_stable(s: Seq<char>, strict: bool)
    requires
        parse_ok(s, strict),
        parsed_parts(s, strict).0 is None,
    ensures
        parse_ok(parsed_slug(s, strict), false),
        parsed_slug(parsed_slug(s, strict), false) == parsed_slug(s, strict),
{
    let (sc, nm, rf) = parsed_parts(s, strict);
    assert(parses_to(s, strict, sc, nm, rf));
    let slug = parsed_slug(s, strict);
    assert(slug == nm);
    assert(parses_to(slug, false, None, nm, default_reference()));
    let (sc2, nm2, rf2) = parsed_parts(slug, false);
    assert(parses_to(slug, false, sc2, nm2, rf2));
    lemma_parses_unique(slug, false, sc2, nm2, rf2, None, nm, default_reference());
}

/// The slug of a scoped locator is not itself a locator string: `@scope-name`
/// opens with `@` but holds no slash, so neither grammar accepts it.
pub proof fn lemma_scoped_slug_rejected(s: Seq<char>, strict: bool)
    requires
        parse_ok(s, strict),
        parsed_parts(s, strict).0 is Some,
    ensures
        !parse_ok(parsed_slug(s, strict), true),
        !parse_ok(parsed_slug(s, strict), false),
{
    let (sc, nm, rf) = parsed_parts(s, strict);
    assert(parses_to(s, strict, sc, nm, rf));
    let scv = sc.unwrap();
    let slug = parsed_slug(s, strict);
    assert(slug == seq!['@'] + scv + seq!['-'] + nm);
    assert(slug[0] == '@');
    assert(forall|i: int| 0 <= i < slug.len() ==> slug[i] != '/') by {
        assert(forall|i: int| 1 <= i < 1 + scv.len() ==> slug[i] == scv[i - 1]);
        assert(forall|i: int| 2 + scv.len() <= i < slug.len()
            ==> slug[i] == nm[i - 2 - scv.len()]);
    }
    assert forall|b: bool| !parse_ok(slug, b) by {
        if parse_ok(slug, b) {
            let (sc2, nm2, rf2) = choose|sc2: Option<Seq<char>>, nm2: Seq<char>, rf2: Seq<char>|
                parses_to(slug, b, sc2, nm2, rf2);
            match sc2 {
                Some(scv2) => {
                    assert(slug.len() == 2 + scv2.len() + slug.skip(scv2.len() + 2 as int).len());
                    assert(slug[1 + scv2.len() as int] == '/');
                    assert(false);
                },
                None => {
                    assert(nm2[0] == slug[0]);
                    assert(false);
                },
            }
        }
    }
}

/// Descriptors are just like idents, except that they also contain a range
/// and an additional comparator hash.
pub struct Descriptor {
    pub ident: Ident,
    /// Unique hash of a package descriptor, used as a key so that two
    /// descriptors can be quickly compared.
    pub descriptor_hash: String,
    /// The range associated with this descriptor (eg. `^1.0.0`).
    pub range: String,
}

/// Locators are just like idents, except that they also contain a reference
/// and an additional comparator hash: a locator names one exact resolved
/// package build.
pub struct Locator {
    pub ident: Ident,
    /// Lowercase hexadecimal SHA-512 digest of the ident hash and the
    /// reference, used as a key so that two locators can be quickly compared.
    pub locator_hash: String,
    /// A package reference that uniquely identifies a package (eg. `1.2.3`).
    pub reference: String,
}

impl Locator {
    /// The stored hash is the hash of the stored ident hash and reference,
    /// and the ident itself is well formed.
    pub open spec fn wf(&self) -> bool {
        &&& self.ident.wf()
        &&& self.locator_hash@ == locator_hash_of(self.ident.ident_hash@, self.reference@)
    }

    pub fn new(ident: Ident, reference: String) -> (r: Locator)
        ensures
            r.ident == ident,
            r.reference == reference,
            r.locator_hash@ == locator_hash_of(ident.ident_hash@, reference@),
    {
        let mut data: Vec<u8> = ident.ident_hash.as_str().as_bytes_vec();
        let mut rb = reference.as_str().as_bytes_vec();
        data.append(&mut rb);
        proof {
            assert(data@ =~= locator_bytes(ident.ident_hash@, reference@));
        }
        let locator_hash = digest_hex(&data);
        Locator { ident, locator_hash, reference }
    }

    pub fn slugify(&self) -> (r: String)
        ensures
            r@ == slug_of(self.ident.scope_view(), self.ident.name@),
    {
        self.ident.slugify()
    }
}

} // verus!

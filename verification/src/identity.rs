//! Identity of a component: its reference within one document and its
//! package URL, both derived from a name and a version.

use vstd::prelude::*;
use vstd::string::*;

verus! {

/// The text that stands for a version that could not be resolved.
pub open spec fn unknown_version() -> Seq<char> {
    seq!['u', 'n', 'k', 'n', 'o', 'w', 'n']
}

/// The version text of an optional version: the version itself, or
/// `unknown` where there is none.
pub open spec fn version_text(version: Option<Seq<char>>) -> Seq<char> {
    match version {
        Some(v) => v,
        None => unknown_version(),
    }
}

/// The reference of a component: `name@version`.
pub open spec fn bom_ref_spec(name: Seq<char>, version: Seq<char>) -> Seq<char> {
    name + seq!['@'] + version
}

/// The scheme and type that every package URL starts with: `pkg:pypi/`.
pub open spec fn purl_prefix() -> Seq<char> {
    seq!['p', 'k', 'g', ':', 'p', 'y', 'p', 'i', '/']
}

/// The package URL of a component: `pkg:pypi/name@version`.
pub open spec fn purl_spec(name: Seq<char>, version: Seq<char>) -> Seq<char> {
    purl_prefix() + bom_ref_spec(name, version)
}

/// True where the longer of two names has a `@` at the place where the
/// shorter one ends. Only for such names can two different pairs of name
/// and version give one reference.
pub open spec fn names_overlap(n1: Seq<char>, n2: Seq<char>) -> bool {
    ||| (n1.len() < n2.len() && n2[n1.len() as int] == '@')
    ||| (n2.len() < n1.len() && n1[n2.len() as int] == '@')
}

/// Generate a package URL for a Python package: `pkg:pypi/{name}@{version}`.
pub fn generate_purl(name: &str, version: &str) -> (purl: String)
    ensures
        purl@ == purl_spec(name@, version@),
{
    proof {
        reveal_strlit("pkg:pypi/");
        reveal_strlit("@");
    }
    let mut purl = "pkg:pypi/".to_owned();
    purl.append(name);
    purl.append("@");
    purl.append(version);
    assert(purl@ =~= purl_spec(name@, version@));
    purl
}

/// Generate the reference of a component: `{name}@{version}`. It is the
/// identity of the component within one document.
pub fn generate_bom_ref(name: &str, version: &str) -> (bom_ref: String)
    ensures
        bom_ref@ == bom_ref_spec(name@, version@),
{
    proof {
        reveal_strlit("@");
    }
    let mut bom_ref = name.to_owned();
    bom_ref.append("@");
    bom_ref.append(version);
    assert(bom_ref@ =~= bom_ref_spec(name@, version@));
    bom_ref
}

/// The version text of an optional version, `unknown` where there is none.
pub fn version_or_unknown(version: &Option<String>) -> (text: String)
    ensures
        text@ == version_text(
            match *version {
                Some(v) => Some(v@),
                None => None,
            },
        ),
{
    match version {
        Some(v) => v.clone(),
        None => {
            proof {
                reveal_strlit("unknown");
            }
            let text = "unknown".to_owned();
            assert(text@ =~= unknown_version());
            text
        },
    }
}

/// A reference is a function of name and version: equal names and
/// versions give equal references. And, unless one name has a `@` where
/// the other ends, equal references come from equal names and equal
/// versions only.
pub proof fn lemma_bom_ref_injective(
    n1: Seq<char>,
    v1: Seq<char>,
    n2: Seq<char>,
    v2: Seq<char>,
)
    requires
        !names_overlap(n1, n2),
    ensures
        bom_ref_spec(n1, v1) == bom_ref_spec(n2, v2) <==> (n1 == n2 && v1 == v2),
{
    let r1 = bom_ref_spec(n1, v1);
    let r2 = bom_ref_spec(n2, v2);
    if r1 == r2 {
        assert(r1[n1.len() as int] == '@');
        assert(r2[n2.len() as int] == '@');
        if n1.len() < n2.len() {
            assert(r2[n1.len() as int] == n2[n1.len() as int]);
        }
        if n2.len() < n1.len() {
            assert(r1[n2.len() as int] == n1[n2.len() as int]);
        }
        assert(n1.len() == n2.len());
        assert(n1 =~= r1.subrange(0, n1.len() as int));
        assert(n2 =~= r2.subrange(0, n2.len() as int));
        assert(v1 =~= r1.subrange(n1.len() as int + 1, r1.len() as int));
        assert(v2 =~= r2.subrange(n2.len() as int + 1, r2.len() as int));
    }
}

/// Two references with the same name are equal only if the versions are.
pub proof fn lemma_bom_ref_version(name: Seq<char>, v1: Seq<char>, v2: Seq<char>)
    ensures
        bom_ref_spec(name, v1) == bom_ref_spec(name, v2) <==> v1 == v2,
{
    lemma_bom_ref_injective(name, v1, name, v2);
}

/// The text `@unknown`, with which the reference of a package without a
/// version ends.
pub open spec fn at_unknown() -> Seq<char> {
    seq!['@', 'u', 'n', 'k', 'n', 'o', 'w', 'n']
}

/// A package without a version has the reference `name@unknown` and the
/// package URL `pkg:pypi/name@unknown`.
pub proof fn lemma_absent_version(name: Seq<char>)
    ensures
        bom_ref_spec(name, version_text(None)) == name + at_unknown(),
        purl_spec(name, version_text(None)) == purl_prefix() + name + at_unknown(),
{
    assert(bom_ref_spec(name, version_text(None)) =~= name + at_unknown());
    assert(purl_spec(name, version_text(None)) =~= purl_prefix() + name + at_unknown());
}

} // verus!

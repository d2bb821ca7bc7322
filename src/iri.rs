use vstd::prelude::*;
use vstd::string::*;

use activitystreams::iri_string::format::ToDedicatedString;
use activitystreams::iri_string::resolve::FixedBaseResolver;
use activitystreams::iri_string::types::{IriAbsoluteStr, IriRelativeStr};

verus! {

/// Whether the text is an absolute IRI (scheme and hierarchical part, no fragment).
pub uninterp spec fn is_absolute_iri(s: Seq<char>) -> bool;

/// Whether the text is a relative IRI reference.
pub uninterp spec fn is_relative_iri(s: Seq<char>) -> bool;

/// The IRI obtained by resolving a relative reference against an absolute base.
pub uninterp spec fn resolved_iri(base: Seq<char>, rel: Seq<char>) -> Seq<char>;

/// The hyphenated lower-case text of the UUID with the given 128-bit value.
pub uninterp spec fn hyphenated_uuid(id: u128) -> Seq<char>;

/// Relies on iri_string's `IriAbsoluteStr::new`: it accepts exactly the absolute IRIs.
#[verifier::external_body]
pub(crate) fn check_absolute_iri(s: &str) -> (r: bool)
    ensures
        r == is_absolute_iri(s@),
{
    IriAbsoluteStr::new(s).is_ok()
}

/// Relies on iri_string's `IriRelativeStr::new`: it accepts exactly the relative references.
#[verifier::external_body]
pub(crate) fn check_relative_iri(s: &str) -> (r: bool)
    ensures
        r == is_relative_iri(s@),
{
    IriRelativeStr::new(s).is_ok()
}

/// Relies on iri_string's `FixedBaseResolver::resolve`, which never fails on a
/// valid base and reference, serialised with `to_dedicated_string`.
#[verifier::external_body]
pub(crate) fn resolve_against(base: &str, rel: &str) -> (r: String)
    requires
        is_absolute_iri(base@),
        is_relative_iri(rel@),
    ensures
        r@ == resolved_iri(base@, rel@),
{
    let base = IriAbsoluteStr::new(base).expect("checked absolute IRI");
    let rel = IriRelativeStr::new(rel).expect("checked relative IRI");
    FixedBaseResolver::new(base).resolve(rel.as_ref()).to_dedicated_string().into()
}

/// Relies on uuid's `Uuid::from_u128` and its `Display`, which writes the
/// hyphenated lower-case form; the text depends on the value alone.
#[verifier::external_body]
pub(crate) fn uuid_text(id: u128) -> (r: String)
    ensures
        r@ == hyphenated_uuid(id),
{
    uuid::Uuid::from_u128(id).to_string()
}

/// Relies on uuid's `Uuid::new_v4`: a fresh random identifier; nothing is
/// known of its value.
#[verifier::external_body]
pub(crate) fn fresh_uuid() -> (r: u128) {
    uuid::Uuid::new_v4().as_u128()
}

/// Index of the first `#` at or after `i`, or the length when there is none.
pub open spec fn hash_index(s: Seq<char>, i: int) -> int
    decreases s.len() - i,
{
    if i < 0 || i >= s.len() {
        s.len() as int
    } else if s[i] == '#' {
        i
    } else {
        hash_index(s, i + 1)
    }
}

/// The IRI with its fragment (if any) replaced by `frag`.
pub open spec fn with_fragment(s: Seq<char>, frag: Seq<char>) -> Seq<char> {
    s.take(hash_index(s, 0)) + seq!['#'] + frag
}

proof fn lemma_hash_index_bounds(s: Seq<char>, i: int)
    requires
        0 <= i <= s.len(),
    ensures
        i <= hash_index(s, i) <= s.len(),
    decreases s.len() - i,
{
    if i < s.len() && s[i] != '#' {
        lemma_hash_index_bounds(s, i + 1);
    }
}

/// The IRI with its fragment (if any) dropped.
pub open spec fn without_fragment(s: Seq<char>) -> Seq<char> {
    s.take(hash_index(s, 0))
}

/// Drops the fragment of `s`: the actor named by a key identifier such as
/// `https://host/actor#main-key`.
pub fn strip_fragment(s: &str) -> (r: String)
    ensures
        r@ == without_fragment(s@),
{
    let n = s.unicode_len();
    let mut i: usize = 0;
    while i < n && s.get_char(i) != '#'
        invariant
            n == s@.len(),
            0 <= i <= n,
            hash_index(s@, 0) == hash_index(s@, i as int),
        decreases n - i,
    {
        i = i + 1;
    }
    proof {
        lemma_hash_index_bounds(s@, i as int);
    }
    String::from_str(s.substring_char(0, i))
}

/// Drops the fragment of `s` and puts `frag` in its place.
pub fn set_fragment(s: &str, frag: &str) -> (r: String)
    ensures
        r@ == with_fragment(s@, frag@),
{
    let mut r = strip_fragment(s);
    r.append("#");
    r.append(frag);
    proof {
        reveal_strlit("#");
        assert(r@ =~= with_fragment(s@, frag@));
    }
    r
}

/// Dropping the fragment of an IRI whose fragment was set gives the IRI
/// without its fragment: a key identifier names the actor it was made from.
pub proof fn lemma_strip_after_set(s: Seq<char>, frag: Seq<char>)
    ensures
        without_fragment(with_fragment(s, frag)) == without_fragment(s),
{
    let p = without_fragment(s);
    let t = with_fragment(s, frag);
    lemma_hash_index_bounds(s, 0);
    lemma_no_hash_before(s, 0);
    lemma_hash_at(t, p.len() as int, 0);
    assert(t.take(p.len() as int) =~= p);
}

proof fn lemma_no_hash_before(s: Seq<char>, i: int)
    requires
        0 <= i <= hash_index(s, 0),
        hash_index(s, 0) == hash_index(s, i),
    ensures
        forall|j: int| i <= j < hash_index(s, 0) ==> s[j] != '#',
        hash_index(s, 0) < s.len() ==> s[hash_index(s, 0)] == '#',
    decreases s.len() - i,
{
    lemma_hash_index_bounds(s, i);
    if i < s.len() && s[i] != '#' {
        lemma_hash_index_bounds(s, i + 1);
        lemma_no_hash_before(s, i + 1);
    }
}

proof fn lemma_hash_at(t: Seq<char>, k: int, i: int)
    requires
        0 <= i <= k < t.len(),
        t[k] == '#',
        forall|j: int| i <= j < k ==> t[j] != '#',
    ensures
        hash_index(t, i) == k,
    decreases k - i,
{
    if i < k {
        lemma_hash_at(t, k, i + 1);
    }
}

} // verus!

use vstd::prelude::*;
use vstd::multiset::Multiset;
use vstd::seq_lib::*;

use activitystreams::iri_string::types::IriStr;
use rand::seq::SliceRandom;

verus! {

broadcast use {group_to_multiset_ensures, group_filter_ensures};

/// What a server's instance API says of it.
#[derive(Debug, Clone, PartialEq, Eq)]
pub struct Instance {
    /// Whether registrations are open.
    pub reg: bool,
}

/// What a server's NodeInfo document says of it.
#[derive(Debug, Clone, PartialEq, Eq)]
pub struct Info {
    /// Whether registrations are open.
    pub reg: bool,
}

/// A cached record of a remote server.
#[derive(Debug, Clone, PartialEq, Eq)]
pub struct Node {
    /// The base address of the server.
    pub base: String,
    pub instance: Option<Instance>,
    pub info: Option<Info>,
}

/// The authority (host and optional port) of an IRI, or `None` where the text
/// is not an IRI or has no authority.
pub uninterp spec fn authority_of(s: Seq<char>) -> Option<Seq<char>>;

/// Relies on iri_string's `IriStr::new` and `authority_str`: the authority
/// component of a valid IRI, which depends on the text alone.
#[verifier::external_body]
fn authority(s: &str) -> (r: Option<String>)
    ensures
        match r {
            Some(a) => authority_of(s@) == Some(a@),
            None => authority_of(s@) is None,
        },
{
    IriStr::new(s).ok().and_then(|iri| iri.authority_str().map(String::from))
}

/// Relies on rand's `SliceRandom::shuffle` with `thread_rng`: it only swaps
/// elements, so the result is a permutation of the input.
#[verifier::external_body]
fn shuffle(v: &mut Vec<Node>)
    ensures
        final(v)@.to_multiset() == old(v)@.to_multiset(),
{
    v.shuffle(&mut rand::thread_rng());
}

/// Whether registrations are open: the instance API decides where it is
/// known, else NodeInfo, else they count as closed.
pub open spec fn is_open(n: Node) -> bool {
    match n.instance {
        Some(i) => i.reg,
        None => match n.info {
            Some(i) => i.reg,
            None => false,
        },
    }
}

/// Whether the node's authority is one of the local domains.
pub open spec fn is_local(n: Node, domains: Seq<Seq<char>>) -> bool {
    match authority_of(n.base@) {
        Some(a) => domains.contains(a),
        None => false,
    }
}

pub open spec fn local_pred(domains: Seq<Seq<char>>) -> spec_fn(Node) -> bool {
    |n: Node| is_local(n, domains)
}

pub open spec fn remote_pred(domains: Seq<Seq<char>>) -> spec_fn(Node) -> bool {
    |n: Node| !is_local(n, domains)
}

pub open spec fn open_pred() -> spec_fn(Node) -> bool {
    |n: Node| is_open(n)
}

pub open spec fn closed_pred() -> spec_fn(Node) -> bool {
    |n: Node| !is_open(n)
}

/// No node with closed registrations comes before one with open registrations.
pub open spec fn open_first(s: Seq<Node>) -> bool {
    forall|i: int, j: int| 0 <= i < j < s.len() && is_open(s[j]) ==> is_open(s[i])
}

/// Whether registrations on the node are open.
pub fn open_reg(node: &Node) -> (r: bool)
    ensures
        r == is_open(*node),
{
    match &node.instance {
        Some(i) => i.reg,
        None => match &node.info {
            Some(i) => i.reg,
            None => false,
        },
    }
}

fn contains_domain(domains: &Vec<String>, a: &String) -> (r: bool)
    ensures
        r == domains@.map_values(|d: String| d@).contains(a@),
{
    let ghost views = domains@.map_values(|d: String| d@);
    let mut i: usize = 0;
    while i < domains.len()
        invariant
            0 <= i <= domains.len(),
            views == domains@.map_values(|d: String| d@),
            forall|j: int| 0 <= j < i ==> views[j] != a@,
        decreases domains.len() - i,
    {
        if domains[i] == *a {
            assert(views[i as int] == a@);
            return true;
        }
        i = i + 1;
    }
    proof {
        lemma_absent(views, a@);
    }
    false
}

proof fn lemma_absent(views: Seq<Seq<char>>, a: Seq<char>)
    requires
        forall|j: int| 0 <= j < views.len() ==> views[j] != a,
    ensures
        !views.contains(a),
{
}

/// Whether the node is served from one of the local domains.
pub fn is_local_node(node: &Node, domains: &Vec<String>) -> (r: bool)
    ensures
        r == is_local(*node, domains@.map_values(|d: String| d@)),
{
    match authority(node.base.as_str()) {
        Some(a) => contains_domain(domains, &a),
        None => false,
    }
}

proof fn lemma_filter_push(s: Seq<Node>, x: Node, p: spec_fn(Node) -> bool)
    ensures
        s.push(x).filter(p) == (if p(x) {
            s.filter(p).push(x)
        } else {
            s.filter(p)
        }),
{
    reveal_with_fuel(Seq::filter, 1);
    assert(s.push(x).drop_last() =~= s);
}

proof fn lemma_split_multiset(s: Seq<Node>, p: spec_fn(Node) -> bool, q: spec_fn(Node) -> bool)
    requires
        forall|n: Node| #[trigger] p(n) == !q(n),
    ensures
        s.to_multiset() == s.filter(p).to_multiset().add(s.filter(q).to_multiset()),
    decreases s.len(),
{
    if s.len() == 0 {
        assert(s.filter(p) =~= s);
        assert(s.filter(q) =~= s);
        assert(s.to_multiset() =~= Multiset::empty());
        assert(s.to_multiset() =~= s.filter(p).to_multiset().add(s.filter(q).to_multiset()));
    } else {
        let t = s.drop_last();
        let x = s.last();
        assert(t.push(x) =~= s);
        lemma_split_multiset(t, p, q);
        lemma_filter_push(t, x, p);
        lemma_filter_push(t, x, q);
        assert(s.to_multiset() =~= s.filter(p).to_multiset().add(s.filter(q).to_multiset()));
    }
}

/// Splits the nodes into those of the local domains and the others, each in
/// the order of the input.
pub fn partition_local(nodes: Vec<Node>, domains: &Vec<String>) -> (r: (Vec<Node>, Vec<Node>))
    ensures
        r.0@ == nodes@.filter(local_pred(domains@.map_values(|d: String| d@))),
        r.1@ == nodes@.filter(remote_pred(domains@.map_values(|d: String| d@))),
{
    let ghost dv = domains@.map_values(|d: String| d@);
    let ghost orig = nodes@;
    let mut rest = nodes;
    let mut local: Vec<Node> = Vec::new();
    let mut remote: Vec<Node> = Vec::new();
    while rest.len() > 0
        invariant
            rest@ == orig.subrange(orig.len() - rest.len(), orig.len() as int),
            rest.len() <= orig.len(),
            local@ == orig.subrange(0, orig.len() - rest.len()).filter(local_pred(dv)),
            remote@ == orig.subrange(0, orig.len() - rest.len()).filter(remote_pred(dv)),
            dv == domains@.map_values(|d: String| d@),
        decreases rest.len(),
    {
        let ghost k = orig.len() - rest.len();
        let n = rest.remove(0);
        proof {
            assert(orig.subrange(0, k + 1) =~= orig.subrange(0, k).push(n));
            assert(rest@ =~= orig.subrange(orig.len() - rest.len(), orig.len() as int));
            lemma_filter_push(orig.subrange(0, k), n, local_pred(dv));
            lemma_filter_push(orig.subrange(0, k), n, remote_pred(dv));
        }
        if is_local_node(&n, domains) {
            local.push(n);
        } else {
            remote.push(n);
        }
    }
    assert(orig.subrange(0, orig.len() as int) =~= orig);
    (local, remote)
}

/// Puts the nodes with open registrations first, then the others, each group
/// in a fresh random order.
pub fn rank_remote(nodes: Vec<Node>) -> (r: Vec<Node>)
    ensures
        r@.to_multiset() == nodes@.to_multiset(),
        open_first(r@),
{
    let ghost orig = nodes@;
    let mut rest = nodes;
    let mut open: Vec<Node> = Vec::new();
    let mut closed: Vec<Node> = Vec::new();
    while rest.len() > 0
        invariant
            rest@ == orig.subrange(orig.len() - rest.len(), orig.len() as int),
            rest.len() <= orig.len(),
            open@ == orig.subrange(0, orig.len() - rest.len()).filter(open_pred()),
            closed@ == orig.subrange(0, orig.len() - rest.len()).filter(closed_pred()),
        decreases rest.len(),
    {
        let ghost k = orig.len() - rest.len();
        let n = rest.remove(0);
        proof {
            assert(orig.subrange(0, k + 1) =~= orig.subrange(0, k).push(n));
            assert(rest@ =~= orig.subrange(orig.len() - rest.len(), orig.len() as int));
            lemma_filter_push(orig.subrange(0, k), n, open_pred());
            lemma_filter_push(orig.subrange(0, k), n, closed_pred());
        }
        if open_reg(&n) {
            open.push(n);
        } else {
            closed.push(n);
        }
    }
    proof {
        assert(orig.subrange(0, orig.len() as int) =~= orig);
        lemma_split_multiset(orig, open_pred(), closed_pred());
    }
    let ghost o1 = open@;
    let ghost c1 = closed@;
    shuffle(&mut open);
    shuffle(&mut closed);
    proof {
        assert forall|i: int| 0 <= i < open@.len() implies is_open(#[trigger] open@[i]) by {
            assert(open@.to_multiset().count(open@[i]) > 0);
            assert(o1.contains(open@[i]));
        }
        assert forall|i: int| 0 <= i < closed@.len() implies !is_open(#[trigger] closed@[i]) by {
            assert(closed@.to_multiset().count(closed@[i]) > 0);
            assert(c1.contains(closed@[i]));
        }
    }
    let ghost o2 = open@;
    let ghost c2 = closed@;
    open.append(&mut closed);
    proof {
        lemma_multiset_commutative(o2, c2);
        assert(open@ =~= o2 + c2);
        assert forall|i: int, j: int|
            0 <= i < j < open@.len() && is_open(open@[j]) implies is_open(open@[i]) by {
            if i >= o2.len() {
                assert(open@[j] == c2[j - o2.len()]);
            } else {
                assert(open@[i] == o2[i]);
            }
        }
    }
    open
}

/// The directory listing: the nodes of the local domains, in input order,
/// and the remote nodes, those with open registrations first.
pub fn directory_snapshot(nodes: Vec<Node>, domains: &Vec<String>) -> (r: (Vec<Node>, Vec<Node>))
    ensures
        r.0@ == nodes@.filter(local_pred(domains@.map_values(|d: String| d@))),
        r.1@.to_multiset() == nodes@.filter(
            remote_pred(domains@.map_values(|d: String| d@)),
        ).to_multiset(),
        open_first(r.1@),
{
    let (local, remote) = partition_local(nodes, domains);
    let ranked = rank_remote(remote);
    (local, ranked)
}

} // verus!

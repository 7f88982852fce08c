//! The validators of the first block, in the one order that every node
//! arrives at: by public key, whatever the order in which peers were heard of.

use crate::assoc::{lemma_entries_dom, lemma_entries_lookup, AssocMap, Key};
use crate::model::ValidatorPublicKey;
use crate::text::{
    bytes_eq, lemma_lex_le_antisym, lemma_lex_le_refl, lemma_lex_le_total, lemma_lex_le_trans,
    lemma_utf8_injective, lex_at_most, lex_le, utf8,
};
use vstd::prelude::*;
use vstd::string::StringSliceAdditionalSpecFns;

verus! {

/// The public keys of the nodes that take part in the first block, by the
/// name of the node.
pub type PeerPublicKeyMap = AssocMap<String, ValidatorPublicKey>;

/// A validator of the first block: a node and its public key.
#[derive(Debug, Clone, PartialEq, Eq)]
pub struct Validator {
    pub name: String,
    pub pubkey: ValidatorPublicKey,
}

/// A validator as a mathematical value.
pub struct ValidatorView {
    pub name: Seq<char>,
    pub pubkey: Seq<u8>,
}

impl View for Validator {
    type V = ValidatorView;

    open spec fn view(&self) -> ValidatorView {
        ValidatorView { name: self.name@, pubkey: self.pubkey@ }
    }
}

impl DeepView for Validator {
    type V = ValidatorView;

    open spec fn deep_view(&self) -> ValidatorView {
        self@
    }
}

/// The public keys of the peers as mathematical values.
pub open spec fn peers_view(peers: PeerPublicKeyMap) -> Map<Seq<char>, Seq<u8>> {
    peers@.map_values(|k: ValidatorPublicKey| k@)
}

/// The order of validators: by the bytes of the public key, and among
/// validators of one key by the bytes of the name.
pub open spec fn entry_le(a: ValidatorView, b: ValidatorView) -> bool {
    if a.pubkey != b.pubkey {
        lex_le(a.pubkey, b.pubkey)
    } else {
        lex_le(utf8(a.name), utf8(b.name))
    }
}

/// The validators are in order, and none occurs twice.
pub open spec fn validators_sorted(s: Seq<ValidatorView>) -> bool {
    forall|i: int, j: int|
        0 <= i < j < s.len() ==> entry_le(#[trigger] s[i], #[trigger] s[j]) && s[i] != s[j]
}

/// The validators are those of `peers`: each node of `peers` with its key,
/// and no other.
pub open spec fn lists(s: Seq<ValidatorView>, peers: Map<Seq<char>, Seq<u8>>) -> bool {
    &&& forall|i: int|
        0 <= i < s.len() ==> peers.contains_key((#[trigger] s[i]).name) && peers[s[i].name]
            == s[i].pubkey
    &&& forall|n: Seq<char>| #[trigger]
        peers.contains_key(n) ==> exists|i: int| 0 <= i < s.len() && (#[trigger] s[i]).name == n
}

/// Of two validators one is at most the other.
pub proof fn lemma_entry_le_total(a: ValidatorView, b: ValidatorView)
    ensures
        entry_le(a, b) || entry_le(b, a),
{
    lemma_lex_le_total(a.pubkey, b.pubkey);
    lemma_lex_le_total(utf8(a.name), utf8(b.name));
}

/// The order of validators is transitive.
pub proof fn lemma_entry_le_trans(a: ValidatorView, b: ValidatorView, c: ValidatorView)
    requires
        entry_le(a, b),
        entry_le(b, c),
    ensures
        entry_le(a, c),
{
    lemma_lex_le_refl(a.pubkey);
    lemma_lex_le_refl(b.pubkey);
    if a.pubkey == b.pubkey && b.pubkey == c.pubkey {
        lemma_lex_le_trans(utf8(a.name), utf8(b.name), utf8(c.name));
    } else {
        lemma_lex_le_trans(a.pubkey, b.pubkey, c.pubkey);
        if a.pubkey == c.pubkey {
            lemma_lex_le_antisym(a.pubkey, b.pubkey);
        }
    }
}

/// Two validators that are each at most the other are the same validator.
pub proof fn lemma_entry_le_antisym(a: ValidatorView, b: ValidatorView)
    requires
        entry_le(a, b),
        entry_le(b, a),
    ensures
        a == b,
{
    if a.pubkey != b.pubkey {
        lemma_lex_le_antisym(a.pubkey, b.pubkey);
    } else {
        lemma_lex_le_antisym(utf8(a.name), utf8(b.name));
        lemma_utf8_injective(a.name, b.name);
    }
}

/// Two lists of validators that are in order and hold the same validators
/// are the same list.
pub proof fn lemma_sorted_same(a: Seq<ValidatorView>, b: Seq<ValidatorView>)
    requires
        validators_sorted(a),
        validators_sorted(b),
        forall|x: ValidatorView| a.contains(x) <==> b.contains(x),
    ensures
        a == b,
    decreases a.len(),
{
    if a.len() == 0 {
        if b.len() > 0 {
            assert(b.contains(b[0]));
        }
        assert(a =~= b);
    } else {
        assert(a.contains(a[0]));
        assert(b.contains(a[0]));
        assert(b.len() > 0);
        assert(b.contains(b[0]));
        assert(a.contains(b[0]));
        let i = choose|i: int| 0 <= i < a.len() && a[i] == b[0];
        let j = choose|j: int| 0 <= j < b.len() && b[j] == a[0];
        lemma_lex_le_refl(a[0].pubkey);
        lemma_lex_le_refl(utf8(a[0].name));
        lemma_lex_le_refl(b[0].pubkey);
        lemma_lex_le_refl(utf8(b[0].name));
        assert(entry_le(a[0], b[0]));
        assert(entry_le(b[0], a[0]));
        lemma_entry_le_antisym(a[0], b[0]);
        let a1 = a.drop_first();
        let b1 = b.drop_first();
        assert forall|x: ValidatorView| a1.contains(x) <==> b1.contains(x) by {
            if a1.contains(x) {
                let k = choose|k: int| 0 <= k < a1.len() && a1[k] == x;
                assert(a[k + 1] == x);
                assert(a.contains(x));
                assert(a[0] != a[k + 1]);
                let m = choose|m: int| 0 <= m < b.len() && b[m] == x;
                assert(b1[m - 1] == x);
            }
            if b1.contains(x) {
                let k = choose|k: int| 0 <= k < b1.len() && b1[k] == x;
                assert(b[k + 1] == x);
                assert(b.contains(x));
                assert(b[0] != b[k + 1]);
                let m = choose|m: int| 0 <= m < a.len() && a[m] == x;
                assert(a1[m - 1] == x);
            }
        }
        assert(validators_sorted(a1)) by {
            assert forall|p: int, q: int| 0 <= p < q < a1.len() implies entry_le(
                #[trigger] a1[p],
                #[trigger] a1[q],
            ) && a1[p] != a1[q] by {
                assert(a1[p] == a[p + 1] && a1[q] == a[q + 1]);
            }
        }
        assert(validators_sorted(b1)) by {
            assert forall|p: int, q: int| 0 <= p < q < b1.len() implies entry_le(
                #[trigger] b1[p],
                #[trigger] b1[q],
            ) && b1[p] != b1[q] by {
                assert(b1[p] == b[p + 1] && b1[q] == b[q + 1]);
            }
        }
        lemma_sorted_same(a1, b1);
        assert(a =~= seq![a[0]] + a1);
        assert(b =~= seq![b[0]] + b1);
    }
}

/// The validators of given peers, in order, are one list: two nodes that
/// know the same peers arrive at the same validators in the same order.
pub proof fn lemma_validators_determined(
    a: Seq<ValidatorView>,
    b: Seq<ValidatorView>,
    peers: Map<Seq<char>, Seq<u8>>,
)
    requires
        validators_sorted(a),
        validators_sorted(b),
        lists(a, peers),
        lists(b, peers),
    ensures
        a == b,
{
    assert forall|x: ValidatorView| a.contains(x) <==> b.contains(x) by {
        if a.contains(x) {
            let i = choose|i: int| 0 <= i < a.len() && a[i] == x;
            assert(peers.contains_key(a[i].name));
            let j = choose|j: int| 0 <= j < b.len() && (#[trigger] b[j]).name == x.name;
            assert(b[j] == x);
        }
        if b.contains(x) {
            let i = choose|i: int| 0 <= i < b.len() && b[i] == x;
            assert(peers.contains_key(b[i].name));
            let j = choose|j: int| 0 <= j < a.len() && (#[trigger] a[j]).name == x.name;
            assert(a[j] == x);
        }
    }
    lemma_sorted_same(a, b);
}

/// The peers that a node knows after it heard of `arrivals` in turn.
pub open spec fn peers_after(
    known: Map<Seq<char>, Seq<u8>>,
    arrivals: Seq<(Seq<char>, Seq<u8>)>,
) -> Map<Seq<char>, Seq<u8>>
    decreases arrivals.len(),
{
    if arrivals.len() == 0 {
        known
    } else {
        peers_after(known, arrivals.drop_last()).insert(arrivals.last().0, arrivals.last().1)
    }
}

/// No node arrives twice.
pub open spec fn distinct_names(arrivals: Seq<(Seq<char>, Seq<u8>)>) -> bool {
    forall|i: int, j: int|
        0 <= i < j < arrivals.len() ==> (#[trigger] arrivals[i]).0 != (#[trigger] arrivals[j]).0
}

/// What a node knows after arrivals of distinct nodes: each of them with its
/// key, and what it knew before of the others.
pub proof fn lemma_peers_after(
    known: Map<Seq<char>, Seq<u8>>,
    arrivals: Seq<(Seq<char>, Seq<u8>)>,
    name: Seq<char>,
)
    requires
        distinct_names(arrivals),
    ensures
        peers_after(known, arrivals).contains_key(name) <==> known.contains_key(name) || exists|
            i: int,
        | 0 <= i < arrivals.len() && (#[trigger] arrivals[i]).0 == name,
        forall|i: int|
            0 <= i < arrivals.len() && (#[trigger] arrivals[i]).0 == name ==> peers_after(
                known,
                arrivals,
            )[name] == arrivals[i].1,
        (forall|i: int| 0 <= i < arrivals.len() ==> (#[trigger] arrivals[i]).0 != name)
            ==> known.contains_key(name) ==> peers_after(known, arrivals)[name] == known[name],
    decreases arrivals.len(),
{
    if arrivals.len() > 0 {
        let rest = arrivals.drop_last();
        assert(distinct_names(rest)) by {
            assert forall|i: int, j: int| 0 <= i < j < rest.len() implies (#[trigger] rest[i]).0 != (
            #[trigger] rest[j]).0 by {
                assert(rest[i] == arrivals[i] && rest[j] == arrivals[j]);
            }
        }
        lemma_peers_after(known, rest, name);
        let last = arrivals[arrivals.len() - 1];
        assert(last == arrivals.last());
        if exists|i: int| 0 <= i < arrivals.len() && (#[trigger] arrivals[i]).0 == name {
            let i = choose|i: int| 0 <= i < arrivals.len() && (#[trigger] arrivals[i]).0 == name;
            if i < rest.len() {
                assert(rest[i].0 == name);
            }
        }
        if exists|i: int| 0 <= i < rest.len() && (#[trigger] rest[i]).0 == name {
            let i = choose|i: int| 0 <= i < rest.len() && (#[trigger] rest[i]).0 == name;
            assert(arrivals[i].0 == name);
        }
        assert forall|i: int|
            0 <= i < arrivals.len() && (#[trigger] arrivals[i]).0 == name implies peers_after(
            known,
            arrivals,
        )[name] == arrivals[i].1 by {
            if i < rest.len() {
                assert(rest[i] == arrivals[i]);
                assert(arrivals[i].0 != arrivals[arrivals.len() - 1].0);
            }
        }
        if forall|i: int| 0 <= i < arrivals.len() ==> (#[trigger] arrivals[i]).0 != name {
            assert forall|i: int| 0 <= i < rest.len() implies (#[trigger] rest[i]).0 != name by {
                assert(rest[i] == arrivals[i]);
            }
            assert(last.0 != name);
        }
    }
}

/// The order in which distinct nodes arrive does not matter: a node that
/// hears of the same arrivals in another order knows the same peers.
pub proof fn lemma_arrival_order_irrelevant(
    known: Map<Seq<char>, Seq<u8>>,
    first: Seq<(Seq<char>, Seq<u8>)>,
    second: Seq<(Seq<char>, Seq<u8>)>,
)
    requires
        distinct_names(first),
        distinct_names(second),
        forall|p: (Seq<char>, Seq<u8>)| first.contains(p) <==> second.contains(p),
    ensures
        peers_after(known, first) == peers_after(known, second),
{
    let a = peers_after(known, first);
    let b = peers_after(known, second);
    assert forall|name: Seq<char>| a.contains_key(name) <==> b.contains_key(name) by {
        lemma_peers_after(known, first, name);
        lemma_peers_after(known, second, name);
        if exists|i: int| 0 <= i < first.len() && (#[trigger] first[i]).0 == name {
            let i = choose|i: int| 0 <= i < first.len() && (#[trigger] first[i]).0 == name;
            assert(first.contains(first[i]));
            let j = choose|j: int| 0 <= j < second.len() && second[j] == first[i];
            assert(second[j].0 == name);
        }
        if exists|i: int| 0 <= i < second.len() && (#[trigger] second[i]).0 == name {
            let i = choose|i: int| 0 <= i < second.len() && (#[trigger] second[i]).0 == name;
            assert(second.contains(second[i]));
            let j = choose|j: int| 0 <= j < first.len() && first[j] == second[i];
            assert(first[j].0 == name);
        }
    }
    assert forall|name: Seq<char>| a.contains_key(name) implies a[name] == b[name] by {
        lemma_peers_after(known, first, name);
        lemma_peers_after(known, second, name);
        if exists|i: int| 0 <= i < first.len() && (#[trigger] first[i]).0 == name {
            let i = choose|i: int| 0 <= i < first.len() && (#[trigger] first[i]).0 == name;
            assert(first.contains(first[i]));
            let j = choose|j: int| 0 <= j < second.len() && second[j] == first[i];
            assert(second[j].0 == name);
        } else {
            assert forall|i: int| 0 <= i < second.len() implies (#[trigger] second[i]).0
                != name by {
                assert(second.contains(second[i]));
                let j = choose|j: int| 0 <= j < first.len() && first[j] == second[i];
                assert(first[j].0 == second[i].0);
            }
        }
    }
    assert(a =~= b);
}

/// Whether `a` is at most `b` in the order of validators.
fn at_most(a: &Validator, b: &Validator) -> (r: bool)
    ensures
        r == entry_le(a@, b@),
{
    if !bytes_eq(a.pubkey.0.as_slice(), b.pubkey.0.as_slice()) {
        lex_at_most(a.pubkey.0.as_slice(), b.pubkey.0.as_slice())
    } else {
        lex_at_most(a.name.as_str().as_bytes(), b.name.as_str().as_bytes())
    }
}

/// Puts `v` at its place among validators that are in order.
fn place(out: &mut Vec<Validator>, v: Validator)
    requires
        validators_sorted(old(out).deep_view()),
        !old(out).deep_view().contains(v@),
    ensures
        validators_sorted(final(out).deep_view()),
        final(out).deep_view().len() == old(out).deep_view().len() + 1,
        forall|x: ValidatorView|
            final(out).deep_view().contains(x) <==> (old(out).deep_view().contains(x) || x == v@),
{
    let ghost before = out.deep_view();
    let mut pos: usize = 0;
    while pos < out.len() && at_most(&out[pos], &v)
        invariant
            pos <= out.len(),
            before == out.deep_view(),
            forall|k: int| 0 <= k < pos ==> entry_le(#[trigger] before[k], v@),
        decreases out.len() - pos,
    {
        pos += 1;
    }
    let ghost w = v@;
    out.insert(pos, v);
    proof {
        let after = out.deep_view();
        assert(after =~= before.insert(pos as int, w));
        assert forall|i: int, j: int| 0 <= i < j < after.len() implies entry_le(
            #[trigger] after[i],
            #[trigger] after[j],
        ) && after[i] != after[j] by {
            if j < pos {
                assert(after[i] == before[i] && after[j] == before[j]);
            } else if j == pos {
                assert(after[i] == before[i]);
                assert(before.contains(before[i]));
            } else if i == pos {
                assert(after[j] == before[j - 1]);
                assert(before.contains(before[j - 1]));
                lemma_entry_le_total(before[pos as int], w);
                if j - 1 > pos {
                    assert(entry_le(before[pos as int], before[j - 1]));
                    lemma_entry_le_trans(w, before[pos as int], before[j - 1]);
                }
            } else if i < pos {
                assert(after[i] == before[i] && after[j] == before[j - 1]);
            } else {
                assert(after[i] == before[i - 1] && after[j] == before[j - 1]);
            }
        }
        assert forall|x: ValidatorView| after.contains(x) <==> (before.contains(x) || x
            == w) by {
            if after.contains(x) {
                let k = choose|k: int| 0 <= k < after.len() && after[k] == x;
                if k < pos {
                    assert(before[k] == x);
                } else if k > pos {
                    assert(before[k - 1] == x);
                }
            }
            if before.contains(x) {
                let k = choose|k: int| 0 <= k < before.len() && before[k] == x;
                if k < pos {
                    assert(after[k] == x);
                } else {
                    assert(after[k + 1] == x);
                }
            }
            if x == w {
                assert(after[pos as int] == x);
            }
        }
    }
}

/// The validators of `peers`, in order.
pub fn sorted_validators(peers: &PeerPublicKeyMap) -> (r: Vec<Validator>)
    requires
        peers.wf(),
    ensures
        validators_sorted(r.deep_view()),
        lists(r.deep_view(), peers_view(*peers)),
        r.len() == peers.entries().len(),
{
    let mut out: Vec<Validator> = Vec::new();
    let n: usize = peers.len();
    let mut i: usize = 0;
    while i < n
        invariant
            peers.wf(),
            n == peers.entries().len(),
            i <= n,
            out.len() == i,
            validators_sorted(out.deep_view()),
            forall|k: int|
                0 <= k < i ==> out.deep_view().contains(
                    ValidatorView {
                        name: (#[trigger] peers.entries()[k]).0@,
                        pubkey: peers.entries()[k].1@,
                    },
                ),
            forall|x: ValidatorView|
                out.deep_view().contains(x) ==> exists|k: int|
                    0 <= k < i && (#[trigger] peers.entries()[k]).0@ == x.name
                        && peers.entries()[k].1@ == x.pubkey,
        decreases n - i,
    {
        let v = Validator { name: peers.key_at(i).clone(), pubkey: peers.value_at(i).clone() };
        proof {
            if out.deep_view().contains(v@) {
                let k = choose|k: int|
                    0 <= k < i && (#[trigger] peers.entries()[k]).0@ == v@.name
                        && peers.entries()[k].1@ == v@.pubkey;
                assert(peers.entries()[k].0.id() == peers.entries()[i as int].0.id());
            }
        }
        let ghost before = out.deep_view();
        place(&mut out, v);
        proof {
            assert forall|k: int| 0 <= k < i + 1 implies out.deep_view().contains(
                ValidatorView {
                    name: (#[trigger] peers.entries()[k]).0@,
                    pubkey: peers.entries()[k].1@,
                },
            ) by {
                if k < i {
                    assert(before.contains(
                        ValidatorView {
                            name: peers.entries()[k].0@,
                            pubkey: peers.entries()[k].1@,
                        },
                    ));
                }
            }
        }
        i += 1;
    }
    proof {
        let s = out.deep_view();
        let m = peers_view(*peers);
        assert forall|j: int| 0 <= j < s.len() implies m.contains_key((#[trigger] s[j]).name)
            && m[s[j].name] == s[j].pubkey by {
            assert(s.contains(s[j]));
            let k = choose|k: int|
                0 <= k < n && (#[trigger] peers.entries()[k]).0@ == s[j].name
                    && peers.entries()[k].1@ == s[j].pubkey;
            lemma_entries_lookup(peers.entries(), k);
        }
        assert forall|name: Seq<char>| #[trigger] m.contains_key(name) implies exists|j: int|
            0 <= j < s.len() && (#[trigger] s[j]).name == name by {
            lemma_entries_dom(peers.entries(), name);
            let k = choose|k: int|
                0 <= k < peers.entries().len() && (#[trigger] peers.entries()[k]).0.id() == name;
            let x = ValidatorView { name: peers.entries()[k].0@, pubkey: peers.entries()[k].1@ };
            assert(s.contains(x));
            let j = choose|j: int| 0 <= j < s.len() && s[j] == x;
            assert(s[j].name == name);
        }
    }
    out
}

} // verus!

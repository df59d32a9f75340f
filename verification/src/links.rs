use vstd::prelude::*;

use crate::chain::{chain_ok, lemma_chain_insert, lemma_chain_mem, lemma_chain_remove,
    lemma_chain_unchanged, lemma_interior_position};
use crate::key::null_key;
use crate::records::{Collection, NftBucket};

verus! {

/// No element is shared between two chains.
pub open spec fn chains_disjoint(c1: Seq<Seq<u8>>, c2: Seq<Seq<u8>>) -> bool {
    forall|i: int, j: int| 0 <= i < c1.len() && 0 <= j < c2.len() ==> #[trigger] c1[i]
        != #[trigger] c2[j]
}

/// The collection at `ck` has a valid chain, running from its head
/// sentinel to its tail sentinel.
pub open spec fn collection_linked_in(
    collections: Map<Seq<u8>, Collection>,
    buckets: Map<Seq<u8>, NftBucket>,
    chains: Map<Seq<u8>, Seq<Seq<u8>>>,
    ck: Seq<u8>,
) -> bool {
    &&& chains.dom().contains(ck)
    &&& chain_ok(buckets, chains[ck])
    &&& chains[ck][0] == collections[ck].list_head@
    &&& chains[ck][chains[ck].len() - 1] == collections[ck].list_tail@
}

/// `bk` sits in some collection's chain.
pub open spec fn bucket_covered_in(chains: Map<Seq<u8>, Seq<Seq<u8>>>, bk: Seq<u8>) -> bool {
    exists|ck: Seq<u8>| #[trigger] chains.dom().contains(ck) && chains[ck].contains(bk)
}

/// The structural invariant tying collections, listing records and chains
/// together: no record lives at the null address; every collection owns a
/// valid sentinel-bounded chain; chains of different collections never
/// share a node; and every listing record belongs to some chain.
pub closed spec fn links_wf(
    collections: Map<Seq<u8>, Collection>,
    buckets: Map<Seq<u8>, NftBucket>,
    chains: Map<Seq<u8>, Seq<Seq<u8>>>,
) -> bool {
    &&& !buckets.dom().contains(null_key())
    &&& forall|ck: Seq<u8>| #[trigger] collections.dom().contains(ck) ==> collection_linked_in(
        collections,
        buckets,
        chains,
        ck,
    )
    &&& forall|ck: Seq<u8>| #[trigger] chains.dom().contains(ck) ==> collections.dom().contains(
        ck,
    )
    &&& forall|ck1: Seq<u8>, ck2: Seq<u8>|
        ck1 != ck2 && #[trigger] chains.dom().contains(ck1) && #[trigger] chains.dom().contains(
            ck2,
        ) ==> chains_disjoint(chains[ck1], chains[ck2])
    &&& forall|bk: Seq<u8>| #[trigger] buckets.dom().contains(bk) ==> bucket_covered_in(
        chains,
        bk,
    )
}

/// An empty ledger trivially satisfies the structural invariant.
pub proof fn lemma_links_empty()
    ensures
        links_wf(
            Map::<Seq<u8>, Collection>::empty(),
            Map::<Seq<u8>, NftBucket>::empty(),
            Map::<Seq<u8>, Seq<Seq<u8>>>::empty(),
        ),
{
}

/// The facts a caller needs about one collection's chain: it exists, is
/// valid, and starts and ends at the stored sentinels.
pub proof fn lemma_linked_facts(
    c1: Map<Seq<u8>, Collection>,
    b1: Map<Seq<u8>, NftBucket>,
    ch1: Map<Seq<u8>, Seq<Seq<u8>>>,
    ck: Seq<u8>,
)
    requires
        links_wf(c1, b1, ch1),
        c1.dom().contains(ck),
    ensures
        ch1.dom().contains(ck),
        chain_ok(b1, ch1[ck]),
        ch1[ck].len() >= 2,
        ch1[ck][0] == c1[ck].list_head@,
        ch1[ck][ch1[ck].len() - 1] == c1[ck].list_tail@,
        b1.dom().contains(c1[ck].list_head@),
        b1.dom().contains(c1[ck].list_tail@),
        b1[c1[ck].list_head@].next_list_item@ == ch1[ck][1],
        b1.dom().contains(ch1[ck][1]),
        b1[c1[ck].list_tail@].prev_list_item@ == ch1[ck][ch1[ck].len() - 2],
{
    assert(collection_linked_in(c1, b1, ch1, ck));
    lemma_chain_mem(b1, ch1[ck], 0);
    lemma_chain_mem(b1, ch1[ck], 1);
    lemma_chain_mem(b1, ch1[ck], ch1[ck].len() - 1);
    let x = b1[ch1[ck][0]];
    let y = b1[ch1[ck][ch1[ck].len() - 1]];
}

/// Creating a collection adds one fresh degenerate chain and leaves every
/// other chain untouched, so the structural invariant is preserved.
pub proof fn lemma_links_new_collection(
    c1: Map<Seq<u8>, Collection>,
    b1: Map<Seq<u8>, NftBucket>,
    ch1: Map<Seq<u8>, Seq<Seq<u8>>>,
    ck: Seq<u8>,
    col: Collection,
    hk: Seq<u8>,
    tk: Seq<u8>,
    hb: NftBucket,
    tb: NftBucket,
)
    requires
        links_wf(c1, b1, ch1),
        !c1.dom().contains(ck),
        !b1.dom().contains(hk),
        !b1.dom().contains(tk),
        hk != tk,
        hk != null_key(),
        tk != null_key(),
        col.list_head@ == hk,
        col.list_tail@ == tk,
        hb.prev_list_item@ == null_key(),
        hb.next_list_item@ == tk,
        tb.prev_list_item@ == hk,
        tb.next_list_item@ == null_key(),
    ensures
        links_wf(
            c1.insert(ck, col),
            b1.insert(hk, hb).insert(tk, tb),
            ch1.insert(ck, seq![hk, tk]),
        ),
{
    let c2 = c1.insert(ck, col);
    let b2 = b1.insert(hk, hb).insert(tk, tb);
    let ch2 = ch1.insert(ck, seq![hk, tk]);
    let nch = seq![hk, tk];
    assert(!ch1.dom().contains(ck));
    assert(chain_ok(b2, nch)) by {
        assert(nch[0] == hk && nch[1] == tk);
        assert(b2[hk] == hb && b2[tk] == tb);
    }
    assert forall|ck2: Seq<u8>| #[trigger] c2.dom().contains(ck2) implies collection_linked_in(
        c2,
        b2,
        ch2,
        ck2,
    ) by {
        if ck2 == ck {
            assert(ch2[ck] == nch);
            assert(c2[ck] == col);
        } else {
            assert(c1.dom().contains(ck2));
            assert(collection_linked_in(c1, b1, ch1, ck2));
            assert forall|i: int| 0 <= i < ch1[ck2].len() implies b2.dom().contains(
                #[trigger] ch1[ck2][i],
            ) && b2[ch1[ck2][i]] == b1[ch1[ck2][i]] by {
                lemma_chain_mem(b1, ch1[ck2], i);
            }
            lemma_chain_unchanged(b1, b2, ch1[ck2]);
            assert(ch2[ck2] == ch1[ck2]);
            assert(c2[ck2] == c1[ck2]);
        }
    }
    assert forall|ck1: Seq<u8>, ck2: Seq<u8>|
        ck1 != ck2 && #[trigger] ch2.dom().contains(ck1) && #[trigger] ch2.dom().contains(ck2)
        implies chains_disjoint(ch2[ck1], ch2[ck2]) by {
        if ck1 == ck {
            assert(ch1.dom().contains(ck2));
            assert(collection_linked_in(c1, b1, ch1, ck2));
            assert forall|i: int, j: int|
                0 <= i < nch.len() && 0 <= j < ch1[ck2].len() implies nch[i] != ch1[ck2][j] by {
                lemma_chain_mem(b1, ch1[ck2], j);
            }
        } else if ck2 == ck {
            assert(ch1.dom().contains(ck1));
            assert(collection_linked_in(c1, b1, ch1, ck1));
            assert forall|i: int, j: int|
                0 <= i < ch1[ck1].len() && 0 <= j < nch.len() implies ch1[ck1][i] != nch[j] by {
                lemma_chain_mem(b1, ch1[ck1], i);
            }
        } else {
            assert(chains_disjoint(ch1[ck1], ch1[ck2]));
        }
    }
    assert forall|bk: Seq<u8>| #[trigger] b2.dom().contains(bk) implies bucket_covered_in(
        ch2,
        bk,
    ) by {
        if bk == hk {
            assert(nch[0] == bk);
            assert(ch2.dom().contains(ck) && ch2[ck].contains(bk));
        } else if bk == tk {
            assert(nch[1] == bk);
            assert(ch2.dom().contains(ck) && ch2[ck].contains(bk));
        } else {
            assert(b1.dom().contains(bk));
            assert(bucket_covered_in(ch1, bk));
            let ck2 = choose|ck2: Seq<u8>| #[trigger] ch1.dom().contains(ck2)
                && ch1[ck2].contains(bk);
            assert(ch2.dom().contains(ck2) && ch2[ck2].contains(bk));
        }
    }
}

/// Closing a collection removes one degenerate chain and its two
/// sentinels, leaving every other chain untouched, so the structural
/// invariant is preserved.
pub proof fn lemma_links_close_collection(
    c1: Map<Seq<u8>, Collection>,
    b1: Map<Seq<u8>, NftBucket>,
    ch1: Map<Seq<u8>, Seq<Seq<u8>>>,
    ck: Seq<u8>,
)
    requires
        links_wf(c1, b1, ch1),
        c1.dom().contains(ck),
        ch1[ck].len() == 2,
    ensures
        links_wf(
            c1.remove(ck),
            b1.remove(ch1[ck][0]).remove(ch1[ck][1]),
            ch1.remove(ck),
        ),
{
    let ch = ch1[ck];
    let c2 = c1.remove(ck);
    let b2 = b1.remove(ch[0]).remove(ch[1]);
    let ch2 = ch1.remove(ck);
    assert(collection_linked_in(c1, b1, ch1, ck));
    assert forall|ck2: Seq<u8>| #[trigger] c2.dom().contains(ck2) implies collection_linked_in(
        c2,
        b2,
        ch2,
        ck2,
    ) by {
        assert(ck2 != ck);
        assert(collection_linked_in(c1, b1, ch1, ck2));
        assert(chains_disjoint(ch1[ck2], ch));
        assert forall|i: int| 0 <= i < ch1[ck2].len() implies b2.dom().contains(
            #[trigger] ch1[ck2][i],
        ) && b2[ch1[ck2][i]] == b1[ch1[ck2][i]] by {
            lemma_chain_mem(b1, ch1[ck2], i);
            assert(ch1[ck2][i] != ch[0] && ch1[ck2][i] != ch[1]);
        }
        lemma_chain_unchanged(b1, b2, ch1[ck2]);
        assert(ch2[ck2] == ch1[ck2]);
        assert(c2[ck2] == c1[ck2]);
    }
    assert forall|bk: Seq<u8>| #[trigger] b2.dom().contains(bk) implies bucket_covered_in(
        ch2,
        bk,
    ) by {
        assert(b1.dom().contains(bk));
        assert(bucket_covered_in(ch1, bk));
        let ck2 = choose|ck2: Seq<u8>| #[trigger] ch1.dom().contains(ck2) && ch1[ck2].contains(
            bk,
        );
        if ck2 == ck {
            let i = choose|i: int| 0 <= i < ch.len() && ch[i] == bk;
            assert(bk == ch[0] || bk == ch[1]);
            assert(false);
        } else {
            assert(ch2.dom().contains(ck2) && ch2[ck2].contains(bk));
        }
    }
}

/// Inserting a fresh listing node right behind a collection's head
/// sentinel preserves the structural invariant.
#[verifier::rlimit(50)]
pub proof fn lemma_links_insert_node(
    c1: Map<Seq<u8>, Collection>,
    b1: Map<Seq<u8>, NftBucket>,
    ch1: Map<Seq<u8>, Seq<Seq<u8>>>,
    ck: Seq<u8>,
    k: Seq<u8>,
    node: NftBucket,
    h2: NftBucket,
    f2: NftBucket,
)
    requires
        links_wf(c1, b1, ch1),
        c1.dom().contains(ck),
        !b1.dom().contains(k),
        k != null_key(),
        node.prev_list_item@ == ch1[ck][0],
        node.next_list_item@ == ch1[ck][1],
        h2.next_list_item@ == k,
        h2.prev_list_item == b1[ch1[ck][0]].prev_list_item,
        f2.prev_list_item@ == k,
        f2.next_list_item == b1[ch1[ck][1]].next_list_item,
    ensures
        links_wf(
            c1,
            b1.insert(ch1[ck][0], h2).insert(ch1[ck][1], f2).insert(k, node),
            ch1.insert(ck, ch1[ck].insert(1, k)),
        ),
{
    let ch = ch1[ck];
    let nch = ch.insert(1, k);
    let b2 = b1.insert(ch[0], h2).insert(ch[1], f2).insert(k, node);
    let ch2 = ch1.insert(ck, nch);
    assert(collection_linked_in(c1, b1, ch1, ck));
    lemma_chain_insert(b1, ch, k, node, h2, f2);
    assert(chain_ok(b2, nch));
    assert(nch[0] == ch[0]);
    assert(nch[nch.len() - 1] == ch[ch.len() - 1]) by {
        assert(nch.len() - 1 >= 2);
    }
    lemma_chain_mem(b1, ch, 0);
    lemma_chain_mem(b1, ch, 1);
    assert forall|ck2: Seq<u8>| #[trigger] c1.dom().contains(ck2) implies collection_linked_in(
        c1,
        b2,
        ch2,
        ck2,
    ) by {
        if ck2 == ck {
            assert(ch2[ck] == nch);
        } else {
            assert(collection_linked_in(c1, b1, ch1, ck2));
            assert(chains_disjoint(ch1[ck2], ch));
            assert forall|i: int| 0 <= i < ch1[ck2].len() implies b2.dom().contains(
                #[trigger] ch1[ck2][i],
            ) && b2[ch1[ck2][i]] == b1[ch1[ck2][i]] by {
                lemma_chain_mem(b1, ch1[ck2], i);
                assert(ch1[ck2][i] != ch[0] && ch1[ck2][i] != ch[1] && ch1[ck2][i] != k);
            }
            lemma_chain_unchanged(b1, b2, ch1[ck2]);
            assert(ch2[ck2] == ch1[ck2]);
        }
    }
    assert forall|ck1: Seq<u8>, ck2: Seq<u8>|
        ck1 != ck2 && #[trigger] ch2.dom().contains(ck1) && #[trigger] ch2.dom().contains(ck2)
        implies chains_disjoint(ch2[ck1], ch2[ck2]) by {
        if ck1 == ck {
            assert(collection_linked_in(c1, b1, ch1, ck2));
            assert forall|i: int, j: int|
                0 <= i < nch.len() && 0 <= j < ch1[ck2].len() implies nch[i]
                != ch1[ck2][j] by {
                lemma_chain_mem(b1, ch1[ck2], j);
                if i == 0 {
                    assert(nch[i] == ch[0]);
                } else if i == 1 {
                    assert(nch[i] == k);
                } else {
                    assert(nch[i] == ch[i - 1]);
                }
            }
        } else if ck2 == ck {
            assert(collection_linked_in(c1, b1, ch1, ck1));
            assert forall|i: int, j: int|
                0 <= i < ch1[ck1].len() && 0 <= j < nch.len() implies ch1[ck1][i]
                != nch[j] by {
                lemma_chain_mem(b1, ch1[ck1], i);
                if j == 0 {
                    assert(nch[j] == ch[0]);
                } else if j == 1 {
                    assert(nch[j] == k);
                } else {
                    assert(nch[j] == ch[j - 1]);
                }
            }
        } else {
            assert(chains_disjoint(ch1[ck1], ch1[ck2]));
        }
    }
    assert forall|bk: Seq<u8>| #[trigger] b2.dom().contains(bk) implies bucket_covered_in(
        ch2,
        bk,
    ) by {
        if bk == k {
            assert(nch[1] == k);
            assert(ch2.dom().contains(ck) && ch2[ck].contains(bk));
        } else {
            assert(b1.dom().contains(bk));
            assert(bucket_covered_in(ch1, bk));
            let ck2 = choose|ck2: Seq<u8>| #[trigger] ch1.dom().contains(ck2)
                && ch1[ck2].contains(bk);
            if ck2 == ck {
                let i = choose|i: int| 0 <= i < ch.len() && ch[i] == bk;
                assert(ch[i] == bk);
                if i == 0 {
                    assert(nch[0] == ch[0]);
                    assert(nch[0] == bk);
                } else {
                    assert(0 <= i + 1 < nch.len());
                    assert(nch[i + 1] == ch[i]) by {
                        assert(nch == ch.insert(1, k));
                    }
                    assert(nch[i + 1] == bk);
                }
                assert(ch2.dom().contains(ck) && ch2[ck].contains(bk));
            } else {
                assert(ch2.dom().contains(ck2) && ch2[ck2].contains(bk));
            }
        }
    }
}

/// A listed node whose two neighbour pointers both name live records sits
/// interior to exactly one chain; returns that chain's collection key and
/// the node's position in it.
pub proof fn lemma_locate_node(
    c1: Map<Seq<u8>, Collection>,
    b1: Map<Seq<u8>, NftBucket>,
    ch1: Map<Seq<u8>, Seq<Seq<u8>>>,
    bk: Seq<u8>,
) -> (r: (Seq<u8>, int))
    requires
        links_wf(c1, b1, ch1),
        b1.dom().contains(bk),
        b1.dom().contains(b1[bk].prev_list_item@),
        b1.dom().contains(b1[bk].next_list_item@),
    ensures
        ({
            let (ck, i) = r;
            let pv = b1[bk].prev_list_item@;
            let nx = b1[bk].next_list_item@;
            &&& ch1.dom().contains(ck)
            &&& c1.dom().contains(ck)
            &&& 1 <= i <= ch1[ck].len() - 2
            &&& ch1[ck][i] == bk
            &&& ch1[ck][i - 1] == pv
            &&& ch1[ck][i + 1] == nx
            &&& pv != bk && nx != bk && pv != nx
        }),
{
    assert(bucket_covered_in(ch1, bk));
    let ck = choose|ck: Seq<u8>| #[trigger] ch1.dom().contains(ck) && ch1[ck].contains(bk);
    assert(c1.dom().contains(ck));
    assert(collection_linked_in(c1, b1, ch1, ck));
    let i = lemma_interior_position(b1, ch1[ck], bk);
    (ck, i)
}

/// Unlinking an interior listing node preserves the structural invariant:
/// its neighbours are joined to each other, the node leaves the arena, and
/// every other chain is untouched.
#[verifier::rlimit(50)]
pub proof fn lemma_links_remove_node(
    c1: Map<Seq<u8>, Collection>,
    b1: Map<Seq<u8>, NftBucket>,
    ch1: Map<Seq<u8>, Seq<Seq<u8>>>,
    ck: Seq<u8>,
    i: int,
    p2: NftBucket,
    n2: NftBucket,
)
    requires
        links_wf(c1, b1, ch1),
        ch1.dom().contains(ck),
        1 <= i <= ch1[ck].len() - 2,
        p2.next_list_item@ == ch1[ck][i + 1],
        p2.prev_list_item == b1[ch1[ck][i - 1]].prev_list_item,
        n2.prev_list_item@ == ch1[ck][i - 1],
        n2.next_list_item == b1[ch1[ck][i + 1]].next_list_item,
    ensures
        links_wf(
            c1,
            b1.insert(ch1[ck][i - 1], p2).insert(ch1[ck][i + 1], n2).remove(ch1[ck][i]),
            ch1.insert(ck, ch1[ck].remove(i)),
        ),
{
    let ch = ch1[ck];
    let bk = ch[i];
    assert(c1.dom().contains(ck));
    assert(collection_linked_in(c1, b1, ch1, ck));
    let nch = ch.remove(i);
    let b2 = b1.insert(ch[i - 1], p2).insert(ch[i + 1], n2).remove(bk);
    let ch2 = ch1.insert(ck, nch);
    lemma_chain_remove(b1, ch, i, p2, n2);
    assert(chain_ok(b2, nch));
    assert(nch[0] == ch[0]);
    assert(nch[nch.len() - 1] == ch[ch.len() - 1]);
    assert forall|ck2: Seq<u8>| #[trigger] c1.dom().contains(ck2) implies collection_linked_in(
        c1,
        b2,
        ch2,
        ck2,
    ) by {
        if ck2 == ck {
            assert(ch2[ck] == nch);
        } else {
            assert(collection_linked_in(c1, b1, ch1, ck2));
            assert(chains_disjoint(ch1[ck2], ch));
            assert forall|j: int| 0 <= j < ch1[ck2].len() implies b2.dom().contains(
                #[trigger] ch1[ck2][j],
            ) && b2[ch1[ck2][j]] == b1[ch1[ck2][j]] by {
                lemma_chain_mem(b1, ch1[ck2], j);
                assert(ch1[ck2][j] != ch[i - 1] && ch1[ck2][j] != ch[i + 1] && ch1[ck2][j]
                    != ch[i]);
            }
            lemma_chain_unchanged(b1, b2, ch1[ck2]);
            assert(ch2[ck2] == ch1[ck2]);
        }
    }
    assert forall|ck1: Seq<u8>, ck2: Seq<u8>|
        ck1 != ck2 && #[trigger] ch2.dom().contains(ck1) && #[trigger] ch2.dom().contains(ck2)
        implies chains_disjoint(ch2[ck1], ch2[ck2]) by {
        if ck1 == ck {
            assert forall|a: int, j: int|
                0 <= a < nch.len() && 0 <= j < ch2[ck2].len() implies nch[a]
                != ch2[ck2][j] by {
                assert(ch2[ck2] == ch1[ck2]);
                if a < i {
                    assert(nch[a] == ch[a]);
                } else {
                    assert(nch[a] == ch[a + 1]);
                }
                assert(chains_disjoint(ch1[ck1], ch1[ck2]));
            }
        } else if ck2 == ck {
            assert forall|a: int, j: int|
                0 <= a < ch2[ck1].len() && 0 <= j < nch.len() implies ch2[ck1][a]
                != nch[j] by {
                assert(ch2[ck1] == ch1[ck1]);
                if j < i {
                    assert(nch[j] == ch[j]);
                } else {
                    assert(nch[j] == ch[j + 1]);
                }
                assert(chains_disjoint(ch1[ck1], ch1[ck2]));
            }
        } else {
            assert(chains_disjoint(ch1[ck1], ch1[ck2]));
        }
    }
    assert forall|bk2: Seq<u8>| #[trigger] b2.dom().contains(bk2) implies bucket_covered_in(
        ch2,
        bk2,
    ) by {
        assert(b1.dom().contains(bk2));
        assert(bk2 != bk);
        assert(bucket_covered_in(ch1, bk2));
        let ck2 = choose|ck2: Seq<u8>| #[trigger] ch1.dom().contains(ck2) && ch1[ck2].contains(
            bk2,
        );
        if ck2 == ck {
            let j = choose|j: int| 0 <= j < ch.len() && ch[j] == bk2;
            assert(j != i);
            if j < i {
                assert(nch[j] == bk2);
            } else {
                assert(nch[j - 1] == bk2);
            }
            assert(ch2.dom().contains(ck) && ch2[ck].contains(bk2));
        } else {
            assert(ch2.dom().contains(ck2) && ch2[ck2].contains(bk2));
        }
    }
}

} // verus!

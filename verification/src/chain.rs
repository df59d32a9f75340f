use vstd::prelude::*;

use crate::key::null_key;
use crate::records::NftBucket;

verus! {

/// A valid sentinel-bounded consignment chain `ch` over the bucket arena `b`:
/// at least the two sentinels; every element a live record; no element
/// repeated; forward and back pointers agreeing between neighbours; and the
/// outward pointers of the two sentinels unassigned.
pub open spec fn chain_ok(b: Map<Seq<u8>, NftBucket>, ch: Seq<Seq<u8>>) -> bool {
    &&& ch.len() >= 2
    &&& forall|i: int| #![trigger b[ch[i]]] 0 <= i < ch.len() ==> b.dom().contains(ch[i])
    &&& forall|i: int, j: int| 0 <= i < j < ch.len() ==> ch[i] != ch[j]
    &&& forall|i: int| 0 <= i < ch.len() - 1 ==> (#[trigger] b[ch[i]]).next_list_item@ == ch[i + 1]
    &&& forall|i: int| 1 <= i < ch.len() ==> (#[trigger] b[ch[i]]).prev_list_item@ == ch[i - 1]
    &&& b[ch[0]].prev_list_item@ == null_key()
    &&& b[ch[ch.len() - 1]].next_list_item@ == null_key()
}

/// Every element of a valid chain is a live record.
pub proof fn lemma_chain_mem(b: Map<Seq<u8>, NftBucket>, ch: Seq<Seq<u8>>, i: int)
    requires
        chain_ok(b, ch),
        0 <= i < ch.len(),
    ensures
        b.dom().contains(ch[i]),
{
    let x = b[ch[i]];
}

/// A chain stays valid when the arena changes only outside it.
pub proof fn lemma_chain_unchanged(
    b: Map<Seq<u8>, NftBucket>,
    b2: Map<Seq<u8>, NftBucket>,
    ch: Seq<Seq<u8>>,
)
    requires
        chain_ok(b, ch),
        forall|i: int| 0 <= i < ch.len() ==> b2.dom().contains(#[trigger] ch[i]) && b2[ch[i]]
            == b[ch[i]],
    ensures
        chain_ok(b2, ch),
{
    assert(b2[ch[0]].prev_list_item@ == null_key());
    assert(b2[ch[ch.len() - 1]].next_list_item@ == null_key());
}

/// Inserting a fresh node right behind the head sentinel keeps the chain
/// valid: the head's forward pointer and the old first element's back
/// pointer move to the new node, whose own pointers embrace them.
pub proof fn lemma_chain_insert(
    b: Map<Seq<u8>, NftBucket>,
    ch: Seq<Seq<u8>>,
    k: Seq<u8>,
    node: NftBucket,
    h2: NftBucket,
    f2: NftBucket,
)
    requires
        chain_ok(b, ch),
        !b.dom().contains(k),
        node.prev_list_item@ == ch[0],
        node.next_list_item@ == ch[1],
        h2.next_list_item@ == k,
        h2.prev_list_item == b[ch[0]].prev_list_item,
        f2.prev_list_item@ == k,
        f2.next_list_item == b[ch[1]].next_list_item,
    ensures
        chain_ok(b.insert(ch[0], h2).insert(ch[1], f2).insert(k, node), ch.insert(1, k)),
{
    let b2 = b.insert(ch[0], h2).insert(ch[1], f2).insert(k, node);
    let ch2 = ch.insert(1, k);
    assert(ch2.len() == ch.len() + 1);
    assert(ch2[0] == ch[0]);
    assert(ch2[1] == k);
    assert forall|i: int| 2 <= i < ch2.len() implies ch2[i] == ch[i - 1] by {}
    assert(ch[0] != ch[1]);
    assert forall|i: int| 0 <= i < ch.len() implies ch[i] != k by {
        lemma_chain_mem(b, ch, i);
    }
    assert forall|i: int| 0 <= i < ch2.len() implies b2.dom().contains(#[trigger] ch2[i]) by {
        if i == 1 {
            assert(b2.dom().contains(k));
        } else if i == 0 {
            lemma_chain_mem(b, ch, 0);
        } else {
            lemma_chain_mem(b, ch, i - 1);
        }
    }
    assert forall|i: int, j: int| 0 <= i < j < ch2.len() implies ch2[i] != ch2[j] by {}
    assert forall|i: int| 0 <= i < ch2.len() - 1 implies b2[#[trigger] ch2[i]].next_list_item@
        == ch2[i + 1] by {
        if i == 0 {
            assert(b2[ch2[0]] == h2);
        } else if i == 1 {
            assert(b2[k] == node);
        } else if i == 2 && ch.len() == 2 {
            assert(b2[ch2[2]] == f2);
        } else if i == 2 {
            assert(ch2[2] == ch[1]);
            assert(b2[ch[1]] == f2);
            assert(f2.next_list_item@ == b[ch[1]].next_list_item@);
            assert(b[ch[1]].next_list_item@ == ch[2]);
        } else {
            assert(ch2[i] == ch[i - 1]);
            assert(ch[i - 1] != ch[0] && ch[i - 1] != ch[1] && ch[i - 1] != k);
            assert(b2[ch[i - 1]] == b[ch[i - 1]]);
        }
    }
    assert forall|i: int| 1 <= i < ch2.len() implies b2[#[trigger] ch2[i]].prev_list_item@
        == ch2[i - 1] by {
        if i == 1 {
            assert(b2[k] == node);
        } else if i == 2 {
            assert(ch2[2] == ch[1]);
            assert(b2[ch[1]] == f2);
        } else {
            assert(ch2[i] == ch[i - 1]);
            assert(ch[i - 1] != ch[0] && ch[i - 1] != ch[1] && ch[i - 1] != k);
            assert(b2[ch[i - 1]] == b[ch[i - 1]]);
            assert(b[ch[i - 1]].prev_list_item@ == ch[i - 2]);
            assert(ch2[i - 1] == ch[i - 2]);
        }
    }
    assert(b2[ch2[0]] == h2);
    assert(h2.prev_list_item@ == null_key());
    let last = ch2.len() - 1;
    if ch.len() == 2 {
        assert(ch2[last] == ch[1]);
        assert(b2[ch[1]] == f2);
        assert(f2.next_list_item@ == b[ch[1]].next_list_item@);
    } else {
        assert(ch2[last] == ch[ch.len() - 1]);
        assert(ch[ch.len() - 1] != ch[0] && ch[ch.len() - 1] != ch[1]);
        assert(b2[ch2[last]] == b[ch[ch.len() - 1]]);
    }
}

/// A listed node whose two neighbour pointers both name live records is an
/// interior node: it sits strictly between the sentinels, and its pointers
/// name exactly its chain neighbours.
pub proof fn lemma_interior_position(
    b: Map<Seq<u8>, NftBucket>,
    ch: Seq<Seq<u8>>,
    bk: Seq<u8>,
) -> (i: int)
    requires
        chain_ok(b, ch),
        !b.dom().contains(null_key()),
        ch.contains(bk),
        b.dom().contains(b[bk].prev_list_item@),
        b.dom().contains(b[bk].next_list_item@),
    ensures
        1 <= i <= ch.len() - 2,
        ch[i] == bk,
        ch[i - 1] == b[bk].prev_list_item@,
        ch[i + 1] == b[bk].next_list_item@,
{
    let i = choose|i: int| 0 <= i < ch.len() && ch[i] == bk;
    if i == 0 {
        assert(b[bk].prev_list_item@ == null_key());
        assert(false);
    }
    if i == ch.len() - 1 {
        assert(b[bk].next_list_item@ == null_key());
        assert(false);
    }
    i
}

/// Unlinking an interior node keeps the chain valid: its neighbours are
/// joined to each other and the node leaves the arena.
pub proof fn lemma_chain_remove(
    b: Map<Seq<u8>, NftBucket>,
    ch: Seq<Seq<u8>>,
    i: int,
    p2: NftBucket,
    n2: NftBucket,
)
    requires
        chain_ok(b, ch),
        1 <= i <= ch.len() - 2,
        p2.next_list_item@ == ch[i + 1],
        p2.prev_list_item == b[ch[i - 1]].prev_list_item,
        n2.prev_list_item@ == ch[i - 1],
        n2.next_list_item == b[ch[i + 1]].next_list_item,
    ensures
        chain_ok(
            b.insert(ch[i - 1], p2).insert(ch[i + 1], n2).remove(ch[i]),
            ch.remove(i),
        ),
{
    let b2 = b.insert(ch[i - 1], p2).insert(ch[i + 1], n2).remove(ch[i]);
    let ch2 = ch.remove(i);
    assert(ch2.len() == ch.len() - 1);
    assert(ch2.len() >= 2);
    assert forall|j: int| 0 <= j < ch2.len() implies ch2[j] == (if j < i {
        ch[j]
    } else {
        ch[j + 1]
    }) by {}
    assert(ch[i - 1] != ch[i] && ch[i] != ch[i + 1] && ch[i - 1] != ch[i + 1]);
    assert forall|j: int| 0 <= j < ch2.len() implies b2.dom().contains(#[trigger] ch2[j]) by {
        if j < i {
            lemma_chain_mem(b, ch, j);
        } else {
            lemma_chain_mem(b, ch, j + 1);
        }
    }
    assert forall|p: int, q: int| 0 <= p < q < ch2.len() implies ch2[p] != ch2[q] by {}
    assert forall|j: int| 0 <= j < ch2.len() - 1 implies b2[#[trigger] ch2[j]].next_list_item@
        == ch2[j + 1] by {
        if j == i - 1 {
            assert(ch2[j] == ch[i - 1]);
            assert(b2[ch[i - 1]] == p2);
            assert(ch2[j + 1] == ch[i + 1]);
        } else if j < i - 1 {
            assert(ch2[j] == ch[j] && ch2[j + 1] == ch[j + 1]);
            assert(ch[j] != ch[i - 1] && ch[j] != ch[i + 1] && ch[j] != ch[i]);
            assert(b2[ch[j]] == b[ch[j]]);
        } else {
            assert(ch2[j] == ch[j + 1] && ch2[j + 1] == ch[j + 2]);
            if j + 1 == i + 1 {
                assert(b2[ch[i + 1]] == n2);
                assert(n2.next_list_item@ == b[ch[i + 1]].next_list_item@);
                assert(b[ch[i + 1]].next_list_item@ == ch[i + 2]);
            } else {
                assert(ch[j + 1] != ch[i - 1] && ch[j + 1] != ch[i + 1] && ch[j + 1] != ch[i]);
                assert(b2[ch[j + 1]] == b[ch[j + 1]]);
            }
        }
    }
    assert forall|j: int| 1 <= j < ch2.len() implies b2[#[trigger] ch2[j]].prev_list_item@
        == ch2[j - 1] by {
        if j == i {
            assert(ch2[j] == ch[i + 1]);
            assert(b2[ch[i + 1]] == n2);
            assert(ch2[j - 1] == ch[i - 1]);
        } else if j < i {
            assert(ch2[j] == ch[j] && ch2[j - 1] == ch[j - 1]);
            if j == i - 1 {
                assert(b2[ch[i - 1]] == p2);
                assert(p2.prev_list_item@ == b[ch[i - 1]].prev_list_item@);
                assert(b[ch[i - 1]].prev_list_item@ == ch[i - 2]);
            } else {
                assert(ch[j] != ch[i - 1] && ch[j] != ch[i + 1] && ch[j] != ch[i]);
                assert(b2[ch[j]] == b[ch[j]]);
            }
        } else {
            assert(ch2[j] == ch[j + 1] && ch2[j - 1] == ch[j]);
            assert(ch[j + 1] != ch[i - 1] && ch[j + 1] != ch[i + 1] && ch[j + 1] != ch[i]);
            assert(b2[ch[j + 1]] == b[ch[j + 1]]);
        }
    }
    if i == 1 {
        assert(b2[ch2[0]] == p2);
        assert(p2.prev_list_item@ == b[ch[0]].prev_list_item@);
    } else {
        assert(ch2[0] == ch[0]);
        assert(ch[0] != ch[i - 1] && ch[0] != ch[i + 1] && ch[0] != ch[i]);
        assert(b2[ch[0]] == b[ch[0]]);
    }
    let last = ch.len() - 1;
    if i == ch.len() - 2 {
        assert(ch2[ch2.len() - 1] == ch[last]);
        assert(b2[ch[last]] == n2);
        assert(n2.next_list_item@ == b[ch[last]].next_list_item@);
    } else {
        assert(ch2[ch2.len() - 1] == ch[last]);
        assert(ch[last] != ch[i - 1] && ch[last] != ch[i + 1] && ch[last] != ch[i]);
        assert(b2[ch[last]] == b[ch[last]]);
    }
}

/// Under a valid chain the two degeneracy tests agree: the head points
/// straight at the tail exactly when the tail points straight back at the
/// head, and both hold exactly when no listing is left between them.
pub proof fn lemma_chain_degenerate(b: Map<Seq<u8>, NftBucket>, ch: Seq<Seq<u8>>)
    requires
        chain_ok(b, ch),
    ensures
        (b[ch[0]].next_list_item@ == ch[ch.len() - 1]) == (ch.len() == 2),
        (b[ch[ch.len() - 1]].prev_list_item@ == ch[0]) == (ch.len() == 2),
{
    let last = ch.len() - 1;
    assert(b[ch[0]].next_list_item@ == ch[1]);
    assert(b[ch[last]].prev_list_item@ == ch[last - 1]);
    if ch.len() > 2 {
        assert(ch[1] != ch[last]);
        assert(ch[last - 1] != ch[0]);
    }
}

} // verus!

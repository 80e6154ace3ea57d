//! Reading the executable search path: its directories, and which of them
//! are worth listing.
use std::collections::BTreeSet;

use vstd::prelude::*;

verus! {

broadcast use vstd::std_specs::btree::group_btree_axioms, vstd::laws_cmp::group_laws_cmp;

/// The pieces of `p` between colons, empty ones included, as splitting a
/// byte slice on `:` gives them.
pub open spec fn path_pieces(p: Seq<u8>) -> Seq<Seq<u8>>
    decreases p.len(),
{
    if p.len() == 0 {
        seq![Seq::empty()]
    } else {
        let prev = path_pieces(p.drop_last());
        if p.last() == 0x3a {
            prev.push(Seq::empty())
        } else {
            prev.update(prev.len() - 1, prev.last().push(p.last()))
        }
    }
}

/// Whether a piece names a directory: an empty piece is skipped.
pub open spec fn nonempty_piece(d: Seq<u8>) -> bool {
    d.len() > 0
}

/// The directories that a `PATH` value lists, in order: its non-empty
/// colon-separated pieces.
pub open spec fn search_dirs(p: Seq<u8>) -> Seq<Seq<u8>> {
    path_pieces(p).filter(|d: Seq<u8>| nonempty_piece(d))
}

/// The byte strings held by a vector of byte vectors.
pub open spec fn byte_views(v: Seq<Vec<u8>>) -> Seq<Seq<u8>> {
    v.map_values(|b: Vec<u8>| b@)
}

proof fn lemma_path_pieces_nonempty(p: Seq<u8>)
    ensures
        path_pieces(p).len() >= 1,
    decreases p.len(),
{
    if p.len() > 0 {
        lemma_path_pieces_nonempty(p.drop_last());
    }
}

/// The directories that the `PATH` value `p` lists, in order.
pub fn split_search_path(p: &[u8]) -> (dirs: Vec<Vec<u8>>)
    ensures
        byte_views(dirs@) == search_dirs(p@),
{
    broadcast use Seq::lemma_filter_push;

    let ghost pred = |d: Seq<u8>| nonempty_piece(d);
    let mut out: Vec<Vec<u8>> = Vec::new();
    let mut cur: Vec<u8> = Vec::new();
    let mut i: usize = 0;
    assert(p@.take(0) =~= Seq::<u8>::empty());
    assert(path_pieces(p@.take(0)).drop_last() =~= Seq::<Seq<u8>>::empty());
    assert(byte_views(out@) =~= Seq::<Seq<u8>>::empty());
    assert(Seq::<Seq<u8>>::empty().filter(pred) =~= Seq::<Seq<u8>>::empty()) by {
        reveal(Seq::filter);
    }
    while i < p.len()
        invariant
            i <= p@.len(),
            pred == (|d: Seq<u8>| nonempty_piece(d)),
            path_pieces(p@.take(i as int)).len() >= 1,
            cur@ == path_pieces(p@.take(i as int)).last(),
            byte_views(out@) == path_pieces(p@.take(i as int)).drop_last().filter(pred),
        decreases p.len() - i,
    {
        let ghost pieces = path_pieces(p@.take(i as int));
        let b = p[i];
        assert(p@.take(i + 1).drop_last() =~= p@.take(i as int));
        assert(p@.take(i + 1).last() == b);
        if b == 0x3a {
            let ghost piece = cur@;
            assert(pieces.push(Seq::empty()).drop_last() =~= pieces);
            assert(pieces =~= pieces.drop_last().push(piece));
            let ghost old_out = out@;
            if cur.len() > 0 {
                let done = cur;
                out.push(done);
                assert(byte_views(out@) =~= byte_views(old_out).push(piece));
            }
            cur = Vec::new();
            assert(cur@ =~= Seq::<u8>::empty());
            assert(path_pieces(p@.take(i + 1)) == pieces.push(Seq::empty()));
            proof {
                pieces.drop_last().lemma_filter_push(piece, pred);
                assert(pred(piece) == nonempty_piece(piece));
            }
        } else {
            cur.push(b);
            assert(path_pieces(p@.take(i + 1)) == pieces.update(
                pieces.len() - 1,
                pieces.last().push(b),
            ));
            assert(pieces.update(pieces.len() - 1, pieces.last().push(b)).drop_last()
                =~= pieces.drop_last());
        }
        i = i + 1;
        proof {
            lemma_path_pieces_nonempty(p@.take(i as int));
        }
    }
    assert(p@.take(i as int) =~= p@);
    let ghost pieces = path_pieces(p@);
    assert(pieces =~= pieces.drop_last().push(cur@));
    let ghost old_out = out@;
    let ghost piece = cur@;
    proof {
        pieces.drop_last().lemma_filter_push(piece, pred);
        assert(pred(piece) == nonempty_piece(piece));
    }
    if cur.len() > 0 {
        out.push(cur);
        assert(byte_views(out@) =~= byte_views(old_out).push(piece));
    }
    out
}

/// Whether the directory at position `i` is listed: its inode could not be
/// read, or no earlier directory had the same one.
pub open spec fn dir_is_new(inodes: Seq<Option<u64>>, i: int) -> bool {
    match inodes[i] {
        None => true,
        Some(ino) => !exists|j: int| 0 <= j < i && inodes[j] == Some(ino),
    }
}

/// The inodes known among the first `n` directories.
pub open spec fn inodes_seen(inodes: Seq<Option<u64>>, n: int) -> Set<u64> {
    Set::new(|x: u64| exists|j: int| 0 <= j < n && inodes[j] == Some(x))
}

/// Which directories of the search path to list, given the inode of each
/// (`None` where it could not be read): a directory already met under
/// another name is skipped.
pub fn dirs_to_scan(inodes: &Vec<Option<u64>>) -> (keep: Vec<bool>)
    ensures
        keep@.len() == inodes@.len(),
        forall|i: int| 0 <= i < inodes@.len() ==> keep@[i] == dir_is_new(inodes@, i),
{
    let mut seen: BTreeSet<u64> = BTreeSet::new();
    let mut keep: Vec<bool> = Vec::new();
    let mut i: usize = 0;
    assert(seen@ =~= inodes_seen(inodes@, 0));
    while i < inodes.len()
        invariant
            i <= inodes@.len(),
            keep@.len() == i,
            seen@ == inodes_seen(inodes@, i as int),
            forall|k: int| 0 <= k < i ==> keep@[k] == dir_is_new(inodes@, k),
        decreases inodes.len() - i,
    {
        match inodes[i] {
            Some(ino) => {
                let fresh = seen.insert(ino);
                assert(fresh == dir_is_new(inodes@, i as int)) by {
                    if !fresh {
                        let j = choose|j: int| 0 <= j < i && inodes@[j] == Some(ino);
                        assert(0 <= j < i && inodes@[j] == Some(ino));
                    }
                }
                keep.push(fresh);
            },
            None => {
                keep.push(true);
            },
        }
        assert(seen@ =~= inodes_seen(inodes@, i + 1));
        i = i + 1;
    }
    keep
}

} // verus!

//! Growing a cached merkle tree: a tree of one height is laid out level by
//! level (root first) as 32-byte nodes with one flag per node; growing it to a
//! taller tree moves each old level down by the difference in height, into a
//! tree whose other nodes are zero and flagged.
use vstd::prelude::*;
use vstd::arithmetic::power2::{lemma_pow2_adds, lemma_pow2_pos, lemma_pow2_strictly_increases, pow2};

verus! {

/// The size of a node, in bytes.
pub const HASHSIZE: usize = 32;

/// The first node of level `h` (the root is level 0).
pub open spec fn first_node(h: nat) -> int {
    pow2(h) - 1
}

/// One past the last node of level `h`.
pub open spec fn level_end(h: nat) -> int {
    pow2(h + 1) - 1
}

/// The number of nodes in a full tree of height `h`.
pub open spec fn nodes_in_tree(h: nat) -> int {
    2 * pow2(h) - 1
}

/// The number of nodes of the grown tree: a full tree of height `to`, plus
/// the nodes of the old leaf level beyond a full tree of height `from`.
pub open spec fn grown_nodes(old_len: nat, from: nat, to: nat) -> int {
    nodes_in_tree(to) + (old_len / HASHSIZE as nat) - nodes_in_tree(from)
}

/// The start of level `i`'s slice in a sequence with `unit` items per node.
pub open spec fn slice_lo(i: nat, unit: nat) -> int {
    first_node(i) * unit
}

/// The end of level `i`'s slice: the level's last node, or the end of the
/// sequence for the leaf level `leaf`.
pub open spec fn slice_hi(i: nat, leaf: nat, len: nat, unit: nat) -> int {
    if i == leaf {
        len as int
    } else {
        level_end(i) * unit
    }
}

/// Level `i` can be moved: its old slice and its new slice lie within their
/// sequences, and the new slice holds at least as many items as the old.
pub open spec fn level_ok(old_len: nat, new_len: nat, i: nat, from: nat, to: nat, unit: nat) -> bool {
    let new_i = i + to - from;
    let ol = slice_lo(i, unit);
    let oh = slice_hi(i, from, old_len, unit);
    let nl = slice_lo(new_i as nat, unit);
    let nh = slice_hi(new_i as nat, to, new_len, unit);
    &&& ol <= oh <= old_len
    &&& nl <= nh <= new_len
    &&& oh - ol <= nh - nl
}

/// `dst` with the items from `start` on replaced by `src`.
pub open spec fn copy_into<T>(dst: Seq<T>, start: int, src: Seq<T>) -> Seq<T> {
    Seq::new(dst.len(), |k: int| if start <= k < start + src.len() { src[k - start] } else { dst[k] })
}

/// `init` with levels `0..n` of `old` (of height `from`) moved to their
/// places in a tree of height `to`.
pub open spec fn grow_levels<T>(init: Seq<T>, old: Seq<T>, from: nat, to: nat, unit: nat, n: nat) -> Seq<T>
    decreases n,
{
    if n == 0 {
        init
    } else {
        let i = (n - 1) as nat;
        copy_into(
            grow_levels(init, old, from, to, unit, i),
            slice_lo((i + to - from) as nat, unit),
            old.subrange(slice_lo(i, unit), slice_hi(i, from, old.len(), unit)),
        )
    }
}

/// Powers of two grow with the exponent.
proof fn lemma_pow2_le(a: nat, b: nat)
    requires
        a <= b,
    ensures
        pow2(a) <= pow2(b),
{
    if a < b {
        lemma_pow2_strictly_increases(a, b);
    }
}

/// Every level of the old tree fits in the grown tree, for the bytes and for
/// the flags.
pub open spec fn grow_fits(old_bytes_len: nat, old_flags_len: nat, from: nat, to: nat) -> bool {
    let n = grown_nodes(old_bytes_len, from, to);
    forall|i: nat|
        i <= from ==> #[trigger] level_ok(old_bytes_len, (n * HASHSIZE) as nat, i, from, to, HASHSIZE as nat)
            && level_ok(old_flags_len, n as nat, i, from, to, 1)
}

/// The bytes of the grown tree: zeros, with the old levels moved down.
pub open spec fn grown_bytes(old_bytes: Seq<u8>, from: nat, to: nat) -> Seq<u8> {
    let n = grown_nodes(old_bytes.len(), from, to);
    grow_levels(Seq::new((n * HASHSIZE) as nat, |k: int| 0u8), old_bytes, from, to, HASHSIZE as nat, from + 1)
}

/// The flags of the grown tree: all set, with the old levels moved down.
pub open spec fn grown_flags(old_bytes_len: nat, old_flags: Seq<bool>, from: nat, to: nat) -> Seq<bool> {
    let n = grown_nodes(old_bytes_len, from, to);
    grow_levels(Seq::new(n as nat, |k: int| true), old_flags, from, to, 1, from + 1)
}

/// `2^h` as a machine integer, when it fits.
fn pow2_usize(h: usize) -> (r: usize)
    requires
        h < usize::BITS,
    ensures
        r == pow2(h as nat),
{
    proof {
        vstd::bits::lemma_usize_pow2_no_overflow(h as nat);
        assert(1usize * pow2(h as nat) == pow2(h as nat));
        vstd::bits::lemma_usize_shl_is_mul(1, h);
    }
    1usize << h
}

/// Grows the cached tree `old_bytes`/`old_flags` of height `from_height` to
/// height `to_height`: the new tree has [`grown_nodes`] nodes, all zero and
/// flagged, except that each old level `i` is copied to level
/// `i + to_height - from_height` (the leaf level with everything after it).
/// `None` when some level does not fit (see [`level_ok`]), such as when
/// there are fewer flags than nodes above the leaf level.
pub fn grow_merkle_cache(old_bytes: &[u8], old_flags: &[bool], from_height: usize, to_height: usize) -> (r:
    Option<(Vec<u8>, Vec<bool>)>)
    requires
        from_height <= to_height,
        to_height + 1 < usize::BITS,
        old_bytes@.len() / (HASHSIZE as nat) >= nodes_in_tree(from_height as nat),
        grown_nodes(old_bytes@.len(), from_height as nat, to_height as nat) * HASHSIZE <= usize::MAX,
    ensures
        grow_fits(old_bytes@.len(), old_flags@.len(), from_height as nat, to_height as nat) ==> (r matches Some((b, f))
            && b@ == grown_bytes(old_bytes@, from_height as nat, to_height as nat)
            && f@ == grown_flags(old_bytes@.len(), old_flags@, from_height as nat, to_height as nat)),
        !grow_fits(old_bytes@.len(), old_flags@.len(), from_height as nat, to_height as nat) ==> r is None,
{
    proof {
        lemma_pow2_strictly_increases(from_height as nat, (to_height + 1) as nat);
        lemma_pow2_pos(from_height as nat);
        lemma_pow2_adds(to_height as nat, 1);
        vstd::arithmetic::power2::lemma2_to64();
    }
    let to_nodes = {
        let old_nodes = old_bytes.len() / HASHSIZE;
        let from_full = 2 * pow2_usize(from_height) - 1;
        let additional_nodes = old_nodes - from_full;
        let to_full = 2 * pow2_usize(to_height) - 1;
        to_full + additional_nodes
    };
    let ghost n = grown_nodes(old_bytes@.len(), from_height as nat, to_height as nat);
    assert(to_nodes == n);
    let new_len = to_nodes * HASHSIZE;
    let mut bytes: Vec<u8> = Vec::new();
    let mut k: usize = 0;
    while k < new_len
        invariant
            k <= new_len,
            bytes@ == Seq::new(k as nat, |j: int| 0u8),
        decreases new_len - k,
    {
        bytes.push(0);
        k = k + 1;
        proof {
            assert(bytes@ =~= Seq::new(k as nat, |j: int| 0u8));
        }
    }
    let mut flags: Vec<bool> = Vec::new();
    let mut k: usize = 0;
    while k < to_nodes
        invariant
            k <= to_nodes,
            flags@ == Seq::new(k as nat, |j: int| true),
        decreases to_nodes - k,
    {
        flags.push(true);
        k = k + 1;
        proof {
            assert(flags@ =~= Seq::new(k as nat, |j: int| true));
        }
    }
    let ghost bytes0 = bytes@;
    let ghost flags0 = flags@;
    proof {
        assert(nodes_in_tree(to_height as nat) <= n);
        assert(level_end(to_height as nat) == nodes_in_tree(to_height as nat));
        assert(level_end(to_height as nat) * 32 <= n * 32) by (nonlinear_arith)
            requires
                level_end(to_height as nat) <= n,
        ;
    }
    let mut i: usize = 0;
    while i <= from_height
        invariant
            i <= from_height + 1,
            from_height <= to_height,
            to_height + 1 < usize::BITS,
            level_end(to_height as nat) * 32 <= usize::MAX,
            bytes@.len() == new_len,
            flags@.len() == to_nodes,
            new_len == to_nodes * HASHSIZE,
            to_nodes == n,
            n == grown_nodes(old_bytes@.len(), from_height as nat, to_height as nat),
            bytes@ == grow_levels(bytes0, old_bytes@, from_height as nat, to_height as nat, HASHSIZE as nat, i as nat),
            flags@ == grow_levels(flags0, old_flags@, from_height as nat, to_height as nat, 1, i as nat),
            forall|j: nat|
                j < i ==> #[trigger] level_ok(
                    old_bytes@.len(),
                    new_len as nat,
                    j,
                    from_height as nat,
                    to_height as nat,
                    HASHSIZE as nat,
                ) && level_ok(old_flags@.len(), to_nodes as nat, j, from_height as nat, to_height as nat, 1),
        decreases from_height + 1 - i,
    {
        let byte_slice = level_slice(i, from_height, to_height, old_bytes.len(), new_len, HASHSIZE);
        let flag_slice = level_slice(i, from_height, to_height, old_flags.len(), to_nodes, 1);
        match (byte_slice, flag_slice) {
            (Some((ob_lo, ob_hi, nb_lo)), Some((of_lo, of_hi, nf_lo))) => {
                proof {
                    assert(level_ok(old_bytes@.len(), new_len as nat, i as nat, from_height as nat, to_height as nat, HASHSIZE as nat));
                    assert(level_ok(old_flags@.len(), to_nodes as nat, i as nat, from_height as nat, to_height as nat, 1));
                }
                copy_level(&mut bytes, nb_lo, old_bytes, ob_lo, ob_hi);
                copy_level(&mut flags, nf_lo, old_flags, of_lo, of_hi);
                proof {
                    assert forall|j: nat| j < i + 1 implies #[trigger] level_ok(
                        old_bytes@.len(),
                        new_len as nat,
                        j,
                        from_height as nat,
                        to_height as nat,
                        HASHSIZE as nat,
                    ) && level_ok(old_flags@.len(), to_nodes as nat, j, from_height as nat, to_height as nat, 1) by {
                        if j < i {
                        }
                    }
                }
            },
            _ => {
                proof {
                    assert(new_len as nat == (n * HASHSIZE) as nat);
                    assert(to_nodes as nat == n as nat);
                    let ib = level_ok(old_bytes@.len(), (n * HASHSIZE) as nat, i as nat, from_height as nat, to_height as nat, HASHSIZE as nat);
                    let iflag = level_ok(old_flags@.len(), n as nat, i as nat, from_height as nat, to_height as nat, 1);
                    assert(!(ib && iflag));
                }
                return None;
            },
        }
        i = i + 1;
    }
    proof {
        assert(new_len as nat == (n * HASHSIZE) as nat);
        assert(to_nodes as nat == n as nat);
        assert(bytes0 == Seq::new((n * HASHSIZE) as nat, |k: int| 0u8));
        assert(flags0 == Seq::new(n as nat, |k: int| true));
        assert forall|j: nat| j <= from_height implies #[trigger] level_ok(
            old_bytes@.len(),
            (n * HASHSIZE) as nat,
            j,
            from_height as nat,
            to_height as nat,
            HASHSIZE as nat,
        ) && level_ok(old_flags@.len(), n as nat, j, from_height as nat, to_height as nat, 1) by {
            assert(level_ok(old_bytes@.len(), new_len as nat, j, from_height as nat, to_height as nat, HASHSIZE as nat));
        }
    }
    Some((bytes, flags))
}

/// The slice of level `i` of the old tree (start and end) and the start of
/// its slice in the new tree, in a sequence with `unit` items per node; none
/// when the level does not fit (see [`level_ok`]).
fn level_slice(i: usize, from: usize, to: usize, old_len: usize, new_len: usize, unit: usize) -> (r: Option<
    (usize, usize, usize),
>)
    requires
        i <= from <= to,
        to + 1 < usize::BITS,
        level_end(to as nat) * unit <= usize::MAX,
    ensures
        r is Some <==> level_ok(old_len as nat, new_len as nat, i as nat, from as nat, to as nat, unit as nat),
        r matches Some((ol, oh, nl)) ==> ol == slice_lo(i as nat, unit as nat) && oh == slice_hi(
            i as nat,
            from as nat,
            old_len as nat,
            unit as nat,
        ) && nl == slice_lo((i + to - from) as nat, unit as nat),
{
    let new_i = i + to - from;
    proof {
        lemma_pow2_le(i as nat, (i + 1) as nat);
        lemma_pow2_le((i + 1) as nat, (to + 1) as nat);
        lemma_pow2_le(new_i as nat, (new_i + 1) as nat);
        lemma_pow2_le((new_i + 1) as nat, (to + 1) as nat);
        lemma_pow2_pos(i as nat);
        lemma_pow2_pos(new_i as nat);
        let u = unit as int;
        let e = level_end(to as nat);
        assert(first_node(i as nat) * u <= e * u) by (nonlinear_arith)
            requires
                first_node(i as nat) <= e,
                u >= 0,
        ;
        assert(level_end(i as nat) * u <= e * u) by (nonlinear_arith)
            requires
                level_end(i as nat) <= e,
                u >= 0,
        ;
        assert(first_node(new_i as nat) * u <= e * u) by (nonlinear_arith)
            requires
                first_node(new_i as nat) <= e,
                u >= 0,
        ;
        assert(level_end(new_i as nat) * u <= e * u) by (nonlinear_arith)
            requires
                level_end(new_i as nat) <= e,
                u >= 0,
        ;
    }
    let first_old = pow2_usize(i) - 1;
    let end_old = pow2_usize(i + 1) - 1;
    let first_new = pow2_usize(new_i) - 1;
    let end_new = pow2_usize(new_i + 1) - 1;
    let ol = first_old * unit;
    let oh = if i == from { old_len } else { end_old * unit };
    let nl = first_new * unit;
    let nh = if new_i == to { new_len } else { end_new * unit };
    if ol <= oh && oh <= old_len && nl <= nh && nh <= new_len && oh - ol <= nh - nl {
        Some((ol, oh, nl))
    } else {
        None
    }
}

/// Copies `src[lo..hi]` into `dst` from `start` on.
fn copy_level<T: Copy>(dst: &mut Vec<T>, start: usize, src: &[T], lo: usize, hi: usize)
    requires
        lo <= hi <= src@.len(),
        start + (hi - lo) <= old(dst)@.len(),
    ensures
        final(dst)@ == copy_into(old(dst)@, start as int, src@.subrange(lo as int, hi as int)),
{
    let dst_len = dst.len();
    let ghost d0 = dst@;
    let mut j: usize = lo;
    while j < hi
        invariant
            lo <= j <= hi <= src@.len(),
            start + (hi - lo) <= d0.len(),
            dst@.len() == d0.len(),
            d0.len() == dst_len,
            dst@ == copy_into(d0, start as int, src@.subrange(lo as int, j as int)),
        decreases hi - j,
    {
        dst.set(start + (j - lo), src[j]);
        j = j + 1;
        proof {
            assert(dst@ =~= copy_into(d0, start as int, src@.subrange(lo as int, j as int)));
        }
    }
}

} // verus!

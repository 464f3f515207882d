//! Alignment of archive entry data: the entry's name is padded with NUL
//! bytes so that the data after the header starts at an aligned offset.
use vstd::arithmetic::div_mod::{lemma_fundamental_div_mod, lemma_mod_multiples_vanish, lemma_mod_self_0, lemma_small_mod,
};
use vstd::prelude::*;
use vstd::string::StringSliceAdditionalSpecFns;

verus! {

/// The offset at which archive entry data should start.
pub const NEWC_DATA_ALIGN_GOAL: usize = 4096;

/// The length of a newc archive header, before the name.
pub const NEWC_HDR_LEN: usize = 110;

/// The bytes needed after offset `off` to reach a multiple of `alignment`.
pub open spec fn pad_len(off: nat, alignment: nat) -> nat
    recommends
        alignment > 0,
{
    ((alignment - off % alignment) % alignment as int) as nat
}

/// The length of the padded name for a header of `hdr` bytes and a name of
/// `l` bytes: unchanged when header, name and terminating NUL already pass
/// `alignment`.
pub open spec fn aligned_name_len(hdr: nat, l: nat, alignment: nat) -> nat {
    if hdr + l + 1 > alignment {
        l
    } else {
        l + pad_len(hdr + l + 1, alignment)
    }
}

proof fn lemma_pad_len(off: nat, alignment: nat)
    requires
        alignment > 0,
    ensures
        pad_len(off, alignment) < alignment,
        (off + pad_len(off, alignment)) as int % (alignment as int) == 0,
{
    let a = alignment as int;
    let k = off as int % a;
    lemma_fundamental_div_mod(off as int, a);
    if k == 0 {
        lemma_mod_self_0(a);
        assert(pad_len(off, alignment) == 0);
    } else {
        lemma_small_mod((a - k) as nat, alignment);
        assert(pad_len(off, alignment) == a - k);
        assert(off + (a - k) == a * (off as int / a + 1)) by (nonlinear_arith)
            requires
                off as int == a * (off as int / a) + k,
        ;
        lemma_mod_multiples_vanish(off as int / a + 1, 0, a);
        lemma_small_mod(0, alignment);
    }
}

/// The padding that brings offset `off` to a multiple of `alignment`.
pub fn archive_padlen(off: usize, alignment: usize) -> (r: usize)
    requires
        alignment > 0,
    ensures
        r == pad_len(off as nat, alignment as nat),
        r < alignment,
        (off + r) % (alignment as int) == 0,
{
    proof {
        lemma_pad_len(off as nat, alignment as nat);
    }
    (alignment - (off % alignment)) % alignment
}

/// The name `path` followed by the NUL bytes that make a header of
/// `hdr_len` bytes, the name and its terminating NUL end at a multiple of
/// `alignment`; `path` unchanged when they already pass that multiple.
pub fn align_name(path: &[u8], hdr_len: usize, alignment: usize) -> (r: Vec<u8>)
    requires
        alignment > 0,
    ensures
        r@.len() == aligned_name_len(hdr_len as nat, path@.len(), alignment as nat),
        r@.subrange(0, path@.len() as int) == path@,
        forall|i: int| path@.len() <= i < r@.len() ==> r@[i] == 0u8,
        hdr_len + path@.len() + 1 > alignment ==> r@ == path@,
        hdr_len + path@.len() + 1 <= alignment ==> (hdr_len + r@.len() + 1) % (alignment as int)
            == 0,
{
    let mut p: Vec<u8> = Vec::new();
    let mut i: usize = 0;
    while i < path.len()
        invariant
            i <= path@.len(),
            p@ == path@.subrange(0, i as int),
        decreases path@.len() - i,
    {
        p.push(path[i]);
        assert(path@.subrange(0, i + 1) =~= path@.subrange(0, i as int).push(path@[i as int]));
        i = i + 1;
    }
    assert(p@ =~= path@);
    if path.len() >= alignment || hdr_len > alignment - 1 - path.len() {
        assert(p@.subrange(0, path@.len() as int) =~= path@);
        return p;
    }
    let cur_dataoff = hdr_len + path.len() + 1;
    let padlen = archive_padlen(cur_dataoff, alignment);
    let mut j: usize = 0;
    while j < padlen
        invariant
            j <= padlen,
            p@.len() == path@.len() + j,
            p@.subrange(0, path@.len() as int) == path@,
            forall|k: int| path@.len() <= k < p@.len() ==> p@[k] == 0u8,
        decreases padlen - j,
    {
        p.push(0u8);
        assert(p@.subrange(0, path@.len() as int) =~= path@);
        j = j + 1;
    }
    assert(hdr_len + p@.len() + 1 == cur_dataoff + padlen);
    p
}

/// `path` padded for a newc header so that the entry's data starts at a
/// multiple of `NEWC_DATA_ALIGN_GOAL`; unchanged when the name is too long.
pub fn hdr_fname_align(path: &str) -> (r: Vec<u8>)
    ensures
        r@.len() == aligned_name_len(
            NEWC_HDR_LEN as nat,
            path.spec_bytes().len(),
            NEWC_DATA_ALIGN_GOAL as nat,
        ),
        r@.subrange(0, path.spec_bytes().len() as int) == path.spec_bytes(),
        forall|i: int| path.spec_bytes().len() <= i < r@.len() ==> r@[i] == 0u8,
        NEWC_HDR_LEN + path.spec_bytes().len() + 1 > NEWC_DATA_ALIGN_GOAL ==> r@
            == path.spec_bytes(),
        NEWC_HDR_LEN + path.spec_bytes().len() + 1 <= NEWC_DATA_ALIGN_GOAL ==> (NEWC_HDR_LEN
            + r@.len() + 1) % (NEWC_DATA_ALIGN_GOAL as int) == 0,
{
    align_name(path.as_bytes(), NEWC_HDR_LEN, NEWC_DATA_ALIGN_GOAL)
}

/// For a header of `hdr` bytes and a name of `l` bytes that fit before the
/// alignment boundary together with the terminating NUL, the padded name
/// makes them end exactly on a multiple of the alignment; otherwise the name
/// keeps its length.
pub proof fn lemma_name_alignment(hdr: nat, l: nat, alignment: nat)
    requires
        alignment > 0,
    ensures
        hdr + l + 1 <= alignment ==> (hdr + aligned_name_len(hdr, l, alignment) + 1) as int % (
        alignment as int) == 0,
        hdr + l + 1 > alignment ==> aligned_name_len(hdr, l, alignment) == l,
{
    if hdr + l + 1 <= alignment {
        lemma_pad_len(hdr + l + 1, alignment);
    }
}

} // verus!

//! Small executable helpers over byte vectors and lists of byte vectors.
//!
//! Shader paths and shader source text are both held as plain bytes, so the
//! whole pipeline rests on these few primitives.

use vstd::prelude::*;

verus! {

/// The byte sequences behind a list of byte vectors.
pub open spec fn dv(v: Seq<Vec<u8>>) -> Seq<Seq<u8>> {
    v.map_values(|x: Vec<u8>| x@)
}

pub proof fn lemma_dv_push(v: Seq<Vec<u8>>, x: Vec<u8>)
    ensures
        dv(v.push(x)) =~= dv(v).push(x@),
{
    assert forall|i: int| 0 <= i < v.len() + 1 implies dv(v.push(x))[i] == dv(v).push(x@)[i] by {
        if i < v.len() {
            assert(v.push(x)[i] == v[i]);
        } else {
            assert(v.push(x)[i] == x);
        }
    }
}

/// The spec values behind a list of viewable values.
pub open spec fn vmap<T: View>(v: Seq<T>) -> Seq<T::V> {
    v.map_values(|x: T| x@)
}

pub proof fn lemma_vmap_push<T: View>(v: Seq<T>, x: T)
    ensures
        vmap(v.push(x)) =~= vmap(v).push(x@),
{
    assert forall|i: int| 0 <= i < v.len() + 1 implies vmap(v.push(x))[i] == vmap(v).push(
        x@,
    )[i] by {
        if i < v.len() {
            assert(v.push(x)[i] == v[i]);
        } else {
            assert(v.push(x)[i] == x);
        }
    }
}

/// Byte-for-byte equality of two byte vectors.
pub fn bytes_eq(a: &Vec<u8>, b: &Vec<u8>) -> (r: bool)
    ensures
        r == (a@ == b@),
{
    if a.len() != b.len() {
        return false;
    }
    let mut i: usize = 0;
    while i < a.len()
        invariant
            a@.len() == b@.len(),
            i <= a@.len(),
            forall|k: int| 0 <= k < i ==> a@[k] == b@[k],
        decreases a@.len() - i,
    {
        if a[i] != b[i] {
            return false;
        }
        i = i + 1;
    }
    proof {
        assert(a@ =~= b@);
    }
    true
}

/// A fresh copy of a byte vector.
pub fn clone_bytes(v: &Vec<u8>) -> (r: Vec<u8>)
    ensures
        r@ == v@,
{
    let mut r: Vec<u8> = Vec::new();
    let mut i: usize = 0;
    while i < v.len()
        invariant
            i <= v@.len(),
            r@ == v@.subrange(0, i as int),
        decreases v@.len() - i,
    {
        r.push(v[i]);
        i = i + 1;
        proof {
            assert(v@.subrange(0, i as int) =~= v@.subrange(0, i - 1).push(v@[i - 1]));
        }
    }
    proof {
        assert(v@.subrange(0, v@.len() as int) =~= v@);
    }
    r
}

/// A fresh copy of `v[from..to]`.
pub fn subrange_vec(v: &Vec<u8>, from: usize, to: usize) -> (r: Vec<u8>)
    requires
        from <= to <= v@.len(),
    ensures
        r@ == v@.subrange(from as int, to as int),
{
    let mut r: Vec<u8> = Vec::new();
    let mut i: usize = from;
    while i < to
        invariant
            from <= i <= to <= v@.len(),
            r@ == v@.subrange(from as int, i as int),
        decreases to - i,
    {
        r.push(v[i]);
        i = i + 1;
        proof {
            assert(v@.subrange(from as int, i as int) =~= v@.subrange(
                from as int,
                i - 1,
            ).push(v@[i - 1]));
        }
    }
    r
}

/// Appends all of `src` to `dst`.
pub fn push_all(dst: &mut Vec<u8>, src: &Vec<u8>)
    ensures
        final(dst)@ == old(dst)@ + src@,
{
    let mut i: usize = 0;
    while i < src.len()
        invariant
            i <= src@.len(),
            dst@ == old(dst)@ + src@.subrange(0, i as int),
        decreases src@.len() - i,
    {
        dst.push(src[i]);
        i = i + 1;
        proof {
            assert(old(dst)@ + src@.subrange(0, i as int) =~= (old(dst)@ + src@.subrange(
                0,
                i - 1,
            )).push(src@[i - 1]));
        }
    }
    proof {
        assert(old(dst)@ + src@.subrange(0, src@.len() as int) =~= old(dst)@ + src@);
    }
}

/// Whether the list holds a byte vector equal to `x`.
pub fn contains_bytes(list: &Vec<Vec<u8>>, x: &Vec<u8>) -> (r: bool)
    ensures
        r == dv(list@).contains(x@),
{
    let mut i: usize = 0;
    while i < list.len()
        invariant
            i <= list@.len(),
            forall|k: int| 0 <= k < i ==> list@[k]@ != x@,
        decreases list@.len() - i,
    {
        if bytes_eq(&list[i], x) {
            proof {
                assert(dv(list@)[i as int] == x@);
            }
            return true;
        }
        i = i + 1;
    }
    proof {
        assert forall|j: int| 0 <= j < dv(list@).len() implies dv(list@)[j] != x@ by {
            assert(list@[j]@ != x@);
        }
    }
    false
}

/// A fresh copy of a list of byte vectors.
pub fn clone_list(v: &Vec<Vec<u8>>) -> (r: Vec<Vec<u8>>)
    ensures
        dv(r@) == dv(v@),
{
    let mut r: Vec<Vec<u8>> = Vec::new();
    let mut i: usize = 0;
    while i < v.len()
        invariant
            i <= v@.len(),
            dv(r@) == dv(v@).subrange(0, i as int),
        decreases v@.len() - i,
    {
        let c = clone_bytes(&v[i]);
        proof {
            lemma_dv_push(r@, c);
            assert(dv(v@).subrange(0, i + 1) =~= dv(v@).subrange(0, i as int).push(dv(v@)[i as int]));
            assert(dv(v@)[i as int] == v@[i as int]@);
        }
        r.push(c);
        i = i + 1;
    }
    proof {
        assert(dv(v@).subrange(0, v@.len() as int) =~= dv(v@));
    }
    r
}

/// Element-wise equality of two lists of byte vectors.
pub fn lists_eq(a: &Vec<Vec<u8>>, b: &Vec<Vec<u8>>) -> (r: bool)
    ensures
        r == (dv(a@) == dv(b@)),
{
    if a.len() != b.len() {
        proof {
            assert(dv(a@).len() != dv(b@).len());
        }
        return false;
    }
    let mut i: usize = 0;
    while i < a.len()
        invariant
            a@.len() == b@.len(),
            i <= a@.len(),
            forall|k: int| 0 <= k < i ==> dv(a@)[k] == dv(b@)[k],
        decreases a@.len() - i,
    {
        if !bytes_eq(&a[i], &b[i]) {
            proof {
                assert(dv(a@)[i as int] != dv(b@)[i as int]);
            }
            return false;
        }
        proof {
            assert(dv(a@)[i as int] == dv(b@)[i as int]);
        }
        i = i + 1;
    }
    proof {
        assert(dv(a@) =~= dv(b@));
    }
    true
}

/// Appends `x` unless an equal byte vector is already in the list; this is
/// how dependency lists keep first-occurrence order without duplicates.
pub open spec fn sp_push_unique(l: Seq<Seq<u8>>, x: Seq<u8>) -> Seq<Seq<u8>> {
    if l.contains(x) {
        l
    } else {
        l.push(x)
    }
}

pub fn push_unique(list: &mut Vec<Vec<u8>>, x: &Vec<u8>)
    ensures
        dv(final(list)@) == sp_push_unique(dv(old(list)@), x@),
{
    if !contains_bytes(list, x) {
        let c = clone_bytes(x);
        proof {
            lemma_dv_push(list@, c);
        }
        list.push(c);
    }
}

} // verus!

use std::sync::Arc;

use vstd::arithmetic::div_mod::lemma_div_is_ordered;
use vstd::arithmetic::power2::{lemma_pow2_pos, lemma_pow2_strictly_increases, lemma_pow2_unfold, pow2};
use vstd::bits::lemma_usize_shr_is_div;
use vstd::prelude::*;

use crate::dyn_layout::{path_view, DynLayout};
use crate::dyn_struct::{splice, DynStruct};
use crate::update_bitmask::UpdateBitmask;

verus! {

/// Whether `s` is a power of two that a `usize` can hold.
pub open spec fn is_stride(s: usize) -> bool {
    exists|k: nat| k < usize::BITS && s == pow2(k)
}

/// A record that remembers which granules of its buffer were written since the
/// change state was last cleared. A granule is `stride()` bytes, a power of two.
#[derive(Clone, Debug)]
pub struct TrackedDynStruct {
    pub dyn_struct: DynStruct,
    pub update_bitmask: UpdateBitmask,
    /// Base-2 logarithm of the granule size.
    pub update_stride_exp: usize,
}

impl TrackedDynStruct {
    /// Base-2 logarithm of the granule size.
    pub open spec fn stride_exp(&self) -> nat {
        self.update_stride_exp as nat
    }

    /// Granule size in bytes.
    pub open spec fn stride(&self) -> nat {
        pow2(self.stride_exp())
    }

    /// The number of whole granules in the buffer.
    pub open spec fn granules(&self) -> int {
        self.dyn_struct.data@.len() as int / self.stride() as int
    }

    /// First granule and end granule of the bytes `[offset, offset + len)`.
    pub open spec fn granule_range(&self, offset: int, len: int) -> (int, int) {
        (offset / self.stride() as int, (offset + len) / self.stride() as int)
    }

    pub open spec fn inv(&self) -> bool {
        &&& self.dyn_struct.inv()
        &&& self.update_bitmask.inv()
        &&& self.stride_exp() < usize::BITS
        &&& self.granules() <= self.update_bitmask.capacity()
        &&& self.update_bitmask.capacity() <= usize::MAX
    }

    /// `self` is `prev` with the granules of a write of `len` bytes at `offset` marked.
    pub open spec fn marked_from(&self, prev: &Self, offset: int, len: int) -> bool {
        let (first, end) = prev.granule_range(offset, len);
        &&& self.stride_exp() == prev.stride_exp()
        &&& self.update_bitmask.words().len() == prev.update_bitmask.words().len()
        &&& forall|i: int|
            0 <= i < self.update_bitmask.capacity() ==> #[trigger] self.update_bitmask.bit(i) == (
            prev.update_bitmask.bit(i) || first <= i < end)
    }

    /// The change state holds no mark.
    pub open spec fn all_clear(&self) -> bool {
        forall|i: int| 0 <= i < self.update_bitmask.capacity() ==> !#[trigger] self.update_bitmask.bit(i)
    }

    /// The base-2 logarithm of a power of two.
    fn stride_log2(update_stride: usize) -> (e: usize)
        requires
            is_stride(update_stride),
        ensures
            e < usize::BITS,
            pow2(e as nat) == update_stride,
    {
        let ghost k = choose|k: nat| k < usize::BITS && update_stride == pow2(k);
        let mut e: usize = 0;
        let mut p: usize = 1;
        proof {
            vstd::arithmetic::power2::lemma2_to64();
        }
        while p < update_stride
            invariant
                update_stride == pow2(k),
                k < usize::BITS,
                p == pow2(e as nat),
                e <= k,
            decreases k - e,
        {
            proof {
                if e == k {
                    assert(false);
                }
                lemma_pow2_unfold((e + 1) as nat);
                if e + 1 < k {
                    lemma_pow2_strictly_increases((e + 1) as nat, k);
                }
            }
            p = p * 2;
            e += 1;
        }
        proof {
            if e < k {
                lemma_pow2_strictly_increases(e as nat, k);
            }
        }
        e
    }

    /// A tracked record over `data`, which must be exactly as long as the layout.
    /// `update_stride` is the granule size; with `update_default` every granule
    /// starts marked, without it none does.
    pub fn from_bytes(data: Vec<u8>, layout: Arc<DynLayout>, update_stride: usize, update_default: bool) -> (r: Self)
        requires
            data@.len() == layout.size,
            data@.len() + 15 <= usize::MAX,
            layout.wf(),
            layout.fields_within(0, layout.size as int),
            is_stride(update_stride),
        ensures
            r.dyn_struct.data@ == data@,
            r.dyn_struct.layout == layout,
            r.stride() == update_stride,
            r.update_bitmask.words().len() == (r.granules() + 15) / 16,
            r.inv(),
            forall|i: int|
                0 <= i < r.update_bitmask.capacity() ==> #[trigger] r.update_bitmask.bit(i) == update_default,
    {
        let e = Self::stride_log2(update_stride);
        proof {
            lemma_pow2_pos(e as nat);
        }
        let n: usize = data.len() / update_stride;
        let update_bitmask = UpdateBitmask::new(n, update_default);
        let dyn_struct = DynStruct::from_bytes(data, layout);
        let r = TrackedDynStruct { dyn_struct, update_bitmask, update_stride_exp: e };
        assert(16 * ((n + 15) / 16) <= n + 15 && n <= 16 * ((n + 15) / 16)) by (nonlinear_arith);
        r
    }

    /// A tracked record over a copy of `data`; see `from_bytes`.
    pub fn new(data: &[u8], layout: &Arc<DynLayout>, update_stride: usize, update_default: bool) -> (r: Self)
        requires
            data@.len() == layout.size,
            data@.len() + 15 <= usize::MAX,
            layout.wf(),
            layout.fields_within(0, layout.size as int),
            is_stride(update_stride),
        ensures
            r.dyn_struct.data@ == data@,
            r.dyn_struct.layout == *layout,
            r.stride() == update_stride,
            r.update_bitmask.words().len() == (r.granules() + 15) / 16,
            r.inv(),
            forall|i: int|
                0 <= i < r.update_bitmask.capacity() ==> #[trigger] r.update_bitmask.bit(i) == update_default,
    {
        Self::from_bytes(vstd::slice::slice_to_vec(data), Arc::clone(layout), update_stride, update_default)
    }

    /// The bytes at the end of a path; see `DynStruct::get`.
    pub fn get(&self, path: &[&str]) -> (r: Option<&[u8]>)
        requires
            self.inv(),
        ensures
            r matches Some(b) ==> self.dyn_struct.value_at(path_view(path@)) == Some(b@),
            r is None <==> self.dyn_struct.layout.resolve(path_view(path@)) is None,
    {
        self.dyn_struct.get(path)
    }

    /// `len` bytes from `offset`.
    pub fn get_raw(&self, offset: usize, len: usize) -> (r: &[u8])
        requires
            offset + len <= self.dyn_struct.data.len(),
        ensures
            r@ == self.dyn_struct.data@.subrange(offset as int, offset + len),
    {
        self.dyn_struct.get_raw(offset, len)
    }

    /// Marks the granules from the one holding `offset` up to, not including, the
    /// one holding `offset + len`, for bytes written by other means.
    pub fn mark_changed(&mut self, offset: usize, len: usize)
        requires
            old(self).inv(),
            offset + len <= old(self).dyn_struct.data@.len(),
        ensures
            final(self).inv(),
            final(self).dyn_struct == old(self).dyn_struct,
            final(self).marked_from(old(self), offset as int, len as int),
    {
        let e = self.update_stride_exp;
        let end_byte = offset + len;
        proof {
            lemma_usize_shr_is_div(offset, e);
            lemma_usize_shr_is_div(end_byte, e);
            lemma_pow2_pos(e as nat);
            lemma_div_is_ordered(end_byte as int, self.dyn_struct.data@.len() as int, pow2(e as nat) as int);
        }
        let first = offset >> e;
        let end = end_byte >> e;
        self.update_bitmask.set(first..end);
    }

    /// `len` bytes from `offset`, to be written in place; their granules are marked.
    pub fn get_mut_raw(&mut self, offset: usize, len: usize) -> (r: &mut [u8])
        requires
            old(self).inv(),
            offset + len <= old(self).dyn_struct.data@.len(),
        ensures
            r@ == old(self).dyn_struct.data@.subrange(offset as int, offset + len),
            final(self).dyn_struct.data@ == splice(old(self).dyn_struct.data@, offset as int, len as int, final(r)@),
            final(self).dyn_struct.layout == old(self).dyn_struct.layout,
            final(self).marked_from(old(self), offset as int, len as int),
    {
        self.mark_changed(offset, len);
        self.dyn_struct.get_mut_raw(offset, len)
    }

    /// The bytes at the end of a path, to be written in place; their granules are
    /// marked. `None`, with nothing marked, as for `DynStruct::get`.
    pub fn get_mut(&mut self, path: &[&str]) -> (r: Option<&mut [u8]>)
        requires
            old(self).inv(),
        ensures
            final(self).dyn_struct.layout == old(self).dyn_struct.layout,
            match old(self).dyn_struct.value_at(path_view(path@)) {
                Some(v) => {
                    let f = old(self).dyn_struct.layout.resolve(path_view(path@)).unwrap();
                    &&& r matches Some(b) && b@ == v && final(self).dyn_struct.data@ == splice(
                        old(self).dyn_struct.data@,
                        f.offset as int,
                        v.len() as int,
                        final(b)@,
                    )
                    &&& final(self).marked_from(old(self), f.offset as int, v.len() as int)
                },
                None => r is None && *final(self) == *old(self),
            },
    {
        match self.dyn_struct.locate(path) {
            Some((offset, size)) => Some(self.get_mut_raw(offset, size)),
            None => None,
        }
    }

    /// Writes `value` from `offset` on and marks its granules.
    pub fn set_raw(&mut self, offset: usize, value: &[u8])
        requires
            old(self).inv(),
            offset + value@.len() <= old(self).dyn_struct.data@.len(),
        ensures
            final(self).inv(),
            final(self).dyn_struct.data@ == splice(old(self).dyn_struct.data@, offset as int, value@.len() as int, value@),
            final(self).dyn_struct.layout == old(self).dyn_struct.layout,
            final(self).marked_from(old(self), offset as int, value@.len() as int),
    {
        self.mark_changed(offset, value.len());
        self.dyn_struct.set_raw(offset, value);
    }

    /// Writes `value` over the member at the end of a path and marks its granules;
    /// `false`, with nothing changed, as for `DynStruct::set`.
    pub fn set(&mut self, path: &[&str], value: &[u8]) -> (r: bool)
        requires
            old(self).inv(),
        ensures
            final(self).inv(),
            final(self).dyn_struct.layout == old(self).dyn_struct.layout,
            r == (old(self).dyn_struct.value_at(path_view(path@)) matches Some(v) && v.len() == value@.len()),
            r ==> {
                let f = old(self).dyn_struct.layout.resolve(path_view(path@)).unwrap();
                &&& final(self).dyn_struct.data@ == splice(
                    old(self).dyn_struct.data@,
                    f.offset as int,
                    value@.len() as int,
                    value@,
                )
                &&& final(self).marked_from(old(self), f.offset as int, value@.len() as int)
            },
            !r ==> *final(self) == *old(self),
    {
        match self.dyn_struct.locate(path) {
            Some((offset, size)) => {
                if size == value.len() {
                    self.set_raw(offset, value);
                    true
                } else {
                    false
                }
            },
            None => false,
        }
    }

    /// The marked granules below `granules()`, as `[start, end)` ranges of
    /// granule indices: each run of marked granules, cut where a word of sixteen
    /// marks ends, in increasing order. Empty at once when nothing is marked.
    pub fn retrieve_changes(&self) -> (r: Vec<(usize, usize)>)
        requires
            self.inv(),
        ensures
            self.update_bitmask.reports(self.granules(), r@),
    {
        if !self.update_bitmask.any_set() || self.dyn_struct.data.len() == 0 {
            let r: Vec<(usize, usize)> = Vec::new();
            proof {
                lemma_pow2_pos(self.stride_exp());
                if self.dyn_struct.data.len() == 0 {
                    assert(self.granules() == 0);
                } else {
                    assert forall|g: int| 0 <= g < self.granules() implies (crate::update_bitmask::covered(r@, g)
                        <==> #[trigger] self.update_bitmask.bit(g)) by {
                        if self.update_bitmask.bit(g) {
                            assert(self.update_bitmask.some_bit_set());
                        }
                    }
                }
            }
            return r;
        }
        proof {
            lemma_usize_shr_is_div(self.dyn_struct.data.len(), self.update_stride_exp);
        }
        let n = self.dyn_struct.data.len() >> self.update_stride_exp;
        self.update_bitmask.runs(n)
    }

    /// `retrieve_changes`, then clears the change state.
    pub fn retrieve_changes_and_reset(&mut self) -> (r: Vec<(usize, usize)>)
        requires
            old(self).inv(),
        ensures
            old(self).update_bitmask.reports(old(self).granules(), r@),
            final(self).inv(),
            final(self).dyn_struct == old(self).dyn_struct,
            final(self).stride_exp() == old(self).stride_exp(),
            final(self).update_bitmask.words().len() == old(self).update_bitmask.words().len(),
            final(self).all_clear(),
    {
        let r = self.retrieve_changes();
        self.reset_change_detection();
        r
    }

    /// Whether any granule is marked.
    pub fn changed(&self) -> (r: bool)
        requires
            self.inv(),
        ensures
            r == !self.all_clear(),
    {
        proof {
            if !self.all_clear() {
                let i = choose|i: int| 0 <= i < self.update_bitmask.capacity() && #[trigger] self.update_bitmask.bit(i);
                assert(self.update_bitmask.some_bit_set());
            }
        }
        self.update_bitmask.any_set()
    }

    /// Clears every mark.
    pub fn reset_change_detection(&mut self)
        requires
            old(self).inv(),
        ensures
            final(self).inv(),
            final(self).dyn_struct == old(self).dyn_struct,
            final(self).stride_exp() == old(self).stride_exp(),
            final(self).update_bitmask.words().len() == old(self).update_bitmask.words().len(),
            final(self).all_clear(),
    {
        self.update_bitmask.reset();
    }
}

/// Granule `g` lies in the granule range that a write of `w.1` bytes at `w.0`
/// marks, with granules of `stride` bytes.
pub open spec fn marks_granule(w: (usize, usize), g: int, stride: int) -> bool {
    w.0 as int / stride <= g < (w.0 + w.1) as int / stride
}

/// The bytes `[w.0, w.0 + w.1)` overlap granule `g` of `stride` bytes.
pub open spec fn overlaps(w: (usize, usize), g: int, stride: int) -> bool {
    w.0 < (g + 1) * stride && g * stride < w.0 + w.1
}

/// A change state with no mark reports nothing.
pub proof fn lemma_clear_reports_nothing(t: TrackedDynStruct, r: Seq<(usize, usize)>)
    requires
        t.inv(),
        t.all_clear(),
        t.update_bitmask.reports(t.granules(), r),
    ensures
        r.len() == 0,
{
    if r.len() > 0 {
        let g = r[0].0 as int;
        assert(crate::update_bitmask::covered(r, g));
        assert(t.update_bitmask.bit(g));
    }
}

/// A write that ends on a granule boundary marks exactly the granules it overlaps.
pub proof fn lemma_marks_are_overlaps(w: (usize, usize), g: int, stride: int)
    requires
        stride > 0,
        (w.0 + w.1) as int % stride == 0,
    ensures
        marks_granule(w, g, stride) == overlaps(w, g, stride),
{
    let a = w.0 as int;
    let e = (w.0 + w.1) as int;
    vstd::arithmetic::div_mod::lemma_fundamental_div_mod(a, stride);
    vstd::arithmetic::div_mod::lemma_fundamental_div_mod(e, stride);
    vstd::arithmetic::div_mod::lemma_mod_pos_bound(a, stride);
    let q = a / stride;
    let qe = e / stride;
    assert((q <= g) == (a < (g + 1) * stride)) by (nonlinear_arith)
        requires
            a == stride * q + a % stride,
            0 <= a % stride < stride,
    ;
    assert((g < qe) == (g * stride < e)) by (nonlinear_arith)
        requires
            e == stride * qe,
            stride > 0,
    ;
}

/// After writes `writes[..k]` from a clear state, the marked granules are those
/// in the granule ranges of those writes.
proof fn lemma_marks_accumulate(states: Seq<TrackedDynStruct>, writes: Seq<(usize, usize)>, k: int)
    requires
        states.len() == writes.len() + 1,
        0 <= k < states.len(),
        states[0].all_clear(),
        forall|i: int|
            0 <= i < writes.len() ==> #[trigger] states[i + 1].marked_from(
                &states[i],
                writes[i].0 as int,
                writes[i].1 as int,
            ),
    ensures
        states[k].stride_exp() == states[0].stride_exp(),
        states[k].update_bitmask.words().len() == states[0].update_bitmask.words().len(),
        forall|g: int|
            0 <= g < states[k].update_bitmask.capacity() ==> (#[trigger] states[k].update_bitmask.bit(g)
                <==> exists|i: int|
                0 <= i < k && #[trigger] marks_granule(writes[i], g, states[0].stride() as int)),
    decreases k,
{
    if k > 0 {
        lemma_marks_accumulate(states, writes, k - 1);
        let j = k - 1;
        assert(states[j + 1].marked_from(&states[j], writes[j].0 as int, writes[j].1 as int));
        assert(j + 1 == k);
        let s = states[0].stride() as int;
        assert forall|g: int| 0 <= g < states[k].update_bitmask.capacity() implies (
        #[trigger] states[k].update_bitmask.bit(g) <==> exists|i: int|
            0 <= i < k && #[trigger] marks_granule(writes[i], g, s)) by {
            if states[k].update_bitmask.bit(g) && !marks_granule(writes[k - 1], g, s) {
                assert(states[k - 1].update_bitmask.bit(g));
                let i = choose|i: int| 0 <= i < k - 1 && #[trigger] marks_granule(writes[i], g, s);
                assert(0 <= i < k && marks_granule(writes[i], g, s));
            }
            if exists|i: int| 0 <= i < k && #[trigger] marks_granule(writes[i], g, s) {
                let i = choose|i: int| 0 <= i < k && #[trigger] marks_granule(writes[i], g, s);
                if i < k - 1 {
                    assert(exists|i: int| 0 <= i < k - 1 && #[trigger] marks_granule(writes[i], g, s));
                }
            }
        }
    }
}

/// From a clear change state, after any writes that each end on a granule
/// boundary, the granules reported are exactly those that the writes overlap.
pub proof fn lemma_reports_exactly_written(
    states: Seq<TrackedDynStruct>,
    writes: Seq<(usize, usize)>,
    r: Seq<(usize, usize)>,
)
    requires
        states.len() == writes.len() + 1,
        states[0].all_clear(),
        forall|i: int|
            0 <= i < writes.len() ==> #[trigger] states[i + 1].marked_from(
                &states[i],
                writes[i].0 as int,
                writes[i].1 as int,
            ),
        forall|i: int|
            0 <= i < writes.len() ==> ((#[trigger] writes[i]).0 + writes[i].1) as int % states[0].stride() as int
                == 0,
        states.last().inv(),
        states.last().update_bitmask.reports(states.last().granules(), r),
    ensures
        forall|g: int|
            0 <= g < states.last().granules() ==> (crate::update_bitmask::covered(r, g) <==> exists|i: int|
                0 <= i < writes.len() && #[trigger] overlaps(writes[i], g, states[0].stride() as int)),
{
    let k = writes.len() as int;
    lemma_marks_accumulate(states, writes, k);
    let s = states[0].stride() as int;
    lemma_pow2_pos(states[0].stride_exp());
    assert forall|g: int| 0 <= g < states.last().granules() implies (crate::update_bitmask::covered(r, g)
        <==> exists|i: int| 0 <= i < writes.len() && #[trigger] overlaps(writes[i], g, s)) by {
        assert(states.last().update_bitmask.bit(g) == states[k].update_bitmask.bit(g));
        if exists|i: int| 0 <= i < writes.len() && #[trigger] overlaps(writes[i], g, s) {
            let i = choose|i: int| 0 <= i < writes.len() && #[trigger] overlaps(writes[i], g, s);
            lemma_marks_are_overlaps(writes[i], g, s);
            assert(marks_granule(writes[i], g, s));
        }
        if exists|i: int| 0 <= i < k && #[trigger] marks_granule(writes[i], g, s) {
            let i = choose|i: int| 0 <= i < k && #[trigger] marks_granule(writes[i], g, s);
            lemma_marks_are_overlaps(writes[i], g, s);
            assert(overlaps(writes[i], g, s));
        }
    }
}

} // verus!

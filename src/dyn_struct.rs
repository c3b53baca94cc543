use std::sync::Arc;

use vstd::prelude::*;

use crate::dyn_layout::{path_view, DynField, DynLayout};

verus! {

/// A byte buffer read as a record through a shared layout.
#[derive(Clone, Debug)]
pub struct DynStruct {
    pub data: Vec<u8>,
    pub layout: Arc<DynLayout>,
}

/// `data` with the `len` bytes from `offset` on replaced by `mid`.
pub open spec fn splice(data: Seq<u8>, offset: int, len: int, mid: Seq<u8>) -> Seq<u8> {
    data.subrange(0, offset) + mid + data.subrange(offset + len, data.len() as int)
}

impl DynStruct {
    /// The buffer is exactly as long as the layout says, and the layout is well
    /// formed, with every member inside its parent.
    pub open spec fn inv(&self) -> bool {
        &&& self.data@.len() == self.layout.size
        &&& self.layout.wf()
        &&& self.layout.fields_within(0, self.layout.size as int)
    }

    /// Whether a member lies wholly inside the buffer.
    pub open spec fn fits(&self, f: DynField) -> bool {
        f.offset + f.ty.spec_size() <= self.data@.len()
    }

    /// The bytes of a member.
    pub open spec fn bytes_of(&self, f: DynField) -> Seq<u8> {
        self.data@.subrange(f.offset as int, f.offset + f.ty.spec_size())
    }

    /// The bytes at the end of a path, when the path names a member inside the buffer.
    pub open spec fn value_at(&self, path: Seq<Seq<char>>) -> Option<Seq<u8>> {
        match self.layout.resolve(path) {
            Some(f) => if self.fits(f) {
                Some(self.bytes_of(f))
            } else {
                None
            },
            None => None,
        }
    }

    /// A record over a copy of `data`.
    pub fn new(data: &[u8], layout: &Arc<DynLayout>) -> (r: Self)
        requires
            data@.len() == layout.size,
            layout.wf(),
            layout.fields_within(0, layout.size as int),
        ensures
            r.data@ == data@,
            r.layout == *layout,
            r.inv(),
    {
        DynStruct { data: vstd::slice::slice_to_vec(data), layout: Arc::clone(layout) }
    }

    /// A record over `data`, which must be exactly as long as the layout.
    pub fn from_bytes(data: Vec<u8>, layout: Arc<DynLayout>) -> (r: Self)
        requires
            data@.len() == layout.size,
            layout.wf(),
            layout.fields_within(0, layout.size as int),
        ensures
            r.data@ == data@,
            r.layout == layout,
            r.inv(),
    {
        DynStruct { data, layout }
    }

    /// The member at the end of a path; see `DynLayout::get_path`.
    pub fn get_path(&self, path: &[&str]) -> (r: Option<&DynField>)
        requires
            self.inv(),
        ensures
            r matches Some(f) ==> self.layout.resolve(path_view(path@)) == Some(*f),
            r is None ==> self.layout.resolve(path_view(path@)) is None,
    {
        self.layout.get_path(path)
    }

    /// Offset and size of the member at the end of a path, if it lies inside the buffer.
    pub(crate) fn locate(&self, path: &[&str]) -> (r: Option<(usize, usize)>)
        requires
            self.inv(),
        ensures
            match self.layout.resolve(path_view(path@)) {
                Some(f) => if self.fits(f) {
                    r == Some((f.offset as usize, f.ty.spec_size() as usize))
                } else {
                    r is None
                },
                None => r is None,
            },
    {
        match self.layout.get_path(path) {
            Some(f) => {
                let offset = f.offset as usize;
                let size = f.ty.size_of();
                if size <= self.data.len() && offset <= self.data.len() - size {
                    Some((offset, size))
                } else {
                    None
                }
            },
            None => None,
        }
    }

    /// The bytes of the member at the end of a path. `None` when the path names no
    /// member, or one that does not lie inside the buffer.
    pub fn get(&self, path: &[&str]) -> (r: Option<&[u8]>)
        requires
            self.inv(),
        ensures
            r matches Some(b) ==> self.value_at(path_view(path@)) == Some(b@),
            r is None ==> self.value_at(path_view(path@)) is None,
            r is None <==> self.layout.resolve(path_view(path@)) is None,
    {
        proof {
            if self.layout.resolve(path_view(path@)) is Some {
                lemma_get_reads_back(*self, path_view(path@));
            }
        }
        match self.locate(path) {
            Some((offset, size)) => Some(self.get_raw(offset, size)),
            None => None,
        }
    }

    /// The bytes at the end of a path, to be written in place.
    pub fn get_mut(&mut self, path: &[&str]) -> (r: Option<&mut [u8]>)
        requires
            old(self).inv(),
        ensures
            final(self).layout == old(self).layout,
            match old(self).value_at(path_view(path@)) {
                Some(v) => r matches Some(b) && b@ == v && final(self).data@ == splice(
                    old(self).data@,
                    old(self).layout.resolve(path_view(path@)).unwrap().offset as int,
                    v.len() as int,
                    final(b)@,
                ),
                None => r is None && final(self).data@ == old(self).data@,
            },
    {
        match self.locate(path) {
            Some((offset, size)) => Some(self.get_mut_raw(offset, size)),
            None => None,
        }
    }

    /// `len` bytes from `offset`, for a member located beforehand.
    pub fn get_raw(&self, offset: usize, len: usize) -> (r: &[u8])
        requires
            offset + len <= self.data.len(),
        ensures
            r@ == self.data@.subrange(offset as int, offset + len),
    {
        vstd::slice::slice_subrange(self.data.as_slice(), offset, offset + len)
    }

    /// `len` bytes from `offset`, to be written in place.
    pub fn get_mut_raw(&mut self, offset: usize, len: usize) -> (r: &mut [u8])
        requires
            offset + len <= old(self).data@.len(),
        ensures
            r@ == old(self).data@.subrange(offset as int, offset + len),
            final(self).data@ == splice(old(self).data@, offset as int, len as int, final(r)@),
            final(self).layout == old(self).layout,
    {
        let whole = self.data.as_mut_slice();
        let (_head, rest) = whole.split_at_mut(offset);
        let (mid, _tail) = rest.split_at_mut(len);
        mid
    }

    /// The whole buffer.
    pub fn cast(&self) -> (r: &[u8])
        ensures
            r@ == self.data@,
    {
        self.data.as_slice()
    }

    /// The whole buffer, to be written in place.
    pub fn cast_mut(&mut self) -> (r: &mut [u8])
        ensures
            r@ == old(self).data@,
            final(self).data@ == final(r)@,
            final(self).layout == old(self).layout,
    {
        self.data.as_mut_slice()
    }

    /// Writes `value` over `value.len()` bytes from `offset`.
    pub fn set_raw(&mut self, offset: usize, value: &[u8])
        requires
            offset + value@.len() <= old(self).data.len(),
        ensures
            final(self).data@ == splice(old(self).data@, offset as int, value@.len() as int, value@),
            final(self).layout == old(self).layout,
    {
        let mut k: usize = 0;
        while k < value.len()
            invariant
                offset + value@.len() <= old(self).data.len(),
                self.layout == old(self).layout,
                self.data.len() == old(self).data.len(),
                k <= value@.len(),
                forall|i: int|
                    0 <= i < self.data@.len() ==> #[trigger] self.data@[i] == if offset <= i < offset + k {
                        value@[i - offset]
                    } else {
                        old(self).data@[i]
                    },
            decreases value@.len() - k,
        {
            self.data.set(offset + k, value[k]);
            k += 1;
        }
        assert(self.data@ =~= splice(old(self).data@, offset as int, value@.len() as int, value@));
    }

    /// Writes `value` over the member at the end of a path. Gives `false`, and
    /// changes nothing, when the path names no member inside the buffer or the
    /// member's size is not `value.len()`.
    pub fn set(&mut self, path: &[&str], value: &[u8]) -> (r: bool)
        requires
            old(self).inv(),
        ensures
            final(self).layout == old(self).layout,
            r == (old(self).value_at(path_view(path@)) matches Some(v) && v.len() == value@.len()),
            r ==> final(self).data@ == splice(
                old(self).data@,
                old(self).layout.resolve(path_view(path@)).unwrap().offset as int,
                value@.len() as int,
                value@,
            ),
            !r ==> final(self).data@ == old(self).data@,
            final(self).inv(),
    {
        match self.locate(path) {
            Some((offset, size)) => {
                if size == value.len() {
                    self.set_raw(offset, value);
                    true
                } else {
                    false
                }
            },
            None => false,
        }
    }
}

/// Reading back: every path that names a member reads the bytes that the buffer
/// was built with at that member's offset.
pub proof fn lemma_get_reads_back(d: DynStruct, path: Seq<Seq<char>>)
    requires
        d.inv(),
        d.layout.resolve(path) is Some,
    ensures
        ({
            let f = d.layout.resolve(path).unwrap();
            d.value_at(path) == Some(d.data@.subrange(f.offset as int, f.offset + f.ty.spec_size()))
        }),
{
    crate::dyn_layout::lemma_resolved_within(d.layout, path, 0, d.layout.size as int);
}

} // verus!

use std::sync::Arc;

use fxhash::FxHashMap;
use vstd::prelude::*;

use crate::base_type::BaseType;

verus! {

/// One member of a layout: where it starts and what it holds.
#[derive(Clone, Debug, PartialEq)]
pub struct DynField {
    /// Offset in bytes from the start of the top-level record, also for fields of
    /// nested records.
    pub offset: u32,
    pub ty: BaseType,
}

/// The shape of a record: its members in declaration order, a by-name index into
/// them, and the record's size in bytes.
#[derive(Clone, Debug, PartialEq)]
pub struct DynLayout {
    pub name: String,
    /// Members in declaration order.
    pub fields: Vec<(String, DynField)>,
    /// Position in `fields` of the member of each name; derived from `fields`.
    pub fields_hash: FieldIndex,
    /// Size of the record in bytes.
    pub size: usize,
}

/// `BuildHasherDefault` from std, the hasher builder that `FxHashMap` is made with;
/// carried through opaquely.
#[verifier::external_type_specification]
#[verifier::external_body]
#[verifier::reject_recursive_types(H)]
pub struct ExBuildHasherDefault<H>(std::hash::BuildHasherDefault<H>);

/// fxhash's `FxHasher`; carried through opaquely.
#[verifier::external_type_specification]
#[verifier::external_body]
pub struct ExFxHasher(fxhash::FxHasher);

/// Index from a member's name to its position in the member list.
pub type FieldIndex = FxHashMap<String, usize>;

/// What the by-name index holds: each name and the position stored for it.
pub uninterp spec fn index_entries(m: FieldIndex) -> Map<Seq<char>, usize>;

/// Relies on `HashMap::default`: a fresh map holds nothing.
#[verifier::external_body]
fn index_new() -> (r: FieldIndex)
    ensures
        index_entries(r).dom() == Set::<Seq<char>>::empty(),
{
    FxHashMap::default()
}

/// Relies on `HashMap::insert`: the key now maps to the value, every other key
/// keeps its entry.
#[verifier::external_body]
fn index_insert(m: &mut FieldIndex, k: &str, v: usize)
    ensures
        index_entries(*final(m)) == index_entries(*old(m)).insert(k@, v),
{
    m.insert(k.to_string(), v);
}

/// Relies on `HashMap::get`: the value stored under the key, if there is one.
#[verifier::external_body]
fn index_get(m: &FieldIndex, k: &str) -> (r: Option<usize>)
    ensures
        r matches Some(v) ==> index_entries(*m).contains_key(k@) && index_entries(*m)[k@] == v,
        r is None ==> !index_entries(*m).contains_key(k@),
{
    m.get(k).copied()
}

/// Position of the last member called `name`.
pub open spec fn last_named(fields: Seq<(String, DynField)>, name: Seq<char>) -> Option<int>
    decreases fields.len(),
{
    if fields.len() == 0 {
        None
    } else if fields.last().0@ == name {
        Some(fields.len() - 1)
    } else {
        last_named(fields.drop_last(), name)
    }
}

/// The index maps exactly the names that occur to the last position holding each.
pub open spec fn index_matches(entries: Map<Seq<char>, usize>, fields: Seq<(String, DynField)>) -> bool {
    &&& forall|k: Seq<char>| #[trigger]
        entries.contains_key(k) == (last_named(fields, k) is Some)
    &&& forall|k: Seq<char>| #[trigger]
        entries.contains_key(k) ==> last_named(fields, k) == Some(entries[k] as int)
}

/// The elements of a path, as character sequences.
pub open spec fn path_view(path: Seq<&str>) -> Seq<Seq<char>> {
    path.map_values(|s: &str| s@)
}

pub proof fn lemma_last_named_bounds(fields: Seq<(String, DynField)>, name: Seq<char>)
    ensures
        last_named(fields, name) matches Some(i) ==> 0 <= i < fields.len() && fields[i].0@ == name,
    decreases fields.len(),
{
    if fields.len() > 0 && fields.last().0@ != name {
        lemma_last_named_bounds(fields.drop_last(), name);
    }
}

proof fn lemma_index_matches_push(
    entries: Map<Seq<char>, usize>,
    fields: Seq<(String, DynField)>,
    e: (String, DynField),
)
    requires
        index_matches(entries, fields),
        fields.len() <= usize::MAX,
    ensures
        index_matches(entries.insert(e.0@, fields.len() as usize), fields.push(e)),
{
    let ext = fields.push(e);
    assert(ext.drop_last() =~= fields);
    assert forall|k: Seq<char>| #[trigger]
        entries.insert(e.0@, fields.len() as usize).contains_key(k) == (last_named(ext, k) is Some) by {
        if e.0@ != k {
            assert(entries.contains_key(k) == (last_named(fields, k) is Some));
        }
    }
    assert forall|k: Seq<char>| #[trigger] entries.insert(e.0@, fields.len() as usize).contains_key(k)
        implies last_named(ext, k) == Some(entries.insert(e.0@, fields.len() as usize)[k] as int) by {
        if e.0@ != k {
            assert(entries.contains_key(k));
        }
    }
}

impl DynLayout {
    /// The member that the name refers to: the last one declared under it.
    pub open spec fn field_named(&self, name: Seq<char>) -> Option<DynField> {
        match last_named(self.fields@, name) {
            Some(i) => Some(self.fields@[i].1),
            None => None,
        }
    }

    /// The by-name index agrees with the member list.
    pub open spec fn index_agrees(&self) -> bool {
        index_matches(index_entries(self.fields_hash), self.fields@)
    }

    /// The index agrees with the member list here and in every nested layout.
    pub open spec fn wf(&self) -> bool
        decreases self,
    {
        &&& self.index_agrees()
        &&& forall|i: int|
            0 <= i < self.fields@.len() ==> match #[trigger] self.fields@[i].1.ty {
                BaseType::Struct(n) => n.wf(),
                _ => true,
            }
    }

    /// The member at the end of a path of names: each name but the last must
    /// refer to a nested record, into which the next name leads.
    pub open spec fn resolve(&self, path: Seq<Seq<char>>) -> Option<DynField>
        decreases path.len(),
    {
        if path.len() == 0 {
            None
        } else {
            match self.field_named(path[0]) {
                None => None,
                Some(f) => if path.len() == 1 {
                    Some(f)
                } else {
                    match f.ty {
                        BaseType::Struct(n) => n.resolve(path.drop_first()),
                        _ => None,
                    }
                },
            }
        }
    }

    /// Builds a layout from its members, indexing them by name.
    pub fn new(name: &str, size: usize, fields: Vec<(String, DynField)>) -> (r: Self)
        requires
            forall|i: int|
                0 <= i < fields@.len() ==> (#[trigger] fields@[i]).1.ty.nested_wf(),
        ensures
            r.name@ == name@,
            r.fields@ == fields@,
            r.size == size,
            r.wf(),
    {
        broadcast use vstd::string::group_string_axioms;

        let mut fields_hash = index_new();
        let mut i: usize = 0;
        while i < fields.len()
            invariant
                0 <= i <= fields@.len(),
                index_matches(index_entries(fields_hash), fields@.take(i as int)),
            decreases fields@.len() - i,
        {
            proof {
                lemma_index_matches_push(index_entries(fields_hash), fields@.take(i as int), fields@[i as int]);
                assert(fields@.take(i as int).push(fields@[i as int]) =~= fields@.take(i + 1));
            }
            index_insert(&mut fields_hash, fields[i].0.as_str(), i);
            i += 1;
        }
        assert(fields@.take(i as int) =~= fields@);
        let r = DynLayout { name: name.to_string(), fields, fields_hash, size };
        assert forall|i: int| 0 <= i < r.fields@.len() implies match #[trigger] r.fields@[i].1.ty {
            BaseType::Struct(n) => n.wf(),
            _ => true,
        } by {
            assert(r.fields@[i].1.ty.nested_wf());
        }
        r
    }

    /// Appends a member right after the current end, with no padding before it;
    /// the layout grows by the member's size. Offsets inside a nested record are
    /// taken as they are.
    pub fn append_type(&mut self, name: &str, ty: BaseType)
        requires
            old(self).wf(),
            ty.nested_wf(),
            old(self).size <= u32::MAX,
            old(self).size + ty.spec_size() <= usize::MAX,
        ensures
            final(self).wf(),
            final(self).name == old(self).name,
            final(self).size == old(self).size + ty.spec_size(),
            final(self).fields@.len() == old(self).fields@.len() + 1,
            final(self).fields@.drop_last() == old(self).fields@,
            final(self).fields@.last().0@ == name@,
            final(self).fields@.last().1 == (DynField { offset: old(self).size as u32, ty }),
    {
        broadcast use vstd::string::group_string_axioms;

        let new_field = DynField { offset: self.size as u32, ty };
        let pos = self.fields.len();
        self.size = self.size + new_field.ty.size_of();
        let entry = (name.to_string(), new_field);
        proof {
            lemma_index_matches_push(index_entries(self.fields_hash), self.fields@, entry);
        }
        self.fields.push(entry);
        index_insert(&mut self.fields_hash, name, pos);
        assert(self.fields@.drop_last() =~= old(self).fields@);
        assert forall|i: int| 0 <= i < self.fields@.len() implies match #[trigger] self.fields@[i].1.ty {
            BaseType::Struct(n) => n.wf(),
            _ => true,
        } by {
            if i < old(self).fields@.len() {
                assert(self.fields@[i] == old(self).fields@[i]);
            }
        }
    }

    /// Appends a member that wraps a single value of `base_ty` in a record named
    /// `wrapper_name`, whose one member is called `inner` and starts where the
    /// wrapper does; the value is reached with the path `[name, "inner"]`.
    pub fn append_new_type(&mut self, name: &str, base_ty: BaseType, wrapper_name: &str)
        requires
            old(self).wf(),
            base_ty.nested_wf(),
            old(self).size <= u32::MAX,
            old(self).size + base_ty.spec_size() <= usize::MAX,
        ensures
            final(self).wf(),
            final(self).name == old(self).name,
            final(self).size == old(self).size + base_ty.spec_size(),
            final(self).fields@.len() == old(self).fields@.len() + 1,
            final(self).fields@.drop_last() == old(self).fields@,
            final(self).fields@.last().0@ == name@,
            final(self).fields@.last().1.offset == old(self).size as u32,
            final(self).fields@.last().1.ty matches BaseType::Struct(n) && n.name@ == wrapper_name@
                && n.size == base_ty.spec_size() && n.fields@.len() == 1
                && n.fields@[0].0@ == "inner"@
                && n.fields@[0].1 == (DynField { offset: old(self).size as u32, ty: base_ty }),
    {
        broadcast use vstd::string::group_string_axioms;

        let offset = self.size as u32;
        let inner_size = base_ty.size_of();
        let mut inner_fields: Vec<(String, DynField)> = Vec::new();
        inner_fields.push(("inner".to_string(), DynField { offset, ty: base_ty }));
        let nested = DynLayout::new(wrapper_name, inner_size, inner_fields);
        self.append_type(name, BaseType::Struct(Arc::new(nested)));
    }

    /// The member a name refers to, found through the index.
    pub fn field(&self, name: &str) -> (r: Option<&DynField>)
        requires
            self.index_agrees(),
        ensures
            r matches Some(f) ==> self.field_named(name@) == Some(*f),
            r is None ==> self.field_named(name@) is None,
    {
        match index_get(&self.fields_hash, name) {
            Some(i) => {
                proof {
                    lemma_last_named_bounds(self.fields@, name@);
                }
                Some(&self.fields[i].1)
            },
            None => None,
        }
    }

    /// Resolves a path of names to the member at its end, descending into nested
    /// records. Unknown names, an empty path, and a path that goes on past a member
    /// that is no record give `None`.
    pub fn get_path(&self, path: &[&str]) -> (r: Option<&DynField>)
        requires
            self.wf(),
        ensures
            r matches Some(f) ==> self.resolve(path_view(path@)) == Some(*f),
            r is None ==> self.resolve(path_view(path@)) is None,
    {
        let ghost pv = path_view(path@);
        let n = path.len();
        if n == 0 {
            return None;
        }
        let mut layout: &DynLayout = self;
        let mut i: usize = 0;
        assert(pv.skip(0) =~= pv);
        loop
            invariant
                0 <= i < n,
                n == path@.len(),
                pv == path_view(path@),
                layout.wf(),
                self.resolve(pv) == layout.resolve(pv.skip(i as int)),
            decreases n - i,
        {
            let ghost rest = pv.skip(i as int);
            assert(rest[0] == path@[i as int]@);
            assert(rest.drop_first() =~= pv.skip(i + 1));
            let f = match layout.field(path[i]) {
                Some(f) => f,
                None => {
                    return None;
                },
            };
            if i + 1 == n {
                return Some(f);
            }
            match &f.ty {
                BaseType::Struct(nested) => {
                    proof {
                        lemma_last_named_bounds(layout.fields@, path@[i as int]@);
                        let j = last_named(layout.fields@, path@[i as int]@).unwrap();
                        assert(layout.fields@[j].1.ty == f.ty);
                    }
                    layout = nested;
                },
                _ => {
                    return None;
                },
            }
            i += 1;
        }
    }
}

impl DynLayout {
    /// Every member lies within `[lo, hi)`, and the members of a nested record lie
    /// within that record's own member.
    pub open spec fn fields_within(&self, lo: int, hi: int) -> bool
        decreases self,
    {
        forall|i: int|
            0 <= i < self.fields@.len() ==> {
                let f = (#[trigger] self.fields@[i]).1;
                &&& lo <= f.offset
                &&& f.offset + f.ty.spec_size() <= hi
                &&& match f.ty {
                    BaseType::Struct(n) => n.fields_within(f.offset as int, f.offset + n.size),
                    _ => true,
                }
            }
    }

    /// Whether every member lies within `[lo, hi)`, and the members of each nested
    /// record within that record's own member.
    pub fn fields_lie_within(&self, lo: usize, hi: usize) -> (r: bool)
        ensures
            r == self.fields_within(lo as int, hi as int),
        decreases self,
    {
        let mut i: usize = 0;
        while i < self.fields.len()
            invariant
                i <= self.fields@.len(),
                forall|j: int|
                    0 <= j < i ==> {
                        let f = (#[trigger] self.fields@[j]).1;
                        &&& lo <= f.offset
                        &&& f.offset + f.ty.spec_size() <= hi
                        &&& match f.ty {
                            BaseType::Struct(n) => n.fields_within(f.offset as int, f.offset + n.size),
                            _ => true,
                        }
                    },
            decreases self.fields@.len() - i,
        {
            let f = &self.fields[i].1;
            let off = f.offset as usize;
            let sz = f.ty.size_of();
            if off < lo || sz > hi || off > hi - sz {
                assert(!self.fields_within(lo as int, hi as int)) by {
                    assert(self.fields@[i as int].1 == *f);
                }
                return false;
            }
            match &f.ty {
                BaseType::Struct(n) => {
                    proof {
                        let ghost fs = self.fields@;
                        assert(decreases_to!(*self => self.fields));
                        assert(decreases_to!(self.fields => self.fields@));
                        assert(decreases_to!(fs => fs[i as int]));
                        assert(decreases_to!(fs[i as int] => fs[i as int].1));
                        assert(decreases_to!(fs[i as int].1 => fs[i as int].1.ty));
                        assert(decreases_to!(fs[i as int].1.ty => (fs[i as int].1.ty)->Struct_0));
                    }
                    if !n.fields_lie_within(off, off + n.size) {
                        assert(!self.fields_within(lo as int, hi as int)) by {
                            assert(self.fields@[i as int].1 == *f);
                        }
                        return false;
                    }
                },
                _ => {},
            }
            i += 1;
        }
        true
    }
}

/// A member that a path resolves to lies where its parents say members lie.
pub proof fn lemma_resolved_within(l: Arc<DynLayout>, path: Seq<Seq<char>>, lo: int, hi: int)
    requires
        l.fields_within(lo, hi),
        l.resolve(path) is Some,
    ensures
        lo <= l.resolve(path).unwrap().offset,
        l.resolve(path).unwrap().offset + l.resolve(path).unwrap().ty.spec_size() <= hi,
    decreases path.len(),
{
    lemma_last_named_bounds(l.fields@, path[0]);
    let j = last_named(l.fields@, path[0]).unwrap();
    let f = l.fields@[j].1;
    if path.len() > 1 {
        if let BaseType::Struct(n) = f.ty {
            lemma_resolved_within(n, path.drop_first(), f.offset as int, f.offset + n.size);
        }
    }
}

/// A path whose first `k` names lead to a member that is no record resolves to
/// nothing once it goes on past that member.
pub proof fn lemma_past_leaf_not_found(l: Arc<DynLayout>, path: Seq<Seq<char>>, k: int)
    requires
        0 < k < path.len(),
        l.resolve(path.take(k)) matches Some(f) && !f.ty.is_struct(),
    ensures
        l.resolve(path) is None,
    decreases k,
{
    assert(path.take(k)[0] == path[0]);
    if k > 1 {
        assert(path.take(k).drop_first() =~= path.drop_first().take(k - 1));
        if let Some(f) = l.field_named(path[0]) {
            if let BaseType::Struct(n) = f.ty {
                lemma_past_leaf_not_found(n, path.drop_first(), k - 1);
            }
        }
    }
}

/// A path resolves to nothing when, after its first `k` names, the next name is
/// not declared where it is looked up: at the top for `k == 0`, else in the record
/// the first `k` names lead to.
pub proof fn lemma_unknown_name_not_found(l: Arc<DynLayout>, path: Seq<Seq<char>>, k: int)
    requires
        0 <= k < path.len(),
        k == 0 ==> l.field_named(path[0]) is None,
        k > 0 ==> match l.resolve(path.take(k)) {
            Some(f) => match f.ty {
                BaseType::Struct(n) => n.field_named(path[k]) is None,
                _ => false,
            },
            None => false,
        },
    ensures
        l.resolve(path) is None,
    decreases k,
{
    if k > 0 {
        assert(path.take(k)[0] == path[0]);
        if let Some(f) = l.field_named(path[0]) {
            if let BaseType::Struct(n) = f.ty {
                if k == 1 {
                    assert(path.drop_first()[0] == path[1]);
                } else {
                    assert(path.take(k).drop_first() =~= path.drop_first().take(k - 1));
                    lemma_unknown_name_not_found(n, path.drop_first(), k - 1);
                }
            }
        }
    }
}

/// A type that can describe its own byte representation as a layout. Building a
/// layout can be slow: build it once and share it.
pub trait HasDynLayout {
    fn dyn_layout() -> Arc<DynLayout>;
}

impl BaseType {
    /// A nested layout, if any, is well formed.
    pub open spec fn nested_wf(&self) -> bool {
        match self {
            BaseType::Struct(n) => n.wf(),
            _ => true,
        }
    }
}

} // verus!

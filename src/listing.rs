use vstd::prelude::*;
use vstd::string::StringExecFns;

use crate::base_type::BaseType;
use crate::dyn_layout::{DynField, DynLayout};
use crate::spirv::{decimal, decimal_of};

verus! {

/// `n` spaces.
pub open spec fn spaces(n: nat) -> Seq<char> {
    Seq::new(n, |_i: int| ' ')
}

/// `s` right-aligned in a column six characters wide.
pub open spec fn right6(s: Seq<char>) -> Seq<char> {
    if s.len() < 6 {
        spaces((6 - s.len()) as nat) + s
    } else {
        s
    }
}

/// The name a kind is listed under: the language's own name for its scalar
/// types, the catalog's name for the others.
pub open spec fn kind_str(t: BaseType) -> &'static str {
    match t {
        BaseType::Void => "Void",
        BaseType::U8 => "u8",
        BaseType::U16 => "u16",
        BaseType::U32 => "u32",
        BaseType::U64 => "u64",
        BaseType::U128 => "u128",
        BaseType::I8 => "i8",
        BaseType::I16 => "i16",
        BaseType::I32 => "i32",
        BaseType::I64 => "i64",
        BaseType::I128 => "i128",
        BaseType::F32 => "f32",
        BaseType::F64 => "f64",
        BaseType::Bool => "bool",
        BaseType::UVec2 => "UVec2",
        BaseType::UVec3 => "UVec3",
        BaseType::UVec4 => "UVec4",
        BaseType::IVec2 => "IVec2",
        BaseType::IVec3 => "IVec3",
        BaseType::IVec4 => "IVec4",
        BaseType::Vec2 => "Vec2",
        BaseType::Vec3 => "Vec3",
        BaseType::Vec4 => "Vec4",
        BaseType::Mat2 => "Mat2",
        BaseType::Mat3 => "Mat3",
        BaseType::Mat4 => "Mat4",
        BaseType::Quat => "Quat",
        BaseType::DVec2 => "DVec2",
        BaseType::DVec3 => "DVec3",
        BaseType::DVec4 => "DVec4",
        BaseType::DMat2 => "DMat2",
        BaseType::DMat3 => "DMat3",
        BaseType::DMat4 => "DMat4",
        BaseType::DAffine2 => "DAffine2",
        BaseType::DAffine3 => "DAffine3",
        BaseType::Struct(_) => "",
    }
}

pub open spec fn kind_name(t: BaseType) -> Seq<char> {
    kind_str(t)@
}

/// The nesting depth of a record's members, which stops growing at the largest `usize`.
pub open spec fn next_depth(d: nat) -> nat {
    if d < usize::MAX {
        d + 1
    } else {
        d
    }
}

/// The indentation of a record's braces at `depth`.
pub open spec fn brace_indent(depth: nat) -> Seq<char> {
    spaces(4 * depth + 14)
}

/// The listing of a layout at `depth`: a header with the size at the top, the
/// name, and the members between braces, nested records listed in place.
pub open spec fn listing(l: DynLayout, depth: nat) -> Seq<char>
    decreases l, l.fields@.len() + 1,
{
    (if depth == 0 {
        "  Size Offset (bytes)\n"@ + "-----------------------\n"@ + right6(decimal(l.size as nat)) + " "@
            + right6("0"@) + "  "@
    } else {
        Seq::empty()
    }) + l.name@ + "\n"@ + brace_indent(depth) + " {\n"@ + members_listing(l, l.fields@.len(), depth)
        + brace_indent(depth) + " }\n"@
}

/// The start of a member's line: size and offset right-aligned, then the name,
/// indented one level below `depth`.
pub open spec fn member_head(f: (String, DynField), depth: nat) -> Seq<char> {
    right6(decimal(f.1.ty.spec_size())) + " "@ + right6(decimal(f.1.offset as nat)) + "  "@ + spaces(
        4 * (depth + 1),
    ) + f.0@ + ": "@
}

/// The lines of the first `k` members of `l`: size, offset, name, then the kind,
/// or for a nested record its listing one level deeper.
pub open spec fn members_listing(l: DynLayout, k: nat, depth: nat) -> Seq<char>
    decreases l, k,
{
    if k == 0 || k > l.fields@.len() {
        Seq::empty()
    } else {
        let f = l.fields@[k - 1];
        members_listing(l, (k - 1) as nat, depth) + member_head(f, depth) + match f.1.ty {
            BaseType::Struct(n) => listing(*n, next_depth(depth)),
            _ => kind_name(f.1.ty) + "\n"@,
        }
    }
}

fn kind_name_of(t: &BaseType) -> (r: &'static str)
    ensures
        r == kind_str(*t),
{
    match t {
            BaseType::Void => "Void",
            BaseType::U8 => "u8",
            BaseType::U16 => "u16",
            BaseType::U32 => "u32",
            BaseType::U64 => "u64",
            BaseType::U128 => "u128",
            BaseType::I8 => "i8",
            BaseType::I16 => "i16",
            BaseType::I32 => "i32",
            BaseType::I64 => "i64",
            BaseType::I128 => "i128",
            BaseType::F32 => "f32",
            BaseType::F64 => "f64",
            BaseType::Bool => "bool",
            BaseType::UVec2 => "UVec2",
            BaseType::UVec3 => "UVec3",
            BaseType::UVec4 => "UVec4",
            BaseType::IVec2 => "IVec2",
            BaseType::IVec3 => "IVec3",
            BaseType::IVec4 => "IVec4",
            BaseType::Vec2 => "Vec2",
            BaseType::Vec3 => "Vec3",
            BaseType::Vec4 => "Vec4",
            BaseType::Mat2 => "Mat2",
            BaseType::Mat3 => "Mat3",
            BaseType::Mat4 => "Mat4",
            BaseType::Quat => "Quat",
            BaseType::DVec2 => "DVec2",
            BaseType::DVec3 => "DVec3",
            BaseType::DVec4 => "DVec4",
            BaseType::DMat2 => "DMat2",
            BaseType::DMat3 => "DMat3",
            BaseType::DMat4 => "DMat4",
            BaseType::DAffine2 => "DAffine2",
            BaseType::DAffine3 => "DAffine3",
        BaseType::Struct(_) => "",
    }
}

fn push_spaces(out: &mut String, n: usize)
    ensures
        final(out)@ == old(out)@ + spaces(n as nat),
{
    proof {
        reveal_strlit(" ");
    }
    let mut i: usize = 0;
    while i < n
        invariant
            i <= n,
            out@ == old(out)@ + spaces(i as nat),
        decreases n - i,
    {
        out.append(" ");
        proof {
            reveal_strlit(" ");
        }
        assert(spaces(i as nat) + " "@ =~= spaces((i + 1) as nat));
        assert(old(out)@ + spaces(i as nat) + " "@ =~= old(out)@ + spaces((i + 1) as nat));
        i += 1;
    }
}

/// Appends `4 * k` spaces.
fn push_quads(out: &mut String, k: usize)
    ensures
        final(out)@ == old(out)@ + spaces(4 * k as nat),
{
    proof {
        reveal_strlit("    ");
    }
    let mut i: usize = 0;
    while i < k
        invariant
            i <= k,
            out@ == old(out)@ + spaces(4 * i as nat),
        decreases k - i,
    {
        out.append("    ");
        proof {
            reveal_strlit("    ");
        }
        assert(spaces(4 * i as nat) + "    "@ =~= spaces(4 * (i + 1) as nat));
        assert(old(out)@ + spaces(4 * i as nat) + "    "@ =~= old(out)@ + spaces(4 * (i + 1) as nat));
        i += 1;
    }
}

/// Appends `4 * depth + 14` spaces.
fn push_brace_indent(out: &mut String, depth: usize)
    ensures
        final(out)@ == old(out)@ + brace_indent(depth as nat),
{
    push_quads(out, depth);
    let ghost mid = out@;
    push_spaces(out, 14);
    assert(spaces(4 * depth as nat) + spaces(14) =~= brace_indent(depth as nat));
    assert(mid + spaces(14) =~= old(out)@ + brace_indent(depth as nat));
}

/// Appends the indentation of a member line at `depth`: `4 * (depth + 1)` spaces.
fn push_member_indent(out: &mut String, depth: usize)
    ensures
        final(out)@ == old(out)@ + spaces(4 * (depth + 1) as nat),
{
    proof {
        reveal_strlit("    ");
    }
    push_quads(out, depth);
    out.append("    ");
    assert(spaces(4 * depth as nat) + "    "@ =~= spaces(4 * (depth + 1) as nat));
    assert(old(out)@ + spaces(4 * depth as nat) + "    "@ =~= old(out)@ + spaces(4 * (depth + 1) as nat));
}

/// Appends `s` right-aligned in a column six characters wide.
fn push_right6(out: &mut String, s: &str)
    ensures
        final(out)@ == old(out)@ + right6(s@),
{
    let len = vstd::string::StrSliceExecFns::unicode_len(s);
    if len < 6 {
        push_spaces(out, 6 - len);
    }
    out.append(s);
    assert(final(out)@ =~= old(out)@ + right6(s@)) by {
        if len < 6 {
            assert(old(out)@ + spaces((6 - len) as nat) + s@ =~= old(out)@ + right6(s@));
        }
    }
}

fn push_member_head(out: &mut String, field: &(String, DynField), depth: usize)
    ensures
        final(out)@ == old(out)@ + member_head(*field, depth as nat),
{
    let size = decimal_of(field.1.ty.size_of());
    push_right6(out, size.as_str());
    out.append(" ");
    let offset = decimal_of(field.1.offset as usize);
    push_right6(out, offset.as_str());
    out.append("  ");
    push_member_indent(out, depth);
    out.append(field.0.as_str());
    out.append(": ");
    assert(out@ =~= old(out)@ + member_head(*field, depth as nat));
}

impl DynLayout {
    /// Appends the listing of the layout at `depth` to `out`: per member its
    /// size, offset and name, and its kind or, for a nested record, its own
    /// listing indented one level further.
    #[verifier::rlimit(100)]
    pub fn format_with_offsets(&self, depth: usize, out: &mut String)
        ensures
            final(out)@ == old(out)@ + listing(*self, depth as nat),
        decreases self, self.fields@.len() + 1,
    {
        let ghost start = out@;
        if depth == 0 {
            out.append("  Size Offset (bytes)\n");
            out.append("-----------------------\n");
            let size = decimal_of(self.size);
            push_right6(out, size.as_str());
            out.append(" ");
            push_right6(out, "0");
            out.append("  ");
        }
        out.append(self.name.as_str());
        out.append("\n");
        push_brace_indent(out, depth);
        out.append(" {\n");
        let ghost before_members = out@;
        let next = if depth < usize::MAX {
            depth + 1
        } else {
            depth
        };
        let mut i: usize = 0;
        while i < self.fields.len()
            invariant
                i <= self.fields@.len(),
                next == next_depth(depth as nat),
                out@ == before_members + members_listing(*self, i as nat, depth as nat),
            decreases self.fields@.len() - i,
        {
            let ghost prev = out@;
            let field = &self.fields[i];
            push_member_head(out, field, depth);
            let ghost before_kind = out@;
            match &field.1.ty {
                BaseType::Struct(n) => {
                    proof {
                        let ghost fs = self.fields@;
                        assert(decreases_to!(*self => self.fields));
                        assert(decreases_to!(self.fields => self.fields@));
                        assert(decreases_to!(fs => fs[i as int]));
                        assert(decreases_to!(fs[i as int] => fs[i as int].1));
                        assert(decreases_to!(fs[i as int].1 => fs[i as int].1.ty));
                        assert(decreases_to!(fs[i as int].1.ty => (fs[i as int].1.ty)->Struct_0));
                    }
                    n.format_with_offsets(next, out);
                },
                other => {
                    out.append(kind_name_of(other));
                    out.append("\n");
                },
            }
            proof {
                let f = self.fields@[i as int];
                assert(f == *field);
                assert(out@ =~= before_members + members_listing(*self, (i + 1) as nat, depth as nat));
            }
            i += 1;
        }
        assert(i == self.fields@.len());
        push_brace_indent(out, depth);
        out.append(" }\n");
        assert(out@ =~= start + listing(*self, depth as nat));
    }
}

} // verus!

//! Declarations of structures.

use vstd::prelude::*;
use vstd::string::*;

use super::common::{as_type, as_var};
use super::AssemblyScriptGenerator;
use crate::astype::{ASStructMember, ASType};
use crate::pretty_writer::{line, PrettyWriter};
use crate::text::dec_string;

verus! {

/// `n` private fields of `width` bits and type `ty`, numbered from 0, that
/// pad a structure.
pub open spec fn pad_lines(u: Seq<char>, l: nat, width: Seq<char>, ty: Seq<char>, n: nat) -> Seq<
    char,
>
    decreases n,
{
    if n == 0 {
        seq![]
    } else {
        pad_lines(u, l, width, ty, (n - 1) as nat) + line(
            u,
            l,
            "private __pad"@ + width + "_"@ + crate::text::dec((n - 1) as nat) + ": "@ + ty + ";"@,
        )
    }
}

/// The fields that fill `p` bytes of padding: at most one of 8 bits, at most
/// one of 16 bits, at most one of 32 bits, then as many of 64 bits as fit.
pub open spec fn padding_text(u: Seq<char>, l: nat, p: nat) -> Seq<char> {
    pad_lines(u, l, "8"@, "u8"@, p % 2) + pad_lines(u, l, "16"@, "u16"@, (p % 4) / 2) + pad_lines(
        u,
        l,
        "32"@,
        "u32"@,
        (p % 8) / 4,
    ) + pad_lines(u, l, "64"@, "u64"@, p / 8)
}

/// The padding fields fill exactly the padding bytes: one byte for each
/// field of 8 bits, two for each of 16 bits, four for each of 32 bits and
/// eight for each of 64 bits.
pub proof fn lemma_padding_fills(p: nat)
    ensures
        1 * (p % 2) + 2 * ((p % 4) / 2) + 4 * ((p % 8) / 4) + 8 * (p / 8) == p,
        p % 2 <= 1,
        (p % 4) / 2 <= 1,
        (p % 8) / 4 <= 1,
{
    assert(p == 8 * (p / 8) + p % 8) by (nonlinear_arith);
    assert(p % 8 == 4 * ((p % 8) / 4) + (p % 8) % 4) by (nonlinear_arith);
    assert((p % 8) % 4 == p % 4) by (nonlinear_arith);
    assert(p % 4 == 2 * ((p % 4) / 2) + (p % 4) % 2) by (nonlinear_arith);
    assert((p % 4) % 2 == p % 2) by (nonlinear_arith);
}

/// A member of an AssemblyScript class, followed by its padding.
pub open spec fn member_as(u: Seq<char>, l: nat, m: ASStructMember) -> Seq<char> {
    line(
        u,
        l,
        super::common::spec_as_var(m.name@) + ": "@ + super::common::spec_as_lang(*m.type_) + ";"@,
    ) + padding_text(u, l, m.padding as nat)
}

/// The members of an AssemblyScript class.
pub open spec fn members_as(u: Seq<char>, l: nat, ms: Seq<ASStructMember>) -> Seq<char>
    decreases ms.len(),
{
    if ms.len() == 0 {
        seq![]
    } else {
        members_as(u, l, ms.drop_last()) + member_as(u, l, ms.last())
    }
}

/// A member of a TypeScript structure description.
pub open spec fn member_ts(u: Seq<char>, l: nat, m: ASStructMember) -> Seq<char> {
    line(
        u,
        l,
        super::common::spec_as_var(m.name@) + ": "@ + super::common::spec_as_lang(*m.type_) + ","@,
    )
}

/// The members of a TypeScript structure description.
pub open spec fn members_ts(u: Seq<char>, l: nat, ms: Seq<ASStructMember>) -> Seq<char>
    decreases ms.len(),
{
    if ms.len() == 0 {
        seq![]
    } else {
        members_ts(u, l, ms.drop_last()) + member_ts(u, l, ms.last())
    }
}

/// Every member's type has an expression in the generated code.
pub open spec fn members_lang_ok(ms: Seq<ASStructMember>) -> bool {
    forall|i: int| 0 <= i < ms.len() ==> super::common::lang_ok(*(#[trigger] ms[i]).type_)
}

/// The AssemblyScript declaration of the structure `name`: an unmanaged
/// class with one field for each member, padded as the layout requires.
pub open spec fn struct_as_text(u: Seq<char>, l: nat, name: Seq<char>, ms: Seq<ASStructMember>) -> Seq<
    char,
> {
    line(u, l, "// @ts-ignore: decorator"@) + line(u, l, "@unmanaged"@) + line(
        u,
        l,
        "export class "@ + super::common::spec_as_type(name) + " {"@,
    ) + members_as(u, l + 1, ms) + line(u, l, "}"@) + "\n"@
}

/// The TypeScript declaration of the structure `name`: a structure
/// description with one entry for each member, and its target type.
pub open spec fn struct_ts_text(u: Seq<char>, l: nat, name: Seq<char>, ms: Seq<ASStructMember>) -> Seq<
    char,
> {
    let t = super::common::spec_as_type(name);
    line(u, l, "export const "@ + t + " = struct({"@) + members_ts(u, l + 1, ms) + line(
        u,
        l,
        "});"@,
    ) + super::target_type_line(u, l, name, t) + "\n"@
}

pub(crate) fn write_pads(w: &mut PrettyWriter, width: &str, ty: &str, n: usize)
    ensures
        final(w).appended(*old(w), pad_lines(old(w).unit(), old(w).level(), width@, ty@, n as nat)),
{
    let ghost u = w.unit();
    let ghost l = w.level();
    assert(w.text() =~= old(w).text() + pad_lines(u, l, width@, ty@, 0));
    for i in 0..n
        invariant
            w.text() == old(w).text() + pad_lines(u, l, width@, ty@, i as nat),
            w.level() == l,
            w.unit() == u,
    {
        let ghost before = w.text();
        let mut s = "private __pad".to_owned();
        s.append(width);
        s.append("_");
        s.append(dec_string(i as u64).as_str());
        s.append(": ");
        s.append(ty);
        s.append(";");
        w.write_line(s.as_str());
        assert(w.text() =~= before + line(
            u,
            l,
            "private __pad"@ + width@ + "_"@ + crate::text::dec(i as nat) + ": "@ + ty@ + ";"@,
        ));
    }
}

fn write_member_as(w: &mut PrettyWriter, member: &ASStructMember)
    requires
        super::common::lang_ok(*member.type_),
    ensures
        final(w).appended(*old(w), member_as(old(w).unit(), old(w).level(), *member)),
{
    let ghost u = w.unit();
    let ghost l = w.level();
    let member_type: &ASType = &*member.type_;
    let mut s = as_var(member.name.as_str());
    s.append(": ");
    s.append(member_type.as_lang().as_str());
    s.append(";");
    w.write_line(s.as_str());
    let ghost first = w.text();
    let pad_len = member.padding;
    write_pads(w, "8", "u8", pad_len % 2);
    write_pads(w, "16", "u16", (pad_len % 4) / 2);
    write_pads(w, "32", "u32", (pad_len % 8) / 4);
    write_pads(w, "64", "u64", pad_len / 8);
    assert(w.text() =~= first + padding_text(u, l, pad_len as nat));
    assert(w.text() =~= old(w).text() + member_as(u, l, *member));
}

fn write_members_as(w: &mut PrettyWriter, members: &[ASStructMember])
    requires
        members_lang_ok(members@),
    ensures
        final(w).appended(*old(w), members_as(old(w).unit(), old(w).level(), members@)),
{
    let ghost u = w.unit();
    let ghost l = w.level();
    let ghost ms = members@;
    assert(ms.take(0) =~= Seq::<ASStructMember>::empty());
    assert(w.text() =~= old(w).text() + members_as(u, l, ms.take(0)));
    for i in 0..members.len()
        invariant
            ms == members@,
            members_lang_ok(ms),
            w.text() == old(w).text() + members_as(u, l, ms.take(i as int)),
            w.level() == l,
            w.unit() == u,
    {
        assert(ms.take(i + 1).drop_last() =~= ms.take(i as int));
        assert(super::common::lang_ok(*ms[i as int].type_));
        let ghost before = w.text();
        write_member_as(w, &members[i]);
        assert(w.text() =~= before + member_as(u, l, ms[i as int]));
    }
    assert(ms.take(members.len() as int) =~= ms);
}

fn write_members_ts(w: &mut PrettyWriter, members: &[ASStructMember])
    requires
        members_lang_ok(members@),
    ensures
        final(w).appended(*old(w), members_ts(old(w).unit(), old(w).level(), members@)),
{
    let ghost u = w.unit();
    let ghost l = w.level();
    let ghost ms = members@;
    assert(ms.take(0) =~= Seq::<ASStructMember>::empty());
    assert(w.text() =~= old(w).text() + members_ts(u, l, ms.take(0)));
    for i in 0..members.len()
        invariant
            ms == members@,
            members_lang_ok(ms),
            w.text() == old(w).text() + members_ts(u, l, ms.take(i as int)),
            w.level() == l,
            w.unit() == u,
    {
        assert(ms.take(i + 1).drop_last() =~= ms.take(i as int));
        let member = &members[i];
        let ghost before = w.text();
        let member_type: &ASType = &*member.type_;
        assert(super::common::lang_ok(*ms[i as int].type_));
        let mut s = as_var(member.name.as_str());
        s.append(": ");
        s.append(member_type.as_lang().as_str());
        s.append(",");
        w.write_line(s.as_str());
        assert(w.text() =~= before + member_ts(u, l, ms[i as int]));
    }
    assert(ms.take(members.len() as int) =~= ms);
}

impl AssemblyScriptGenerator {
    /// The declaration of the structure `name`, in the generator's language.
    pub open spec fn struct_text(&self, u: Seq<char>, l: nat, name: Seq<char>, ms: Seq<ASStructMember>) -> Seq<
        char,
    > {
        if self.typescript() {
            struct_ts_text(u, l, name, ms)
        } else {
            struct_as_text(u, l, name, ms)
        }
    }

    /// Declares the structure `name` with the given members, in the
    /// generator's language.
    pub fn define_as_struct(
        &self,
        w: &mut PrettyWriter,
        parent_type: &ASType,
        name: &str,
        members: &[ASStructMember],
    )
        requires
            members_lang_ok(members@),
            old(w).level() < usize::MAX,
        ensures
            final(w).appended(
                *old(w),
                self.struct_text(old(w).unit(), old(w).level(), name@, members@),
            ),
            self.typescript() ==> final(w).appended(
                *old(w),
                struct_ts_text(old(w).unit(), old(w).level(), name@, members@),
            ),
            !self.typescript() ==> final(w).appended(
                *old(w),
                struct_as_text(old(w).unit(), old(w).level(), name@, members@),
            ),
    {
        if self.typescript_mode() {
            Self::define_as_struct_typescript(w, parent_type, name, members)
        } else {
            Self::define_as_struct_assemblyscript(w, parent_type, name, members)
        }
    }

    /// Declares the structure `name` as an unmanaged AssemblyScript class,
    /// with one field for each member and private fields for its padding.
    pub fn define_as_struct_assemblyscript(
        w: &mut PrettyWriter,
        _parent_type: &ASType,
        name: &str,
        members: &[ASStructMember],
    )
        requires
            members_lang_ok(members@),
            old(w).level() < usize::MAX,
        ensures
            final(w).appended(
                *old(w),
                struct_as_text(old(w).unit(), old(w).level(), name@, members@),
            ),
    {
        let ghost u = w.unit();
        let ghost l = w.level();
        w.write_line("// @ts-ignore: decorator");
        w.write_line("@unmanaged");
        let mut s = "export class ".to_owned();
        s.append(as_type(name).as_str());
        s.append(" {");
        w.write_line(s.as_str());
        let ghost head = w.text();
        w.new_block();
        write_members_as(w, members);
        w.end_block();
        w.write_line("}");
        w.eob();
        assert(w.text() =~= head + members_as(u, l + 1, members@) + line(u, l, "}"@) + "\n"@);
        assert(w.text() =~= old(w).text() + struct_as_text(u, l, name@, members@));
    }

    /// Declares the structure `name` as a TypeScript structure description
    /// with one entry for each member, and its target type.
    pub fn define_as_struct_typescript(
        w: &mut PrettyWriter,
        parent_type: &ASType,
        name: &str,
        members: &[ASStructMember],
    )
        requires
            members_lang_ok(members@),
            old(w).level() < usize::MAX,
        ensures
            final(w).appended(
                *old(w),
                struct_ts_text(old(w).unit(), old(w).level(), name@, members@),
            ),
    {
        let ghost u = w.unit();
        let ghost l = w.level();
        let t = as_type(name);
        let mut s = "export const ".to_owned();
        s.append(t.as_str());
        s.append(" = struct({");
        w.write_line(s.as_str());
        let ghost head = w.text();
        w.new_block();
        write_members_ts(w, members);
        w.end_block();
        w.write_line("});");
        let ghost mid = w.text();
        let mut s = "export type ".to_owned();
        s.append(t.as_str());
        s.append(" = TargetType<typeof ");
        s.append(t.as_str());
        s.append(">;");
        w.write_line(s.as_str());
        w.eob();
        assert(w.text() =~= mid + super::target_type_line(u, l, name@, t@) + "\n"@);
        assert(w.text() =~= old(w).text() + struct_ts_text(u, l, name@, members@));
    }
}

} // verus!

//! Declarations of tuples.

use vstd::prelude::*;
use vstd::string::*;

use super::common::as_type;
use super::AssemblyScriptGenerator;
use crate::astype::{ASTupleMember, ASType};
use crate::pretty_writer::{line, PrettyWriter};
use crate::text::dec_string;

verus! {

/// The `i`-th member of a tuple class (`v<i>`), followed by its padding.
pub open spec fn tuple_member(u: Seq<char>, l: nat, i: nat, m: ASTupleMember) -> Seq<char> {
    line(u, l, "v"@ + crate::text::dec(i) + ": "@ + super::common::spec_as_lang(*m.type_) + ";"@)
        + super::struct_def::padding_text(u, l, m.padding as nat)
}

/// The members of a tuple class, numbered from 0.
pub open spec fn tuple_members(u: Seq<char>, l: nat, ms: Seq<ASTupleMember>) -> Seq<char>
    decreases ms.len(),
{
    if ms.len() == 0 {
        seq![]
    } else {
        tuple_members(u, l, ms.drop_last()) + tuple_member(u, l, (ms.len() - 1) as nat, ms.last())
    }
}

/// Every member's type has an expression in the generated code.
pub open spec fn tuple_lang_ok(ms: Seq<ASTupleMember>) -> bool {
    forall|i: int| 0 <= i < ms.len() ==> super::common::lang_ok(*(#[trigger] ms[i]).type_)
}

/// The declaration of the tuple `name`: an unmanaged class with one field
/// `v<i>` for each member, padded as the layout requires.
pub open spec fn tuple_text(u: Seq<char>, l: nat, name: Seq<char>, ms: Seq<ASTupleMember>) -> Seq<char> {
    line(u, l, "// @ts-ignore: decorator"@) + line(u, l, "@unmanaged"@) + line(
        u,
        l,
        "export class "@ + super::common::spec_as_type(name) + " { // -- Tuple"@,
    ) + tuple_members(u, l + 1, ms) + line(u, l, "}"@) + "\n"@
}

fn write_tuple_member(w: &mut PrettyWriter, i: usize, member: &ASTupleMember)
    requires
        super::common::lang_ok(*member.type_),
    ensures
        final(w).appended(*old(w), tuple_member(old(w).unit(), old(w).level(), i as nat, *member)),
{
    let ghost u = w.unit();
    let ghost l = w.level();
    let member_type: &ASType = &*member.type_;
    let mut s = "v".to_owned();
    s.append(dec_string(i as u64).as_str());
    s.append(": ");
    s.append(member_type.as_lang().as_str());
    s.append(";");
    w.write_line(s.as_str());
    let ghost first = w.text();
    let pad_len = member.padding;
    super::struct_def::write_pads(w, "8", "u8", pad_len % 2);
    super::struct_def::write_pads(w, "16", "u16", (pad_len % 4) / 2);
    super::struct_def::write_pads(w, "32", "u32", (pad_len % 8) / 4);
    super::struct_def::write_pads(w, "64", "u64", pad_len / 8);
    assert(w.text() =~= first + super::struct_def::padding_text(u, l, pad_len as nat));
    assert(w.text() =~= old(w).text() + tuple_member(u, l, i as nat, *member));
}

fn write_tuple_members(w: &mut PrettyWriter, members: &[ASTupleMember])
    requires
        tuple_lang_ok(members@),
    ensures
        final(w).appended(*old(w), tuple_members(old(w).unit(), old(w).level(), members@)),
{
    let ghost u = w.unit();
    let ghost l = w.level();
    let ghost ms = members@;
    assert(ms.take(0) =~= Seq::<ASTupleMember>::empty());
    assert(w.text() =~= old(w).text() + tuple_members(u, l, ms.take(0)));
    for i in 0..members.len()
        invariant
            ms == members@,
            tuple_lang_ok(ms),
            w.text() == old(w).text() + tuple_members(u, l, ms.take(i as int)),
            w.level() == l,
            w.unit() == u,
    {
        assert(ms.take(i + 1).drop_last() =~= ms.take(i as int));
        assert(super::common::lang_ok(*ms[i as int].type_));
        let ghost before = w.text();
        write_tuple_member(w, i, &members[i]);
        assert(w.text() =~= before + tuple_member(u, l, i as nat, ms[i as int]));
    }
    assert(ms.take(members.len() as int) =~= ms);
}

/// Whether every member's type has an expression (see `tuple_lang_ok`).
pub fn is_tuple_lang_ok(members: &[ASTupleMember]) -> (ok: bool)
    ensures
        ok == tuple_lang_ok(members@),
{
    let mut i: usize = 0;
    while i < members.len()
        invariant
            i <= members@.len(),
            forall|j: int| 0 <= j < i ==> super::common::lang_ok(*(#[trigger] members@[j]).type_),
        decreases members@.len() - i,
    {
        if !members[i].type_.is_lang_ok() {
            return false;
        }
        i = i + 1;
    }
    true
}

impl AssemblyScriptGenerator {
    /// Declares the tuple `name` as an unmanaged class with one field for
    /// each member and private fields for its padding.
    pub fn define_as_tuple(w: &mut PrettyWriter, name: &str, members: &[ASTupleMember])
        requires
            tuple_lang_ok(members@),
            old(w).level() < usize::MAX,
        ensures
            final(w).appended(*old(w), tuple_text(old(w).unit(), old(w).level(), name@, members@)),
    {
        let ghost u = w.unit();
        let ghost l = w.level();
        w.write_line("// @ts-ignore: decorator");
        w.write_line("@unmanaged");
        let mut s = "export class ".to_owned();
        s.append(as_type(name).as_str());
        s.append(" { // -- Tuple");
        w.write_line(s.as_str());
        let ghost head = w.text();
        w.new_block();
        write_tuple_members(w, members);
        w.end_block();
        w.write_line("}");
        w.eob();
        assert(w.text() =~= head + tuple_members(u, l + 1, members@) + line(u, l, "}"@) + "\n"@);
        assert(w.text() =~= old(w).text() + tuple_text(u, l, name@, members@));
    }
}

} // verus!

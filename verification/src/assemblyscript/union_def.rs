//! Declarations of tagged unions.

use vstd::prelude::*;
use vstd::string::*;

use super::common::{as_fn, as_type, as_var};
use super::AssemblyScriptGenerator;
use crate::astype::{ASType, ASUnion, ASUnionMember};
use crate::pretty_writer::{line, PrettyWriter};
use crate::text::dec_string;

verus! {

/// The size in bytes of a union's tag.
pub open spec fn tag_size(t: ASType) -> nat {
    match t {
        ASType::U8 => 1,
        ASType::U16 => 2,
        ASType::U32 => 4,
        _ => 8,
    }
}

/// Where a union's payload starts: after its tag and the padding that
/// follows it.
pub open spec fn payload_offset(un: ASUnion) -> nat {
    tag_size(*un.tag_repr) + (un.padding_after_tag as nat)
}

/// Values of the member's type are references (their accessor may give
/// `null`).
pub open spec fn is_nullable(t: ASType) -> bool {
    match t {
        ASType::ConstPtr(_) => true,
        ASType::MutPtr(_) => true,
        ASType::ReadBuffer(_) => true,
        ASType::WriteBuffer(_) => true,
        ASType::Enum(_) => true,
        ASType::Struct(_) => true,
        ASType::Tuple(_) => true,
        ASType::Union(_) => true,
        _ => false,
    }
}

/// The union can be declared: its tag is an unsigned integer, every
/// member's type has an expression, and its payload offset fits in a
/// `usize`.
pub open spec fn union_ok(un: ASUnion) -> bool {
    &&& (*un.tag_repr is U8 || *un.tag_repr is U16 || *un.tag_repr is U32 || *un.tag_repr is U64)
    &&& super::common::lang_ok(*un.tag_repr)
    &&& un.padding_after_tag + 8 <= usize::MAX
    &&& forall|i: int|
        0 <= i < un.members@.len() ==> super::common::lang_ok(*(#[trigger] un.members@[i]).type_)
}

/// The opening of a union class: its tag field and the padding after it.
#[verifier::opaque]
pub open spec fn union_head(u: Seq<char>, l: nat, name: Seq<char>, un: ASUnion) -> Seq<char> {
    line(u, l, "// @ts-ignore: decorator"@) + line(u, l, "@unmanaged"@) + line(
        u,
        l,
        "export class "@ + super::common::spec_as_type(name) + " {"@,
    ) + line(u, l + 1, "tag: "@ + super::common::spec_as_lang(*un.tag_repr) + ";"@)
        + super::struct_def::padding_text(u, l + 1, un.padding_after_tag as nat) + "\n"@
}

/// The constructor of a union class, which clears the payload.
#[verifier::opaque]
pub open spec fn union_ctor(u: Seq<char>, l: nat, un: ASUnion) -> Seq<char> {
    line(u, l + 1, "constructor(tag: "@ + super::common::spec_as_lang(*un.tag_repr) + ") {"@) + line(
        u,
        l + 2,
        "this.tag = tag;"@,
    ) + line(
        u,
        l + 2,
        "memory.fill(changetype<usize>(this) + "@ + crate::text::dec(payload_offset(un)) + ", 0, "@
            + crate::text::dec(un.max_member_size as nat) + ");"@,
    ) + line(u, l + 1, "}"@) + "\n"@
}

/// The generic factory of a union class.
#[verifier::opaque]
pub open spec fn union_new(u: Seq<char>, l: nat, name: Seq<char>) -> Seq<char> {
    let t = super::common::spec_as_type(name);
    line(u, l + 1, "// @ts-ignore: default"@) + line(
        u,
        l + 1,
        "static new<T>(tag: u8, val: T = 0): "@ + t + " {"@,
    ) + line(u, l + 2, "let tu = new "@ + t + "(tag);"@) + line(u, l + 2, "tu.set(val);"@) + line(
        u,
        l + 2,
        "return tu;"@,
    ) + line(u, l + 1, "}"@) + "\n"@
}

/// The two lines that compute the address of a union's payload, at depth
/// `m`.
pub open spec fn val_buf_lines(u: Seq<char>, m: nat, un: ASUnion) -> Seq<char> {
    line(u, m, "// @ts-ignore: cast"@) + line(
        u,
        m,
        "let valBuf = changetype<usize>(this) + "@ + crate::text::dec(payload_offset(un)) + ";"@,
    )
}

/// A branch on whether the payload type is a reference, at depth `m`: `a`
/// when it is, `b` when it is not.
pub open spec fn ref_branch(u: Seq<char>, m: nat, a: Seq<char>, b: Seq<char>) -> Seq<char> {
    line(u, m, "if (isReference<T>()) {"@) + line(u, m + 1, a) + line(u, m, "} else {"@) + line(
        u,
        m + 1,
        b,
    ) + line(u, m, "}"@)
}

/// The generic payload reader of a union class.
#[verifier::opaque]
pub open spec fn union_get(u: Seq<char>, l: nat, un: ASUnion) -> Seq<char> {
    line(u, l + 1, "get<T>(): T {"@) + val_buf_lines(u, l + 2, un) + ref_branch(
        u,
        l + 2,
        "return changetype<T>(valBuf);"@,
        "return load<T>(valBuf);"@,
    ) + line(u, l + 1, "}"@) + "\n"@
}

/// The generic payload writer of a union class.
#[verifier::opaque]
pub open spec fn union_set(u: Seq<char>, l: nat, un: ASUnion) -> Seq<char> {
    line(u, l + 1, "// @ts-ignore: default"@) + line(u, l + 1, "set<T>(val: T = 0): void {"@)
        + val_buf_lines(u, l + 2, un) + line(
        u,
        l + 2,
        "memory.fill(valBuf, 0, "@ + crate::text::dec(un.max_member_size as nat) + ");"@,
    ) + ref_branch(
        u,
        l + 2,
        "(val !== null) && memory.copy(valBuf, changetype<usize>(val), offsetof<T>());"@,
        "store<T>(valBuf, val);"@,
    ) + line(u, l + 1, "}"@)
}

/// A method of three lines at depth `m`: its head, one statement, its end.
pub open spec fn short_method(u: Seq<char>, m: nat, head: Seq<char>, body: Seq<char>) -> Seq<char> {
    line(u, m, head) + line(u, m + 1, body) + line(u, m, "}"@)
}

/// The test of whether the union holds its `i`-th member.
pub open spec fn tester(u: Seq<char>, m: nat, mem: ASUnionMember, i: nat) -> Seq<char> {
    short_method(
        u,
        m,
        "is"@ + super::common::spec_as_type(mem.name@) + "(): bool {"@,
        "return this.tag === "@ + crate::text::dec(i) + ";"@,
    )
}

/// The accessors of a member without payload: a factory, a setter and a
/// test, separated by empty lines.
pub open spec fn void_accessors(u: Seq<char>, m: nat, name: Seq<char>, i: nat, mem: ASUnionMember) -> Seq<char> {
    let t = super::common::spec_as_type(name);
    let n = crate::text::dec(i);
    short_method(
        u,
        m,
        "static "@ + super::common::spec_as_fn(mem.name@) + "(): "@ + t + " {"@,
        "return "@ + t + ".new("@ + n + ");"@,
    ) + "\n"@ + short_method(
        u,
        m,
        "set"@ + super::common::spec_as_type(mem.name@) + "(): void {"@,
        "this.tag = "@ + n + ";"@,
    ) + "\n"@ + tester(u, m, mem, i)
}

/// The factory and the setter of a member with a payload.
pub open spec fn value_makers(u: Seq<char>, m: nat, name: Seq<char>, i: nat, mem: ASUnionMember) -> Seq<char> {
    let t = super::common::spec_as_type(name);
    let n = crate::text::dec(i);
    let lt = super::common::spec_as_lang(*mem.type_);
    short_method(
        u,
        m,
        "static "@ + super::common::spec_as_fn(mem.name@) + "(val: "@ + lt + "): "@ + t + " {"@,
        "return "@ + t + ".new("@ + n + ", val);"@,
    ) + line(u, m, "set"@ + super::common::spec_as_type(mem.name@) + "(val: "@ + lt + "): void {"@)
        + line(u, m + 1, "this.tag = "@ + n + ";"@) + line(u, m + 1, "this.set(val);"@) + line(
        u,
        m,
        "}"@,
    )
}

/// The getter of a member with a payload: for a reference type it gives
/// `null` when the union holds another member.
pub open spec fn value_getter(u: Seq<char>, m: nat, i: nat, mem: ASUnionMember) -> Seq<char> {
    let n = crate::text::dec(i);
    let lt = super::common::spec_as_lang(*mem.type_);
    let nullable = is_nullable(*mem.type_);
    line(u, m, "get"@ + super::common::spec_as_type(mem.name@) + "(): "@ + lt + (if nullable {
        " | null"@
    } else {
        seq![]
    }) + " {"@) + line(
        u,
        m + 1,
        if nullable {
            "if (this.tag !== "@ + n + ") { return null; }"@
        } else {
            "assert(this.tag === "@ + n + ");"@
        },
    ) + line(u, m + 1, "return this.get<"@ + lt + ">();"@) + line(u, m, "}"@)
}

/// The accessors of the `i`-th member of a union class, at depth `m`: a
/// factory, a setter, a test and, for a member with a payload, a getter.
#[verifier::opaque]
pub open spec fn member_accessors(u: Seq<char>, m: nat, name: Seq<char>, i: nat, mem: ASUnionMember) -> Seq<char> {
    if *mem.type_ is Void {
        void_accessors(u, m, name, i, mem)
    } else {
        value_makers(u, m, name, i, mem) + tester(u, m, mem, i) + value_getter(u, m, i, mem)
    }
}

/// The accessors of the members of a union class, each after an empty line.
pub open spec fn members_accessors(u: Seq<char>, m: nat, name: Seq<char>, ms: Seq<ASUnionMember>) -> Seq<char>
    decreases ms.len(),
{
    if ms.len() == 0 {
        seq![]
    } else {
        members_accessors(u, m, name, ms.drop_last()) + "\n"@ + member_accessors(
            u,
            m,
            name,
            (ms.len() - 1) as nat,
            ms.last(),
        )
    }
}

/// The AssemblyScript declaration of the union `name`: an unmanaged class
/// holding the tag, the padding and the payload, with generic access to the
/// payload and accessors for each member.
pub open spec fn union_as_text(u: Seq<char>, l: nat, name: Seq<char>, un: ASUnion) -> Seq<char> {
    union_prelude(u, l, name, un) + members_accessors(u, l + 1, name, un.members@) + line(u, l, "}"@)
        + "\n"@
}

/// The part of the AssemblyScript union class that does not depend on the
/// individual members: its head, constructor, allocator and generic payload
/// access.
pub open spec fn union_prelude(u: Seq<char>, l: nat, name: Seq<char>, un: ASUnion) -> Seq<char> {
    union_head(u, l, name, un) + union_ctor(u, l, un) + union_new(u, l, name) + union_get(u, l, un)
        + union_set(u, l, un)
}

/// One member of a TypeScript union description.
pub open spec fn union_member_ts(u: Seq<char>, l: nat, mem: ASUnionMember) -> Seq<char> {
    line(
        u,
        l,
        super::common::spec_as_var(mem.name@) + ": "@ + super::common::spec_as_lang(*mem.type_) + ","@,
    )
}

/// The members of a TypeScript union description.
pub open spec fn union_members_ts(u: Seq<char>, l: nat, ms: Seq<ASUnionMember>) -> Seq<char>
    decreases ms.len(),
{
    if ms.len() == 0 {
        seq![]
    } else {
        union_members_ts(u, l, ms.drop_last()) + union_member_ts(u, l, ms.last())
    }
}

/// The TypeScript declaration of the union `name`: a union description
/// with its tag and one entry for each member, and its target type.
pub open spec fn union_ts_text(u: Seq<char>, l: nat, name: Seq<char>, un: ASUnion) -> Seq<char> {
    let t = super::common::spec_as_type(name);
    line(u, l, "export const "@ + t + " = union("@ + super::common::spec_as_lang(*un.tag_repr) + ", {"@)
        + union_members_ts(u, l + 1, un.members@) + line(u, l, "});"@) + super::target_type_line(
        u,
        l,
        name,
        t,
    ) + "\n"@
}

/// Whether the union can be declared (see `union_ok`).
pub fn is_union_ok(un: &ASUnion) -> (ok: bool)
    ensures
        ok == union_ok(*un),
{
    let tag_ok = match &*un.tag_repr {
        ASType::U8 => true,
        ASType::U16 => true,
        ASType::U32 => true,
        ASType::U64 => true,
        _ => false,
    };
    if !tag_ok || un.padding_after_tag > usize::MAX - 8 {
        return false;
    }
    let mut i: usize = 0;
    while i < un.members.len()
        invariant
            i <= un.members@.len(),
            forall|j: int| 0 <= j < i ==> super::common::lang_ok(*(#[trigger] un.members@[j]).type_),
        decreases un.members@.len() - i,
    {
        if !un.members[i].type_.is_lang_ok() {
            return false;
        }
        i = i + 1;
    }
    true
}

fn put3(w: &mut PrettyWriter, a: &str, b: &str, c: &str)
    ensures
        final(w).appended(*old(w), line(old(w).unit(), old(w).level(), a@ + b@ + c@)),
{
    let mut s = a.to_owned();
    s.append(b);
    s.append(c);
    w.write_line(s.as_str());
}

fn put5(w: &mut PrettyWriter, a: &str, b: &str, c: &str, d: &str, e: &str)
    ensures
        final(w).appended(*old(w), line(old(w).unit(), old(w).level(), a@ + b@ + c@ + d@ + e@)),
{
    let mut s = a.to_owned();
    s.append(b);
    s.append(c);
    s.append(d);
    s.append(e);
    assert(s@ =~= a@ + b@ + c@ + d@ + e@);
    w.write_line(s.as_str());
}

#[verifier::rlimit(80)]
fn write_union_head(w: &mut PrettyWriter, name: &str, union_: &ASUnion)
    requires
        union_ok(*union_),
        old(w).level() + 8 < usize::MAX,
    ensures
        final(w).appended(*old(w), union_head(old(w).unit(), old(w).level(), name@, *union_)),
{
    let ghost u = w.unit();
    let ghost l = w.level();
    w.write_line("// @ts-ignore: decorator");
    w.write_line("@unmanaged");
    put3(w, "export class ", as_type(name).as_str(), " {");
    w.new_block();
    put3(w, "tag: ", union_.tag_repr.as_lang().as_str(), ";");
    let ghost t1 = w.text();
    let pad_len = union_.padding_after_tag;
    super::struct_def::write_pads(w, "8", "u8", pad_len % 2);
    super::struct_def::write_pads(w, "16", "u16", (pad_len % 4) / 2);
    super::struct_def::write_pads(w, "32", "u32", (pad_len % 8) / 4);
    super::struct_def::write_pads(w, "64", "u64", pad_len / 8);
    w.end_block();
    w.eob();
    assert(w.text() =~= t1 + super::struct_def::padding_text(u, l + 1, pad_len as nat) + "\n"@);
    assert(w.text() =~= old(w).text() + union_head(u, l, name@, *union_)) by {
        reveal(union_head);
    }
}

fn payload_offset_of(union_: &ASUnion) -> (r: usize)
    requires
        union_ok(*union_),
    ensures
        r == payload_offset(*union_),
{
    let tag_size: usize = match &*union_.tag_repr {
        ASType::U8 => 1,
        ASType::U16 => 2,
        ASType::U32 => 4,
        _ => 8,
    };
    tag_size + union_.padding_after_tag
}

fn write_union_ctor(w: &mut PrettyWriter, union_: &ASUnion)
    requires
        union_ok(*union_),
        old(w).level() + 8 < usize::MAX,
    ensures
        final(w).appended(*old(w), union_ctor(old(w).unit(), old(w).level(), *union_)),
{
    let ghost u = w.unit();
    let ghost l = w.level();
    let off = dec_string(payload_offset_of(union_) as u64);
    let size = dec_string(union_.max_member_size as u64);
    w.new_block();
    put3(w, "constructor(tag: ", union_.tag_repr.as_lang().as_str(), ") {");
    w.new_block();
    w.write_line("this.tag = tag;");
    put5(w, "memory.fill(changetype<usize>(this) + ", off.as_str(), ", 0, ", size.as_str(), ");");
    w.end_block();
    w.write_line("}");
    w.end_block();
    w.eob();
    assert(w.text() =~= old(w).text() + union_ctor(u, l, *union_)) by {
        reveal(union_ctor);
    }
}

fn write_union_new(w: &mut PrettyWriter, name: &str)
    requires
        old(w).level() + 8 < usize::MAX,
    ensures
        final(w).appended(*old(w), union_new(old(w).unit(), old(w).level(), name@)),
{
    let ghost u = w.unit();
    let ghost l = w.level();
    let t = as_type(name);
    w.new_block();
    w.write_line("// @ts-ignore: default");
    put3(w, "static new<T>(tag: u8, val: T = 0): ", t.as_str(), " {");
    w.new_block();
    put3(w, "let tu = new ", t.as_str(), "(tag);");
    w.write_line("tu.set(val);");
    w.write_line("return tu;");
    w.end_block();
    w.write_line("}");
    w.end_block();
    w.eob();
    assert(w.text() =~= old(w).text() + union_new(u, l, name@)) by {
        reveal(union_new);
    }
}

fn write_val_buf(w: &mut PrettyWriter, off: &str, Ghost(un): Ghost<ASUnion>)
    requires
        off@ == crate::text::dec(payload_offset(un)),
    ensures
        final(w).appended(*old(w), val_buf_lines(old(w).unit(), old(w).level(), un)),
{
    w.write_line("// @ts-ignore: cast");
    put3(w, "let valBuf = changetype<usize>(this) + ", off, ";");
    assert(w.text() =~= old(w).text() + val_buf_lines(old(w).unit(), old(w).level(), un));
}

fn write_ref_branch(w: &mut PrettyWriter, a: &str, b: &str)
    requires
        old(w).level() + 4 < usize::MAX,
    ensures
        final(w).appended(*old(w), ref_branch(old(w).unit(), old(w).level(), a@, b@)),
{
    w.write_line("if (isReference<T>()) {");
    w.new_block();
    w.write_line(a);
    w.end_block();
    w.write_line("} else {");
    w.new_block();
    w.write_line(b);
    w.end_block();
    w.write_line("}");
    assert(w.text() =~= old(w).text() + ref_branch(old(w).unit(), old(w).level(), a@, b@));
}

fn write_short_method(w: &mut PrettyWriter, head: &str, body: &str)
    requires
        old(w).level() + 4 < usize::MAX,
    ensures
        final(w).appended(*old(w), short_method(old(w).unit(), old(w).level(), head@, body@)),
{
    w.write_line(head);
    w.new_block();
    w.write_line(body);
    w.end_block();
    w.write_line("}");
    assert(w.text() =~= old(w).text() + short_method(old(w).unit(), old(w).level(), head@, body@));
}

fn write_union_get(w: &mut PrettyWriter, union_: &ASUnion)
    requires
        union_ok(*union_),
        old(w).level() + 8 < usize::MAX,
    ensures
        final(w).appended(*old(w), union_get(old(w).unit(), old(w).level(), *union_)),
{
    let ghost u = w.unit();
    let ghost l = w.level();
    let off = dec_string(payload_offset_of(union_) as u64);
    w.new_block();
    w.write_line("get<T>(): T {");
    let ghost t1 = w.text();
    w.new_block();
    write_val_buf(w, off.as_str(), Ghost(*union_));
    write_ref_branch(w, "return changetype<T>(valBuf);", "return load<T>(valBuf);");
    w.end_block();
    let ghost t2 = w.text();
    w.write_line("}");
    w.end_block();
    w.eob();
    assert(w.text() =~= t2 + line(u, l + 1, "}"@) + "\n"@);
    assert(w.text() =~= old(w).text() + union_get(u, l, *union_)) by {
        reveal(union_get);
    }
}

fn write_union_set(w: &mut PrettyWriter, union_: &ASUnion)
    requires
        union_ok(*union_),
        old(w).level() + 8 < usize::MAX,
    ensures
        final(w).appended(*old(w), union_set(old(w).unit(), old(w).level(), *union_)),
{
    let ghost u = w.unit();
    let ghost l = w.level();
    let off = dec_string(payload_offset_of(union_) as u64);
    let size = dec_string(union_.max_member_size as u64);
    w.new_block();
    w.write_line("// @ts-ignore: default");
    w.write_line("set<T>(val: T = 0): void {");
    let ghost t1 = w.text();
    w.new_block();
    write_val_buf(w, off.as_str(), Ghost(*union_));
    put3(w, "memory.fill(valBuf, 0, ", size.as_str(), ");");
    write_ref_branch(
        w,
        "(val !== null) && memory.copy(valBuf, changetype<usize>(val), offsetof<T>());",
        "store<T>(valBuf, val);",
    );
    w.end_block();
    let ghost t2 = w.text();
    w.write_line("}");
    w.end_block();
    assert(w.text() =~= old(w).text() + union_set(u, l, *union_)) by {
        reveal(union_set);
    }
}

fn write_tester(w: &mut PrettyWriter, member: &ASUnionMember, n: &str, Ghost(i): Ghost<nat>)
    requires
        n@ == crate::text::dec(i),
        old(w).level() + 4 < usize::MAX,
    ensures
        final(w).appended(*old(w), tester(old(w).unit(), old(w).level(), *member, i)),
{
    let mut head = "is".to_owned();
    head.append(as_type(member.name.as_str()).as_str());
    head.append("(): bool {");
    let mut body = "return this.tag === ".to_owned();
    body.append(n);
    body.append(";");
    write_short_method(w, head.as_str(), body.as_str());
}

fn write_void_accessors(w: &mut PrettyWriter, name: &str, i: usize, member: &ASUnionMember)
    requires
        old(w).level() + 4 < usize::MAX,
    ensures
        final(w).appended(
            *old(w),
            void_accessors(old(w).unit(), old(w).level(), name@, i as nat, *member),
        ),
{
    let ghost u = w.unit();
    let ghost m = w.level();
    let t = as_type(name);
    let n = dec_string(i as u64);
    let mut head = "static ".to_owned();
    head.append(as_fn(member.name.as_str()).as_str());
    head.append("(): ");
    head.append(t.as_str());
    head.append(" {");
    let mut body = "return ".to_owned();
    body.append(t.as_str());
    body.append(".new(");
    body.append(n.as_str());
    body.append(");");
    write_short_method(w, head.as_str(), body.as_str());
    w.eob();
    let ghost t1 = w.text();
    let mut head = "set".to_owned();
    head.append(as_type(member.name.as_str()).as_str());
    head.append("(): void {");
    let mut body = "this.tag = ".to_owned();
    body.append(n.as_str());
    body.append(";");
    write_short_method(w, head.as_str(), body.as_str());
    w.eob();
    write_tester(w, member, n.as_str(), Ghost(i as nat));
    assert(w.text() =~= old(w).text() + void_accessors(u, m, name@, i as nat, *member));
}

fn write_value_makers(w: &mut PrettyWriter, name: &str, n: &str, lt: &str, member: &ASUnionMember, Ghost(i): Ghost<nat>)
    requires
        n@ == crate::text::dec(i),
        lt@ == super::common::spec_as_lang(*member.type_),
        old(w).level() + 4 < usize::MAX,
    ensures
        final(w).appended(*old(w), value_makers(old(w).unit(), old(w).level(), name@, i, *member)),
{
    let ghost u = w.unit();
    let ghost m = w.level();
    let t = as_type(name);
    let mut head = "static ".to_owned();
    head.append(as_fn(member.name.as_str()).as_str());
    head.append("(val: ");
    head.append(lt);
    head.append("): ");
    head.append(t.as_str());
    head.append(" {");
    let mut body = "return ".to_owned();
    body.append(t.as_str());
    body.append(".new(");
    body.append(n);
    body.append(", val);");
    write_short_method(w, head.as_str(), body.as_str());
    let ghost t1 = w.text();
    put5(w, "set", as_type(member.name.as_str()).as_str(), "(val: ", lt, "): void {");
    w.new_block();
    put3(w, "this.tag = ", n, ";");
    w.write_line("this.set(val);");
    w.end_block();
    w.write_line("}");
    assert(w.text() =~= old(w).text() + value_makers(u, m, name@, i, *member));
}

fn write_value_getter(w: &mut PrettyWriter, n: &str, lt: &str, member: &ASUnionMember, Ghost(i): Ghost<nat>)
    requires
        n@ == crate::text::dec(i),
        lt@ == super::common::spec_as_lang(*member.type_),
        old(w).level() + 4 < usize::MAX,
    ensures
        final(w).appended(*old(w), value_getter(old(w).unit(), old(w).level(), i, *member)),
{
    let ghost u = w.unit();
    let ghost m = w.level();
    let nullable = match &*member.type_ {
        ASType::ConstPtr(_) => true,
        ASType::MutPtr(_) => true,
        ASType::ReadBuffer(_) => true,
        ASType::WriteBuffer(_) => true,
        ASType::Enum(_) => true,
        ASType::Struct(_) => true,
        ASType::Tuple(_) => true,
        ASType::Union(_) => true,
        _ => false,
    };
    let mut head = "get".to_owned();
    head.append(as_type(member.name.as_str()).as_str());
    head.append("(): ");
    head.append(lt);
    if nullable {
        head.append(" | null");
    }
    head.append(" {");
    assert(head@ =~= "get"@ + super::common::spec_as_type(member.name@) + "(): "@ + lt@ + (if nullable {
        " | null"@
    } else {
        seq![]
    }) + " {"@);
    w.write_line(head.as_str());
    w.new_block();
    if nullable {
        put3(w, "if (this.tag !== ", n, ") { return null; }");
    } else {
        put3(w, "assert(this.tag === ", n, ");");
    }
    put3(w, "return this.get<", lt, ">();");
    w.end_block();
    w.write_line("}");
    assert(w.text() =~= old(w).text() + value_getter(u, m, i, *member));
}

fn write_member_accessors(w: &mut PrettyWriter, name: &str, i: usize, member: &ASUnionMember)
    requires
        super::common::lang_ok(*member.type_),
        old(w).level() + 4 < usize::MAX,
    ensures
        final(w).appended(
            *old(w),
            member_accessors(old(w).unit(), old(w).level(), name@, i as nat, *member),
        ),
{
    proof {
        reveal(member_accessors);
    }
    let is_void = match &*member.type_ {
        ASType::Void => true,
        _ => false,
    };
    if is_void {
        write_void_accessors(w, name, i, member);
    } else {
        let ghost u = w.unit();
        let ghost m = w.level();
        let n = dec_string(i as u64);
        let lt = member.type_.as_lang();
        write_value_makers(w, name, n.as_str(), lt.as_str(), member, Ghost(i as nat));
        write_tester(w, member, n.as_str(), Ghost(i as nat));
        write_value_getter(w, n.as_str(), lt.as_str(), member, Ghost(i as nat));
        assert(w.text() =~= old(w).text() + member_accessors(u, m, name@, i as nat, *member));
    }
}

fn write_members_accessors(w: &mut PrettyWriter, name: &str, members: &[ASUnionMember])
    requires
        forall|i: int| 0 <= i < members@.len() ==> super::common::lang_ok(*(#[trigger] members@[i]).type_),
        old(w).level() + 8 < usize::MAX,
    ensures
        final(w).appended(
            *old(w),
            members_accessors(old(w).unit(), old(w).level(), name@, members@),
        ),
{
    let ghost u = w.unit();
    let ghost m = w.level();
    let ghost ms = members@;
    assert(ms.take(0) =~= Seq::<ASUnionMember>::empty());
    assert(w.text() =~= old(w).text() + members_accessors(u, m, name@, ms.take(0)));
    for i in 0..members.len()
        invariant
            ms == members@,
            forall|i: int| 0 <= i < ms.len() ==> super::common::lang_ok(*(#[trigger] ms[i]).type_),
            w.text() == old(w).text() + members_accessors(u, m, name@, ms.take(i as int)),
            w.level() == m,
            w.unit() == u,
            m + 8 < usize::MAX,
    {
        assert(ms.take(i + 1).drop_last() =~= ms.take(i as int));
        assert(super::common::lang_ok(*ms[i as int].type_));
        let ghost before = w.text();
        w.eob();
        write_member_accessors(w, name, i, &members[i]);
        assert(w.text() =~= before + "\n"@ + member_accessors(u, m, name@, i as nat, ms[i as int]));
    }
    assert(ms.take(members.len() as int) =~= ms);
}

fn write_union_members_ts(w: &mut PrettyWriter, members: &[ASUnionMember])
    requires
        forall|i: int| 0 <= i < members@.len() ==> super::common::lang_ok(*(#[trigger] members@[i]).type_),
    ensures
        final(w).appended(*old(w), union_members_ts(old(w).unit(), old(w).level(), members@)),
{
    let ghost u = w.unit();
    let ghost l = w.level();
    let ghost ms = members@;
    assert(ms.take(0) =~= Seq::<ASUnionMember>::empty());
    assert(w.text() =~= old(w).text() + union_members_ts(u, l, ms.take(0)));
    for i in 0..members.len()
        invariant
            ms == members@,
            forall|i: int| 0 <= i < ms.len() ==> super::common::lang_ok(*(#[trigger] ms[i]).type_),
            w.text() == old(w).text() + union_members_ts(u, l, ms.take(i as int)),
            w.level() == l,
            w.unit() == u,
    {
        assert(ms.take(i + 1).drop_last() =~= ms.take(i as int));
        assert(super::common::lang_ok(*ms[i as int].type_));
        let ghost before = w.text();
        let member = &members[i];
        let mut v = as_var(member.name.as_str());
        v.append(": ");
        v.append(member.type_.as_lang().as_str());
        v.append(",");
        w.write_line(v.as_str());
        assert(w.text() =~= before + union_member_ts(u, l, ms[i as int]));
    }
    assert(ms.take(members.len() as int) =~= ms);
}

fn write_union_ts(w: &mut PrettyWriter, name: &str, union_: &ASUnion)
    requires
        union_ok(*union_),
        old(w).level() + 12 < usize::MAX,
    ensures
        final(w).appended(*old(w), union_ts_text(old(w).unit(), old(w).level(), name@, *union_)),
{
    let ghost u = w.unit();
    let ghost l = w.level();
    let t = as_type(name);
    put5(w, "export const ", t.as_str(), " = union(", union_.tag_repr.as_lang().as_str(), ", {");
    w.new_block();
    write_union_members_ts(w, union_.members.as_slice());
    w.end_block();
    w.write_line("});");
    let ghost mid = w.text();
    put5(w, "export type ", t.as_str(), " = TargetType<typeof ", t.as_str(), ">;");
    w.eob();
    assert(w.text() =~= mid + super::target_type_line(u, l, name@, t@) + "\n"@);
    assert(w.text() =~= old(w).text() + union_ts_text(u, l, name@, *union_));
}

#[verifier::spinoff_prover]
fn write_union_prelude(w: &mut PrettyWriter, name: &str, union_: &ASUnion)
    requires
        union_ok(*union_),
        old(w).level() + 12 < usize::MAX,
    ensures
        final(w).appended(*old(w), union_prelude(old(w).unit(), old(w).level(), name@, *union_)),
{
    let ghost u = w.unit();
    let ghost l = w.level();
    write_union_head(w, name, union_);
    write_union_ctor(w, union_);
    write_union_new(w, name);
    write_union_get(w, union_);
    write_union_set(w, union_);
    assert(w.text() =~= old(w).text() + union_head(u, l, name@, *union_) + union_ctor(u, l, *union_)
        + union_new(u, l, name@) + union_get(u, l, *union_) + union_set(u, l, *union_));
    assert(w.text() =~= old(w).text() + union_prelude(u, l, name@, *union_));
}

#[verifier::spinoff_prover]
fn write_union_as(w: &mut PrettyWriter, name: &str, union_: &ASUnion)
    requires
        union_ok(*union_),
        old(w).level() + 12 < usize::MAX,
    ensures
        final(w).appended(*old(w), union_as_text(old(w).unit(), old(w).level(), name@, *union_)),
{
    let ghost u = w.unit();
    let ghost l = w.level();
    write_union_prelude(w, name, union_);
    w.new_block();
    write_members_accessors(w, name, union_.members.as_slice());
    w.end_block();
    w.write_line("}");
    w.eob();
    assert(w.text() =~= old(w).text() + union_prelude(u, l, name@, *union_) + members_accessors(
        u,
        l + 1,
        name@,
        union_.members@,
    ) + line(u, l, "}"@) + "\n"@);
    assert(w.text() =~= old(w).text() + union_as_text(u, l, name@, *union_));
}

impl AssemblyScriptGenerator {
    /// The declaration of the union `name`, in the generator's language.
    pub open spec fn union_text(&self, u: Seq<char>, l: nat, name: Seq<char>, un: ASUnion) -> Seq<char> {
        if self.typescript() {
            union_ts_text(u, l, name, un)
        } else {
            union_as_text(u, l, name, un)
        }
    }

    /// Declares the union `name`: in AssemblyScript an unmanaged class with
    /// accessors for each member, in TypeScript a union description.
    pub fn define_as_union(&self, w: &mut PrettyWriter, name: &str, union_: &ASUnion)
        requires
            union_ok(*union_),
            old(w).level() + 12 < usize::MAX,
        ensures
            final(w).appended(*old(w), self.union_text(old(w).unit(), old(w).level(), name@, *union_)),
    {
        if self.typescript_mode() {
            write_union_ts(w, name, union_);
        } else {
            write_union_as(w, name, union_);
        }
    }
}

} // verus!

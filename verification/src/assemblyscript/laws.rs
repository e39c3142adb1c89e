//! What the generated declarations hold, stated over the text itself.

use vstd::prelude::*;

use crate::astype::{ASEnum, ASEnumChoice, ASStructMember, ASType};
use super::struct_def::{struct_as_text, struct_ts_text};
use super::union_def::{union_as_text, union_ts_text};
use crate::document::ASModule;
use crate::pretty_writer::line;
use crate::text::{digit_value, digits_value, radix_digits, repeat};
use super::common::{spec_as_const, spec_as_fn, spec_as_lang, spec_as_namespace, spec_as_type, spec_as_var};
use super::function::{result_of, wrapper_catch};
use super::struct_def::{member_as, member_ts, members_as, members_ts, padding_text};
use super::{
    docs_text, enum_choice_as, enum_choice_ts, enum_choices_as, enum_choices_ts, indent_unit, target_type_line,
    AssemblyScriptGenerator, Options,
};

verus! {

/// `x` occurs in `s`: some stretch of `s` is exactly `x`.
pub open spec fn occurs_in(x: Seq<char>, s: Seq<char>) -> bool {
    exists|i: int| 0 <= i && i + x.len() <= s.len() && #[trigger] s.subrange(i, i + x.len()) == x
}

proof fn lemma_occurs_here(a: Seq<char>, x: Seq<char>, b: Seq<char>)
    ensures
        occurs_in(x, a + x + b),
{
    assert((a + x + b).subrange(a.len() as int, (a.len() + x.len()) as int) =~= x);
}

proof fn lemma_occurs_framed(a: Seq<char>, s: Seq<char>, b: Seq<char>, x: Seq<char>)
    requires
        occurs_in(x, s),
    ensures
        occurs_in(x, a + s + b),
{
    let i = choose|i: int| 0 <= i && i + x.len() <= s.len() && #[trigger] s.subrange(i, i + x.len()) == x;
    let j = a.len() + i;
    assert((a + s + b).subrange(j, j + x.len()) =~= s.subrange(i, i + x.len()));
}

proof fn lemma_occurs_after(a: Seq<char>, s: Seq<char>, x: Seq<char>)
    requires
        occurs_in(x, s),
    ensures
        occurs_in(x, a + s),
{
    let i = choose|i: int| 0 <= i && i + x.len() <= s.len() && #[trigger] s.subrange(i, i + x.len()) == x;
    let j = a.len() + i;
    assert((a + s).subrange(j, j + x.len()) =~= s.subrange(i, i + x.len()));
}

proof fn lemma_occurs_before(s: Seq<char>, b: Seq<char>, x: Seq<char>)
    requires
        occurs_in(x, s),
    ensures
        occurs_in(x, s + b),
{
    let i = choose|i: int| 0 <= i && i + x.len() <= s.len() && #[trigger] s.subrange(i, i + x.len()) == x;
    assert((s + b).subrange(i, i + x.len()) =~= s.subrange(i, i + x.len()));
}

proof fn lemma_starts_with(x: Seq<char>, r: Seq<char>)
    ensures
        x.is_prefix_of(x + r),
        occurs_in(x, x + r),
{
    assert(x =~= (x + r).subrange(0, x.len() as int));
    let z: int = 0;
    assert((x + r).subrange(z, z + x.len()) =~= x);
}

proof fn lemma_ends_with(p: Seq<char>, x: Seq<char>)
    ensures
        x.is_suffix_of(p + x),
{
    assert(x =~= (p + x).subrange(p.len() as int, (p + x).len() as int));
}

proof fn lemma_suffix_grows(x: Seq<char>, s: Seq<char>, a: Seq<char>, b: Seq<char>)
    requires
        x.is_suffix_of(s),
    ensures
        (x + a + b).is_suffix_of(s + a + b),
{
    let p = s.subrange(0, s.len() - x.len());
    assert(s =~= p + x);
    assert(s + a + b =~= p + (x + a + b));
    lemma_ends_with(p, x + a + b);
}

proof fn lemma_enum_choices_as_hold(u: Seq<char>, l: nat, name: Seq<char>, cs: Seq<ASEnumChoice>, i: int)
    requires
        0 <= i < cs.len(),
    ensures
        occurs_in(enum_choice_as(u, l, name, cs[i]), enum_choices_as(u, l, name, cs)),
    decreases cs.len(),
{
    let x = enum_choice_as(u, l, name, cs[i]);
    let d = cs.drop_last();
    if i == cs.len() - 1 {
        lemma_occurs_here(enum_choices_as(u, l, name, d), x, Seq::<char>::empty());
        assert(enum_choices_as(u, l, name, d) + x + Seq::<char>::empty() =~= enum_choices_as(u, l, name, cs));
    } else {
        assert(d[i] == cs[i]);
        lemma_enum_choices_as_hold(u, l, name, d, i);
        lemma_occurs_framed(Seq::<char>::empty(), enum_choices_as(u, l, name, d), enum_choice_as(u, l, name, cs.last()), x);
        assert(Seq::<char>::empty() + enum_choices_as(u, l, name, d) + enum_choice_as(u, l, name, cs.last())
            =~= enum_choices_as(u, l, name, cs));
    }
}

spec fn enum_head(u: Seq<char>, l: nat, name: Seq<char>, e: ASEnum) -> Seq<char> {
    line(u, l, "export type "@ + spec_as_type(name) + " = "@ + spec_as_lang(*e.repr) + ";"@) + "\n"@ + line(
        u,
        l,
        "export namespace "@ + spec_as_namespace(name) + " {"@,
    )
}

/// The line that declares the choice `c` of the enumeration `name` in
/// AssemblyScript: a constant of the enumeration's type whose value is
/// written in decimal.
pub open spec fn choice_line(u: Seq<char>, l: nat, name: Seq<char>, c: ASEnumChoice) -> Seq<char> {
    line(
        u,
        l,
        "export const "@ + spec_as_const(c.name@) + ": "@ + spec_as_type(name) + " = "@ + radix_digits(
            c.value as nat,
            10,
        ) + ";"@,
    )
}

/// In AssemblyScript an enumeration is declared as a type for its
/// representation, then a namespace of its name that holds, for each
/// choice, a constant of the enumeration's type whose value is written in
/// decimal digits that denote the choice's value.
pub proof fn lemma_enum_declares_each_choice(
    g: AssemblyScriptGenerator,
    u: Seq<char>,
    l: nat,
    name: Seq<char>,
    e: ASEnum,
    i: int,
)
    requires
        !g.typescript(),
        0 <= i < e.choices@.len(),
    ensures
        g.type_text(u, l, name, ASType::Enum(e)) == g.enum_text(u, l, name, e),
        (line(u, l, "export type "@ + spec_as_type(name) + " = "@ + spec_as_lang(*e.repr) + ";"@) + "\n"@
            + line(u, l, "export namespace "@ + spec_as_namespace(name) + " {"@)).is_prefix_of(
            g.enum_text(u, l, name, e),
        ),
        occurs_in(choice_line(u, l + 1, name, e.choices@[i]), g.enum_text(u, l, name, e)),
        digits_value(radix_digits(e.choices@[i].value as nat, 10), 10) == e.choices@[i].value,
        forall|k: int|
            0 <= k < radix_digits(e.choices@[i].value as nat, 10).len() ==> 0 <= #[trigger] digit_value(
                radix_digits(e.choices@[i].value as nat, 10)[k],
            ) < 10,
{
    let cs = e.choices@;
    let head = enum_head(u, l, name, e);
    let body = enum_choices_as(u, l + 1, name, cs);
    let tail = line(u, l, "}"@);
    assert(g.enum_text(u, l, name, e) =~= head + body + tail);
    assert(head =~= g.enum_text(u, l, name, e).subrange(0, head.len() as int));
    lemma_enum_choices_as_hold(u, l + 1, name, cs, i);
    lemma_occurs_framed(head, body, tail, enum_choice_as(u, l + 1, name, cs[i]));
    assert(enum_choice_as(u, l + 1, name, cs[i]) == choice_line(u, l + 1, name, cs[i]));
    crate::text::lemma_radix_digits_value(cs[i].value as nat, 10);
}

proof fn lemma_enum_choices_ts_hold(u: Seq<char>, l: nat, cs: Seq<ASEnumChoice>, i: int)
    requires
        0 <= i < cs.len(),
    ensures
        occurs_in(enum_choice_ts(u, l, cs[i]), enum_choices_ts(u, l, cs)),
    decreases cs.len(),
{
    let x = enum_choice_ts(u, l, cs[i]);
    let d = cs.drop_last();
    if i == cs.len() - 1 {
        lemma_occurs_here(enum_choices_ts(u, l, d), x, Seq::<char>::empty());
        assert(enum_choices_ts(u, l, d) + x + Seq::<char>::empty() =~= enum_choices_ts(u, l, cs));
    } else {
        assert(d[i] == cs[i]);
        lemma_enum_choices_ts_hold(u, l, d, i);
        lemma_occurs_before(enum_choices_ts(u, l, d), enum_choice_ts(u, l, cs.last()), x);
    }
}

/// In TypeScript an enumeration is declared as a value built from its
/// representation, its target type, and a constant enumeration of its name
/// in which each choice is given its value in decimal.
pub proof fn lemma_enum_ts_declares_each_choice(
    g: AssemblyScriptGenerator,
    u: Seq<char>,
    l: nat,
    name: Seq<char>,
    e: ASEnum,
    i: int,
)
    requires
        g.typescript(),
        0 <= i < e.choices@.len(),
    ensures
        line(
            u,
            l,
            "export const "@ + spec_as_type(name) + " = enumer<"@ + spec_as_namespace(name) + ">("@ + spec_as_lang(
                *e.repr,
            ) + ");"@,
        ).is_prefix_of(g.enum_text(u, l, name, e)),
        occurs_in(line(u, l, "export const enum "@ + spec_as_namespace(name) + " {"@), g.enum_text(u, l, name, e)),
        occurs_in(
            line(
                u,
                l + 1,
                spec_as_const(e.choices@[i].name@) + " = "@ + radix_digits(e.choices@[i].value as nat, 10) + ","@,
            ),
            g.enum_text(u, l, name, e),
        ),
{
    let cs = e.choices@;
    let first = enum_ts_first(u, l, name, e);
    let second = target_type_line(u, l, name, spec_as_type(name)) + "\n"@;
    let open = line(u, l, "export const enum "@ + spec_as_namespace(name) + " {"@);
    let body = enum_choices_ts(u, l + 1, cs);
    let tail = line(u, l, "}"@);
    let t = g.enum_text(u, l, name, e);
    assert(t =~= first + (second + open + body + tail));
    lemma_starts_with(first, second + open + body + tail);
    lemma_occurs_here(first + second, open, body + tail);
    assert(first + second + open + (body + tail) =~= t);
    let c = cs[i];
    let x = line(u, l + 1, spec_as_const(c.name@) + " = "@ + radix_digits(c.value as nat, 10) + ","@);
    assert(enum_choice_ts(u, l + 1, c) == docs_text(u, l + 1, c.docs@) + x);
    lemma_occurs_here(docs_text(u, l + 1, c.docs@), x, Seq::<char>::empty());
    assert(docs_text(u, l + 1, c.docs@) + x + Seq::<char>::empty() =~= enum_choice_ts(u, l + 1, c));
    lemma_enum_choices_ts_hold(u, l + 1, cs, i);
    lemma_occurs_in_occurs(x, enum_choice_ts(u, l + 1, c), body);
    lemma_occurs_framed(first + second + open, body, tail, x);
    assert(first + second + open + body + tail =~= t);
}

spec fn enum_ts_first(u: Seq<char>, l: nat, name: Seq<char>, e: ASEnum) -> Seq<char> {
    line(
        u,
        l,
        "export const "@ + spec_as_type(name) + " = enumer<"@ + spec_as_namespace(name) + ">("@ + spec_as_lang(
            *e.repr,
        ) + ");"@,
    )
}

proof fn lemma_occurs_in_occurs(x: Seq<char>, y: Seq<char>, s: Seq<char>)
    requires
        occurs_in(x, y),
        occurs_in(y, s),
    ensures
        occurs_in(x, s),
{
    let i = choose|i: int| 0 <= i && i + x.len() <= y.len() && #[trigger] y.subrange(i, i + x.len()) == x;
    let j = choose|j: int| 0 <= j && j + y.len() <= s.len() && #[trigger] s.subrange(j, j + y.len()) == y;
    assert(s.subrange(j + i, j + i + x.len()) =~= y.subrange(i, i + x.len()));
}

proof fn lemma_members_ts_hold(u: Seq<char>, l: nat, ms: Seq<ASStructMember>, i: int)
    requires
        0 <= i < ms.len(),
    ensures
        occurs_in(member_ts(u, l, ms[i]), members_ts(u, l, ms)),
    decreases ms.len(),
{
    let x = member_ts(u, l, ms[i]);
    let d = ms.drop_last();
    if i == ms.len() - 1 {
        lemma_occurs_here(members_ts(u, l, d), x, Seq::<char>::empty());
        assert(members_ts(u, l, d) + x + Seq::<char>::empty() =~= members_ts(u, l, ms));
    } else {
        assert(d[i] == ms[i]);
        lemma_members_ts_hold(u, l, d, i);
        lemma_occurs_before(members_ts(u, l, d), member_ts(u, l, ms.last()), x);
    }
}

/// In TypeScript a structure is declared as a structure description of its
/// name, with an entry for each member giving the member's type.
pub proof fn lemma_struct_ts_describes_each_member(
    g: AssemblyScriptGenerator,
    u: Seq<char>,
    l: nat,
    name: Seq<char>,
    ms: Seq<ASStructMember>,
    i: int,
)
    requires
        g.typescript(),
        0 <= i < ms.len(),
    ensures
        line(u, l, "export const "@ + spec_as_type(name) + " = struct({"@).is_prefix_of(g.struct_text(u, l, name, ms)),
        occurs_in(
            line(u, l + 1, spec_as_var(ms[i].name@) + ": "@ + spec_as_lang(*ms[i].type_) + ","@),
            g.struct_text(u, l, name, ms),
        ),
{
    let head = line(u, l, "export const "@ + spec_as_type(name) + " = struct({"@);
    let body = members_ts(u, l + 1, ms);
    let tail = line(u, l, "});"@) + target_type_line(u, l, name, spec_as_type(name)) + "\n"@;
    let t = g.struct_text(u, l, name, ms);
    assert(t =~= head + body + tail);
    assert(head + body + tail =~= head + (body + tail));
    lemma_starts_with(head, body + tail);
    lemma_members_ts_hold(u, l + 1, ms, i);
    lemma_occurs_framed(head, body, tail, member_ts(u, l + 1, ms[i]));
}

/// A type declared under a name of its own is declared by the kind of type
/// it is: an enumeration as an enumeration, a set of constants as such a
/// set, a structure as a class (in TypeScript a structure description), a
/// union as a union class (in TypeScript a union description), a tuple as
/// a tuple class; any other type with its expression.
pub proof fn lemma_type_declared_by_kind(g: AssemblyScriptGenerator, u: Seq<char>, l: nat, name: Seq<char>, t: ASType)
    ensures
        t matches ASType::Enum(e) ==> g.type_text(u, l, name, t) == g.enum_text(u, l, name, e),
        t matches ASType::Constants(c) ==> g.type_text(u, l, name, t) == g.constants_type_text(u, l, name, c),
        t matches ASType::Struct(ms) ==> g.type_text(u, l, name, t) == (if g.typescript() {
            struct_ts_text(u, l, name, ms@)
        } else {
            struct_as_text(u, l, name, ms@)
        }),
        t matches ASType::Union(un) ==> g.type_text(u, l, name, t) == (if g.typescript() {
            union_ts_text(u, l, name, un)
        } else {
            union_as_text(u, l, name, un)
        }),
        t matches ASType::Tuple(ms) ==> g.type_text(u, l, name, t) == super::tuple::tuple_text(u, l, name, ms@),
        !(t is Enum || t is Constants || t is Struct || t is Union || t is Tuple) ==> g.type_text(u, l, name, t)
            == g.atom_text(u, l, name, t),
{
}

proof fn lemma_members_as_hold(u: Seq<char>, l: nat, ms: Seq<ASStructMember>, i: int)
    requires
        0 <= i < ms.len(),
    ensures
        occurs_in(member_as(u, l, ms[i]), members_as(u, l, ms)),
    decreases ms.len(),
{
    let x = member_as(u, l, ms[i]);
    let d = ms.drop_last();
    if i == ms.len() - 1 {
        lemma_occurs_here(members_as(u, l, d), x, Seq::<char>::empty());
        assert(members_as(u, l, d) + x + Seq::<char>::empty() =~= members_as(u, l, ms));
    } else {
        assert(d[i] == ms[i]);
        lemma_members_as_hold(u, l, d, i);
        lemma_occurs_framed(Seq::<char>::empty(), members_as(u, l, d), member_as(u, l, ms.last()), x);
        assert(Seq::<char>::empty() + members_as(u, l, d) + member_as(u, l, ms.last()) =~= members_as(u, l, ms));
    }
}

/// The field that a structure member becomes in an AssemblyScript class,
/// with the padding that follows it.
pub open spec fn field_lines(u: Seq<char>, l: nat, m: ASStructMember) -> Seq<char> {
    line(u, l, spec_as_var(m.name@) + ": "@ + spec_as_lang(*m.type_) + ";"@) + padding_text(
        u,
        l,
        m.padding as nat,
    )
}

/// In AssemblyScript a structure is declared as an unmanaged class of its
/// name, with a field for each member followed by the padding that the
/// member's layout leaves after it.
pub proof fn lemma_struct_is_unmanaged_class(
    g: AssemblyScriptGenerator,
    u: Seq<char>,
    l: nat,
    name: Seq<char>,
    ms: Seq<ASStructMember>,
    i: int,
)
    requires
        !g.typescript(),
        0 <= i < ms.len(),
    ensures
        (line(u, l, "// @ts-ignore: decorator"@) + line(u, l, "@unmanaged"@) + line(
            u,
            l,
            "export class "@ + spec_as_type(name) + " {"@,
        )).is_prefix_of(g.struct_text(u, l, name, ms)),
        occurs_in(field_lines(u, l + 1, ms[i]), g.struct_text(u, l, name, ms)),
{
    let head = line(u, l, "// @ts-ignore: decorator"@) + line(u, l, "@unmanaged"@) + line(
        u,
        l,
        "export class "@ + spec_as_type(name) + " {"@,
    );
    let body = members_as(u, l + 1, ms);
    let tail = line(u, l, "}"@) + "\n"@;
    assert(g.struct_text(u, l, name, ms) =~= head + body + tail);
    assert(head =~= g.struct_text(u, l, name, ms).subrange(0, head.len() as int));
    lemma_members_as_hold(u, l + 1, ms, i);
    lemma_occurs_framed(head, body, tail, member_as(u, l + 1, ms[i]));
    assert(member_as(u, l + 1, ms[i]) == field_lines(u, l + 1, ms[i]));
}

/// With an error handler, the error handling of a registered wrapper is a
/// catch block that is closed whether or not the function returns a value.
pub proof fn lemma_wrapper_catch_closed(u: Seq<char>, m: nat, is_void: bool, o: Options)
    requires
        o.error_handler,
    ensures
        (repeat(u, m) + "} catch(err: any) {"@ + "\n"@).is_prefix_of(wrapper_catch(u, m, is_void, o)),
        (repeat(u, m) + "}"@ + "\n"@ + "\n"@).is_suffix_of(wrapper_catch(u, m, is_void, o)),
{
    let ind = repeat(u, m);
    let open = ind + "} catch(err: any) {"@ + "\n"@;
    let close = ind + "}"@ + "\n"@ + "\n"@;
    let body = if is_void {
        line(u, m, "const eRet = errorHandler2(err);"@) + line(
            u,
            m,
            "console.log(\"handled error\", err, eRet);"@,
        )
    } else {
        ind + line(u, m, "return errorHandler2(err);"@)
    };
    let c = wrapper_catch(u, m, is_void, o);
    assert(c =~= open + body + close);
    assert(open =~= c.subrange(0, open.len() as int));
    assert(close =~= c.subrange(c.len() - close.len(), c.len() as int));
}

/// With an error handler, a registered wrapper ends by closing its catch
/// block and then the function, one level deeper than the registration.
#[verifier::spinoff_prover]
pub proof fn lemma_wrapper_ends_closed(
    g: AssemblyScriptGenerator,
    u: Seq<char>,
    l: nat,
    module: Seq<char>,
    f: crate::document::ASFunc,
    o: Options,
)
    requires
        o.error_handler,
    ensures
        (repeat(u, l + 1) + "}"@ + "\n"@ + "\n"@ + repeat(u, l + 1) + "}"@ + "\n"@).is_suffix_of(
            g.wrapper_text(u, l, module, f, o),
        ),
{
    let m = l + 1;
    let ind = repeat(u, m);
    let is_void = result_of(f) is None;
    lemma_wrapper_catch_closed(u, m, is_void, o);
    let c = wrapper_catch(u, m, is_void, o);
    let close = ind + "}"@ + "\n"@ + "\n"@;
    let pre = super::function::wrapper_head(u, l, module, f, o) + super::function::wrapper_try(u, m, o)
        + super::function::wrapper_call(u, m, f, o) + super::function::wrapper_check(u, m, o)
        + super::function::wrapper_return(u, m, is_void);
    assert(g.wrapper_text(u, l, module, f, o) == super::function::wrapper_head(u, l, module, f, o)
        + super::function::wrapper_try(u, m, o) + super::function::wrapper_call(u, m, f, o)
        + super::function::wrapper_tail(u, m, f, o));
    assert(super::function::wrapper_tail(u, m, f, o) == super::function::wrapper_check(u, m, o)
        + super::function::wrapper_return(u, m, is_void) + c + ind + "}"@ + "\n"@);
    lemma_regroup_tail(
        super::function::wrapper_head(u, l, module, f, o),
        super::function::wrapper_try(u, m, o),
        super::function::wrapper_call(u, m, f, o),
        super::function::wrapper_check(u, m, o),
        super::function::wrapper_return(u, m, is_void),
        c,
        ind,
    );
    lemma_suffix_grows(close, c, ind, "}"@ + "\n"@);
    lemma_suffix_of_appended(close + ind + ("}"@ + "\n"@), pre, c + ind + ("}"@ + "\n"@));
    assert(close + ind + ("}"@ + "\n"@) =~= close + ind + "}"@ + "\n"@);
}

proof fn lemma_regroup_tail(
    h: Seq<char>,
    t: Seq<char>,
    c: Seq<char>,
    k: Seq<char>,
    r: Seq<char>,
    x: Seq<char>,
    ind: Seq<char>,
)
    ensures
        h + t + c + (k + r + x + ind + "}"@ + "\n"@) == (h + t + c + k + r) + (x + ind + ("}"@ + "\n"@)),
{
    assert(h + t + c + (k + r + x + ind + "}"@ + "\n"@) =~= (h + t + c + k + r) + (x + ind + ("}"@ + "\n"@)));
}

proof fn lemma_suffix_of_appended(x: Seq<char>, p: Seq<char>, s: Seq<char>)
    requires
        x.is_suffix_of(s),
    ensures
        x.is_suffix_of(p + s),
{
    let q = s.subrange(0, s.len() - x.len());
    assert(s =~= q + x);
    assert(p + s =~= (p + q) + x);
    lemma_ends_with(p + q, x);
}

proof fn lemma_prefix_grows(x: Seq<char>, s: Seq<char>, r: Seq<char>)
    requires
        x.is_prefix_of(s),
    ensures
        x.is_prefix_of(s + r),
{
    assert(x =~= (s + r).subrange(0, x.len() as int));
}

proof fn lemma_wrapper_head_start(u: Seq<char>, l: nat, module: Seq<char>, f: crate::document::ASFunc, o: Options)
    ensures
        (repeat(u, l) + "imports[\""@ + module + "\"][\""@ + f.name@ + "\"] = "@).is_prefix_of(
            super::function::wrapper_head(u, l, module, f, o),
        ),
{
    let start = repeat(u, l) + "imports[\""@ + module + "\"][\""@ + f.name@ + "\"] = "@;
    let am = if o.async_mode {
        "async"@
    } else {
        ""@
    };
    let plan = super::function::func_plan(f);
    let hrest = am + " function ("@ + super::function::wrapper_params(plan, plan.len()) + ") {"@ + "\n"@;
    assert(super::function::wrapper_head(u, l, module, f, o) =~= start + hrest);
    lemma_starts_with(start, hrest);
}

proof fn lemma_wrapper_call_member(u: Seq<char>, m: nat, f: crate::document::ASFunc, o: Options)
    ensures
        occurs_in(
            (if o.async_mode {
                "await"@
            } else {
                ""@
            }) + " obj."@ + spec_as_fn(f.name@) + "("@,
            super::function::wrapper_call(u, m, f, o),
        ),
{
    let plan = super::function::func_plan(f);
    let aw = if o.async_mode {
        "await"@
    } else {
        ""@
    };
    let x = aw + " obj."@ + spec_as_fn(f.name@) + "("@;
    let ind = repeat(u, m);
    let args = super::function::call_args(plan, plan.len()) + ");"@ + "\n"@;
    let c = super::function::wrapper_call(u, m, f, o);
    if result_of(f) is None {
        assert(c =~= (ind + ind) + x + args);
        lemma_occurs_here(ind + ind, x, args);
    } else {
        assert(c =~= (ind + ind + "const ret = "@) + x + args);
        lemma_occurs_here(ind + ind + "const ret = "@, x, args);
    }
}

proof fn lemma_wrapper_tail_returns(u: Seq<char>, m: nat, f: crate::document::ASFunc, o: Options)
    requires
        result_of(f) is Some,
    ensures
        occurs_in("return ret;"@ + "\n"@, super::function::wrapper_tail(u, m, f, o)),
{
    let y = "return ret;"@ + "\n"@;
    let ind = repeat(u, m);
    let ck = super::function::wrapper_check(u, m, o);
    let rt = super::function::wrapper_return(u, m, false);
    let ca = wrapper_catch(u, m, false, o);
    assert(rt =~= (ind + ind) + y + Seq::<char>::empty());
    lemma_occurs_here(ind + ind, y, Seq::<char>::empty());
    lemma_occurs_framed(ck, rt, ca + ind + "}"@ + "\n"@, y);
    assert(super::function::wrapper_tail(u, m, f, o) =~= ck + rt + (ca + ind + "}"@ + "\n"@));
}

/// A registered wrapper is assigned to the function's entry among the
/// module's imports; it calls the implementation's member of the
/// function's name, awaiting it in async mode, and returns what that call
/// returned when the function has a result.
pub proof fn lemma_wrapper_calls_member(
    g: AssemblyScriptGenerator,
    u: Seq<char>,
    l: nat,
    module: Seq<char>,
    f: crate::document::ASFunc,
    o: Options,
)
    ensures
        (repeat(u, l) + "imports[\""@ + module + "\"][\""@ + f.name@ + "\"] = "@).is_prefix_of(
            g.wrapper_text(u, l, module, f, o),
        ),
        occurs_in(
            (if o.async_mode {
                "await"@
            } else {
                ""@
            }) + " obj."@ + spec_as_fn(f.name@) + "("@,
            g.wrapper_text(u, l, module, f, o),
        ),
        result_of(f) is Some ==> occurs_in("return ret;"@ + "\n"@, g.wrapper_text(u, l, module, f, o)),
{
    let m = l + 1;
    let h = super::function::wrapper_head(u, l, module, f, o);
    let tr = super::function::wrapper_try(u, m, o);
    let c = super::function::wrapper_call(u, m, f, o);
    let k = super::function::wrapper_tail(u, m, f, o);
    assert(g.wrapper_text(u, l, module, f, o) == h + tr + c + k);
    lemma_wrapper_head_start(u, l, module, f, o);
    lemma_prefix_grows(
        repeat(u, l) + "imports[\""@ + module + "\"][\""@ + f.name@ + "\"] = "@,
        h,
        tr + c + k,
    );
    lemma_regroup4(h, tr, c, k);
    lemma_wrapper_call_member(u, m, f, o);
    lemma_occurs_framed(
        h + tr,
        c,
        k,
        (if o.async_mode {
            "await"@
        } else {
            ""@
        }) + " obj."@ + spec_as_fn(f.name@) + "("@,
    );
    if result_of(f) is Some {
        lemma_wrapper_tail_returns(u, m, f, o);
        lemma_occurs_after(h + tr + c, k, "return ret;"@ + "\n"@);
    }
}

proof fn lemma_regroup4(a: Seq<char>, b: Seq<char>, c: Seq<char>, d: Seq<char>)
    ensures
        a + b + c + d == a + (b + c + d),
{
    assert(a + b + c + d =~= a + (b + c + d));
}

/// In export mode the function that registers a module's implementation
/// takes it as a value of the interface that the module declares: the
/// module's name as a type, with `_async` appended in async mode.
pub proof fn lemma_registration_takes_the_interface(
    g: AssemblyScriptGenerator,
    name: Seq<char>,
    m: ASModule,
    o: Options,
)
    requires
        o.export_mode,
    ensures
        ({
            let i = spec_as_type(
                if o.async_mode {
                    name + "_async"@
                } else {
                    name
                },
            );
            &&& line(indent_unit(), 0, "export interface "@ + i + " {"@).is_prefix_of(g.module_body(name, m, o))
            &&& occurs_in(
                "export function add"@ + spec_as_type(name) + "ToImports(imports: any, obj: "@ + i + ", "@,
                g.module_body(name, m, o),
            )
        }),
{
    let i = spec_as_type(g.interface_name(name, o));
    let head = line(indent_unit(), 0, "export interface "@ + i + " {"@);
    let funcs = g.funcs_text(indent_unit(), 1, name, m.funcs@, o);
    let x = "export function add"@ + spec_as_type(name) + "ToImports(imports: any, obj: "@ + i + ", "@;
    let ex = g.exports_text(name, m, o);
    lemma_exports_start(g, name, m, o);
    let mid = "}"@ + "\n"@ + "\n"@;
    lemma_occurs_after(mid, ex, x);
    lemma_occurs_after(head + funcs, mid + ex, x);
    assert(g.module_body(name, m, o) == head + funcs + (mid + ex));
    lemma_regroup3(head, funcs, mid + ex);
    lemma_starts_with(head, funcs + (mid + ex));
}

proof fn lemma_regroup3(a: Seq<char>, b: Seq<char>, c: Seq<char>)
    ensures
        a + b + c == a + (b + c),
{
    assert(a + b + c =~= a + (b + c));
}

#[verifier::spinoff_prover]
proof fn lemma_exports_start(g: AssemblyScriptGenerator, name: Seq<char>, m: ASModule, o: Options)
    ensures
        occurs_in(
            "export function add"@ + spec_as_type(name) + "ToImports(imports: any, obj: "@ + spec_as_type(
                g.interface_name(name, o),
            ) + ", "@,
            g.exports_text(name, m, o),
        ),
{
    let x = "export function add"@ + spec_as_type(name) + "ToImports(imports: any, obj: "@ + spec_as_type(
        g.interface_name(name, o),
    ) + ", "@;
    let e = if o.error_wrapper {
        "errorHandler1: (err: any) => number, "@
    } else {
        ""@
    };
    let a = "get_export: (name: string) => WebAssembly.ExportValue): void {"@ + "\n"@;
    let b = line(indent_unit(), 2, "if (!(\""@ + name + "\" in imports)) imports[\""@ + name + "\"] = {};"@);
    let w = g.wrappers_text(indent_unit(), 2, name, m.funcs@, o);
    assert(g.exports_text(name, m, o) == x + e + a + b + w + "}"@ + "\n"@);
    lemma_regroup_exports(x, e, a, b, w);
    lemma_starts_with(x, e + a + b + w + "}"@ + "\n"@);
}

proof fn lemma_regroup_exports(x: Seq<char>, e: Seq<char>, a: Seq<char>, b: Seq<char>, w: Seq<char>)
    ensures
        x + e + a + b + w + "}"@ + "\n"@ =~= x + (e + a + b + w + "}"@ + "\n"@),
{
}

} // verus!

//! The AssemblyScript (and TypeScript) generator.

pub mod common;
pub mod function;
pub mod laws;
pub mod struct_def;
pub mod tuple;
pub mod union_def;

use vstd::prelude::*;
use vstd::string::*;

use crate::astype::{ASConstant, ASConstants, ASEnum, ASEnumChoice, ASType};
use crate::document::{ASConstantDef, ASDocument, ASModule, ASNamedType, ASTypeRef};
use crate::pretty_writer::PrettyWriter;
use crate::text::{count_ones, dec_string, hex_string, split_lines, str_eq};
use self::common::{as_const, as_namespace, as_type};
use crate::pretty_writer::line;

verus! {

/// What to generate besides the declarations of each module.
pub struct Options {
    /// Leave out the prelude that precedes each module (the generator's
    /// header).
    pub skip_header: bool,
    /// Leave out the type declarations.
    pub skip_imports: bool,
    /// Declare the functions as returning promises.
    pub async_mode: bool,
    /// Declare the functions as members of an interface, with a function
    /// that registers an implementation of it as imports.
    pub export_mode: bool,
    /// Let the registering function take an error handler.
    pub error_wrapper: bool,
    /// Route the errors of each registered function to a handler.
    pub error_handler: bool,
}

/// Generates AssemblyScript declarations, or TypeScript ones in TypeScript
/// mode.
pub struct AssemblyScriptGenerator {
    module_name: Option<String>,
    typescript_mode: bool,
    header: String,
}

/// The text of one comment line of a documentation block.
pub open spec fn doc_line(u: Seq<char>, l: nat, text: Seq<char>) -> Seq<char> {
    if text.len() == 0 {
        crate::pretty_writer::line(u, l, " *"@)
    } else {
        crate::pretty_writer::line(u, l, " * "@ + text)
    }
}

/// The comment lines of a documentation block, one for each line of text.
pub open spec fn doc_lines(u: Seq<char>, l: nat, ls: Seq<Seq<char>>) -> Seq<char>
    decreases ls.len(),
{
    if ls.len() == 0 {
        seq![]
    } else {
        doc_lines(u, l, ls.drop_last()) + doc_line(u, l, ls.last())
    }
}

/// A block comment that opens with `open` and holds the lines of `docs`;
/// nothing when `docs` is empty.
pub open spec fn comment_block(u: Seq<char>, l: nat, open: Seq<char>, docs: Seq<char>) -> Seq<
    char,
> {
    if docs.len() == 0 {
        seq![]
    } else {
        crate::pretty_writer::line(u, l, open) + doc_lines(u, l, crate::text::lines(docs))
            + crate::pretty_writer::line(u, l, " */"@)
    }
}

/// A documentation comment holding `docs`; nothing when `docs` is empty.
pub open spec fn docs_text(u: Seq<char>, l: nat, docs: Seq<char>) -> Seq<char> {
    comment_block(u, l, "/**"@, docs)
}

/// A plain comment holding `docs`; nothing when `docs` is empty.
pub open spec fn comments_text(u: Seq<char>, l: nat, docs: Seq<char>) -> Seq<char> {
    comment_block(u, l, "/*"@, docs)
}

fn write_block_comment(w: &mut PrettyWriter, open: &str, docs: &str)
    ensures
        final(w).appended(*old(w), comment_block(old(w).unit(), old(w).level(), open@, docs@)),
{
    let ghost u = w.unit();
    let ghost l = w.level();
    if docs.unicode_len() == 0 {
        assert(w.text() =~= old(w).text() + Seq::<char>::empty());
        return ;
    }
    w.write_line(open);
    let ghost head = w.text();
    let lines = split_lines(docs);
    let ghost ls = crate::text::views(lines@);
    assert(ls.take(0) =~= Seq::<Seq<char>>::empty());
    for i in 0..lines.len()
        invariant
            ls == crate::text::views(lines@),
            w.text() == head + doc_lines(u, l, ls.take(i as int)),
            w.level() == l,
            w.unit() == u,
    {
        assert(ls.take(i + 1).drop_last() =~= ls.take(i as int));
        assert(ls[i as int] == lines@[i as int]@);
        let ghost before = w.text();
        if lines[i].as_str().unicode_len() == 0 {
            w.write_line(" *");
        } else {
            let mut s = " * ".to_owned();
            s.append(lines[i].as_str());
            w.write_line(s.as_str());
        }
        assert(w.text() =~= before + doc_line(u, l, ls[i as int]));
    }
    assert(ls.take(lines.len() as int) =~= ls);
    w.write_line(" */");
    assert(w.text() =~= old(w).text() + comment_block(u, l, open@, docs@));
}

/// The line `export type <name> = <value>;`.
pub open spec fn type_line(u: Seq<char>, l: nat, name: Seq<char>, value: Seq<char>) -> Seq<char> {
    crate::pretty_writer::line(
        u,
        l,
        "export type "@ + common::spec_as_type(name) + " = "@ + value + ";"@,
    )
}

/// The line `export const <name> = <value>;`.
pub open spec fn const_line(u: Seq<char>, l: nat, name: Seq<char>, value: Seq<char>) -> Seq<char> {
    crate::pretty_writer::line(
        u,
        l,
        "export const "@ + common::spec_as_type(name) + " = "@ + value + ";"@,
    )
}

/// The line `export type <name> = TargetType<typeof <value>>;`.
pub open spec fn target_type_line(u: Seq<char>, l: nat, name: Seq<char>, value: Seq<char>) -> Seq<
    char,
> {
    crate::pretty_writer::line(
        u,
        l,
        "export type "@ + common::spec_as_type(name) + " = TargetType<typeof "@ + value + ">;"@,
    )
}

fn write_decl(w: &mut PrettyWriter, head: &str, name: &str, mid: &str, value: &str, tail: &str)
    ensures
        final(w).appended(
            *old(w),
            crate::pretty_writer::line(
                old(w).unit(),
                old(w).level(),
                head@ + common::spec_as_type(name@) + mid@ + value@ + tail@,
            ),
        ),
{
    let mut s = head.to_owned();
    s.append(as_type(name).as_str());
    s.append(mid);
    s.append(value);
    s.append(tail);
    assert(s@ =~= head@ + common::spec_as_type(name@) + mid@ + value@ + tail@);
    w.write_line(s.as_str());
}

impl AssemblyScriptGenerator {
    /// The module name that replaces the document's own, if any.
    pub closed spec fn spec_module_name(&self) -> Option<Seq<char>> {
        match self.module_name {
            Some(n) => Some(n@),
            None => None,
        }
    }

    /// Whether TypeScript is generated rather than AssemblyScript.
    pub closed spec fn typescript(&self) -> bool {
        self.typescript_mode
    }

    /// A generator that names the modules `module_name` when given, and
    /// generates TypeScript when `typescript_mode` holds.
    pub fn new(module_name: Option<String>, typescript_mode: bool) -> (g: Self)
        ensures
            g.spec_module_name() == (match module_name {
                Some(n) => Some(n@),
                None => None::<Seq<char>>,
            }),
            g.typescript() == typescript_mode,
            g.spec_header() == Seq::<char>::empty(),
    {
        AssemblyScriptGenerator { module_name, typescript_mode: typescript_mode, header: String::new() }
    }

    /// The prelude written at the start of each module unless it is
    /// skipped.
    pub closed spec fn spec_header(&self) -> Seq<char> {
        self.header@
    }

    /// The same generator, with `header` as the prelude of each module.
    pub fn with_header(self, header: String) -> (g: Self)
        ensures
            g.spec_module_name() == self.spec_module_name(),
            g.typescript() == self.typescript(),
            g.spec_header() == header@,
    {
        AssemblyScriptGenerator { header, ..self }
    }

    /// Writes the prelude of a module, as it is.
    pub fn header(&self, w: &mut PrettyWriter)
        ensures
            final(w).appended(*old(w), self.spec_header()),
    {
        w.write(self.header.as_str());
    }

    /// Whether TypeScript is generated rather than AssemblyScript.
    pub fn typescript_mode(&self) -> (b: bool)
        ensures
            b == self.typescript(),
    {
        self.typescript_mode
    }

    /// Writes `docs` as a documentation comment (`/** ... */`), one comment
    /// line for each of its lines; writes nothing when `docs` is empty.
    pub fn write_docs(w: &mut PrettyWriter, docs: &str)
        ensures
            final(w).appended(*old(w), docs_text(old(w).unit(), old(w).level(), docs@)),
    {
        write_block_comment(w, "/**", docs);
    }

    /// Writes `docs` as a plain comment (`/* ... */`), one comment line for
    /// each of its lines; writes nothing when `docs` is empty.
    pub fn write_comments(w: &mut PrettyWriter, docs: &str)
        ensures
            final(w).appended(*old(w), comments_text(old(w).unit(), old(w).level(), docs@)),
    {
        write_block_comment(w, "/*", docs);
    }

    /// The declaration of `name` as another name for a type.
    pub open spec fn alias_text(&self, u: Seq<char>, l: nat, name: Seq<char>, other: ASType) -> Seq<
        char,
    > {
        let v = common::spec_as_lang(other);
        if self.typescript() {
            const_line(u, l, name, v) + type_line(u, l, name, v)
        } else {
            type_line(u, l, name, v)
        }
    }

    /// Declares `name` as another name for `other_type`.
    pub fn define_as_alias(&self, w: &mut PrettyWriter, name: &str, other_type: &ASType)
        requires
            common::lang_ok(*other_type),
        ensures
            final(w).appended(
                *old(w),
                self.alias_text(old(w).unit(), old(w).level(), name@, *other_type),
            ),
    {
        let v = other_type.as_lang();
        if self.typescript_mode {
            write_decl(w, "export const ", name, " = ", v.as_str(), ";");
            write_decl(w, "export type ", name, " = ", v.as_str(), ";");
        } else {
            write_decl(w, "export type ", name, " = ", v.as_str(), ";");
        }
        assert(w.text() =~= old(w).text() + self.alias_text(
            old(w).unit(),
            old(w).level(),
            name@,
            *other_type,
        ));
    }

    /// The declaration of `name` as a type of its own.
    pub open spec fn atom_text(&self, u: Seq<char>, l: nat, name: Seq<char>, t: ASType) -> Seq<
        char,
    > {
        let v = common::spec_as_lang(t);
        if self.typescript() {
            const_line(u, l, name, v) + target_type_line(u, l, name, v)
        } else {
            type_line(u, l, name, v)
        }
    }

    /// Declares `name` as the type `type_`.
    pub fn define_as_atom(&self, w: &mut PrettyWriter, name: &str, type_: &ASType)
        requires
            common::lang_ok(*type_),
        ensures
            final(w).appended(*old(w), self.atom_text(old(w).unit(), old(w).level(), name@, *type_)),
    {
        let v = type_.as_lang();
        if self.typescript_mode {
            write_decl(w, "export const ", name, " = ", v.as_str(), ";");
            write_decl(w, "export type ", name, " = TargetType<typeof ", v.as_str(), ">;");
        } else {
            write_decl(w, "export type ", name, " = ", v.as_str(), ";");
        }
        assert(w.text() =~= old(w).text() + self.atom_text(
            old(w).unit(),
            old(w).level(),
            name@,
            *type_,
        ));
    }

    /// The declaration of `name` as the enumeration `e`.
    pub open spec fn enum_text(&self, u: Seq<char>, l: nat, name: Seq<char>, e: ASEnum) -> Seq<char> {
        let r = common::spec_as_lang(*e.repr);
        let t = common::spec_as_type(name);
        let n = common::spec_as_namespace(name);
        if self.typescript() {
            line(u, l, "export const "@ + t + " = enumer<"@ + n + ">("@ + r + ");"@)
                + target_type_line(u, l, name, t) + "\n"@ + line(
                u,
                l,
                "export const enum "@ + n + " {"@,
            ) + enum_choices_ts(u, l + 1, e.choices@) + line(u, l, "}"@)
        } else {
            type_line(u, l, name, r) + "\n"@ + line(u, l, "export namespace "@ + n + " {"@)
                + enum_choices_as(u, l + 1, name, e.choices@) + line(u, l, "}"@)
        }
    }

    /// Declares `name` as the enumeration `enum_`: a type for its
    /// representation and a namespace that holds one constant for each
    /// choice.
    pub fn define_as_enum(&self, w: &mut PrettyWriter, name: &str, enum_: &ASEnum)
        requires
            common::lang_ok(*enum_.repr),
            old(w).level() < usize::MAX,
        ensures
            final(w).appended(*old(w), self.enum_text(old(w).unit(), old(w).level(), name@, *enum_)),
    {
        let ghost u = w.unit();
        let ghost l = w.level();
        let repr = enum_.repr.as_lang();
        let t = as_type(name);
        let n = as_namespace(name);
        if self.typescript_mode {
            let mut s = "export const ".to_owned();
            s.append(t.as_str());
            s.append(" = enumer<");
            s.append(n.as_str());
            s.append(">(");
            s.append(repr.as_str());
            s.append(");");
            w.write_line(s.as_str());
            write_decl(w, "export type ", name, " = TargetType<typeof ", t.as_str(), ">;");
            w.eob();
            let ghost part1 = w.text();
            let mut s = "export const enum ".to_owned();
            s.append(n.as_str());
            s.append(" {");
            w.write_line(s.as_str());
            w.new_block();
            write_enum_choices_ts(w, enum_.choices.as_slice());
            w.end_block();
            w.write_line("}");
            assert(w.text() =~= part1 + line(u, l, "export const enum "@ + n@ + " {"@)
                + enum_choices_ts(u, l + 1, enum_.choices@) + line(u, l, "}"@));
        } else {
            write_decl(w, "export type ", name, " = ", repr.as_str(), ";");
            w.eob();
            let ghost part1 = w.text();
            let mut s = "export namespace ".to_owned();
            s.append(n.as_str());
            s.append(" {");
            w.write_line(s.as_str());
            w.new_block();
            write_enum_choices_as(w, name, t.as_str(), enum_.choices.as_slice());
            w.end_block();
            w.write_line("}");
            assert(w.text() =~= part1 + line(u, l, "export namespace "@ + n@ + " {"@)
                + enum_choices_as(u, l + 1, name@, enum_.choices@) + line(u, l, "}"@));
        }
        assert(w.text() =~= old(w).text() + self.enum_text(u, l, name@, *enum_));
    }

    /// The declaration of `name` as the set of constants `c`.
    pub open spec fn constants_type_text(
        &self,
        u: Seq<char>,
        l: nat,
        name: Seq<char>,
        c: ASConstants,
    ) -> Seq<char> {
        let r = common::spec_as_lang(*c.repr);
        if self.typescript() {
            const_line(u, l, name, r) + target_type_line(u, l, name, r) + "\n"@
                + self.constants_text(u, l, name, Some(&*c.repr), c.constants@)
        } else {
            type_line(u, l, name, r) + "\n"@ + self.constants_text(
                u,
                l,
                name,
                Some(&*c.repr),
                c.constants@,
            )
        }
    }

    /// Declares `name` as a type for the representation of `constants`,
    /// followed by its constants.
    pub fn define_as_constants(&self, w: &mut PrettyWriter, name: &str, constants: &ASConstants)
        requires
            common::lang_ok(*constants.repr),
            old(w).level() < usize::MAX,
        ensures
            final(w).appended(
                *old(w),
                self.constants_type_text(old(w).unit(), old(w).level(), name@, *constants),
            ),
    {
        let repr = constants.repr.as_lang();
        if self.typescript_mode {
            write_decl(w, "export const ", name, " = ", repr.as_str(), ";");
            write_decl(w, "export type ", name, " = TargetType<typeof ", repr.as_str(), ">;");
            w.eob();
            self.define_constants_for_type(
                w,
                name,
                Some(&*constants.repr),
                constants.constants.as_slice(),
            );
        } else {
            write_decl(w, "export type ", name, " = ", repr.as_str(), ";");
            w.eob();
            self.define_constants_for_type(
                w,
                name,
                Some(&*constants.repr),
                constants.constants.as_slice(),
            );
        }
        assert(w.text() =~= old(w).text() + self.constants_type_text(
            old(w).unit(),
            old(w).level(),
            name@,
            *constants,
        ));
    }

    /// The constants of the type `ty_name`, in a namespace (TypeScript: an
    /// object) of that name; nothing when there are none. Values are written
    /// in hexadecimal (see `use_hex`), and in TypeScript as big integers when
    /// the type is 64 bits wide.
    pub open spec fn constants_text(
        &self,
        u: Seq<char>,
        l: nat,
        ty_name: Seq<char>,
        parent_type: Option<&ASType>,
        cs: Seq<ASConstant>,
    ) -> Seq<char> {
        let n = common::spec_as_namespace(ty_name);
        if cs.len() == 0 {
            seq![]
        } else if self.typescript() {
            line(u, l, "export const "@ + n + " = {"@) + constants_ts(
                u,
                l + 1,
                cs,
                use_hex(cs),
                is_bigint(parent_type),
            ) + line(u, l, "}"@) + "\n"@
        } else {
            line(u, l, "export namespace "@ + n + " {"@) + constants_as(
                u,
                l + 1,
                ty_name,
                cs,
                use_hex(cs),
            ) + line(u, l, "}"@) + "\n"@
        }
    }

    /// Declares the constants of the type `ty_name` (see `constants_text`).
    pub fn define_constants_for_type(
        &self,
        w: &mut PrettyWriter,
        ty_name: &str,
        parent_type: Option<&ASType>,
        constants: &[ASConstant],
    )
        requires
            old(w).level() < usize::MAX,
        ensures
            final(w).appended(
                *old(w),
                self.constants_text(
                    old(w).unit(),
                    old(w).level(),
                    ty_name@,
                    parent_type,
                    constants@,
                ),
            ),
    {
        let ghost u = w.unit();
        let ghost l = w.level();
        let ghost cs = constants@;
        if constants.len() == 0 {
            assert(w.text() =~= old(w).text() + Seq::<char>::empty());
            return ;
        }
        let n = as_namespace(ty_name);
        let hex = use_hex_for(constants);
        if self.typescript_mode {
            let mut s = "export const ".to_owned();
            s.append(n.as_str());
            s.append(" = {");
            w.write_line(s.as_str());
            w.new_block();
            let bigint = match parent_type {
                Some(par_type) => match par_type {
                    ASType::U64 => true,
                    ASType::S64 => true,
                    _ => false,
                },
                _ => false,
            };
            write_constants_ts(w, constants, hex, bigint);
            w.end_block();
            w.write_line("}");
            w.eob();
        } else {
            let mut s = "export namespace ".to_owned();
            s.append(n.as_str());
            s.append(" {");
            w.write_line(s.as_str());
            w.new_block();
            let t = as_type(ty_name);
            write_constants_as(w, ty_name, t.as_str(), constants, hex);
            w.end_block();
            w.write_line("}");
            w.eob();
        }
        assert(w.text() =~= old(w).text() + self.constants_text(u, l, ty_name@, parent_type, cs));
    }
}

/// Whether a type can be declared under a name of its own: enumerations,
/// constant sets, structures, tuples and unions whose parts have
/// expressions, and the other types that have one. Pointers, options,
/// results and `void` cannot.
pub open spec fn definable(t: ASType) -> bool {
    match t {
        ASType::Enum(e) => common::lang_ok(*e.repr),
        ASType::Constants(c) => common::lang_ok(*c.repr),
        ASType::Struct(ms) => struct_def::members_lang_ok(ms@),
        ASType::Void => false,
        ASType::ConstPtr(_) => false,
        ASType::MutPtr(_) => false,
        ASType::Option(_) => false,
        ASType::Result(_) => false,
        ASType::Union(un) => union_def::union_ok(un),
        ASType::Tuple(ms) => tuple::tuple_lang_ok(ms@),
        _ => common::lang_ok(t),
    }
}

/// Whether a named type can be declared.
pub open spec fn named_type_ok(nt: ASNamedType) -> bool {
    match nt.tref {
        ASTypeRef::Name(t) => common::lang_ok(*t),
        ASTypeRef::Value(t) => definable(*t),
    }
}

/// Whether a type can be declared under a name of its own (see
/// `definable`).
pub fn is_definable(t: &ASType) -> (ok: bool)
    ensures
        ok == definable(*t),
{
    match t {
        ASType::Enum(e) => e.repr.is_lang_ok(),
        ASType::Constants(c) => c.repr.is_lang_ok(),
        ASType::Struct(ms) => {
            let mut i: usize = 0;
            while i < ms.len()
                invariant
                    i <= ms@.len(),
                    definable(*t) == struct_def::members_lang_ok(ms@),
                    forall|j: int| 0 <= j < i ==> common::lang_ok(*(#[trigger] ms@[j]).type_),
                decreases ms@.len() - i,
            {
                if !ms[i].type_.is_lang_ok() {
                    assert(!struct_def::members_lang_ok(ms@));
                    return false;
                }
                i = i + 1;
            }
            true
        },
        ASType::Void => false,
        ASType::ConstPtr(_) => false,
        ASType::MutPtr(_) => false,
        ASType::Option(_) => false,
        ASType::Result(_) => false,
        ASType::Union(un) => union_def::is_union_ok(un),
        ASType::Tuple(ms) => tuple::is_tuple_lang_ok(ms.as_slice()),
        _ => t.is_lang_ok(),
    }
}

/// Whether a named type can be declared (see `named_type_ok`).
pub fn is_named_type_ok(nt: &ASNamedType) -> (ok: bool)
    ensures
        ok == named_type_ok(*nt),
{
    match &nt.tref {
        ASTypeRef::Name(t) => t.is_lang_ok(),
        ASTypeRef::Value(t) => is_definable(&**t),
    }
}

/// The constants of the document whose type is `ty`, in their order.
pub open spec fn constants_for(cs: Seq<ASConstantDef>, ty: Seq<char>) -> Seq<ASConstant>
    decreases cs.len(),
{
    if cs.len() == 0 {
        seq![]
    } else {
        let rest = constants_for(cs.drop_last(), ty);
        let c = cs.last();
        if c.ty@ == ty {
            rest.push(ASConstant { name: c.name, value: c.value, docs: c.docs })
        } else {
            rest
        }
    }
}

/// Gathers the constants of the document whose type is `ty`.
pub fn constants_for_type(constants: &Vec<ASConstantDef>, ty: &str) -> (r: Vec<ASConstant>)
    ensures
        r@ == constants_for(constants@, ty@),
{
    let ghost cs = constants@;
    let mut r: Vec<ASConstant> = Vec::new();
    assert(cs.take(0) =~= Seq::<ASConstantDef>::empty());
    for i in 0..constants.len()
        invariant
            cs == constants@,
            r@ == constants_for(cs.take(i as int), ty@),
    {
        assert(cs.take(i + 1).drop_last() =~= cs.take(i as int));
        let x = &constants[i];
        if str_eq(x.ty.as_str(), ty) {
            r.push(ASConstant { name: x.name.clone(), value: x.value, docs: x.docs.clone() });
        }
    }
    assert(cs.take(constants.len() as int) =~= cs);
    r
}

impl AssemblyScriptGenerator {
    /// The declaration of `name` as the type `t`.
    pub open spec fn type_text(&self, u: Seq<char>, l: nat, name: Seq<char>, t: ASType) -> Seq<char> {
        match t {
            ASType::Enum(e) => self.enum_text(u, l, name, e),
            ASType::Constants(c) => self.constants_type_text(u, l, name, c),
            ASType::Struct(ms) => self.struct_text(u, l, name, ms@),
            ASType::Union(un) => self.union_text(u, l, name, un),
            ASType::Tuple(ms) => tuple::tuple_text(u, l, name, ms@),
            _ => self.atom_text(u, l, name, t),
        }
    }

    fn define_as_type(&self, w: &mut PrettyWriter, name: &str, type_: &ASType)
        requires
            definable(*type_),
            old(w).level() + 12 < usize::MAX,
        ensures
            final(w).appended(*old(w), self.type_text(old(w).unit(), old(w).level(), name@, *type_)),
    {
        match type_ {
            ASType::Enum(enum_) => self.define_as_enum(w, name, enum_),
            ASType::Constants(constants) => self.define_as_constants(w, name, constants),
            ASType::Struct(members) => self.define_as_struct(w, type_, name, members.as_slice()),
            ASType::Union(union_) => self.define_as_union(w, name, union_),
            ASType::Tuple(members) => Self::define_as_tuple(w, name, members.as_slice()),
            _ => self.define_as_atom(w, name, type_),
        }
    }

    /// The declaration of a named type: its documentation, its declaration,
    /// an empty line, then its constants.
    pub open spec fn define_type_text(&self, u: Seq<char>, l: nat, nt: ASNamedType, cs: Seq<ASConstant>) -> Seq<char> {
        docs_text(u, l, nt.docs@) + (match nt.tref {
            ASTypeRef::Name(t) => self.alias_text(u, l, nt.name@, *t),
            ASTypeRef::Value(t) => self.type_text(u, l, nt.name@, *t),
        }) + "\n"@ + self.constants_text(u, l, nt.name@, None, cs)
    }

    fn define_type(&self, w: &mut PrettyWriter, type_witx: &ASNamedType, constants: &[ASConstant])
        requires
            named_type_ok(*type_witx),
            old(w).level() + 12 < usize::MAX,
        ensures
            final(w).appended(
                *old(w),
                self.define_type_text(old(w).unit(), old(w).level(), *type_witx, constants@),
            ),
    {
        let ghost u = w.unit();
        let ghost l = w.level();
        Self::write_docs(w, type_witx.docs.as_str());
        let ghost t0 = w.text();
        let ty_name = type_witx.name.as_str();
        match &type_witx.tref {
            ASTypeRef::Name(other_type) => self.define_as_alias(w, ty_name, &**other_type),
            ASTypeRef::Value(type_witx) => self.define_as_type(w, ty_name, &**type_witx),
        }
        w.eob();
        let ghost t1 = w.text();
        self.define_constants_for_type(w, ty_name, None, constants);
        assert(w.text() =~= old(w).text() + self.define_type_text(u, l, *type_witx, constants@));
    }
}

/// The indentation unit of generated code.
pub open spec fn indent_unit() -> Seq<char> {
    "    "@
}

impl AssemblyScriptGenerator {
    /// The name under which the module `m` is generated.
    pub open spec fn module_name_for(&self, m: ASModule) -> Seq<char> {
        match self.spec_module_name() {
            None => m.name@,
            Some(n) => n,
        }
    }

    /// The declarations of the named types `nts`, each followed by its
    /// constants among `cs`.
    pub open spec fn types_text(&self, u: Seq<char>, l: nat, nts: Seq<ASNamedType>, cs: Seq<ASConstantDef>) -> Seq<char>
        decreases nts.len(),
    {
        if nts.len() == 0 {
            seq![]
        } else {
            self.types_text(u, l, nts.drop_last(), cs) + self.define_type_text(
                u,
                l,
                nts.last(),
                constants_for(cs, nts.last().name@),
            )
        }
    }

    /// The name of the interface that holds the module's functions.
    pub open spec fn interface_name(&self, name: Seq<char>, options: Options) -> Seq<char> {
        if options.async_mode {
            name + "_async"@
        } else {
            name
        }
    }

    /// The function that registers an implementation of the module's
    /// interface as imports, for the module generated as `name`.
    pub open spec fn exports_text(&self, name: Seq<char>, m: ASModule, options: Options) -> Seq<char> {
        let gen = self.interface_name(name, options);
        "export function add"@ + common::spec_as_type(name) + "ToImports(imports: any, obj: "@
            + common::spec_as_type(gen) + ", "@ + (if options.error_wrapper {
            "errorHandler1: (err: any) => number, "@
        } else {
            ""@
        }) + "get_export: (name: string) => WebAssembly.ExportValue): void {"@ + "\n"@ + line(
            indent_unit(),
            2,
            "if (!(\""@ + name + "\" in imports)) imports[\""@ + name + "\"] = {};"@,
        ) + self.wrappers_text(indent_unit(), 2, name, m.funcs@, options) + "}"@ + "\n"@
    }

    /// The code generated for the module `m` of `doc`: a title comment, the
    /// declarations of the document's types (unless they are skipped), and
    /// the declarations of the module's functions; in export mode the
    /// functions are members of an interface, followed by the function that
    /// registers an implementation of it.
    pub open spec fn module_text(&self, doc: ASDocument, m: ASModule, options: Options) -> Seq<char> {
        let name = self.module_name_for(m);
        self.module_head(doc, name, options) + self.module_body(name, m, options)
    }

    /// The code generated for the modules `ms` of `doc`.
    pub open spec fn modules_text(&self, doc: ASDocument, ms: Seq<ASModule>, options: Options) -> Seq<char>
        decreases ms.len(),
    {
        if ms.len() == 0 {
            seq![]
        } else {
            self.modules_text(doc, ms.drop_last(), options) + self.module_text(doc, ms.last(), options)
        }
    }

    /// The code generated for `doc`: that of each of its modules.
    pub open spec fn document_text(&self, doc: ASDocument, options: Options) -> Seq<char> {
        self.modules_text(doc, doc.modules@, options)
    }

    /// The module `m` of `doc` can be generated: its types, when declared,
    /// can be declared, its functions can be declared, and in export mode
    /// its functions are generated in TypeScript.
    pub open spec fn module_ok(&self, doc: ASDocument, m: ASModule, options: Options) -> bool {
        &&& !options.skip_imports ==> forall|i: int|
            0 <= i < doc.typenames@.len() ==> named_type_ok(#[trigger] doc.typenames@[i])
        &&& forall|j: int| 0 <= j < m.funcs@.len() ==> function::func_ok(#[trigger] m.funcs@[j])
        &&& options.export_mode ==> (m.funcs@.len() == 0 || self.typescript())
    }

    /// `doc` can be generated with `options`: each of its modules can.
    pub open spec fn generate_ok(&self, doc: ASDocument, options: Options) -> bool {
        &&& forall|k: int| 0 <= k < doc.modules@.len() ==> self.module_ok(doc, #[trigger] doc.modules@[k], options)
    }

    fn write_types(&self, w: &mut PrettyWriter, doc: &ASDocument)
        requires
            forall|i: int| 0 <= i < doc.typenames@.len() ==> named_type_ok(#[trigger] doc.typenames@[i]),
            old(w).level() + 12 < usize::MAX,
        ensures
            final(w).appended(
                *old(w),
                self.types_text(old(w).unit(), old(w).level(), doc.typenames@, doc.constants@),
            ),
    {
        let ghost u = w.unit();
        let ghost l = w.level();
        let ghost nts = doc.typenames@;
        assert(nts.take(0) =~= Seq::<ASNamedType>::empty());
        assert(w.text() =~= old(w).text() + self.types_text(u, l, nts.take(0), doc.constants@));
        for i in 0..doc.typenames.len()
            invariant
                nts == doc.typenames@,
                forall|i: int| 0 <= i < nts.len() ==> named_type_ok(#[trigger] nts[i]),
                w.text() == old(w).text() + self.types_text(u, l, nts.take(i as int), doc.constants@),
                w.level() == l,
                w.unit() == u,
                l + 12 < usize::MAX,
        {
            assert(nts.take(i + 1).drop_last() =~= nts.take(i as int));
            let type_ = &doc.typenames[i];
            assert(named_type_ok(nts[i as int]));
            let constants_for_type = constants_for_type(&doc.constants, type_.name.as_str());
            let ghost before = w.text();
            self.define_type(w, type_, constants_for_type.as_slice());
            assert(w.text() =~= before + self.define_type_text(
                u,
                l,
                nts[i as int],
                constants_for(doc.constants@, nts[i as int].name@),
            ));
        }
        assert(nts.take(doc.typenames.len() as int) =~= nts);
    }

    fn write_exports(&self, w: &mut PrettyWriter, module_name: &str, m: &ASModule, options: &Options)
        requires
            old(w).level() == 1,
            old(w).unit() == indent_unit(),
            options.export_mode,
            forall|j: int| 0 <= j < m.funcs@.len() ==> function::func_ok(#[trigger] m.funcs@[j]),
            m.funcs@.len() == 0 || self.typescript(),
        ensures
            final(w).text() == old(w).text() + self.exports_text(module_name@, *m, *options),
            final(w).unit() == old(w).unit(),
    {
        let mut gen_module_name = module_name.to_owned();
        if options.async_mode {
            gen_module_name.append("_async");
        }
        let error_wrapper_parameter = if options.error_wrapper {
            "errorHandler1: (err: any) => number, "
        } else {
            ""
        };
        let mut s = "export function add".to_owned();
        s.append(as_type(module_name).as_str());
        s.append("ToImports(imports: any, obj: ");
        s.append(as_type(gen_module_name.as_str()).as_str());
        s.append(", ");
        s.append(error_wrapper_parameter);
        s.append("get_export: (name: string) => WebAssembly.ExportValue): void {");
        w.write(s.as_str());
        w.eol();
        let ghost t1 = w.text();
        w.new_block();
        let mut s = "if (!(\"".to_owned();
        s.append(module_name);
        s.append("\" in imports)) imports[\"");
        s.append(module_name);
        s.append("\"] = {};");
        w.write_line(s.as_str());
        assert forall|j: int| 0 <= j < m.funcs@.len() implies function::results_ok(#[trigger] m.funcs@[j]) by {
            assert(function::func_ok(m.funcs@[j]));
        }
        self.define_export_func_wrappers(w, module_name, m.funcs.as_slice(), options);
        w.write("}");
        w.eob();
        assert(w.text() =~= old(w).text() + self.exports_text(module_name@, *m, *options));
    }

    /// The title comment and the type declarations of a module generated as
    /// `name`.
    pub open spec fn module_head(&self, doc: ASDocument, name: Seq<char>, options: Options) -> Seq<char> {
        let u = indent_unit();
        (if options.skip_header {
            seq![]
        } else {
            self.spec_header()
        }) + comments_text(u, 0, "---------------------- Module: ["@ + name + "] ----------------------"@)
            + "\n"@ + (if options.skip_imports {
            seq![]
        } else {
            self.types_text(u, 0, doc.typenames@, doc.constants@)
        })
    }

    /// The function declarations (and in export mode, the registering
    /// function) of the module `m` generated as `name`.
    pub open spec fn module_body(&self, name: Seq<char>, m: ASModule, options: Options) -> Seq<char> {
        let u = indent_unit();
        let fl: nat = if options.export_mode {
            1
        } else {
            0
        };
        (if options.export_mode {
            line(u, 0, "export interface "@ + common::spec_as_type(self.interface_name(name, options)) + " {"@)
        } else {
            seq![]
        }) + self.funcs_text(u, fl, name, m.funcs@, options) + (if options.export_mode {
            "}"@ + "\n"@ + "\n"@ + self.exports_text(name, m, options)
        } else {
            seq![]
        })
    }

    fn write_module_head(&self, w: &mut PrettyWriter, doc: &ASDocument, module_name: &str, options: &Options)
        requires
            old(w).level() == 0,
            old(w).unit() == indent_unit(),
            !options.skip_imports ==> forall|i: int|
                0 <= i < doc.typenames@.len() ==> named_type_ok(#[trigger] doc.typenames@[i]),
        ensures
            final(w).appended(*old(w), self.module_head(*doc, module_name@, *options)),
    {
        let ghost u = indent_unit();
        if !options.skip_header {
            self.header(w);
        }
        let ghost t0 = w.text();
        let mut module_title_comments = "---------------------- Module: [".to_owned();
        module_title_comments.append(module_name);
        module_title_comments.append("] ----------------------");
        Self::write_comments(w, module_title_comments.as_str());
        w.eob();
        let ghost t1 = w.text();
        if !options.skip_imports {
            self.write_types(w, doc);
        }
        assert(w.text() =~= old(w).text() + self.module_head(*doc, module_name@, *options));
    }

    fn write_module_body(&self, w: &mut PrettyWriter, module_name: &str, module_witx: &ASModule, options: &Options)
        requires
            old(w).level() == 0,
            old(w).unit() == indent_unit(),
            forall|j: int| 0 <= j < module_witx.funcs@.len() ==> function::func_ok(#[trigger] module_witx.funcs@[j]),
            options.export_mode ==> (module_witx.funcs@.len() == 0 || self.typescript()),
        ensures
            final(w).text() == old(w).text() + self.module_body(module_name@, *module_witx, *options),
    {
        let ghost u = indent_unit();
        let ghost name = module_name@;
        let mut gen_module_name = module_name.to_owned();
        if options.async_mode {
            gen_module_name.append("_async");
        }
        assert(gen_module_name@ == self.interface_name(name, *options));
        if options.export_mode {
            let mut s = "export interface ".to_owned();
            s.append(as_type(gen_module_name.as_str()).as_str());
            s.append(" {");
            w.write_line(s.as_str());
            w.new_block();
        }
        let ghost t3 = w.text();
        let ghost fl: nat = if options.export_mode {
            1
        } else {
            0
        };
        assert(w.level() == fl);
        self.define_funcs(w, module_name, module_witx.funcs.as_slice(), options);
        let ghost t4 = w.text();
        if options.export_mode {
            w.write("}");
            w.eob();
            w.eol();
            self.write_exports(w, module_name, module_witx, options);
        }
        assert(w.text() =~= t4 + (if options.export_mode {
            "}"@ + "\n"@ + "\n"@ + self.exports_text(name, *module_witx, *options)
        } else {
            seq![]
        }));
        assert(w.text() =~= old(w).text() + self.module_body(module_name@, *module_witx, *options));
    }

    fn generate_module(&self, w: &mut PrettyWriter, doc: &ASDocument, module_witx: &ASModule, options: &Options)
        requires
            old(w).level() == 0,
            old(w).unit() == indent_unit(),
            self.module_ok(*doc, *module_witx, *options),
        ensures
            final(w).text() == old(w).text() + self.module_text(*doc, *module_witx, *options),
    {
        let module_name = match &self.module_name {
            None => module_witx.name.clone(),
            Some(module_name) => module_name.clone(),
        };
        assert(module_name@ == self.module_name_for(*module_witx));
        self.write_module_head(w, doc, module_name.as_str(), options);
        let ghost t1 = w.text();
        self.write_module_body(w, module_name.as_str(), module_witx, options);
        assert(w.text() =~= old(w).text() + self.module_text(*doc, *module_witx, *options));
    }

    /// Whether `doc` can be generated with `options` (see `generate_ok`).
    pub fn can_generate(&self, doc: &ASDocument, options: &Options) -> (ok: bool)
        ensures
            ok == self.generate_ok(*doc, *options),
    {
        let mut types_ok = true;
        if !options.skip_imports {
            for i in 0..doc.typenames.len()
                invariant
                    types_ok == forall|j: int| 0 <= j < i ==> named_type_ok(#[trigger] doc.typenames@[j]),
            {
                if !is_named_type_ok(&doc.typenames[i]) {
                    types_ok = false;
                }
            }
        }
        let mut i: usize = 0;
        while i < doc.modules.len()
            invariant
                i <= doc.modules@.len(),
                !options.skip_imports ==> types_ok == forall|j: int|
                    0 <= j < doc.typenames@.len() ==> named_type_ok(#[trigger] doc.typenames@[j]),
                forall|k: int| 0 <= k < i ==> self.module_ok(*doc, #[trigger] doc.modules@[k], *options),
            decreases doc.modules@.len() - i,
        {
            let m = &doc.modules[i];
            if !options.skip_imports && !types_ok {
                assert(!self.module_ok(*doc, doc.modules@[i as int], *options));
                return false;
            }
            if options.export_mode && m.funcs.len() > 0 && !self.typescript_mode {
                assert(!self.module_ok(*doc, doc.modules@[i as int], *options));
                return false;
            }
            let mut j: usize = 0;
            while j < m.funcs.len()
                invariant
                    j <= m.funcs@.len(),
                    i < doc.modules@.len(),
                    *m == doc.modules@[i as int],
                    forall|q: int| 0 <= q < j ==> function::func_ok(#[trigger] m.funcs@[q]),
                decreases m.funcs@.len() - j,
            {
                if !function::check_func(&m.funcs[j]) {
                    assert(!function::func_ok(doc.modules@[i as int].funcs@[j as int]));
                    assert(!self.module_ok(*doc, doc.modules@[i as int], *options));
                    return false;
                }
                j = j + 1;
            }
            assert(self.module_ok(*doc, doc.modules@[i as int], *options));
            i = i + 1;
        }
        true
    }

    /// Generates the code for `doc` (see `document_text`).
    pub fn generate(&self, doc: &ASDocument, options: &Options) -> (out: String)
        requires
            self.generate_ok(*doc, *options),
        ensures
            out@ == self.document_text(*doc, *options),
    {
        let ghost ms = doc.modules@;
        let mut out = String::new();
        assert(ms.take(0) =~= Seq::<ASModule>::empty());
        assert(out@ =~= self.modules_text(*doc, ms.take(0), *options));
        for i in 0..doc.modules.len()
            invariant
                ms == doc.modules@,
                self.generate_ok(*doc, *options),
                out@ == self.modules_text(*doc, ms.take(i as int), *options),
        {
            assert(ms.take(i + 1).drop_last() =~= ms.take(i as int));
            assert(self.module_ok(*doc, ms[i as int], *options));
            let mut w = PrettyWriter::new("    ");
            self.generate_module(&mut w, doc, &doc.modules[i], options);
            let ghost before = out@;
            out.append(w.as_str());
            assert(out@ =~= before + self.module_text(*doc, ms[i as int], *options));
        }
        assert(ms.take(doc.modules.len() as int) =~= ms);
        out
    }
}

/// The line of one enumeration choice in TypeScript, after its documentation.
pub open spec fn enum_choice_ts(u: Seq<char>, l: nat, c: ASEnumChoice) -> Seq<char> {
    docs_text(u, l, c.docs@) + line(
        u,
        l,
        common::spec_as_const(c.name@) + " = "@ + crate::text::dec(c.value as nat) + ","@,
    )
}

/// The choices of an enumeration in TypeScript.
pub open spec fn enum_choices_ts(u: Seq<char>, l: nat, cs: Seq<ASEnumChoice>) -> Seq<char>
    decreases cs.len(),
{
    if cs.len() == 0 {
        seq![]
    } else {
        enum_choices_ts(u, l, cs.drop_last()) + enum_choice_ts(u, l, cs.last())
    }
}

/// The line of one enumeration choice in AssemblyScript: a constant of the
/// enumeration's type.
pub open spec fn enum_choice_as(u: Seq<char>, l: nat, name: Seq<char>, c: ASEnumChoice) -> Seq<
    char,
> {
    line(
        u,
        l,
        "export const "@ + common::spec_as_const(c.name@) + ": "@ + common::spec_as_type(name)
            + " = "@ + crate::text::dec(c.value as nat) + ";"@,
    )
}

/// The choices of an enumeration in AssemblyScript.
pub open spec fn enum_choices_as(u: Seq<char>, l: nat, name: Seq<char>, cs: Seq<ASEnumChoice>) -> Seq<
    char,
>
    decreases cs.len(),
{
    if cs.len() == 0 {
        seq![]
    } else {
        enum_choices_as(u, l, name, cs.drop_last()) + enum_choice_as(u, l, name, cs.last())
    }
}

/// Some constant does not fit in 16 bits.
pub open spec fn any_large(cs: Seq<ASConstant>) -> bool {
    exists|i: int| 0 <= i < cs.len() && #[trigger] cs[i].value > 0xffff
}

/// Every constant has exactly one bit set.
pub open spec fn all_single_bits(cs: Seq<ASConstant>) -> bool {
    forall|i: int| 0 <= i < cs.len() ==> crate::text::popcount(#[trigger] cs[i].value as nat) == 1
}

/// Constants are written in hexadecimal when one of them does not fit in 16
/// bits, or when there are more than two and all are single bits (flags).
pub open spec fn use_hex(cs: Seq<ASConstant>) -> bool {
    any_large(cs) || (cs.len() > 2 && all_single_bits(cs))
}

/// Constants of a 64-bit type are big integers in TypeScript.
pub open spec fn is_bigint(parent_type: Option<&ASType>) -> bool {
    match parent_type {
        Some(t) => (*t is U64) || (*t is S64),
        None => false,
    }
}

/// The text of a constant's value: `0x` and lowercase hexadecimal digits, or
/// decimal digits; with an `n` after it for a big integer.
pub open spec fn value_text(v: u64, hex: bool, bigint: bool) -> Seq<char> {
    (if hex {
        "0x"@ + crate::text::hex(v as nat)
    } else {
        crate::text::dec(v as nat)
    }) + (if bigint {
        "n"@
    } else {
        seq![]
    })
}

/// One constant in TypeScript, after its documentation.
pub open spec fn constant_ts(u: Seq<char>, l: nat, c: ASConstant, hex: bool, bigint: bool) -> Seq<
    char,
> {
    docs_text(u, l, c.docs@) + line(
        u,
        l,
        common::spec_as_const(c.name@) + ": "@ + value_text(c.value, hex, bigint) + ","@,
    )
}

/// The constants in TypeScript.
pub open spec fn constants_ts(u: Seq<char>, l: nat, cs: Seq<ASConstant>, hex: bool, bigint: bool) -> Seq<
    char,
>
    decreases cs.len(),
{
    if cs.len() == 0 {
        seq![]
    } else {
        constants_ts(u, l, cs.drop_last(), hex, bigint) + constant_ts(u, l, cs.last(), hex, bigint)
    }
}

/// One constant in AssemblyScript.
pub open spec fn constant_as(u: Seq<char>, l: nat, ty_name: Seq<char>, c: ASConstant, hex: bool) -> Seq<
    char,
> {
    line(
        u,
        l,
        "export const "@ + common::spec_as_const(c.name@) + ": "@ + common::spec_as_type(ty_name)
            + " = "@ + value_text(c.value, hex, false) + ";"@,
    )
}

/// The constants in AssemblyScript.
pub open spec fn constants_as(
    u: Seq<char>,
    l: nat,
    ty_name: Seq<char>,
    cs: Seq<ASConstant>,
    hex: bool,
) -> Seq<char>
    decreases cs.len(),
{
    if cs.len() == 0 {
        seq![]
    } else {
        constants_as(u, l, ty_name, cs.drop_last(), hex) + constant_as(
            u,
            l,
            ty_name,
            cs.last(),
            hex,
        )
    }
}

/// A constant is written as digits that denote its value: in hexadecimal
/// after `0x`, or in decimal; with an `n` after them for a big integer.
pub proof fn lemma_value_text_denotes(v: u64, hex: bool, bigint: bool)
    ensures
        ({
            let r: nat = if hex {
                16
            } else {
                10
            };
            let digits = crate::text::radix_digits(v as nat, r);
            &&& value_text(v, hex, bigint) == (if hex {
                "0x"@
            } else {
                seq![]
            }) + digits + (if bigint {
                "n"@
            } else {
                seq![]
            })
            &&& crate::text::digits_value(digits, r) == v
        }),
{
    let r: nat = if hex {
        16
    } else {
        10
    };
    crate::text::lemma_radix_digits_value(v as nat, r);
    if !hex {
        assert(seq![] + crate::text::dec(v as nat) =~= crate::text::dec(v as nat));
    }
}

/// A set of constants is declared as a type for its representation (in
/// TypeScript: a constant naming the representation and its target type),
/// an empty line, then its constants under the set's name; in TypeScript,
/// when the representation is 64 bits wide, every value is written as a big
/// integer, so its text ends in `n`.
pub proof fn lemma_constants_declaration(
    g: AssemblyScriptGenerator,
    u: Seq<char>,
    l: nat,
    name: Seq<char>,
    c: ASConstants,
)
    ensures
        ({
            let r = common::spec_as_lang(*c.repr);
            g.constants_type_text(u, l, name, c) == (if g.typescript() {
                const_line(u, l, name, r) + target_type_line(u, l, name, r)
            } else {
                type_line(u, l, name, r)
            }) + "\n"@ + g.constants_text(u, l, name, Some(&*c.repr), c.constants@)
        }),
        g.typescript() && (*c.repr is U64 || *c.repr is S64) && c.constants@.len() > 0
            ==> g.constants_text(u, l, name, Some(&*c.repr), c.constants@) == line(
            u,
            l,
            "export const "@ + common::spec_as_namespace(name) + " = {"@,
        ) + constants_ts(u, l + 1, c.constants@, use_hex(c.constants@), true) + line(u, l, "}"@)
            + "\n"@,
        (*c.repr is U64 || *c.repr is S64) ==> forall|v: u64, hex: bool|
            #[trigger] value_text(v, hex, is_bigint(Some(&*c.repr))).last() == 'n',
{
    if g.typescript() {
        assert(g.constants_type_text(u, l, name, c) =~= (const_line(
            u,
            l,
            name,
            common::spec_as_lang(*c.repr),
        ) + target_type_line(u, l, name, common::spec_as_lang(*c.repr))) + "\n"@ + g.constants_text(
            u,
            l,
            name,
            Some(&*c.repr),
            c.constants@,
        ));
    }
    if is_bigint(Some(&*c.repr)) {
        assert forall|v: u64, hex: bool|
            #[trigger] value_text(v, hex, is_bigint(Some(&*c.repr))).last() == 'n' by {
            let d = if hex {
                "0x"@ + crate::text::hex(v as nat)
            } else {
                crate::text::dec(v as nat)
            };
            assert(value_text(v, hex, true) == d + "n"@);
            reveal_strlit("n");
        }
    }
}

/// In AssemblyScript a type declared under a name of its own is written as
/// an alias of it would be: one `export type` line.
pub proof fn lemma_atom_matches_alias_in_assemblyscript(
    g: AssemblyScriptGenerator,
    u: Seq<char>,
    l: nat,
    name: Seq<char>,
    t: ASType,
)
    requires
        !g.typescript(),
    ensures
        g.atom_text(u, l, name, t) == g.alias_text(u, l, name, t),
        g.atom_text(u, l, name, t) == type_line(u, l, name, common::spec_as_lang(t)),
{
}

/// Whether the constants are written in hexadecimal.
fn use_hex_for(constants: &[ASConstant]) -> (hex: bool)
    ensures
        hex == use_hex(constants@),
{
    let ghost cs = constants@;
    let mut hex = false;
    let mut single_bits: usize = 0;
    for i in 0..constants.len()
        invariant
            cs == constants@,
            hex == (exists|j: int| 0 <= j < i && #[trigger] cs[j].value > 0xffff),
            single_bits <= i,
            (single_bits == i) == (forall|j: int|
                0 <= j < i ==> crate::text::popcount(#[trigger] cs[j].value as nat) == 1),
    {
        let constant = &constants[i];
        if constant.value > 0xffff {
            hex = true;
        }
        if count_ones(constant.value) == 1 {
            single_bits += 1;
        }
        assert((forall|j: int|
            0 <= j < i + 1 ==> crate::text::popcount(#[trigger] cs[j].value as nat) == 1) == ((
        forall|j: int| 0 <= j < i ==> crate::text::popcount(#[trigger] cs[j].value as nat) == 1)
            && crate::text::popcount(cs[i as int].value as nat) == 1));
    }
    if constants.len() > 2 && single_bits == constants.len() {
        hex = true;
    }
    hex
}

/// The text of a constant's value (see `value_text`).
fn value_string(v: u64, hex: bool, bigint: bool) -> (s: String)
    ensures
        s@ == value_text(v, hex, bigint),
{
    let mut s = if hex {
        let mut s = "0x".to_owned();
        s.append(hex_string(v).as_str());
        s
    } else {
        dec_string(v)
    };
    if bigint {
        s.append("n");
    }
    assert(s@ =~= value_text(v, hex, bigint));
    s
}


fn write_enum_choices_ts(w: &mut PrettyWriter, choices: &[ASEnumChoice])
    ensures
        final(w).appended(*old(w), enum_choices_ts(old(w).unit(), old(w).level(), choices@)),
{
    let ghost u = w.unit();
    let ghost l = w.level();
    let ghost cs = choices@;
    assert(cs.take(0) =~= Seq::<ASEnumChoice>::empty());
    assert(w.text() =~= old(w).text() + enum_choices_ts(u, l, cs.take(0)));
    for i in 0..choices.len()
        invariant
            cs == choices@,
            w.text() == old(w).text() + enum_choices_ts(u, l, cs.take(i as int)),
            w.level() == l,
            w.unit() == u,
    {
        assert(cs.take(i + 1).drop_last() =~= cs.take(i as int));
        let choice = &choices[i];
        let ghost before = w.text();
        AssemblyScriptGenerator::write_docs(w, choice.docs.as_str());
        let mut s = as_const(choice.name.as_str());
        s.append(" = ");
        s.append(dec_string(choice.value as u64).as_str());
        s.append(",");
        w.write_line(s.as_str());
        assert(w.text() =~= before + enum_choice_ts(u, l, cs[i as int]));
    }
    assert(cs.take(choices.len() as int) =~= cs);
}

fn write_enum_choices_as(w: &mut PrettyWriter, name: &str, t: &str, choices: &[ASEnumChoice])
    requires
        t@ == common::spec_as_type(name@),
    ensures
        final(w).appended(
            *old(w),
            enum_choices_as(old(w).unit(), old(w).level(), name@, choices@),
        ),
{
    let ghost u = w.unit();
    let ghost l = w.level();
    let ghost cs = choices@;
    assert(cs.take(0) =~= Seq::<ASEnumChoice>::empty());
    assert(w.text() =~= old(w).text() + enum_choices_as(u, l, name@, cs.take(0)));
    for i in 0..choices.len()
        invariant
            cs == choices@,
            w.text() == old(w).text() + enum_choices_as(u, l, name@, cs.take(i as int)),
            w.level() == l,
            w.unit() == u,
            t@ == common::spec_as_type(name@),
    {
        assert(cs.take(i + 1).drop_last() =~= cs.take(i as int));
        let choice = &choices[i];
        let ghost before = w.text();
        let mut s = "export const ".to_owned();
        s.append(as_const(choice.name.as_str()).as_str());
        s.append(": ");
        s.append(t);
        s.append(" = ");
        s.append(dec_string(choice.value as u64).as_str());
        s.append(";");
        w.write_line(s.as_str());
        assert(w.text() =~= before + enum_choice_as(u, l, name@, cs[i as int]));
    }
    assert(cs.take(choices.len() as int) =~= cs);
}

fn write_constants_ts(w: &mut PrettyWriter, constants: &[ASConstant], hex: bool, bigint: bool)
    ensures
        final(w).appended(
            *old(w),
            constants_ts(old(w).unit(), old(w).level(), constants@, hex, bigint),
        ),
{
    let ghost u = w.unit();
    let ghost l = w.level();
    let ghost cs = constants@;
    assert(cs.take(0) =~= Seq::<ASConstant>::empty());
    assert(w.text() =~= old(w).text() + constants_ts(u, l, cs.take(0), hex, bigint));
    for i in 0..constants.len()
        invariant
            cs == constants@,
            w.text() == old(w).text() + constants_ts(u, l, cs.take(i as int), hex, bigint),
            w.level() == l,
            w.unit() == u,
    {
        assert(cs.take(i + 1).drop_last() =~= cs.take(i as int));
        let constant = &constants[i];
        let ghost before = w.text();
        let value_s = value_string(constant.value, hex, bigint);
        AssemblyScriptGenerator::write_docs(w, constant.docs.as_str());
        let mut s = as_const(constant.name.as_str());
        s.append(": ");
        s.append(value_s.as_str());
        s.append(",");
        w.write_line(s.as_str());
        assert(w.text() =~= before + constant_ts(u, l, cs[i as int], hex, bigint));
    }
    assert(cs.take(constants.len() as int) =~= cs);
}

fn write_constants_as(w: &mut PrettyWriter, ty_name: &str, t: &str, constants: &[ASConstant], hex: bool)
    requires
        t@ == common::spec_as_type(ty_name@),
    ensures
        final(w).appended(
            *old(w),
            constants_as(old(w).unit(), old(w).level(), ty_name@, constants@, hex),
        ),
{
    let ghost u = w.unit();
    let ghost l = w.level();
    let ghost cs = constants@;
    assert(cs.take(0) =~= Seq::<ASConstant>::empty());
    assert(w.text() =~= old(w).text() + constants_as(u, l, ty_name@, cs.take(0), hex));
    for i in 0..constants.len()
        invariant
            cs == constants@,
            w.text() == old(w).text() + constants_as(u, l, ty_name@, cs.take(i as int), hex),
            w.level() == l,
            w.unit() == u,
            t@ == common::spec_as_type(ty_name@),
    {
        assert(cs.take(i + 1).drop_last() =~= cs.take(i as int));
        let constant = &constants[i];
        let ghost before = w.text();
        let value_s = value_string(constant.value, hex, false);
        let mut s = "export const ".to_owned();
        s.append(as_const(constant.name.as_str()).as_str());
        s.append(": ");
        s.append(t);
        s.append(" = ");
        s.append(value_s.as_str());
        s.append(";");
        w.write_line(s.as_str());
        assert(w.text() =~= before + constant_as(u, l, ty_name@, cs[i as int], hex));
    }
    assert(cs.take(constants.len() as int) =~= cs);
}

} // verus!

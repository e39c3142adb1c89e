//! Naming conventions and type expressions of the generated code.

use vstd::prelude::*;
use vstd::string::*;

use crate::astype::{ASType, Shape};
use crate::text::{push_char, str_eq, to_lower, to_upper};

verus! {

/// Rewrites a name word by word, words being separated by `_`: a letter that
/// starts a word is uppercased when `cap_first` holds or when it is not in the
/// first word, every other letter is lowercased, and the separators are
/// dropped. `seen` says whether a word was already met, `start` whether the
/// next letter starts a word.
pub open spec fn case_from(s: Seq<char>, cap_first: bool, seen: bool, start: bool) -> Seq<char>
    decreases s.len(),
{
    if s.len() == 0 {
        seq![]
    } else if s[0] == '_' {
        case_from(s.drop_first(), cap_first, seen, true)
    } else {
        let c = if start && (seen || cap_first) {
            crate::text::upper(s[0])
        } else {
            crate::text::lower(s[0])
        };
        seq![c] + case_from(s.drop_first(), cap_first, true, false)
    }
}

/// Rewrites a name word by word, words being separated by `_`: every letter
/// is uppercased (`up`) or lowercased, and the words are joined by a single
/// `_`. `seen` says whether a word was already met, `sep` whether a separator
/// came after it.
pub open spec fn joined_from(s: Seq<char>, up: bool, seen: bool, sep: bool) -> Seq<char>
    decreases s.len(),
{
    if s.len() == 0 {
        seq![]
    } else if s[0] == '_' {
        joined_from(s.drop_first(), up, seen, true)
    } else {
        let c = if up {
            crate::text::upper(s[0])
        } else {
            crate::text::lower(s[0])
        };
        (if seen && sep {
            seq!['_']
        } else {
            seq![]
        }) + seq![c] + joined_from(s.drop_first(), up, true, false)
    }
}

/// The keywords of the target languages, which cannot name a function or a
/// variable.
pub open spec fn is_reserved(w: Seq<char>) -> bool {
    ||| w == "await"@
    ||| w == "break"@
    ||| w == "case"@
    ||| w == "catch"@
    ||| w == "class"@
    ||| w == "const"@
    ||| w == "continue"@
    ||| w == "debugger"@
    ||| w == "default"@
    ||| w == "delete"@
    ||| w == "do"@
    ||| w == "else"@
    ||| w == "enum"@
    ||| w == "export"@
    ||| w == "extends"@
    ||| w == "false"@
    ||| w == "finally"@
    ||| w == "for"@
    ||| w == "function"@
    ||| w == "if"@
    ||| w == "import"@
    ||| w == "in"@
    ||| w == "instanceof"@
    ||| w == "new"@
    ||| w == "null"@
    ||| w == "return"@
    ||| w == "super"@
    ||| w == "switch"@
    ||| w == "this"@
    ||| w == "throw"@
    ||| w == "true"@
    ||| w == "try"@
    ||| w == "typeof"@
    ||| w == "var"@
    ||| w == "void"@
    ||| w == "while"@
    ||| w == "with"@
    ||| w == "yield"@
    ||| w == "let"@
    ||| w == "static"@
    ||| w == "implements"@
    ||| w == "interface"@
    ||| w == "package"@
    ||| w == "private"@
    ||| w == "protected"@
    ||| w == "public"@
}

/// A name with `_` appended when it is a keyword.
pub open spec fn spec_escape(w: Seq<char>) -> Seq<char> {
    if is_reserved(w) {
        w + "_"@
    } else {
        w
    }
}

/// The name of a type: `UpperCamelCase`.
pub open spec fn spec_as_type(s: Seq<char>) -> Seq<char> {
    case_from(s, true, false, true)
}

/// The name of a namespace: `UpperCamelCase`.
pub open spec fn spec_as_namespace(s: Seq<char>) -> Seq<char> {
    case_from(s, true, false, true)
}

/// The name of a function: `lowerCamelCase`, escaped.
pub open spec fn spec_as_fn(s: Seq<char>) -> Seq<char> {
    spec_escape(case_from(s, false, false, true))
}

/// The name of a variable: `snake_case`, escaped.
pub open spec fn spec_as_var(s: Seq<char>) -> Seq<char> {
    spec_escape(joined_from(s, false, false, false))
}

/// The name of a constant: `SHOUTY_SNAKE_CASE`.
pub open spec fn spec_as_const(s: Seq<char>) -> Seq<char> {
    joined_from(s, true, false, false)
}

fn camel(name: &str, cap_first: bool) -> (r: String)
    ensures
        r@ == case_from(name@, cap_first, false, true),
{
    let mut out = String::new();
    let mut seen = false;
    let mut start = true;
    assert(name@.skip(0) =~= name@);
    for c in it: name.chars()
        invariant
            it.seq() == name@,
            out@ + case_from(name@.skip(it.index() as int), cap_first, seen, start) == case_from(
                name@,
                cap_first,
                false,
                true,
            ),
    {
        let ghost i = it.index() as int;
        assert(name@.skip(i).drop_first() =~= name@.skip(i + 1));
        assert(name@.skip(i)[0] == c);
        if c == '_' {
            start = true;
        } else {
            let ghost before = out@;
            let d = if start && (seen || cap_first) {
                to_upper(c)
            } else {
                to_lower(c)
            };
            push_char(&mut out, d);
            assert(out@ =~= before + seq![d]);
            seen = true;
            start = false;
        }
    }
    assert(name@.skip(name@.len() as int) =~= Seq::<char>::empty());
    out
}

fn joined(name: &str, up: bool) -> (r: String)
    ensures
        r@ == joined_from(name@, up, false, false),
{
    let mut out = String::new();
    let mut seen = false;
    let mut sep = false;
    assert(name@.skip(0) =~= name@);
    for c in it: name.chars()
        invariant
            it.seq() == name@,
            out@ + joined_from(name@.skip(it.index() as int), up, seen, sep) == joined_from(
                name@,
                up,
                false,
                false,
            ),
    {
        let ghost i = it.index() as int;
        assert(name@.skip(i).drop_first() =~= name@.skip(i + 1));
        assert(name@.skip(i)[0] == c);
        if c == '_' {
            sep = true;
        } else {
            let ghost before = out@;
            if seen && sep {
                push_char(&mut out, '_');
            }
            let d = if up {
                to_upper(c)
            } else {
                to_lower(c)
            };
            push_char(&mut out, d);
            assert(out@ =~= before + (if seen && sep {
                seq!['_']
            } else {
                seq![]
            }) + seq![d]);
            seen = true;
            sep = false;
        }
    }
    assert(name@.skip(name@.len() as int) =~= Seq::<char>::empty());
    out
}

/// Whether `w` is a keyword of the target languages.
pub fn reserved(w: &str) -> (b: bool)
    ensures
        b == is_reserved(w@),
{
    str_eq(w, "await")
        || str_eq(w, "break")
        || str_eq(w, "case")
        || str_eq(w, "catch")
        || str_eq(w, "class")
        || str_eq(w, "const")
        || str_eq(w, "continue")
        || str_eq(w, "debugger")
        || str_eq(w, "default")
        || str_eq(w, "delete")
        || str_eq(w, "do")
        || str_eq(w, "else")
        || str_eq(w, "enum")
        || str_eq(w, "export")
        || str_eq(w, "extends")
        || str_eq(w, "false")
        || str_eq(w, "finally")
        || str_eq(w, "for")
        || str_eq(w, "function")
        || str_eq(w, "if")
        || str_eq(w, "import")
        || str_eq(w, "in")
        || str_eq(w, "instanceof")
        || str_eq(w, "new")
        || str_eq(w, "null")
        || str_eq(w, "return")
        || str_eq(w, "super")
        || str_eq(w, "switch")
        || str_eq(w, "this")
        || str_eq(w, "throw")
        || str_eq(w, "true")
        || str_eq(w, "try")
        || str_eq(w, "typeof")
        || str_eq(w, "var")
        || str_eq(w, "void")
        || str_eq(w, "while")
        || str_eq(w, "with")
        || str_eq(w, "yield")
        || str_eq(w, "let")
        || str_eq(w, "static")
        || str_eq(w, "implements")
        || str_eq(w, "interface")
        || str_eq(w, "package")
        || str_eq(w, "private")
        || str_eq(w, "protected")
        || str_eq(w, "public")
}

/// Appends `_` to a name that is a keyword.
pub fn escape_reserved_word(w: String) -> (r: String)
    ensures
        r@ == spec_escape(w@),
{
    if reserved(w.as_str()) {
        let mut r = w;
        r.append("_");
        r
    } else {
        w
    }
}

/// The name of a type.
pub fn as_type(s: &str) -> (r: String)
    ensures
        r@ == spec_as_type(s@),
{
    camel(s, true)
}

/// The name of a namespace.
pub fn as_namespace(s: &str) -> (r: String)
    ensures
        r@ == spec_as_namespace(s@),
{
    camel(s, true)
}

/// The name of a function.
pub fn as_fn(s: &str) -> (r: String)
    ensures
        r@ == spec_as_fn(s@),
{
    escape_reserved_word(camel(s, false))
}

/// The name of a variable.
pub fn as_var(s: &str) -> (r: String)
    ensures
        r@ == spec_as_var(s@),
{
    escape_reserved_word(joined(s, false))
}

/// The name of a constant.
pub fn as_const(s: &str) -> (r: String)
    ensures
        r@ == spec_as_const(s@),
{
    joined(s, true)
}

/// A character that is not `_` stays one under case mapping.
proof fn lemma_case_not_underscore(c: char)
    requires
        c != '_',
    ensures
        crate::text::upper(c) != '_',
        crate::text::lower(c) != '_',
{
}

/// Names rewritten word by word keep no `_`.
proof fn lemma_case_from_no_underscore(s: Seq<char>, cap_first: bool, seen: bool, start: bool)
    ensures
        !case_from(s, cap_first, seen, start).contains('_'),
    decreases s.len(),
{
    if s.len() > 0 {
        lemma_case_from_no_underscore(s.drop_first(), cap_first, seen || s[0] != '_', s[0] == '_');
        if s[0] != '_' {
            lemma_case_not_underscore(s[0]);
            let c = if start && (seen || cap_first) {
                crate::text::upper(s[0])
            } else {
                crate::text::lower(s[0])
            };
            let rest = case_from(s.drop_first(), cap_first, true, false);
            assert(case_from(s, cap_first, seen, start) == seq![c] + rest);
            assert forall|i: int| 0 <= i < (seq![c] + rest).len() implies (seq![c] + rest)[i] != '_' by {
                if i > 0 {
                    assert((seq![c] + rest)[i] == rest[i - 1]);
                }
            }
        }
    }
}

/// Type and namespace names hold no `_`: the words of a name are joined.
pub proof fn lemma_as_type_no_underscore(s: Seq<char>)
    ensures
        !spec_as_type(s).contains('_'),
        !spec_as_namespace(s).contains('_'),
{
    lemma_case_from_no_underscore(s, true, false, true);
}

/// Names joined word by word hold no letter of the other case.
proof fn lemma_joined_case(s: Seq<char>, up: bool, seen: bool, sep: bool)
    ensures
        forall|i: int|
            0 <= i < joined_from(s, up, seen, sep).len() ==> if up {
                !('a' <= #[trigger] joined_from(s, up, seen, sep)[i] <= 'z')
            } else {
                !('A' <= joined_from(s, up, seen, sep)[i] <= 'Z')
            },
    decreases s.len(),
{
    if s.len() > 0 {
        if s[0] == '_' {
            lemma_joined_case(s.drop_first(), up, seen, true);
            assert(joined_from(s, up, seen, sep) == joined_from(s.drop_first(), up, seen, true));
        } else {
            lemma_joined_case(s.drop_first(), up, true, false);
            let c = if up {
                crate::text::upper(s[0])
            } else {
                crate::text::lower(s[0])
            };
            let sepq: Seq<char> = if seen && sep {
                seq!['_']
            } else {
                seq![]
            };
            let rest = joined_from(s.drop_first(), up, true, false);
            let all = sepq + seq![c] + rest;
            assert(joined_from(s, up, seen, sep) == all);
            assert forall|i: int| 0 <= i < all.len() implies if up {
                !('a' <= #[trigger] all[i] <= 'z')
            } else {
                !('A' <= all[i] <= 'Z')
            } by {
                if i < sepq.len() {
                    assert(all[i] == '_');
                } else if i == sepq.len() {
                    assert(all[i] == c);
                } else {
                    assert(all[i] == rest[i - sepq.len() - 1]);
                }
            }
        }
    }
}

/// Constant names hold no lowercase ASCII letter.
pub proof fn lemma_as_const_shouty(s: Seq<char>)
    ensures
        forall|i: int| 0 <= i < spec_as_const(s).len() ==> !('a' <= #[trigger] spec_as_const(s)[i] <= 'z'),
{
    lemma_joined_case(s, true, false, false);
}

/// Variable names hold no uppercase ASCII letter.
pub proof fn lemma_as_var_snake(s: Seq<char>)
    ensures
        forall|i: int| 0 <= i < spec_as_var(s).len() ==> !('A' <= #[trigger] spec_as_var(s)[i] <= 'Z'),
{
    let j = joined_from(s, false, false, false);
    lemma_joined_case(s, false, false, false);
    if is_reserved(j) {
        assert forall|i: int| 0 <= i < spec_as_var(s).len() implies !('A' <= #[trigger] spec_as_var(s)[i] <= 'Z') by {
            if i < j.len() {
                assert(spec_as_var(s)[i] == j[i]);
            } else {
                assert(spec_as_var(s)[i] == "_"@[i - j.len()]);
                reveal_strlit("_");
            }
        }
    }
}

/// No keyword ends with `_`.
proof fn lemma_reserved_shape(w: Seq<char>)
    requires
        is_reserved(w),
    ensures
        w.len() > 0,
        w.last() != '_',
{
        reveal_strlit("await");
        reveal_strlit("break");
        reveal_strlit("case");
        reveal_strlit("catch");
        reveal_strlit("class");
        reveal_strlit("const");
        reveal_strlit("continue");
        reveal_strlit("debugger");
        reveal_strlit("default");
        reveal_strlit("delete");
        reveal_strlit("do");
        reveal_strlit("else");
        reveal_strlit("enum");
        reveal_strlit("export");
        reveal_strlit("extends");
        reveal_strlit("false");
        reveal_strlit("finally");
        reveal_strlit("for");
        reveal_strlit("function");
        reveal_strlit("if");
        reveal_strlit("import");
        reveal_strlit("in");
        reveal_strlit("instanceof");
        reveal_strlit("new");
        reveal_strlit("null");
        reveal_strlit("return");
        reveal_strlit("super");
        reveal_strlit("switch");
        reveal_strlit("this");
        reveal_strlit("throw");
        reveal_strlit("true");
        reveal_strlit("try");
        reveal_strlit("typeof");
        reveal_strlit("var");
        reveal_strlit("void");
        reveal_strlit("while");
        reveal_strlit("with");
        reveal_strlit("yield");
        reveal_strlit("let");
        reveal_strlit("static");
        reveal_strlit("implements");
        reveal_strlit("interface");
        reveal_strlit("package");
        reveal_strlit("private");
        reveal_strlit("protected");
        reveal_strlit("public");
}

/// An escaped name is never a keyword: function and variable names can
/// always be declared.
pub proof fn lemma_escape_not_reserved(w: Seq<char>)
    ensures
        !is_reserved(spec_escape(w)),
{
    if is_reserved(w) {
        let e = w + "_"@;
        reveal_strlit("_");
        assert(e.last() == '_');
        if is_reserved(e) {
            lemma_reserved_shape(e);
        }
    }
}

/// Whether a type has an expression in the generated code: compound types
/// (structures, unions, tuples, constant sets, options and results) have
/// none, and neither has a type built on one of them.
pub open spec fn lang_ok(t: ASType) -> bool
    decreases t,
{
    match t {
        ASType::Enum(e) => lang_ok(*e.repr),
        ASType::ConstPtr(p) => lang_ok(*p),
        ASType::MutPtr(p) => lang_ok(*p),
        ASType::Slice(p) => lang_ok(*p),
        ASType::ReadBuffer(p) => lang_ok(*p),
        ASType::WriteBuffer(p) => lang_ok(*p),
        ASType::Constants(_) => false,
        ASType::Struct(_) => false,
        ASType::Union(_) => false,
        ASType::Tuple(_) => false,
        ASType::Option(_) => false,
        ASType::Result(_) => false,
        _ => true,
    }
}

/// The expression of a type in the generated code.
pub open spec fn spec_as_lang(t: ASType) -> Seq<char>
    decreases t,
{
    match t {
        ASType::Alias(a) => spec_as_type(a.name@),
        ASType::Bool => "bool"@,
        ASType::Char32 => "Char32"@,
        ASType::Char8 => "Char8"@,
        ASType::F32 => "f32"@,
        ASType::F64 => "f64"@,
        ASType::Handle(_) => "WasiHandle"@,
        ASType::ConstPtr(p) => "WasiPtr<"@ + spec_as_lang(*p) + ">"@,
        ASType::MutPtr(p) => "WasiMutPtr<"@ + spec_as_lang(*p) + ">"@,
        ASType::S8 => "i8"@,
        ASType::S16 => "i16"@,
        ASType::S32 => "i32"@,
        ASType::S64 => "i64"@,
        ASType::U8 => "u8"@,
        ASType::U16 => "u16"@,
        ASType::U32 => "u32"@,
        ASType::U64 => "u64"@,
        ASType::USize => "usize"@,
        ASType::Void => "void"@,
        ASType::Enum(e) => spec_as_lang(*e.repr) + " /* Enum */"@,
        ASType::Slice(e) => "WasiMutSlice<"@ + spec_as_lang(*e) + ">"@,
        ASType::String(_) => "WasiString"@,
        ASType::ReadBuffer(e) => "WasiSlice<"@ + spec_as_lang(*e) + ">"@,
        ASType::WriteBuffer(e) => "WasiMutSlice<"@ + spec_as_lang(*e) + ">"@,
        _ => seq![],
    }
}

/// Whether the type of a lowered parameter has an expression.
pub open spec fn piece_lang_ok(p: (Seq<char>, Shape, ASType)) -> bool {
    lang_ok(p.2)
}

/// The expression of the type of a lowered parameter.
pub open spec fn piece_lang(p: (Seq<char>, Shape, ASType)) -> Seq<char> {
    match p.1 {
        Shape::Same => spec_as_lang(p.2),
        Shape::ConstPtrTo => "WasiPtr<"@ + spec_as_lang(p.2) + ">"@,
        Shape::MutPtrTo => "WasiMutPtr<"@ + spec_as_lang(p.2) + ">"@,
    }
}

/// A lowered parameter's type has the expression that its description gives.
pub proof fn lemma_piece_lang(d: crate::astype::ASTypeDecomposed, p: (Seq<char>, Shape, ASType))
    requires
        crate::astype::is_piece(d, p),
    ensures
        lang_ok(*d.type_) == piece_lang_ok(p),
        spec_as_lang(*d.type_) == piece_lang(p),
{
}

impl ASType {
    /// Whether the type has an expression in the generated code.
    pub fn is_lang_ok(&self) -> (b: bool)
        ensures
            b == lang_ok(*self),
        decreases self,
    {
        match self {
            ASType::Enum(e) => e.repr.is_lang_ok(),
            ASType::ConstPtr(p) => p.is_lang_ok(),
            ASType::MutPtr(p) => p.is_lang_ok(),
            ASType::Slice(p) => p.is_lang_ok(),
            ASType::ReadBuffer(p) => p.is_lang_ok(),
            ASType::WriteBuffer(p) => p.is_lang_ok(),
            ASType::Constants(_) => false,
            ASType::Struct(_) => false,
            ASType::Union(_) => false,
            ASType::Tuple(_) => false,
            ASType::Option(_) => false,
            ASType::Result(_) => false,
            _ => true,
        }
    }

    /// The expression of the type in the generated code.
    pub fn as_lang(&self) -> (r: String)
        requires
            lang_ok(*self),
        ensures
            r@ == spec_as_lang(*self),
        decreases self,
    {
        match self {
            ASType::Alias(alias) => as_type(alias.name.as_str()),
            ASType::Bool => "bool".to_owned(),
            ASType::Char32 => "Char32".to_owned(),
            ASType::Char8 => "Char8".to_owned(),
            ASType::F32 => "f32".to_owned(),
            ASType::F64 => "f64".to_owned(),
            ASType::Handle(_) => "WasiHandle".to_owned(),
            ASType::ConstPtr(pointee) => wrapped("WasiPtr<", pointee.as_lang()),
            ASType::MutPtr(pointee) => wrapped("WasiMutPtr<", pointee.as_lang()),
            ASType::S8 => "i8".to_owned(),
            ASType::S16 => "i16".to_owned(),
            ASType::S32 => "i32".to_owned(),
            ASType::S64 => "i64".to_owned(),
            ASType::U8 => "u8".to_owned(),
            ASType::U16 => "u16".to_owned(),
            ASType::U32 => "u32".to_owned(),
            ASType::U64 => "u64".to_owned(),
            ASType::USize => "usize".to_owned(),
            ASType::Void => "void".to_owned(),
            ASType::Enum(enum_) => {
                let mut r = enum_.repr.as_lang();
                r.append(" /* Enum */");
                r
            },
            ASType::Slice(element_type) => wrapped("WasiMutSlice<", element_type.as_lang()),
            ASType::String(_) => "WasiString".to_owned(),
            ASType::ReadBuffer(element_type) => wrapped("WasiSlice<", element_type.as_lang()),
            ASType::WriteBuffer(element_type) => wrapped("WasiMutSlice<", element_type.as_lang()),
            _ => String::new(),
        }
    }
}

fn wrapped(open: &str, inner: String) -> (r: String)
    ensures
        r@ == open@ + inner@ + ">"@,
{
    let mut r = open.to_owned();
    r.append(inner.as_str());
    r.append(">");
    r
}

} // verus!

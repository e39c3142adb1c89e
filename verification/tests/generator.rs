use std::rc::Rc;

use witx_codegen::assemblyscript::common::{as_const, as_fn, as_namespace, as_type, as_var};
use witx_codegen::assemblyscript::function::{check_func, lower_func};
use witx_codegen::assemblyscript::{constants_for_type, AssemblyScriptGenerator, Options};
use witx_codegen::astype::{
    decompose, ASAlias, ASConstant, ASConstants, ASEnum, ASEnumChoice, ASResult, ASStructMember,
    member_paddings, ASTupleMember, ASType, ASUnion, ASUnionMember,
};
use witx_codegen::document::{
    ASConstantDef, ASDocument, ASFunc, ASModule, ASNamedType, ASParam, ASTypeRef,
};
use witx_codegen::pretty_writer::PrettyWriter;
use witx_codegen::variant::{variant_type, VariantCase, VariantDesc};
use witx_codegen::text::{count_ones, dec_string, hex_string, radix_string, split_lines, str_eq};

fn alias(name: &str, t: ASType) -> ASType {
    ASType::Alias(ASAlias { name: name.to_string(), type_: Rc::new(t) })
}

fn options() -> Options {
    Options {
        skip_header: true,
        skip_imports: false,
        async_mode: false,
        export_mode: false,
        error_wrapper: false,
        error_handler: false,
    }
}

fn errno() -> ASType {
    alias(
        "errno",
        ASType::Enum(ASEnum {
            repr: Rc::new(ASType::U16),
            choices: vec![
                ASEnumChoice { name: "success".to_string(), value: 0, docs: String::new() },
                ASEnumChoice { name: "2big".to_string(), value: 1, docs: String::new() },
            ],
        }),
    )
}

fn fd_write() -> ASFunc {
    let result = ASType::Result(ASResult {
        error_type: Rc::new(errno()),
        ok_type: Rc::new(alias("size", ASType::USize)),
        result_type: Rc::new(ASType::Void),
    });
    ASFunc {
        name: "fd_write".to_string(),
        docs: "Write to a file descriptor.".to_string(),
        params: vec![
            ASParam { name: "fd".to_string(), type_: Rc::new(alias("fd", ASType::Handle("fd".to_string()))) },
            ASParam {
                name: "iovs".to_string(),
                type_: Rc::new(ASType::Slice(Rc::new(alias("ciovec", ASType::Void)))),
            },
        ],
        results: vec![Rc::new(result)],
        wasm_signature_len: 5,
    }
}

fn proc_exit() -> ASFunc {
    ASFunc {
        name: "proc_exit".to_string(),
        docs: String::new(),
        params: vec![ASParam { name: "rval".to_string(), type_: Rc::new(ASType::U32) }],
        results: vec![],
        wasm_signature_len: 1,
    }
}

#[test]
fn naming_conventions() {
    assert_eq!(as_type("fd_write"), "FdWrite");
    assert_eq!(as_namespace("errno"), "Errno");
    assert_eq!(as_fn("fd_write"), "fdWrite");
    assert_eq!(as_var("fd_write"), "fd_write");
    assert_eq!(as_const("fd_write"), "FD_WRITE");
    assert_eq!(as_const("2big"), "2BIG");
    assert_eq!(as_type("_leading__double_"), "LeadingDouble");
    assert_eq!(as_var("_leading__double_"), "leading_double");
    assert_eq!(as_fn("u8_ptr"), "u8Ptr");
}

#[test]
fn keywords_are_escaped() {
    assert_eq!(as_var("new"), "new_");
    assert_eq!(as_fn("delete"), "delete_");
    assert_eq!(as_var("newer"), "newer");
    assert_eq!(as_type("class"), "Class");
}

#[test]
fn numbers_render_like_format() {
    for v in [0u64, 1, 9, 10, 255, 65535, 65536, 1234567890, u64::MAX] {
        assert_eq!(dec_string(v), format!("{}", v));
        assert_eq!(hex_string(v), format!("{:x}", v));
        assert_eq!(radix_string(v, 2), format!("{:b}", v));
        assert_eq!(count_ones(v), v.count_ones() as u64);
    }
}

#[test]
fn rendered_numbers_parse_back() {
    for v in [0u64, 7, 0xffff, 0x10000, 0xdead_beef, u64::MAX] {
        assert_eq!(u64::from_str_radix(&dec_string(v), 10).unwrap(), v);
        assert_eq!(u64::from_str_radix(&hex_string(v), 16).unwrap(), v);
    }
}

#[test]
fn lines_split_like_std() {
    for s in ["", "a", "a\n", "a\nb", "a\r\nb\r\n", "\n\n", "a\rb", "x\r", "\r\r\n", "é\nü"] {
        let expected: Vec<String> = s.lines().map(|l| l.to_string()).collect();
        assert_eq!(split_lines(s), expected, "{:?}", s);
    }
}

#[test]
fn lines_join_back() {
    for s in ["", "one", "one\ntwo", "one\ntwo\n", "\n", "a\n\nb"] {
        let joined = split_lines(s).join("\n");
        let expected = s.strip_suffix('\n').unwrap_or(s);
        assert_eq!(joined, expected);
    }
}

#[test]
fn str_eq_compares_characters() {
    assert!(str_eq("abc", "abc"));
    assert!(!str_eq("abc", "abd"));
    assert!(!str_eq("abc", "ab"));
    assert!(str_eq("", ""));
}

#[test]
fn writer_indents_blocks() {
    let mut w = PrettyWriter::new("  ");
    w.write_line("a {");
    w.new_block();
    w.write_line("b;");
    w.write_line_continued("c");
    w.end_block();
    w.write("}");
    w.eob();
    assert_eq!(w.as_str(), "a {\n  b;\n    c\n}\n");
    assert_eq!(w.depth(), 0);
}

#[test]
fn docs_become_comment_lines() {
    let mut w = PrettyWriter::new("    ");
    w.new_block();
    AssemblyScriptGenerator::write_docs(&mut w, "line one\n\nline three");
    assert_eq!(w.as_str(), "    /**\n     * line one\n     *\n     * line three\n     */\n");
    let mut w = PrettyWriter::new("    ");
    AssemblyScriptGenerator::write_docs(&mut w, "");
    assert_eq!(w.as_str(), "");
    AssemblyScriptGenerator::write_comments(&mut w, "title");
    assert_eq!(w.as_str(), "/*\n * title\n */\n");
}

#[test]
fn alias_declarations() {
    let mut w = PrettyWriter::new("    ");
    AssemblyScriptGenerator::new(None, false).define_as_alias(&mut w, "fd", &ASType::U32);
    assert_eq!(w.as_str(), "export type Fd = u32;\n");
    let mut w = PrettyWriter::new("    ");
    AssemblyScriptGenerator::new(None, true).define_as_alias(&mut w, "fd", &alias("handle", ASType::U32));
    assert_eq!(w.as_str(), "export const Fd = Handle;\nexport type Fd = Handle;\n");
}

#[test]
fn atom_declarations() {
    let mut w = PrettyWriter::new("    ");
    AssemblyScriptGenerator::new(None, false).define_as_atom(&mut w, "size", &ASType::USize);
    assert_eq!(w.as_str(), "export type Size = usize;\n");
    let mut w = PrettyWriter::new("    ");
    let buf = ASType::ReadBuffer(Rc::new(ASType::U8));
    AssemblyScriptGenerator::new(None, true).define_as_atom(&mut w, "bytes", &buf);
    assert_eq!(
        w.as_str(),
        "export const Bytes = WasiSlice<u8>;\nexport type Bytes = TargetType<typeof WasiSlice<u8>>;\n"
    );
}

fn errno_enum() -> ASEnum {
    ASEnum {
        repr: Rc::new(ASType::U16),
        choices: vec![
            ASEnumChoice { name: "success".to_string(), value: 0, docs: "No error.".to_string() },
            ASEnumChoice { name: "2big".to_string(), value: 1, docs: String::new() },
        ],
    }
}

#[test]
fn enum_in_assemblyscript() {
    let mut w = PrettyWriter::new("    ");
    AssemblyScriptGenerator::new(None, false).define_as_enum(&mut w, "errno", &errno_enum());
    assert_eq!(
        w.as_str(),
        "export type Errno = u16;\n\nexport namespace Errno {\n    export const SUCCESS: Errno = 0;\n    export const 2BIG: Errno = 1;\n}\n"
    );
}

#[test]
fn enum_in_typescript() {
    let mut w = PrettyWriter::new("    ");
    AssemblyScriptGenerator::new(None, true).define_as_enum(&mut w, "errno", &errno_enum());
    assert_eq!(
        w.as_str(),
        "export const Errno = enumer<Errno>(u16);\nexport type Errno = TargetType<typeof Errno>;\n\nexport const enum Errno {\n    /**\n     * No error.\n     */\n    SUCCESS = 0,\n    2BIG = 1,\n}\n"
    );
}

fn constant(name: &str, value: u64) -> ASConstant {
    ASConstant { name: name.to_string(), value, docs: String::new() }
}

#[test]
fn flags_are_hexadecimal() {
    let cs = vec![constant("fd_read", 1), constant("fd_seek", 2), constant("fd_write", 4)];
    let mut w = PrettyWriter::new("    ");
    AssemblyScriptGenerator::new(None, false).define_constants_for_type(&mut w, "rights", None, &cs);
    assert_eq!(
        w.as_str(),
        "export namespace Rights {\n    export const FD_READ: Rights = 0x1;\n    export const FD_SEEK: Rights = 0x2;\n    export const FD_WRITE: Rights = 0x4;\n}\n\n"
    );
}

#[test]
fn two_flags_are_decimal() {
    let cs = vec![constant("a", 1), constant("b", 2)];
    let mut w = PrettyWriter::new("    ");
    AssemblyScriptGenerator::new(None, false).define_constants_for_type(&mut w, "t", None, &cs);
    assert_eq!(w.as_str(), "export namespace T {\n    export const A: T = 1;\n    export const B: T = 2;\n}\n\n");
}

#[test]
fn large_values_are_hexadecimal() {
    let cs = vec![constant("small", 3), constant("big", 0x10000)];
    let mut w = PrettyWriter::new("    ");
    AssemblyScriptGenerator::new(None, false).define_constants_for_type(&mut w, "t", None, &cs);
    assert_eq!(w.as_str(), "export namespace T {\n    export const SMALL: T = 0x3;\n    export const BIG: T = 0x10000;\n}\n\n");
}

#[test]
fn typescript_64_bit_constants_are_bigints() {
    let mut cs = vec![constant("a", 10), constant("b", 11)];
    cs[1].docs = "The b.".to_string();
    let mut w = PrettyWriter::new("    ");
    AssemblyScriptGenerator::new(None, true).define_constants_for_type(&mut w, "t", Some(&ASType::U64), &cs);
    assert_eq!(
        w.as_str(),
        "export const T = {\n    A: 10n,\n    /**\n     * The b.\n     */\n    B: 11n,\n}\n\n"
    );
    let mut w = PrettyWriter::new("    ");
    AssemblyScriptGenerator::new(None, true).define_constants_for_type(&mut w, "t", Some(&ASType::U32), &cs[..1]);
    assert_eq!(w.as_str(), "export const T = {\n    A: 10,\n}\n\n");
}

#[test]
fn no_constants_write_nothing() {
    let mut w = PrettyWriter::new("    ");
    AssemblyScriptGenerator::new(None, false).define_constants_for_type(&mut w, "t", None, &[]);
    assert_eq!(w.as_str(), "");
}

#[test]
fn constant_sets() {
    let c = ASConstants { repr: Rc::new(ASType::U64), constants: vec![constant("x", 1)] };
    let mut w = PrettyWriter::new("    ");
    AssemblyScriptGenerator::new(None, true).define_as_constants(&mut w, "flags", &c);
    assert_eq!(
        w.as_str(),
        "export const Flags = u64;\nexport type Flags = TargetType<typeof u64>;\n\nexport const Flags = {\n    X: 1n,\n}\n\n"
    );
    let mut w = PrettyWriter::new("    ");
    AssemblyScriptGenerator::new(None, false).define_as_constants(&mut w, "flags", &c);
    assert_eq!(w.as_str(), "export type Flags = u64;\n\nexport namespace Flags {\n    export const X: Flags = 1;\n}\n\n");
}

fn members() -> Vec<ASStructMember> {
    vec![
        ASStructMember { name: "a".to_string(), offset: 0, type_: Rc::new(ASType::U8), padding: 3 },
        ASStructMember { name: "b".to_string(), offset: 4, type_: Rc::new(ASType::U32), padding: 0 },
        ASStructMember { name: "new".to_string(), offset: 8, type_: Rc::new(ASType::U8), padding: 15 },
    ]
}

#[test]
fn struct_in_assemblyscript_is_padded() {
    let ms = members();
    let parent = ASType::Void;
    let mut w = PrettyWriter::new("    ");
    AssemblyScriptGenerator::define_as_struct_assemblyscript(&mut w, &parent, "foo_bar", &ms);
    assert_eq!(
        w.as_str(),
        "// @ts-ignore: decorator\n@unmanaged\nexport class FooBar {\n    a: u8;\n    private __pad8_0: u8;\n    private __pad16_0: u16;\n    b: u32;\n    new_: u8;\n    private __pad8_0: u8;\n    private __pad16_0: u16;\n    private __pad32_0: u32;\n    private __pad64_0: u64;\n}\n\n"
    );
}

#[test]
fn padding_fields_fill_the_padding() {
    for p in 0usize..64 {
        let ms = vec![ASStructMember { name: "m".to_string(), offset: 0, type_: Rc::new(ASType::U8), padding: p }];
        let mut w = PrettyWriter::new("");
        AssemblyScriptGenerator::define_as_struct_assemblyscript(&mut w, &ASType::Void, "s", &ms);
        let bytes: usize = w
            .as_str()
            .lines()
            .map(|l| {
                if l.ends_with(": u8;") && l.starts_with("private") {
                    1
                } else if l.ends_with(": u16;") {
                    2
                } else if l.ends_with(": u32;") {
                    4
                } else if l.ends_with(": u64;") {
                    8
                } else {
                    0
                }
            })
            .sum();
        assert_eq!(bytes, p);
    }
}

#[test]
fn struct_in_typescript() {
    let ms = members();
    let parent = ASType::Void;
    let mut w = PrettyWriter::new("    ");
    AssemblyScriptGenerator::define_as_struct_typescript(&mut w, &parent, "foo", &ms);
    assert_eq!(
        w.as_str(),
        "export const Foo = struct({\n    a: u8,\n    b: u32,\n    new_: u8,\n});\nexport type Foo = TargetType<typeof Foo>;\n\n"
    );
    let mut w2 = PrettyWriter::new("    ");
    AssemblyScriptGenerator::new(None, true).define_as_struct(&mut w2, &parent, "foo", &ms);
    assert_eq!(w2.as_str(), w.as_str());
}

#[test]
fn buffers_lower_to_pointer_and_length() {
    let t = Rc::new(ASType::ReadBuffer(Rc::new(ASType::U8)));
    let d = decompose(&t, "buf", false);
    assert_eq!(d.len(), 2);
    assert_eq!(d[0].name, "buf_ptr");
    assert_eq!(d[0].type_.as_lang(), "WasiPtr<u8>");
    assert_eq!(d[1].name, "buf_len");
    assert_eq!(d[1].type_.as_lang(), "usize");
    let s = Rc::new(ASType::String(Rc::new(ASType::Char8)));
    let d = decompose(&s, "path", false);
    assert_eq!(d[0].type_.as_lang(), "WasiMutPtr<Char8>");
    let out = Rc::new(alias("filesize", ASType::U64));
    let d = decompose(&out, "result_ptr", true);
    assert_eq!(d.len(), 1);
    assert_eq!(d[0].type_.as_lang(), "WasiMutPtr<Filesize>");
    assert_eq!(decompose(&Rc::new(ASType::Void), "x", true).len(), 0);
    assert_eq!(decompose(&out, "size", false)[0].type_.as_lang(), "Filesize");
}

#[test]
fn tuple_results_become_several_pointers() {
    let tuple = ASType::Tuple(vec![
        ASTupleMember { offset: 0, type_: Rc::new(ASType::U32), padding: 0 },
        ASTupleMember { offset: 4, type_: Rc::new(ASType::U8), padding: 3 },
    ]);
    let f = ASFunc {
        name: "pair".to_string(),
        docs: String::new(),
        params: vec![],
        results: vec![Rc::new(ASType::Result(ASResult {
            error_type: Rc::new(errno()),
            ok_type: Rc::new(tuple),
            result_type: Rc::new(ASType::Void),
        }))],
        wasm_signature_len: 3,
    };
    let (ds, rs, o) = lower_func(&f);
    assert_eq!(rs.len(), 2);
    assert_eq!(rs[0].name, "result0_ptr");
    assert_eq!(rs[1].name, "result1_ptr");
    assert_eq!(ds.len(), 2);
    assert_eq!(ds[1].type_.as_lang(), "WasiMutPtr<u8>");
    assert!(o.is_some());
    assert!(check_func(&f));
}

#[test]
fn function_in_assemblyscript() {
    let gen = AssemblyScriptGenerator::new(None, false);
    let mut w = PrettyWriter::new("    ");
    gen.define_func(&mut w, "wasi_snapshot_preview1", &fd_write(), &options());
    assert_eq!(
        w.as_str(),
        "/**\n * Write to a file descriptor.\n */\n// @ts-ignore: decorator\n@unsafe\n// @ts-ignore: decorator\n@external(\"wasi_snapshot_preview1\", \"fd_write\")\nexport declare function fdWrite(\n    fd: Fd,\n    iovs_ptr: WasiMutPtr<Ciovec>,\n    iovs_len: usize,\n    result_ptr: WasiMutPtr<Size>\n): Errno;\n\n"
    );
}

#[test]
fn function_without_result() {
    let gen = AssemblyScriptGenerator::new(None, true);
    let mut w = PrettyWriter::new("    ");
    let mut o = options();
    o.async_mode = true;
    gen.define_func(&mut w, "wasi", &proc_exit(), &o);
    assert_eq!(w.as_str(), "export declare function procExit(\n    rval: u32\n): Promise<void>;\n\n");
    let mut w = PrettyWriter::new("    ");
    gen.define_func(&mut w, "wasi", &proc_exit(), &options());
    assert_eq!(w.as_str(), "export declare function procExit(\n    rval: u32\n);\n\n");
}

#[test]
fn function_in_export_mode() {
    let gen = AssemblyScriptGenerator::new(None, true);
    let mut o = options();
    o.export_mode = true;
    o.async_mode = true;
    let mut w = PrettyWriter::new("    ");
    w.new_block();
    gen.define_func(&mut w, "wasi", &fd_write(), &o);
    assert_eq!(
        w.as_str(),
        "    /**\n     * Write to a file descriptor.\n     */\n    fdWrite(\n        fd: Fd,\n        iovs_ptr: WasiMutPtr<Ciovec>,\n        iovs_len: usize,\n        result_ptr: WasiMutPtr<Size>\n    ): Promise<Errno>;\n\n"
    );
}

#[test]
fn export_wrapper() {
    let gen = AssemblyScriptGenerator::new(None, true);
    let mut o = options();
    o.export_mode = true;
    let mut w = PrettyWriter::new("    ");
    gen.define_export_func_wrapper(&mut w, "wasi", &fd_write(), &o);
    assert_eq!(
        w.as_str(),
        "imports[\"wasi\"][\"fd_write\"] =  function (_fd: any,_iovs_ptr: any,_iovs_len: any,_result_ptr: any) {\n        const ret =  obj.fdWrite(_fd,_iovs_ptr,_iovs_len,_result_ptr);\n        return ret;\n    }\n"
    );
}

#[test]
fn export_wrapper_with_error_handler() {
    let gen = AssemblyScriptGenerator::new(None, true);
    let mut o = options();
    o.export_mode = true;
    o.async_mode = true;
    o.error_handler = true;
    let mut w = PrettyWriter::new("    ");
    gen.define_export_func_wrapper(&mut w, "wasi", &proc_exit(), &o);
    assert_eq!(
        w.as_str(),
        "imports[\"wasi\"][\"proc_exit\"] = async function (_rval: any) {\n    const errorHandler2 = handler.handleError\n    try {\n        await obj.procExit(_rval);\n        handler.checkAbort();\n    } catch(err: any) {\n    const eRet = errorHandler2(err);\n    console.log(\"handled error\", err, eRet);\n    }\n\n    }\n"
    );
    let mut w = PrettyWriter::new("    ");
    gen.define_export_func_wrapper(&mut w, "wasi", &fd_write(), &o);
    assert!(w.as_str().contains("        return ret;\n    } catch(err: any) {\n        return errorHandler2(err);\n"));
}

fn document() -> ASDocument {
    ASDocument {
        typenames: vec![
            ASNamedType { name: "size".to_string(), tref: ASTypeRef::Value(Rc::new(ASType::USize)), docs: String::new() },
            ASNamedType {
                name: "filesize".to_string(),
                tref: ASTypeRef::Name(Rc::new(alias("size", ASType::USize))),
                docs: "File size.".to_string(),
            },
        ],
        constants: vec![
            ASConstantDef { ty: "size".to_string(), name: "max".to_string(), value: 7, docs: String::new() },
            ASConstantDef { ty: "other".to_string(), name: "no".to_string(), value: 1, docs: String::new() },
        ],
        modules: vec![ASModule { name: "wasi".to_string(), funcs: vec![proc_exit()] }],
    }
}

#[test]
fn constants_are_gathered_by_type() {
    let doc = document();
    let cs = constants_for_type(&doc.constants, "size");
    assert_eq!(cs.len(), 1);
    assert_eq!(cs[0].name, "max");
    assert_eq!(cs[0].value, 7);
    assert_eq!(constants_for_type(&doc.constants, "none").len(), 0);
}

#[test]
fn generate_assemblyscript_module() {
    let gen = AssemblyScriptGenerator::new(None, false);
    let doc = document();
    assert!(gen.can_generate(&doc, &options()));
    let out = gen.generate(&doc, &options());
    assert_eq!(
        out,
        "/*\n * ---------------------- Module: [wasi] ----------------------\n */\n\nexport type Size = usize;\n\nexport namespace Size {\n    export const MAX: Size = 7;\n}\n\n/**\n * File size.\n */\nexport type Filesize = Size;\n\n// @ts-ignore: decorator\n@unsafe\n// @ts-ignore: decorator\n@external(\"wasi\", \"proc_exit\")\nexport declare function procExit(\n    rval: u32\n);\n\n"
    );
}

#[test]
fn generate_typescript_exports() {
    let gen = AssemblyScriptGenerator::new(Some("env".to_string()), true);
    let doc = document();
    let mut o = options();
    o.skip_imports = true;
    o.export_mode = true;
    o.error_wrapper = true;
    assert!(gen.can_generate(&doc, &o));
    let out = gen.generate(&doc, &o);
    assert_eq!(
        out,
        "/*\n * ---------------------- Module: [env] ----------------------\n */\n\nexport interface Env {\n    procExit(\n        rval: u32\n    );\n\n}\n\nexport function addEnvToImports(imports: any, obj: Env, errorHandler1: (err: any) => number, get_export: (name: string) => WebAssembly.ExportValue): void {\n        if (!(\"env\" in imports)) imports[\"env\"] = {};\n        imports[\"env\"][\"proc_exit\"] =  function (_rval: any) {\n                         obj.procExit(_rval);\n            }\n}\n"
    );
}

#[test]
fn unsupported_documents_are_refused() {
    let doc = document();
    let gen = AssemblyScriptGenerator::new(None, false);
    let mut o = options();
    o.skip_header = false;
    assert!(gen.can_generate(&doc, &o));
    let mut o = options();
    o.export_mode = true;
    assert!(!gen.can_generate(&doc, &o));
    let mut doc2 = document();
    doc2.typenames.push(ASNamedType {
        name: "p".to_string(),
        tref: ASTypeRef::Value(Rc::new(ASType::MutPtr(Rc::new(ASType::U8)))),
        docs: String::new(),
    });
    assert!(!gen.can_generate(&doc2, &options()));
    let mut o = options();
    o.skip_imports = true;
    assert!(gen.can_generate(&doc2, &o));
    let mut bad = proc_exit();
    bad.wasm_signature_len = 2;
    assert!(!check_func(&bad));
    assert!(check_func(&fd_write()));
}

#[test]
fn generator_settings() {
    assert!(AssemblyScriptGenerator::new(None, true).typescript_mode());
    assert!(!AssemblyScriptGenerator::new(Some("m".to_string()), false).typescript_mode());
}

#[test]
fn identifiers_follow_conventions() {
    for name in ["fd_write", "_x_", "class", "new", "Mixed_Case_name", "a__b", "2big", "null"] {
        assert!(!as_type(name).contains('_'));
        assert!(!as_namespace(name).contains('_'));
        assert!(!as_const(name).chars().any(|c| c.is_ascii_lowercase()));
        assert!(!as_var(name).chars().any(|c| c.is_ascii_uppercase()));
        for escaped in [as_var(name), as_fn(name)] {
            assert!(!["class", "new", "null", "delete", "export"].contains(&escaped.as_str()));
        }
    }
    assert_eq!(as_var("null"), "null_");
    assert_eq!(as_fn("Mixed_Case_name"), "mixedCaseName");
}

fn text(ls: &[&str]) -> String {
    let mut s = String::new();
    for l in ls {
        s.push_str(l);
        s.push('\n');
    }
    s
}

#[test]
fn tuple_declaration() {
    let ms = vec![
        ASTupleMember { offset: 0, type_: Rc::new(ASType::U32), padding: 0 },
        ASTupleMember { offset: 4, type_: Rc::new(ASType::U8), padding: 3 },
    ];
    let mut w = PrettyWriter::new("    ");
    AssemblyScriptGenerator::define_as_tuple(&mut w, "pair", &ms);
    assert_eq!(
        w.as_str(),
        text(&[
            "// @ts-ignore: decorator",
            "@unmanaged",
            "export class Pair { // -- Tuple",
            "    v0: u32;",
            "    v1: u8;",
            "    private __pad8_0: u8;",
            "    private __pad16_0: u16;",
            "}",
            "",
        ])
    );
}

fn event_union() -> ASUnion {
    ASUnion {
        tag_repr: Rc::new(ASType::U8),
        members: vec![
            ASUnionMember { name: "clock".to_string(), type_: Rc::new(ASType::Void) },
            ASUnionMember { name: "timeout".to_string(), type_: Rc::new(ASType::U64) },
            ASUnionMember { name: "buf".to_string(), type_: Rc::new(ASType::ConstPtr(Rc::new(ASType::U8))) },
        ],
        max_member_size: 8,
        padding_after_tag: 3,
    }
}

#[test]
fn union_in_assemblyscript() {
    let mut w = PrettyWriter::new("    ");
    AssemblyScriptGenerator::new(None, false).define_as_union(&mut w, "event_u", &event_union());
    assert_eq!(
        w.as_str(),
        text(&[
            "// @ts-ignore: decorator",
            "@unmanaged",
            "export class EventU {",
            "    tag: u8;",
            "    private __pad8_0: u8;",
            "    private __pad16_0: u16;",
            "",
            "    constructor(tag: u8) {",
            "        this.tag = tag;",
            "        memory.fill(changetype<usize>(this) + 4, 0, 8);",
            "    }",
            "",
            "    // @ts-ignore: default",
            "    static new<T>(tag: u8, val: T = 0): EventU {",
            "        let tu = new EventU(tag);",
            "        tu.set(val);",
            "        return tu;",
            "    }",
            "",
            "    get<T>(): T {",
            "        // @ts-ignore: cast",
            "        let valBuf = changetype<usize>(this) + 4;",
            "        if (isReference<T>()) {",
            "            return changetype<T>(valBuf);",
            "        } else {",
            "            return load<T>(valBuf);",
            "        }",
            "    }",
            "",
            "    // @ts-ignore: default",
            "    set<T>(val: T = 0): void {",
            "        // @ts-ignore: cast",
            "        let valBuf = changetype<usize>(this) + 4;",
            "        memory.fill(valBuf, 0, 8);",
            "        if (isReference<T>()) {",
            "            (val !== null) && memory.copy(valBuf, changetype<usize>(val), offsetof<T>());",
            "        } else {",
            "            store<T>(valBuf, val);",
            "        }",
            "    }",
            "",
            "    static clock(): EventU {",
            "        return EventU.new(0);",
            "    }",
            "",
            "    setClock(): void {",
            "        this.tag = 0;",
            "    }",
            "",
            "    isClock(): bool {",
            "        return this.tag === 0;",
            "    }",
            "",
            "    static timeout(val: u64): EventU {",
            "        return EventU.new(1, val);",
            "    }",
            "    setTimeout(val: u64): void {",
            "        this.tag = 1;",
            "        this.set(val);",
            "    }",
            "    isTimeout(): bool {",
            "        return this.tag === 1;",
            "    }",
            "    getTimeout(): u64 {",
            "        assert(this.tag === 1);",
            "        return this.get<u64>();",
            "    }",
            "",
            "    static buf(val: WasiPtr<u8>): EventU {",
            "        return EventU.new(2, val);",
            "    }",
            "    setBuf(val: WasiPtr<u8>): void {",
            "        this.tag = 2;",
            "        this.set(val);",
            "    }",
            "    isBuf(): bool {",
            "        return this.tag === 2;",
            "    }",
            "    getBuf(): WasiPtr<u8> | null {",
            "        if (this.tag !== 2) { return null; }",
            "        return this.get<WasiPtr<u8>>();",
            "    }",
            "}",
            "",
        ])
    );
}

#[test]
fn union_in_typescript() {
    let mut w = PrettyWriter::new("    ");
    AssemblyScriptGenerator::new(None, true).define_as_union(&mut w, "event_u", &event_union());
    assert_eq!(
        w.as_str(),
        text(&[
            "export const EventU = union(u8, {",
            "    clock: void,",
            "    timeout: u64,",
            "    buf: WasiPtr<u8>,",
            "});",
            "export type EventU = TargetType<typeof EventU>;",
            "",
        ])
    );
}

#[test]
fn unions_and_tuples_are_declared_in_documents() {
    let mut doc = document();
    doc.typenames = vec![
        ASNamedType { name: "event_u".to_string(), tref: ASTypeRef::Value(Rc::new(ASType::Union(event_union()))), docs: String::new() },
        ASNamedType {
            name: "pair".to_string(),
            tref: ASTypeRef::Value(Rc::new(ASType::Tuple(vec![ASTupleMember { offset: 0, type_: Rc::new(ASType::U8), padding: 0 }]))),
            docs: String::new(),
        },
    ];
    doc.modules = vec![];
    let gen = AssemblyScriptGenerator::new(None, false);
    assert!(gen.can_generate(&doc, &options()));
    assert_eq!(gen.generate(&doc, &options()), "");
    doc.modules = vec![ASModule { name: "m".to_string(), funcs: vec![] }];
    let out = gen.generate(&doc, &options());
    assert!(out.contains("export class EventU {\n"));
    assert!(out.contains("export class Pair { // -- Tuple\n    v0: u8;\n}\n\n\n"));
}

#[test]
fn empty_document_writes_nothing_whatever_the_options() {
    let doc = ASDocument { typenames: vec![], constants: vec![], modules: vec![] };
    for ts in [false, true] {
        let gen = AssemblyScriptGenerator::new(None, ts).with_header("// prelude\n".to_string());
        let o = Options {
            skip_header: false,
            skip_imports: false,
            async_mode: true,
            export_mode: true,
            error_wrapper: true,
            error_handler: true,
        };
        assert!(gen.can_generate(&doc, &o));
        assert_eq!(gen.generate(&doc, &o), "");
    }
}

#[test]
fn header_starts_each_module() {
    let gen = AssemblyScriptGenerator::new(None, false).with_header("// prelude\n".to_string());
    let mut doc = document();
    doc.modules.push(ASModule { name: "second".to_string(), funcs: vec![] });
    let mut o = options();
    o.skip_header = false;
    o.skip_imports = true;
    let out = gen.generate(&doc, &o);
    assert!(out.starts_with("// prelude\n/*\n * ---------------------- Module: [wasi] ----------------------\n */\n\n"));
    assert!(out.contains("\n\n// prelude\n/*\n * ---------------------- Module: [second] ----------------------\n */\n\n"));
    assert_eq!(out.matches("// prelude").count(), 2);
    o.skip_header = true;
    assert!(!gen.generate(&doc, &o).contains("prelude"));
    let mut w = PrettyWriter::new("    ");
    gen.header(&mut w);
    assert_eq!(w.as_str(), "// prelude\n");
}

#[test]
fn wrapper_uses_declared_parameter_names() {
    let gen = AssemblyScriptGenerator::new(None, true);
    let mut o = options();
    o.export_mode = true;
    let mut decl = PrettyWriter::new("    ");
    gen.define_func(&mut decl, "wasi", &fd_write(), &o);
    let mut wrapper = PrettyWriter::new("    ");
    gen.define_export_func_wrapper(&mut wrapper, "wasi", &fd_write(), &o);
    let declared: Vec<String> = decl
        .as_str()
        .lines()
        .filter(|l| l.starts_with("    "))
        .map(|l| l.trim().split(':').next().unwrap().to_string())
        .collect();
    let head = wrapper.as_str().lines().next().unwrap();
    let params = &head[head.find("function (").unwrap() + 10..head.find(") {").unwrap()];
    let wrapped: Vec<String> = params
        .split(',')
        .map(|p| p.trim_start_matches('_').trim_end_matches(": any").to_string())
        .collect();
    assert_eq!(declared, wrapped);
    assert_eq!(declared, vec!["fd", "iovs_ptr", "iovs_len", "result_ptr"]);
}

#[test]
fn paddings_fill_gaps_between_members() {
    assert_eq!(member_paddings(&[0, 4, 8], &[1, 2, 8], 16), Some(vec![3, 2, 0]));
    assert_eq!(member_paddings(&[0, 8], &[4, 8], 16), Some(vec![4, 0]));
    assert_eq!(member_paddings(&[], &[], 0), Some(vec![]));
    assert_eq!(member_paddings(&[0, 2], &[4, 2], 8), None);
    assert_eq!(member_paddings(&[0], &[1, 2], 8), None);
    assert_eq!(member_paddings(&[0], &[usize::MAX], 8), None);
}

fn case(name: &str, payload: Option<ASType>, size: usize) -> VariantCase {
    VariantCase { name: name.to_string(), docs: format!("The {}.", name), payload: payload.map(Rc::new), payload_size: size }
}

fn variant(tag: ASType, payload_offset: usize, cases: Vec<VariantCase>) -> ASType {
    variant_type(&VariantDesc { tag_repr: tag, payload_offset, cases })
}

#[test]
fn variants_read_as_bool_outcome_and_option() {
    assert!(matches!(variant(ASType::U8, 1, vec![case("false", None, 0), case("true", None, 0)]), ASType::Bool));
    match variant(ASType::U8, 4, vec![case("ok", Some(ASType::U32), 4), case("err", None, 0)]) {
        ASType::Result(r) => {
            assert!(matches!(*r.ok_type, ASType::U32));
            assert!(matches!(*r.error_type, ASType::Void));
            assert!(matches!(*r.result_type, ASType::U32));
        }
        _ => panic!("an outcome"),
    }
    match variant(ASType::U16, 4, vec![case("none", None, 0), case("some", Some(ASType::U64), 8)]) {
        ASType::Option(o) => {
            assert!(matches!(*o.tag_repr, ASType::U16));
            assert!(matches!(*o.type_, ASType::U64));
        }
        _ => panic!("an option"),
    }
    // Without a payload on `some`, the cases are an enumeration.
    assert!(matches!(
        variant(ASType::U8, 1, vec![case("none", None, 0), case("some", None, 0)]),
        ASType::Enum(_)
    ));
}

#[test]
fn bare_variants_are_enumerations_numbered_from_zero() {
    match variant(ASType::U32, 4, vec![case("a", None, 0), case("b", None, 0), case("c", None, 0)]) {
        ASType::Enum(e) => {
            assert!(matches!(*e.repr, ASType::U32));
            let got: Vec<(String, usize, String)> =
                e.choices.iter().map(|c| (c.name.clone(), c.value, c.docs.clone())).collect();
            assert_eq!(
                got,
                vec![
                    ("a".to_string(), 0, "The a.".to_string()),
                    ("b".to_string(), 1, "The b.".to_string()),
                    ("c".to_string(), 2, "The c.".to_string()),
                ]
            );
        }
        _ => panic!("an enumeration"),
    }
}

#[test]
fn other_variants_are_unions_sized_by_their_largest_payload() {
    let cases = vec![case("a", Some(ASType::U16), 2), case("b", None, 0), case("c", Some(ASType::U64), 8), case("d", Some(ASType::U8), 1)];
    match variant(ASType::U8, 8, cases) {
        ASType::Union(u) => {
            assert!(matches!(*u.tag_repr, ASType::U8));
            assert_eq!(u.max_member_size, 8);
            assert_eq!(u.padding_after_tag, 7);
            let names: Vec<&str> = u.members.iter().map(|m| m.name.as_str()).collect();
            assert_eq!(names, vec!["a", "b", "c", "d"]);
            assert!(matches!(*u.members[1].type_, ASType::Void));
            assert!(matches!(*u.members[2].type_, ASType::U64));
        }
        _ => panic!("a union"),
    }
}

#[test]
fn atoms_and_aliases_read_alike_in_assemblyscript() {
    let gen = AssemblyScriptGenerator::new(None, false);
    let mut a = PrettyWriter::new("    ");
    gen.define_as_atom(&mut a, "size", &ASType::USize);
    let mut b = PrettyWriter::new("    ");
    gen.define_as_alias(&mut b, "size", &ASType::USize);
    assert_eq!(a.as_str(), b.as_str());
    assert_eq!(a.as_str(), "export type Size = usize;\n");
}

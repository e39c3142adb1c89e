//! Declarations of functions, and the wrappers that register them as imports.

use std::rc::Rc;
use vstd::prelude::*;
use vstd::string::*;

use super::common::{as_fn, as_var};
use super::{AssemblyScriptGenerator, Options};
use crate::astype::{decompose, rc_clone, ASResult, ASType, ASTypeDecomposed, Shape};
use crate::document::{ASFunc, ASParam};
use crate::pretty_writer::{line, PrettyWriter};
use crate::text::dec_string;

verus! {

/// The function's result type, when it has a result: the first result must
/// then be a result type.
pub open spec fn results_ok(f: ASFunc) -> bool {
    f.results.len() > 0 ==> (*f.results@[0] is Result)
}

/// The function's result type, if it has one.
pub open spec fn result_of(f: ASFunc) -> Option<ASResult> {
    if f.results.len() > 0 {
        match *f.results@[0] {
            ASType::Result(r) => Some(r),
            _ => None,
        }
    } else {
        None
    }
}

/// The type of a successful result; `void` when there is none.
pub open spec fn ok_type_of(f: ASFunc) -> ASType {
    match result_of(f) {
        Some(r) => *r.ok_type,
        None => ASType::Void,
    }
}

/// The outputs of the function: one pointer for each member of a tuple
/// result (`result<i>_ptr`), or one for the whole result (`result_ptr`).
pub open spec fn result_params(f: ASFunc) -> Seq<(Seq<char>, ASType)> {
    match crate::astype::spec_leaf(ok_type_of(f)) {
        ASType::Tuple(ms) => Seq::new(
            ms@.len(),
            |i: int| ("result"@ + crate::text::dec(i as nat) + "_ptr"@, *ms@[i].type_),
        ),
        _ => seq![("result_ptr"@, ok_type_of(f))],
    }
}

/// The lowered parameters of the inputs.
pub open spec fn params_plan(ps: Seq<ASParam>) -> Seq<(Seq<char>, Shape, ASType)>
    decreases ps.len(),
{
    if ps.len() == 0 {
        seq![]
    } else {
        params_plan(ps.drop_last()) + crate::astype::spec_decompose(
            *ps.last().type_,
            ps.last().name@,
            false,
        )
    }
}

/// The lowered parameters of the outputs.
pub open spec fn results_plan(rs: Seq<(Seq<char>, ASType)>) -> Seq<(Seq<char>, Shape, ASType)>
    decreases rs.len(),
{
    if rs.len() == 0 {
        seq![]
    } else {
        results_plan(rs.drop_last()) + crate::astype::spec_decompose(rs.last().1, rs.last().0, true)
    }
}

/// The lowered parameters of the function: those of its inputs, then those
/// of its outputs.
pub open spec fn func_plan(f: ASFunc) -> Seq<(Seq<char>, Shape, ASType)> {
    params_plan(f.params@) + results_plan(result_params(f))
}

/// The function can be declared: its result is a result type whose error
/// type has an expression, every lowered parameter's type has one, and its
/// core signature has one parameter for each lowered parameter, and one
/// result when it has a result.
pub open spec fn func_ok(f: ASFunc) -> bool {
    &&& results_ok(f)
    &&& forall|i: int|
        0 <= i < func_plan(f).len() ==> super::common::piece_lang_ok(#[trigger] func_plan(f)[i])
    &&& (result_of(f) matches Some(r) ==> super::common::lang_ok(*r.error_type))
    &&& f.wasm_signature_len == func_plan(f).len() + (if result_of(f) is Some {
        1int
    } else {
        0int
    })
}

/// One parameter of a declaration, on a continuation line; a comma follows
/// all but the last.
pub open spec fn param_line(u: Seq<char>, l: nat, p: (Seq<char>, Shape, ASType), last: bool) -> Seq<
    char,
> {
    crate::text::repeat(u, l) + u + super::common::spec_as_var(p.0) + ": "@
        + super::common::piece_lang(p) + (if last {
        seq![]
    } else {
        ","@
    }) + "\n"@
}

/// The parameters of a declaration, the last being the `n`-th.
pub open spec fn param_lines(u: Seq<char>, l: nat, ps: Seq<(Seq<char>, Shape, ASType)>, n: nat) -> Seq<
    char,
>
    decreases ps.len(),
{
    if ps.len() == 0 {
        seq![]
    } else {
        param_lines(u, l, ps.drop_last(), n) + param_line(u, l, ps.last(), ps.len() == n)
    }
}

/// One parameter of a registered wrapper: `_<name>: any`, then a comma for
/// all but the last.
pub open spec fn wrapper_param(p: (Seq<char>, Shape, ASType), last: bool) -> Seq<char> {
    "_"@ + super::common::spec_as_var(p.0) + ": any"@ + (if last {
        seq![]
    } else {
        ","@
    })
}

/// The parameters of a registered wrapper, the last being the `n`-th.
pub open spec fn wrapper_params(ps: Seq<(Seq<char>, Shape, ASType)>, n: nat) -> Seq<char>
    decreases ps.len(),
{
    if ps.len() == 0 {
        seq![]
    } else {
        wrapper_params(ps.drop_last(), n) + wrapper_param(ps.last(), ps.len() == n)
    }
}

/// One argument of the call in a registered wrapper: `_<name>`, then a comma
/// for all but the last.
pub open spec fn call_arg(p: (Seq<char>, Shape, ASType), last: bool) -> Seq<char> {
    "_"@ + super::common::spec_as_var(p.0) + (if last {
        seq![]
    } else {
        ","@
    })
}

/// The arguments of the call in a registered wrapper, the last being the
/// `n`-th.
pub open spec fn call_args(ps: Seq<(Seq<char>, Shape, ASType)>, n: nat) -> Seq<char>
    decreases ps.len(),
{
    if ps.len() == 0 {
        seq![]
    } else {
        call_args(ps.drop_last(), n) + call_arg(ps.last(), ps.len() == n)
    }
}

/// The names under which lowered parameters are declared and passed.
pub open spec fn param_names(ps: Seq<(Seq<char>, Shape, ASType)>) -> Seq<Seq<char>> {
    Seq::new(ps.len(), |i: int| super::common::spec_as_var(ps[i].0))
}

/// The expressions of the types of lowered parameters.
pub open spec fn param_langs(ps: Seq<(Seq<char>, Shape, ASType)>) -> Seq<Seq<char>> {
    Seq::new(ps.len(), |i: int| super::common::piece_lang(ps[i]))
}

/// A comma after all but the `n`-th item.
pub open spec fn sep(k: nat, n: nat) -> Seq<char> {
    if k == n {
        seq![]
    } else {
        ","@
    }
}

/// Declared parameters, from their names and type expressions.
pub open spec fn named_param_lines(u: Seq<char>, l: nat, names: Seq<Seq<char>>, langs: Seq<Seq<char>>, n: nat) -> Seq<char>
    decreases names.len(),
{
    if names.len() == 0 {
        seq![]
    } else {
        named_param_lines(u, l, names.drop_last(), langs.drop_last(), n) + crate::text::repeat(u, l)
            + u + names.last() + ": "@ + langs[names.len() - 1] + sep(names.len(), n) + "\n"@
    }
}

/// A wrapper's parameters, from their names.
pub open spec fn named_wrapper_params(names: Seq<Seq<char>>, n: nat) -> Seq<char>
    decreases names.len(),
{
    if names.len() == 0 {
        seq![]
    } else {
        named_wrapper_params(names.drop_last(), n) + "_"@ + names.last() + ": any"@ + sep(
            names.len(),
            n,
        )
    }
}

/// A wrapper's call arguments, from their names.
pub open spec fn named_call_args(names: Seq<Seq<char>>, n: nat) -> Seq<char>
    decreases names.len(),
{
    if names.len() == 0 {
        seq![]
    } else {
        named_call_args(names.drop_last(), n) + "_"@ + names.last() + sep(names.len(), n)
    }
}

proof fn lemma_names_of(u: Seq<char>, l: nat, ps: Seq<(Seq<char>, Shape, ASType)>, n: nat)
    ensures
        param_lines(u, l, ps, n) == named_param_lines(u, l, param_names(ps), param_langs(ps), n),
        wrapper_params(ps, n) == named_wrapper_params(param_names(ps), n),
        call_args(ps, n) == named_call_args(param_names(ps), n),
    decreases ps.len(),
{
    if ps.len() > 0 {
        let q = ps.drop_last();
        lemma_names_of(u, l, q, n);
        assert(param_names(ps).drop_last() =~= param_names(q));
        assert(param_langs(ps).drop_last() =~= param_langs(q));
        assert(param_names(ps).last() == super::common::spec_as_var(ps.last().0));
        assert(param_langs(ps)[ps.len() - 1] == super::common::piece_lang(ps.last()));
        let last = ps.len() == n;
        assert(param_line(u, l, ps.last(), last) =~= crate::text::repeat(u, l) + u
            + super::common::spec_as_var(ps.last().0) + ": "@ + super::common::piece_lang(ps.last())
            + sep(ps.len(), n) + "\n"@);
        assert(wrapper_param(ps.last(), last) =~= "_"@ + super::common::spec_as_var(ps.last().0)
            + ": any"@ + sep(ps.len(), n));
        assert(call_arg(ps.last(), last) =~= "_"@ + super::common::spec_as_var(ps.last().0) + sep(
            ps.len(),
            n,
        ));
        assert(param_lines(u, l, ps, n) =~= named_param_lines(
            u,
            l,
            param_names(ps),
            param_langs(ps),
            n,
        ));
        assert(wrapper_params(ps, n) =~= named_wrapper_params(param_names(ps), n));
        assert(call_args(ps, n) =~= named_call_args(param_names(ps), n));
    }
}

/// The wrapper that registers a function takes its parameters, and passes
/// them on, under the names that the function's declaration gives them, in
/// the same order and number: the declaration, the wrapper's parameters and
/// the call's arguments are all made from `param_names(func_plan(f))`.
pub proof fn lemma_wrapper_names_match_declaration(u: Seq<char>, l: nat, f: ASFunc)
    ensures
        ({
            let plan = func_plan(f);
            let names = param_names(plan);
            &&& names.len() == plan.len()
            &&& param_lines(u, l, plan, plan.len()) == named_param_lines(
                u,
                l,
                names,
                param_langs(plan),
                plan.len(),
            )
            &&& wrapper_params(plan, plan.len()) == named_wrapper_params(names, plan.len())
            &&& call_args(plan, plan.len()) == named_call_args(names, plan.len())
        }),
{
    lemma_names_of(u, l, func_plan(f), func_plan(f).len());
}

/// The `n` lowered parameters `ds` are those that `ps` describes, and each
/// type has an expression.
spec fn pieces_ok(ds: Seq<ASTypeDecomposed>, ps: Seq<(Seq<char>, Shape, ASType)>) -> bool {
    &&& crate::astype::are_pieces(ds, ps)
    &&& forall|i: int| 0 <= i < ps.len() ==> super::common::piece_lang_ok(#[trigger] ps[i])
}

fn write_param_lines(w: &mut PrettyWriter, ds: &[ASTypeDecomposed], Ghost(ps): Ghost<Seq<(Seq<char>, Shape, ASType)>>)
    requires
        pieces_ok(ds@, ps),
    ensures
        final(w).appended(
            *old(w),
            param_lines(old(w).unit(), old(w).level(), ps, ps.len()),
        ),
{
    let ghost u = w.unit();
    let ghost l = w.level();
    assert(ps.take(0) =~= Seq::<(Seq<char>, Shape, ASType)>::empty());
    assert(w.text() =~= old(w).text() + param_lines(u, l, ps.take(0), ps.len()));
    for i in 0..ds.len()
        invariant
            pieces_ok(ds@, ps),
            w.text() == old(w).text() + param_lines(u, l, ps.take(i as int), ps.len()),
            w.level() == l,
            w.unit() == u,
    {
        assert(ps.take(i + 1).drop_last() =~= ps.take(i as int));
        assert(crate::astype::is_piece(ds@[i as int], ps[i as int]));
        proof {
            super::common::lemma_piece_lang(ds@[i as int], ps[i as int]);
        }
        let param = &ds[i];
        let ghost before = w.text();
        let mut s = as_var(param.name.as_str());
        s.append(": ");
        s.append(param.type_.as_lang().as_str());
        if i + 1 != ds.len() {
            s.append(",");
        }
        w.write_line_continued(s.as_str());
        assert(w.text() =~= before + param_line(u, l, ps[i as int], i + 1 == ps.len()));
    }
    assert(ps.take(ds.len() as int) =~= ps);
}

fn write_wrapper_params(w: &mut PrettyWriter, ds: &[ASTypeDecomposed], Ghost(ps): Ghost<Seq<(Seq<char>, Shape, ASType)>>, typed: bool)
    requires
        crate::astype::are_pieces(ds@, ps),
    ensures
        final(w).appended(
            *old(w),
            if typed {
                wrapper_params(ps, ps.len())
            } else {
                call_args(ps, ps.len())
            },
        ),
{
    assert(ps.take(0) =~= Seq::<(Seq<char>, Shape, ASType)>::empty());
    assert(w.text() =~= old(w).text() + (if typed {
        wrapper_params(ps.take(0), ps.len())
    } else {
        call_args(ps.take(0), ps.len())
    }));
    for i in 0..ds.len()
        invariant
            crate::astype::are_pieces(ds@, ps),
            w.text() == old(w).text() + (if typed {
                wrapper_params(ps.take(i as int), ps.len())
            } else {
                call_args(ps.take(i as int), ps.len())
            }),
            w.level() == old(w).level(),
            w.unit() == old(w).unit(),
    {
        assert(ps.take(i + 1).drop_last() =~= ps.take(i as int));
        assert(crate::astype::is_piece(ds@[i as int], ps[i as int]));
        let param = &ds[i];
        let ghost before = w.text();
        let mut s = "_".to_owned();
        s.append(as_var(param.name.as_str()).as_str());
        if typed {
            s.append(": any");
        }
        if i + 1 != ds.len() {
            s.append(",");
        }
        w.write(s.as_str());
        assert(w.text() =~= before + (if typed {
            wrapper_param(ps[i as int], i + 1 == ps.len())
        } else {
            call_arg(ps[i as int], i + 1 == ps.len())
        }));
    }
    assert(ps.take(ds.len() as int) =~= ps);
}

fn params_decomposed_of(ps: &Vec<ASParam>) -> (r: Vec<ASTypeDecomposed>)
    ensures
        crate::astype::are_pieces(r@, params_plan(ps@)),
{
    let mut r: Vec<ASTypeDecomposed> = Vec::new();
    assert(ps@.take(0) =~= Seq::<ASParam>::empty());
    for i in 0..ps.len()
        invariant
            crate::astype::are_pieces(r@, params_plan(ps@.take(i as int))),
    {
        assert(ps@.take(i + 1).drop_last() =~= ps@.take(i as int));
        let mut decomposed = decompose(&ps[i].type_, ps[i].name.as_str(), false);
        let ghost prev = r@;
        let ghost add = decomposed@;
        r.append(&mut decomposed);
        assert(r@ =~= prev + add);
        assert(crate::astype::are_pieces(r@, params_plan(ps@.take(i + 1)))) by {
            let p1 = params_plan(ps@.take(i as int));
            let p2 = crate::astype::spec_decompose(*ps@[i as int].type_, ps@[i as int].name@, false);
            assert(params_plan(ps@.take(i + 1)) =~= p1 + p2);
            assert forall|j: int| 0 <= j < r@.len() implies crate::astype::is_piece(
                #[trigger] r@[j],
                (p1 + p2)[j],
            ) by {
                if j < prev.len() {
                    assert(crate::astype::is_piece(prev[j], p1[j]));
                } else {
                    assert(crate::astype::is_piece(add[j - prev.len()], p2[j - prev.len()]));
                }
            }
        }
    }
    assert(ps@.take(ps.len() as int) =~= ps@);
    r
}

fn results_decomposed_of(rs: &Vec<ASParam>, Ghost(spec_rs): Ghost<Seq<(Seq<char>, ASType)>>) -> (r: Vec<ASTypeDecomposed>)
    requires
        rs@.len() == spec_rs.len(),
        forall|i: int|
            0 <= i < rs@.len() ==> (#[trigger] rs@[i]).name@ == spec_rs[i].0 && *rs@[i].type_
                == spec_rs[i].1,
    ensures
        crate::astype::are_pieces(r@, results_plan(spec_rs)),
{
    let mut r: Vec<ASTypeDecomposed> = Vec::new();
    assert(spec_rs.take(0) =~= Seq::<(Seq<char>, ASType)>::empty());
    for i in 0..rs.len()
        invariant
            rs@.len() == spec_rs.len(),
            forall|i: int|
                0 <= i < rs@.len() ==> (#[trigger] rs@[i]).name@ == spec_rs[i].0 && *rs@[i].type_
                    == spec_rs[i].1,
            crate::astype::are_pieces(r@, results_plan(spec_rs.take(i as int))),
    {
        assert(spec_rs.take(i + 1).drop_last() =~= spec_rs.take(i as int));
        assert(rs@[i as int].name@ == spec_rs[i as int].0);
        let mut decomposed = decompose(&rs[i].type_, rs[i].name.as_str(), true);
        let ghost prev = r@;
        let ghost add = decomposed@;
        r.append(&mut decomposed);
        assert(r@ =~= prev + add);
        assert(crate::astype::are_pieces(r@, results_plan(spec_rs.take(i + 1)))) by {
            let p1 = results_plan(spec_rs.take(i as int));
            let p2 = crate::astype::spec_decompose(spec_rs[i as int].1, spec_rs[i as int].0, true);
            assert(results_plan(spec_rs.take(i + 1)) =~= p1 + p2);
            assert forall|j: int| 0 <= j < r@.len() implies crate::astype::is_piece(
                #[trigger] r@[j],
                (p1 + p2)[j],
            ) by {
                if j < prev.len() {
                    assert(crate::astype::is_piece(prev[j], p1[j]));
                } else {
                    assert(crate::astype::is_piece(add[j - prev.len()], p2[j - prev.len()]));
                }
            }
        }
    }
    assert(spec_rs.take(rs.len() as int) =~= spec_rs);
    r
}

fn result_ptrs(ok_type: &Rc<ASType>) -> (r: Vec<ASParam>)
    ensures
        r@.len() == (match crate::astype::spec_leaf(**ok_type) {
            ASType::Tuple(ms) => ms@.len(),
            _ => 1,
        }),
        forall|i: int|
            0 <= i < r@.len() ==> (#[trigger] r@[i]).name@ == (match crate::astype::spec_leaf(
                **ok_type,
            ) {
                ASType::Tuple(ms) => "result"@ + crate::text::dec(i as nat) + "_ptr"@,
                _ => "result_ptr"@,
            }) && *r@[i].type_ == (match crate::astype::spec_leaf(**ok_type) {
                ASType::Tuple(ms) => *ms@[i].type_,
                _ => **ok_type,
            }),
{
    let mut results: Vec<ASParam> = Vec::new();
    if let ASType::Tuple(tuple_members) = ok_type.leaf() {
        for i in 0..tuple_members.len()
            invariant
                crate::astype::spec_leaf(**ok_type) == ASType::Tuple(*tuple_members),
                results@.len() == i,
                forall|j: int|
                    0 <= j < i ==> (#[trigger] results@[j]).name@ == "result"@ + crate::text::dec(
                        j as nat,
                    ) + "_ptr"@ && *results@[j].type_ == *tuple_members@[j].type_,
        {
            let mut name = "result".to_owned();
            name.append(dec_string(i as u64).as_str());
            name.append("_ptr");
            results.push(ASParam { name, type_: rc_clone(&tuple_members[i].type_) });
        }
    } else {
        results.push(ASParam { name: "result_ptr".to_owned(), type_: rc_clone(ok_type) });
    }
    results
}

/// The lowered signature of a function (see `get_func_params_processed`).
pub fn lower_func(func_witx: &ASFunc) -> (r: (Vec<ASTypeDecomposed>, Vec<ASParam>, Option<ASResult>))
    requires
        results_ok(*func_witx),
    ensures
        crate::astype::are_pieces(r.0@, func_plan(*func_witx)),
        r.1@.len() == result_params(*func_witx).len(),
        forall|i: int|
            0 <= i < r.1@.len() ==> (#[trigger] r.1@[i]).name@ == result_params(*func_witx)[i].0
                && *r.1@[i].type_ == result_params(*func_witx)[i].1,
        r.2 == result_of(*func_witx),
{
    let mut ok_type: Rc<ASType> = Rc::new(ASType::Void);
    let mut o_result: Option<ASResult> = None;
    if func_witx.results.len() > 0 {
        let result_witx = &func_witx.results[0];
        match &**result_witx {
            ASType::Result(result) => {
                ok_type = rc_clone(&result.ok_type);
                o_result = Some(
                    ASResult {
                        error_type: rc_clone(&result.error_type),
                        ok_type: rc_clone(&result.ok_type),
                        result_type: rc_clone(&result.result_type),
                    },
                );
            },
            _ => {},
        }
    }
    assert(*ok_type == ok_type_of(*func_witx));
    let mut params_decomposed = params_decomposed_of(&func_witx.params);
    // A tuple in a result is expanded into additional parameters,
    // transformed to pointers.
    let results = result_ptrs(&ok_type);
    let ghost spec_rs = result_params(*func_witx);
    assert(results@.len() == spec_rs.len());
    let mut results_decomposed = results_decomposed_of(&results, Ghost(spec_rs));
    let ghost p1 = params_decomposed@;
    let ghost p2 = results_decomposed@;
    params_decomposed.append(&mut results_decomposed);
    assert(params_decomposed@ =~= p1 + p2);
    assert(crate::astype::are_pieces(params_decomposed@, func_plan(*func_witx))) by {
        let q1 = params_plan(func_witx.params@);
        let q2 = results_plan(spec_rs);
        assert forall|j: int| 0 <= j < params_decomposed@.len() implies crate::astype::is_piece(
            #[trigger] params_decomposed@[j],
            (q1 + q2)[j],
        ) by {
            if j < p1.len() {
                assert(crate::astype::is_piece(p1[j], q1[j]));
            } else {
                assert(crate::astype::is_piece(p2[j - p1.len()], q2[j - p1.len()]));
            }
        }
    }
    (params_decomposed, results, o_result)
}

impl AssemblyScriptGenerator {
    /// Lowers the function's signature: returns its lowered parameters (those
    /// of its inputs, then those of its outputs), its outputs, and its result
    /// type if it has one.
    pub fn get_func_params_processed(
        &self,
        _w: &mut PrettyWriter,
        _module_name: &str,
        func_witx: &ASFunc,
        _options: &Options,
    ) -> (r: (Vec<ASTypeDecomposed>, Vec<ASParam>, Option<ASResult>))
        requires
            results_ok(*func_witx),
        ensures
            *final(_w) == *old(_w),
            crate::astype::are_pieces(r.0@, func_plan(*func_witx)),
            r.1@.len() == result_params(*func_witx).len(),
            forall|i: int|
                0 <= i < r.1@.len() ==> (#[trigger] r.1@[i]).name@ == result_params(
                    *func_witx,
                )[i].0 && *r.1@[i].type_ == result_params(*func_witx)[i].1,
            r.2 == result_of(*func_witx),
    {
        lower_func(func_witx)
    }

    /// The opening of a function's declaration, up to its open parenthesis.
    pub open spec fn func_head(&self, u: Seq<char>, l: nat, module: Seq<char>, f: ASFunc, options: Options) -> Seq<char> {
        let fname = super::common::spec_as_fn(f.name@);
        if self.typescript() {
            if options.export_mode {
                crate::text::repeat(u, l) + fname + "("@
            } else {
                "export declare function "@ + fname + "("@
            }
        } else {
            line(u, l, "// @ts-ignore: decorator"@) + line(u, l, "@unsafe"@) + line(
                u,
                l,
                "// @ts-ignore: decorator"@,
            ) + line(u, l, "@external(\""@ + module + "\", \""@ + f.name@ + "\")"@)
                + crate::text::repeat(u, l) + "export declare function "@ + fname + "("@
        }
    }

    /// The declaration of the function `f` of the module `module`: its
    /// documentation, its name, its lowered parameters one on each line, and
    /// its return type (the error type of its result, or nothing), as a
    /// promise in async mode.
    pub open spec fn func_text(&self, u: Seq<char>, l: nat, module: Seq<char>, f: ASFunc, options: Options) -> Seq<char> {
        let plan = func_plan(f);
        super::docs_text(u, l, f.docs@) + self.func_head(u, l, module, f, options) + (if plan.len() > 0
            || result_params(f).len() > 0 {
            "\n"@
        } else {
            seq![]
        }) + param_lines(u, l, plan, plan.len()) + func_close(u, l, f, options)
    }

    fn write_func_head(&self, w: &mut PrettyWriter, module_name: &str, func_witx: &ASFunc, options: &Options)
        ensures
            final(w).appended(
                *old(w),
                self.func_head(old(w).unit(), old(w).level(), module_name@, *func_witx, *options),
            ),
    {
        let ghost u = w.unit();
        let ghost l = w.level();
        let name = func_witx.name.as_str();
        let fname = as_fn(name);
        if self.typescript_mode() {
            if options.export_mode {
                w.indent();
                w.write(fname.as_str());
                w.write("(");
            } else {
                w.write("export declare function ");
                w.write(fname.as_str());
                w.write("(");
            }
        } else {
            w.write_line("// @ts-ignore: decorator");
            w.write_line("@unsafe");
            w.write_line("// @ts-ignore: decorator");
            let mut s = "@external(\"".to_owned();
            s.append(module_name);
            s.append("\", \"");
            s.append(name);
            s.append("\")");
            w.write_line(s.as_str());
            w.indent();
            w.write("export declare function ");
            w.write(fname.as_str());
            w.write("(");
        }
        assert(w.text() =~= old(w).text() + self.func_head(u, l, module_name@, *func_witx, *options));
    }

    /// Declares the function `func_witx` of the module `module_name` (see
    /// `func_text`).
    #[verifier::rlimit(40)]
    pub fn define_func(&self, w: &mut PrettyWriter, module_name: &str, func_witx: &ASFunc, options: &Options)
        requires
            func_ok(*func_witx),
        ensures
            final(w).appended(
                *old(w),
                self.func_text(old(w).unit(), old(w).level(), module_name@, *func_witx, *options),
            ),
    {
        let ghost u = w.unit();
        let ghost l = w.level();
        let ghost plan = func_plan(*func_witx);
        let (params_decomposed, results, o_result) = self.get_func_params_processed(
            w,
            module_name,
            func_witx,
            options,
        );
        assert(forall|i: int| 0 <= i < plan.len() ==> super::common::piece_lang_ok(#[trigger] plan[i]));
        assert(results@.len() == result_params(*func_witx).len());
        Self::write_docs(w, func_witx.docs.as_str());
        let ghost t0 = w.text();
        self.write_func_head(w, module_name, func_witx, options);
        let ghost t1 = w.text();
        if params_decomposed.len() > 0 || results.len() > 0 {
            w.eol();
        }
        let ghost t2 = w.text();
        write_param_lines(w, params_decomposed.as_slice(), Ghost(plan));
        let ghost t3 = w.text();
        write_func_close(w, &o_result, func_witx, options);
        assert(t3 == t2 + param_lines(u, l, plan, plan.len()));
        assert(w.text() == t3 + func_close(u, l, *func_witx, *options));
        assert(t2 == t1 + (if plan.len() > 0 || result_params(*func_witx).len() > 0 {
            "\n"@
        } else {
            seq![]
        }));
        assert(t1 == t0 + self.func_head(u, l, module_name@, *func_witx, *options));
        assert(t0 == old(w).text() + super::docs_text(u, l, func_witx.docs@));
        assert(w.text() =~= old(w).text() + self.func_text(u, l, module_name@, *func_witx, *options));
    }

    /// The wrapper that registers the function `f` of the module `module` as
    /// an import: a function of the lowered parameters that calls the
    /// implementation's member of the same name (awaiting it in async mode),
    /// returns what it returns, and with an error handler turns what it
    /// throws into the handler's answer.
    pub open spec fn wrapper_text(&self, u: Seq<char>, l: nat, module: Seq<char>, f: ASFunc, options: Options) -> Seq<char> {
        wrapper_head(u, l, module, f, options) + wrapper_try(u, l + 1, options) + wrapper_call(
            u,
            l + 1,
            f,
            options,
        ) + wrapper_tail(u, l + 1, f, options)
    }

    /// Writes the wrapper that registers the function `func_witx` of the
    /// module `module_name` as an import (see `wrapper_text`).
    pub fn define_export_func_wrapper(
        &self,
        w: &mut PrettyWriter,
        module_name: &str,
        func_witx: &ASFunc,
        options: &Options,
    )
        requires
            results_ok(*func_witx),
            self.typescript(),
            options.export_mode,
            old(w).level() < usize::MAX,
        ensures
            final(w).appended(
                *old(w),
                self.wrapper_text(old(w).unit(), old(w).level(), module_name@, *func_witx, *options),
            ),
    {
        let ghost u = w.unit();
        let ghost l = w.level();
        let ghost plan = func_plan(*func_witx);
        let (params_decomposed, _results, o_result) = self.get_func_params_processed(
            w,
            module_name,
            func_witx,
            options,
        );
        assert(o_result.is_none() == (result_of(*func_witx) is None));
        write_wrapper_head(w, module_name, func_witx, params_decomposed.as_slice(), options);
        let ghost t1 = w.text();
        w.new_block();
        write_wrapper_try(w, options);
        let ghost t2 = w.text();
        write_wrapper_call(w, func_witx, params_decomposed.as_slice(), o_result.is_none(), options);
        let ghost t3 = w.text();
        write_wrapper_tail(w, func_witx, o_result.is_none(), options);
        w.end_block();
        assert(w.text() =~= old(w).text() + self.wrapper_text(u, l, module_name@, *func_witx, *options));
    }
}

/// The opening of a registered wrapper, up to its open brace.
pub open spec fn wrapper_head(u: Seq<char>, l: nat, module: Seq<char>, f: ASFunc, options: Options) -> Seq<char> {
    let plan = func_plan(f);
    let am = if options.async_mode {
        "async"@
    } else {
        ""@
    };
    crate::text::repeat(u, l) + "imports[\""@ + module + "\"][\""@ + f.name@ + "\"] = "@ + am
        + " function ("@ + wrapper_params(plan, plan.len()) + ") {"@ + "\n"@
}

/// The opening of the error handling of a registered wrapper, at depth `m`.
pub open spec fn wrapper_try(u: Seq<char>, m: nat, options: Options) -> Seq<char> {
    if options.error_handler {
        crate::text::repeat(u, m) + "const errorHandler2 = handler.handleError"@ + "\n"@
            + crate::text::repeat(u, m) + "try {"@ + "\n"@
    } else {
        seq![]
    }
}

fn write_wrapper_head(w: &mut PrettyWriter, module_name: &str, func_witx: &ASFunc, ds: &[ASTypeDecomposed], options: &Options)
    requires
        crate::astype::are_pieces(ds@, func_plan(*func_witx)),
    ensures
        final(w).appended(
            *old(w),
            wrapper_head(old(w).unit(), old(w).level(), module_name@, *func_witx, *options),
        ),
{
    let ghost u = w.unit();
    let ghost l = w.level();
    let ghost plan = func_plan(*func_witx);
    let async_modifier = if options.async_mode {
        "async"
    } else {
        ""
    };
    w.indent();
    let mut s = "imports[\"".to_owned();
    s.append(module_name);
    s.append("\"][\"");
    s.append(func_witx.name.as_str());
    s.append("\"] = ");
    s.append(async_modifier);
    s.append(" function (");
    w.write(s.as_str());
    write_wrapper_params(w, ds, Ghost(plan), true);
    w.write(") {");
    w.eol();
    assert(w.text() =~= old(w).text() + wrapper_head(u, l, module_name@, *func_witx, *options));
}

fn write_wrapper_try(w: &mut PrettyWriter, options: &Options)
    ensures
        final(w).appended(*old(w), wrapper_try(old(w).unit(), old(w).level(), *options)),
{
    let ghost u = w.unit();
    let ghost m = w.level();
    if options.error_handler {
        w.indent();
        w.write("const errorHandler2 = handler.handleError");
        w.eol();
        w.indent();
        w.write("try {");
        w.eol();
    }
    assert(w.text() =~= old(w).text() + wrapper_try(u, m, *options));
}

impl AssemblyScriptGenerator {
    /// The declarations of the functions `fs` of the module `module`.
    pub open spec fn funcs_text(&self, u: Seq<char>, l: nat, module: Seq<char>, fs: Seq<ASFunc>, options: Options) -> Seq<char>
        decreases fs.len(),
    {
        if fs.len() == 0 {
            seq![]
        } else {
            self.funcs_text(u, l, module, fs.drop_last(), options) + self.func_text(
                u,
                l,
                module,
                fs.last(),
                options,
            )
        }
    }

    /// The wrappers that register the functions `fs` of the module `module`.
    pub open spec fn wrappers_text(&self, u: Seq<char>, l: nat, module: Seq<char>, fs: Seq<ASFunc>, options: Options) -> Seq<char>
        decreases fs.len(),
    {
        if fs.len() == 0 {
            seq![]
        } else {
            self.wrappers_text(u, l, module, fs.drop_last(), options) + self.wrapper_text(
                u,
                l,
                module,
                fs.last(),
                options,
            )
        }
    }

    /// Declares the functions `funcs` of the module `module_name`.
    pub fn define_funcs(&self, w: &mut PrettyWriter, module_name: &str, funcs: &[ASFunc], options: &Options)
        requires
            forall|i: int| 0 <= i < funcs@.len() ==> func_ok(#[trigger] funcs@[i]),
        ensures
            final(w).appended(
                *old(w),
                self.funcs_text(old(w).unit(), old(w).level(), module_name@, funcs@, *options),
            ),
    {
        let ghost u = w.unit();
        let ghost l = w.level();
        let ghost fs = funcs@;
        assert(fs.take(0) =~= Seq::<ASFunc>::empty());
        assert(w.text() =~= old(w).text() + self.funcs_text(u, l, module_name@, fs.take(0), *options));
        for i in 0..funcs.len()
            invariant
                fs == funcs@,
                forall|i: int| 0 <= i < fs.len() ==> func_ok(#[trigger] fs[i]),
                w.text() == old(w).text() + self.funcs_text(u, l, module_name@, fs.take(i as int), *options),
                w.level() == l,
                w.unit() == u,
        {
            assert(fs.take(i + 1).drop_last() =~= fs.take(i as int));
            assert(func_ok(fs[i as int]));
            let ghost before = w.text();
            self.define_func(w, module_name, &funcs[i], options);
            assert(w.text() =~= before + self.func_text(u, l, module_name@, fs[i as int], *options));
        }
        assert(fs.take(funcs.len() as int) =~= fs);
    }

    /// Writes the wrappers that register the functions `funcs` of the module
    /// `module_name`.
    pub fn define_export_func_wrappers(&self, w: &mut PrettyWriter, module_name: &str, funcs: &[ASFunc], options: &Options)
        requires
            forall|i: int| 0 <= i < funcs@.len() ==> results_ok(#[trigger] funcs@[i]),
            funcs@.len() > 0 ==> self.typescript() && options.export_mode,
            old(w).level() < usize::MAX,
        ensures
            final(w).appended(
                *old(w),
                self.wrappers_text(old(w).unit(), old(w).level(), module_name@, funcs@, *options),
            ),
    {
        let ghost u = w.unit();
        let ghost l = w.level();
        let ghost fs = funcs@;
        assert(fs.take(0) =~= Seq::<ASFunc>::empty());
        assert(w.text() =~= old(w).text() + self.wrappers_text(u, l, module_name@, fs.take(0), *options));
        for i in 0..funcs.len()
            invariant
                fs == funcs@,
                forall|i: int| 0 <= i < fs.len() ==> results_ok(#[trigger] fs[i]),
                fs.len() > 0 ==> self.typescript() && options.export_mode,
                w.text() == old(w).text() + self.wrappers_text(u, l, module_name@, fs.take(i as int), *options),
                w.level() == l,
                w.unit() == u,
                l < usize::MAX,
        {
            assert(fs.take(i + 1).drop_last() =~= fs.take(i as int));
            assert(results_ok(fs[i as int]));
            let ghost before = w.text();
            self.define_export_func_wrapper(w, module_name, &funcs[i], options);
            assert(w.text() =~= before + self.wrapper_text(u, l, module_name@, fs[i as int], *options));
        }
        assert(fs.take(funcs.len() as int) =~= fs);
    }
}

/// Whether the function can be declared (see `func_ok`).
pub fn check_func(func_witx: &ASFunc) -> (ok: bool)
    ensures
        ok == func_ok(*func_witx),
{
    if func_witx.results.len() > 0 {
        match &*func_witx.results[0] {
            ASType::Result(_) => {},
            _ => {
                return false;
            },
        }
    }
    let ghost plan = func_plan(*func_witx);
    let (ds, _results, o_result) = lower_func(func_witx);
    let mut i: usize = 0;
    while i < ds.len()
        invariant
            plan == func_plan(*func_witx),
            crate::astype::are_pieces(ds@, plan),
            i <= ds.len(),
            forall|j: int| 0 <= j < i ==> super::common::piece_lang_ok(#[trigger] plan[j]),
        decreases ds.len() - i,
    {
        proof {
            super::common::lemma_piece_lang(ds@[i as int], plan[i as int]);
        }
        if !ds[i].type_.is_lang_ok() {
            assert(!super::common::piece_lang_ok(func_plan(*func_witx)[i as int]));
            return false;
        }
        i = i + 1;
    }
    let has_result = match &o_result {
        Some(result) => {
            if !result.error_type.is_lang_ok() {
                return false;
            }
            true
        },
        None => false,
    };
    if has_result {
        func_witx.wasm_signature_len > 0 && func_witx.wasm_signature_len - 1 == ds.len()
    } else {
        func_witx.wasm_signature_len == ds.len()
    }
}

/// The end of a function's declaration: its return type, and an empty line.
pub open spec fn func_close(u: Seq<char>, l: nat, f: ASFunc, options: Options) -> Seq<char> {
    (match result_of(f) {
        Some(r) => if options.async_mode {
            line(u, l, "): Promise<"@ + super::common::spec_as_lang(*r.error_type) + ">;"@)
        } else {
            line(u, l, "): "@ + super::common::spec_as_lang(*r.error_type) + ";"@)
        },
        None => if options.async_mode {
            line(u, l, "): Promise<void>;"@)
        } else {
            line(u, l, ");"@)
        },
    }) + "\n"@
}

/// The call in a registered wrapper, at depth `m`.
pub open spec fn wrapper_call(u: Seq<char>, m: nat, f: ASFunc, options: Options) -> Seq<char> {
    let plan = func_plan(f);
    let ind = crate::text::repeat(u, m);
    let aw = if options.async_mode {
        "await"@
    } else {
        ""@
    };
    let fname = super::common::spec_as_fn(f.name@);
    ind + ind + (if result_of(f) is None {
        aw + " obj."@ + fname + "("@
    } else {
        "const ret = "@ + aw + " obj."@ + fname + "("@
    }) + call_args(plan, plan.len()) + ");"@ + "\n"@
}

/// The error check after the call in a registered wrapper, at depth `m`.
pub open spec fn wrapper_check(u: Seq<char>, m: nat, options: Options) -> Seq<char> {
    if options.error_handler {
        crate::text::repeat(u, m) + line(u, m, "handler.checkAbort();"@)
    } else {
        seq![]
    }
}

/// The return of the call's value in a registered wrapper, at depth `m`.
pub open spec fn wrapper_return(u: Seq<char>, m: nat, is_void: bool) -> Seq<char> {
    if !is_void {
        crate::text::repeat(u, m) + line(u, m, "return ret;"@)
    } else {
        seq![]
    }
}

/// The error handling of a registered wrapper, at depth `m`.
pub open spec fn wrapper_catch(u: Seq<char>, m: nat, is_void: bool, options: Options) -> Seq<char> {
    let ind = crate::text::repeat(u, m);
    if options.error_handler {
        ind + "} catch(err: any) {"@ + "\n"@ + (if is_void {
            line(u, m, "const eRet = errorHandler2(err);"@) + line(
                u,
                m,
                "console.log(\"handled error\", err, eRet);"@,
            )
        } else {
            ind + line(u, m, "return errorHandler2(err);"@)
        }) + ind + "}"@ + "\n"@ + "\n"@
    } else {
        seq![]
    }
}

/// What follows the call in a registered wrapper, at depth `m`.
pub open spec fn wrapper_tail(u: Seq<char>, m: nat, f: ASFunc, options: Options) -> Seq<char> {
    let is_void = result_of(f) is None;
    wrapper_check(u, m, options) + wrapper_return(u, m, is_void) + wrapper_catch(
        u,
        m,
        is_void,
        options,
    ) + crate::text::repeat(u, m) + "}"@ + "\n"@
}

fn write_func_close(w: &mut PrettyWriter, o_result: &Option<ASResult>, func_witx: &ASFunc, options: &Options)
    requires
        *o_result == result_of(*func_witx),
        o_result matches Some(r) ==> super::common::lang_ok(*r.error_type),
    ensures
        final(w).appended(*old(w), func_close(old(w).unit(), old(w).level(), *func_witx, *options)),
{
    let ghost u = w.unit();
    let ghost l = w.level();
    match o_result {
        Some(result) => {
            let err = result.error_type.as_lang();
            let mut s = if options.async_mode {
                "): Promise<".to_owned()
            } else {
                "): ".to_owned()
            };
            s.append(err.as_str());
            if options.async_mode {
                s.append(">;");
            } else {
                s.append(";");
            }
            w.write_line(s.as_str());
            w.eob();
        },
        None => {
            if options.async_mode {
                w.write_line("): Promise<void>;");
            } else {
                w.write_line(");");
            }
            w.eob();
        },
    }
    assert(w.text() =~= old(w).text() + func_close(u, l, *func_witx, *options));
}

fn write_wrapper_check(w: &mut PrettyWriter, options: &Options)
    ensures
        final(w).appended(*old(w), wrapper_check(old(w).unit(), old(w).level(), *options)),
{
    let ghost u = w.unit();
    let ghost m = w.level();
    if options.error_handler {
        w.indent();
        w.write_line("handler.checkAbort();");
    }
    assert(w.text() =~= old(w).text() + wrapper_check(u, m, *options));
}

fn write_wrapper_return(w: &mut PrettyWriter, is_void_return: bool)
    ensures
        final(w).appended(*old(w), wrapper_return(old(w).unit(), old(w).level(), is_void_return)),
{
    let ghost u = w.unit();
    let ghost m = w.level();
    if !is_void_return {
        w.indent();
        w.write_line("return ret;");
    }
    assert(w.text() =~= old(w).text() + wrapper_return(u, m, is_void_return));
}

fn write_wrapper_catch(w: &mut PrettyWriter, is_void_return: bool, options: &Options)
    ensures
        final(w).appended(
            *old(w),
            wrapper_catch(old(w).unit(), old(w).level(), is_void_return, *options),
        ),
{
    let ghost u = w.unit();
    let ghost m = w.level();
    if options.error_handler {
        w.indent();
        w.write("} catch(err: any) {");
        w.eol();
        let ghost t1 = w.text();
        if is_void_return {
            w.write_line("const eRet = errorHandler2(err);");
            w.write_line("console.log(\"handled error\", err, eRet);");
        } else {
            w.indent();
            w.write_line("return errorHandler2(err);");
        }
        let ghost t2 = w.text();
        w.indent();
        w.write("}");
        w.eol();
        w.eob();
        assert(w.text() =~= t2 + crate::text::repeat(u, m) + "}"@ + "\n"@ + "\n"@);
    }
    assert(w.text() =~= old(w).text() + wrapper_catch(u, m, is_void_return, *options));
}

fn write_wrapper_call(w: &mut PrettyWriter, func_witx: &ASFunc, ds: &[ASTypeDecomposed], is_void_return: bool, options: &Options)
    requires
        crate::astype::are_pieces(ds@, func_plan(*func_witx)),
        is_void_return == (result_of(*func_witx) is None),
    ensures
        final(w).appended(*old(w), wrapper_call(old(w).unit(), old(w).level(), *func_witx, *options)),
{
    let ghost u = w.unit();
    let ghost m = w.level();
    let await_keyword = if options.async_mode {
        "await"
    } else {
        ""
    };
    let fname = as_fn(func_witx.name.as_str());
    w.indent();
    w.indent();
    let mut s = if is_void_return {
        await_keyword.to_owned()
    } else {
        let mut s = "const ret = ".to_owned();
        s.append(await_keyword);
        s
    };
    s.append(" obj.");
    s.append(fname.as_str());
    s.append("(");
    w.write(s.as_str());
    write_wrapper_params(w, ds, Ghost(func_plan(*func_witx)), false);
    w.write(");");
    w.eol();
    assert(w.text() =~= old(w).text() + wrapper_call(u, m, *func_witx, *options));
}

fn write_wrapper_tail(w: &mut PrettyWriter, func_witx: &ASFunc, is_void_return: bool, options: &Options)
    requires
        is_void_return == (result_of(*func_witx) is None),
    ensures
        final(w).appended(*old(w), wrapper_tail(old(w).unit(), old(w).level(), *func_witx, *options)),
{
    let ghost u = w.unit();
    let ghost m = w.level();
    write_wrapper_check(w, options);
    write_wrapper_return(w, is_void_return);
    write_wrapper_catch(w, is_void_return, options);
    let ghost t3 = w.text();
    w.indent();
    w.write("}");
    w.eob();
    assert(w.text() =~= t3 + crate::text::repeat(u, m) + "}"@ + "\n"@);
    assert(w.text() =~= old(w).text() + wrapper_tail(u, m, *func_witx, *options));
}

} // verus!

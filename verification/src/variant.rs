//! How a WITX variant is read: as a boolean, an outcome, an optional value,
//! an enumeration or a tagged union.

use std::rc::Rc;
use vstd::prelude::*;
use vstd::string::*;
use crate::astype::{rc_clone, ASEnum, ASEnumChoice, ASOption, ASResult, ASType, ASUnion, ASUnionMember};
use crate::text::str_eq;

verus! {

/// One case of a variant: its name, its documentation, the type of its
/// payload if it has one, and the payload's size in bytes.
pub struct VariantCase {
    pub name: String,
    pub docs: String,
    pub payload: Option<Rc<ASType>>,
    pub payload_size: usize,
}

/// A variant: the integer type of its tag, the offset of its payload, and
/// its cases in order.
pub struct VariantDesc {
    pub tag_repr: ASType,
    pub payload_offset: usize,
    pub cases: Vec<VariantCase>,
}

/// The tag is an unsigned integer type.
pub open spec fn int_repr(t: ASType) -> bool {
    t is U8 || t is U16 || t is U32 || t is U64
}

/// The size of an integer tag in bytes.
pub open spec fn repr_size(t: ASType) -> nat {
    match t {
        ASType::U8 => 1,
        ASType::U16 => 2,
        ASType::U32 => 4,
        _ => 8,
    }
}

/// Two cases with the given names, in that order.
pub open spec fn named_pair(cs: Seq<VariantCase>, a: Seq<char>, b: Seq<char>) -> bool {
    cs.len() == 2 && cs[0].name@ == a && cs[1].name@ == b
}

/// No case carries a payload.
pub open spec fn all_bare(cs: Seq<VariantCase>) -> bool {
    forall|i: int| 0 <= i < cs.len() ==> (#[trigger] cs[i]).payload is None
}

/// The cases `false` and `true`, without payloads.
pub open spec fn is_bool_like(cs: Seq<VariantCase>) -> bool {
    named_pair(cs, "false"@, "true"@) && cs[0].payload is None && cs[1].payload is None
}

/// The cases `ok` and `err`.
pub open spec fn is_outcome(cs: Seq<VariantCase>) -> bool {
    named_pair(cs, "ok"@, "err"@)
}

/// The cases `none` and `some`, the second with a payload.
pub open spec fn is_optional(cs: Seq<VariantCase>) -> bool {
    named_pair(cs, "none"@, "some"@) && cs[1].payload is Some
}

/// The type of a case's payload, `Void` when it has none.
pub open spec fn payload_type(c: VariantCase) -> ASType {
    match c.payload {
        Some(t) => *t,
        None => ASType::Void,
    }
}

/// The largest payload size among the cases that have a payload, 0 when
/// none has.
pub open spec fn max_payload(cs: Seq<VariantCase>) -> nat
    decreases cs.len(),
{
    if cs.len() == 0 {
        0
    } else {
        let m = max_payload(cs.drop_last());
        if cs.last().payload is Some && cs.last().payload_size > m {
            cs.last().payload_size as nat
        } else {
            m
        }
    }
}

fn bare_pair(cases: &Vec<VariantCase>, a: &str, b: &str) -> (r: bool)
    ensures
        r == (named_pair(cases@, a@, b@) && cases@[0].payload is None && cases@[1].payload is None),
{
    cases.len() == 2 && str_eq(cases[0].name.as_str(), a) && str_eq(cases[1].name.as_str(), b)
        && cases[0].payload.is_none() && cases[1].payload.is_none()
}

fn payload_of(c: &VariantCase) -> (t: Rc<ASType>)
    ensures
        *t == payload_type(*c),
{
    match &c.payload {
        Some(p) => rc_clone(p),
        None => Rc::new(ASType::Void),
    }
}

/// The type that a variant is read as, tried in this order: `Bool` for the
/// cases `false` and `true` without payloads; an outcome (`Result`, with a
/// 32-bit status) for the cases `ok` and `err`; an `Option` for the cases
/// `none` and `some` where `some` has a payload; an `Enum` numbering the
/// cases from 0 when no case has a payload; otherwise a `Union` of the
/// cases, sized by the largest payload, with the padding between the tag
/// and the payload.
pub fn variant_type(v: &VariantDesc) -> (t: ASType)
    requires
        int_repr(v.tag_repr),
        repr_size(v.tag_repr) <= v.payload_offset,
    ensures
        is_bool_like(v.cases@) ==> t is Bool,
        !is_bool_like(v.cases@) && is_outcome(v.cases@) ==> (t matches ASType::Result(r) && *r.ok_type
            == payload_type(v.cases@[0]) && *r.error_type == payload_type(v.cases@[1])
            && *r.result_type is U32),
        !is_bool_like(v.cases@) && !is_outcome(v.cases@) && is_optional(v.cases@) ==> (t matches ASType::Option(
            o,
        ) && *o.tag_repr == v.tag_repr && *o.type_ == payload_type(v.cases@[1])),
        !is_bool_like(v.cases@) && !is_outcome(v.cases@) && !is_optional(v.cases@) && all_bare(v.cases@)
            ==> (t matches ASType::Enum(e) && *e.repr == v.tag_repr && e.choices@.len() == v.cases@.len()
            && forall|i: int|
            0 <= i < v.cases@.len() ==> {
                &&& (#[trigger] e.choices@[i]).name@ == v.cases@[i].name@
                &&& e.choices@[i].value == i
                &&& e.choices@[i].docs@ == v.cases@[i].docs@
            }),
        !is_bool_like(v.cases@) && !is_outcome(v.cases@) && !is_optional(v.cases@) && !all_bare(v.cases@)
            ==> (t matches ASType::Union(u) && *u.tag_repr == v.tag_repr && u.members@.len() == v.cases@.len()
            && u.max_member_size == max_payload(v.cases@) && u.padding_after_tag == v.payload_offset
            - repr_size(v.tag_repr) && forall|i: int|
            0 <= i < v.cases@.len() ==> {
                &&& (#[trigger] u.members@[i]).name@ == v.cases@[i].name@
                &&& *u.members@[i].type_ == payload_type(v.cases@[i])
            }),
{
    let cases = &v.cases;
    if bare_pair(cases, "false", "true") {
        return ASType::Bool;
    }
    if cases.len() == 2 && str_eq(cases[0].name.as_str(), "ok") && str_eq(cases[1].name.as_str(), "err") {
        return ASType::Result(
            ASResult {
                ok_type: payload_of(&cases[0]),
                error_type: payload_of(&cases[1]),
                result_type: Rc::new(ASType::U32),
            },
        );
    }
    let tag_size: usize = match &v.tag_repr {
        ASType::U8 => 1,
        ASType::U16 => 2,
        ASType::U32 => 4,
        _ => 8,
    };
    let repr = match &v.tag_repr {
        ASType::U8 => ASType::U8,
        ASType::U16 => ASType::U16,
        ASType::U32 => ASType::U32,
        _ => ASType::U64,
    };
    if cases.len() == 2 && str_eq(cases[0].name.as_str(), "none") && str_eq(cases[1].name.as_str(), "some")
        && cases[1].payload.is_some() {
        return ASType::Option(ASOption { tag_repr: Rc::new(repr), type_: payload_of(&cases[1]) });
    }
    let mut bare = true;
    let mut i: usize = 0;
    while i < cases.len()
        invariant
            i <= cases@.len(),
            bare == forall|j: int| 0 <= j < i ==> (#[trigger] cases@[j]).payload is None,
        decreases cases@.len() - i,
    {
        if cases[i].payload.is_some() {
            bare = false;
        }
        i = i + 1;
    }
    if bare {
        let mut choices: Vec<ASEnumChoice> = Vec::new();
        for k in 0..cases.len()
            invariant
                choices@.len() == k,
                forall|j: int|
                    0 <= j < k ==> {
                        &&& (#[trigger] choices@[j]).name@ == cases@[j].name@
                        &&& choices@[j].value == j
                        &&& choices@[j].docs@ == cases@[j].docs@
                    },
        {
            choices.push(
                ASEnumChoice { name: cases[k].name.clone(), value: k, docs: cases[k].docs.clone() },
            );
        }
        return ASType::Enum(ASEnum { repr: Rc::new(repr), choices });
    }
    let mut members: Vec<ASUnionMember> = Vec::new();
    let mut max_size: usize = 0;
    for k in 0..cases.len()
        invariant
            members@.len() == k,
            max_size == max_payload(cases@.take(k as int)),
            forall|j: int|
                0 <= j < k ==> {
                    &&& (#[trigger] members@[j]).name@ == cases@[j].name@
                    &&& *members@[j].type_ == payload_type(cases@[j])
                },
    {
        assert(cases@.take(k + 1).drop_last() =~= cases@.take(k as int));
        if cases[k].payload.is_some() && cases[k].payload_size > max_size {
            max_size = cases[k].payload_size;
        }
        members.push(ASUnionMember { name: cases[k].name.clone(), type_: payload_of(&cases[k]) });
    }
    assert(cases@.take(cases@.len() as int) =~= cases@);
    ASType::Union(
        ASUnion {
            tag_repr: Rc::new(repr),
            members,
            max_member_size: max_size,
            padding_after_tag: v.payload_offset - tag_size,
        },
    )
}

} // verus!

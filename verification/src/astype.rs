//! The library's model of WITX types, as the generators read them.

use std::rc::Rc;
use vstd::prelude::*;
use vstd::string::*;

verus! {

/// Makes another pointer to the same value (`Rc::clone`).
///
/// The standard library documents that `Rc::clone` returns a new pointer to
/// the same allocation; the contract states that the new pointer's value is
/// the pointed-to value.
#[verifier::external_body]
pub(crate) fn rc_clone<T>(r: &Rc<T>) -> (c: Rc<T>)
    ensures
        c == *r,
{
    Rc::clone(r)
}

/// A type named elsewhere in the document.
pub struct ASAlias {
    pub name: String,
    pub type_: Rc<ASType>,
}

/// A member of a structure, with the padding bytes that follow it.
pub struct ASStructMember {
    pub name: String,
    pub offset: usize,
    pub type_: Rc<ASType>,
    pub padding: usize,
}

/// A member of a tuple, with the padding bytes that follow it.
pub struct ASTupleMember {
    pub offset: usize,
    pub type_: Rc<ASType>,
    pub padding: usize,
}

/// One named value of an enumeration.
pub struct ASEnumChoice {
    pub name: String,
    pub value: usize,
    pub docs: String,
}

/// An enumeration: named values of an integer representation.
pub struct ASEnum {
    pub repr: Rc<ASType>,
    pub choices: Vec<ASEnumChoice>,
}

/// One alternative of a tagged union.
pub struct ASUnionMember {
    pub name: String,
    pub type_: Rc<ASType>,
}

/// A tagged union.
pub struct ASUnion {
    pub tag_repr: Rc<ASType>,
    pub members: Vec<ASUnionMember>,
    pub max_member_size: usize,
    pub padding_after_tag: usize,
}

/// A named constant value.
pub struct ASConstant {
    pub name: String,
    pub value: u64,
    pub docs: String,
}

/// A set of named constants of an integer representation (bit flags).
pub struct ASConstants {
    pub repr: Rc<ASType>,
    pub constants: Vec<ASConstant>,
}

/// An optional value with its tag.
pub struct ASOption {
    pub tag_repr: Rc<ASType>,
    pub type_: Rc<ASType>,
}

/// The outcome of a function: a value of `ok_type` or an error of `error_type`.
pub struct ASResult {
    pub error_type: Rc<ASType>,
    pub ok_type: Rc<ASType>,
    pub result_type: Rc<ASType>,
}

/// A type, as the generators see it.
pub enum ASType {
    Void,
    Alias(ASAlias),
    Bool,
    Char8,
    Char32,
    USize,
    F32,
    F64,
    U8,
    U16,
    U32,
    U64,
    S8,
    S16,
    S32,
    S64,
    Enum(ASEnum),
    Union(ASUnion),
    Handle(String),
    Constants(ASConstants),
    Slice(Rc<ASType>),
    String(Rc<ASType>),
    ReadBuffer(Rc<ASType>),
    WriteBuffer(Rc<ASType>),
    Struct(Vec<ASStructMember>),
    Tuple(Vec<ASTupleMember>),
    ConstPtr(Rc<ASType>),
    MutPtr(Rc<ASType>),
    Option(ASOption),
    Result(ASResult),
}

/// One scalar parameter of a lowered function signature.
pub struct ASTypeDecomposed {
    pub name: String,
    pub type_: Rc<ASType>,
}

/// How a lowered parameter's type derives from the type it was lowered from.
pub enum Shape {
    /// The type itself.
    Same,
    /// A constant pointer to the type.
    ConstPtrTo,
    /// A mutable pointer to the type.
    MutPtrTo,
}

/// The type behind an alias; any other type is its own leaf.
pub open spec fn spec_leaf(t: ASType) -> ASType {
    match t {
        ASType::Alias(a) => *a.type_,
        _ => t,
    }
}

/// The scalar parameters that a value of type `t` named `name` is passed as:
/// their names, and their types by shape and base type.
///
/// An output (`as_mut_pointers`) is passed as a mutable pointer to its
/// storage. An input buffer or string is passed as a pointer to its elements
/// followed by its length; `void` is not passed at all; any other input is
/// passed as it is.
pub open spec fn spec_decompose(t: ASType, name: Seq<char>, as_mut_pointers: bool) -> Seq<
    (Seq<char>, Shape, ASType),
> {
    let leaf = spec_leaf(t);
    if as_mut_pointers {
        if leaf is Void {
            seq![]
        } else {
            seq![(name, Shape::MutPtrTo, t)]
        }
    } else {
        match leaf {
            ASType::Void => seq![],
            ASType::ReadBuffer(e) => seq![
                (name + "_ptr"@, Shape::ConstPtrTo, *e),
                (name + "_len"@, Shape::Same, ASType::USize),
            ],
            ASType::Slice(e) => seq![
                (name + "_ptr"@, Shape::MutPtrTo, *e),
                (name + "_len"@, Shape::Same, ASType::USize),
            ],
            ASType::String(e) => seq![
                (name + "_ptr"@, Shape::MutPtrTo, *e),
                (name + "_len"@, Shape::Same, ASType::USize),
            ],
            ASType::WriteBuffer(e) => seq![
                (name + "_ptr"@, Shape::MutPtrTo, *e),
                (name + "_len"@, Shape::Same, ASType::USize),
            ],
            _ => seq![(name, Shape::Same, t)],
        }
    }
}

/// `d` is the lowered parameter that `p` describes.
pub open spec fn is_piece(d: ASTypeDecomposed, p: (Seq<char>, Shape, ASType)) -> bool {
    &&& d.name@ == p.0
    &&& match p.1 {
        Shape::Same => *d.type_ == p.2,
        Shape::ConstPtrTo => (*d.type_ matches ASType::ConstPtr(q) && *q == p.2),
        Shape::MutPtrTo => (*d.type_ matches ASType::MutPtr(q) && *q == p.2),
    }
}

/// `ds` are, one for one and in order, the lowered parameters that `ps`
/// describes.
pub open spec fn are_pieces(ds: Seq<ASTypeDecomposed>, ps: Seq<(Seq<char>, Shape, ASType)>) -> bool {
    &&& ds.len() == ps.len()
    &&& forall|i: int| 0 <= i < ds.len() ==> is_piece(#[trigger] ds[i], ps[i])
}

fn suffixed(name: &str, suffix: &str) -> (s: String)
    ensures
        s@ == name@ + suffix@,
{
    let mut s = name.to_owned();
    s.append(suffix);
    s
}

impl ASType {
    /// The type behind an alias; any other type is its own leaf.
    pub fn leaf(&self) -> (r: &ASType)
        ensures
            *r == spec_leaf(*self),
    {
        match self {
            ASType::Alias(alias) => &*alias.type_,
            _ => self,
        }
    }
}

/// Lowers a value of type `t` named `name` to the scalar parameters of a
/// function signature (see `spec_decompose`).
pub fn decompose(t: &Rc<ASType>, name: &str, as_mut_pointers: bool) -> (r: Vec<ASTypeDecomposed>)
    ensures
        are_pieces(r@, spec_decompose(**t, name@, as_mut_pointers)),
{
    let leaf = t.leaf();
    if as_mut_pointers {
        return match leaf {
            ASType::Void => Vec::new(),
            _ => {
                let mut v = Vec::new();
                v.push(
                    ASTypeDecomposed {
                        name: name.to_owned(),
                        type_: Rc::new(ASType::MutPtr(rc_clone(t))),
                    },
                );
                v
            },
        };
    }
    match leaf {
        ASType::Void => Vec::new(),
        ASType::ReadBuffer(elements_type) | ASType::Slice(elements_type) | ASType::String(
            elements_type,
        ) | ASType::WriteBuffer(elements_type) => {
            let ptr_type = if let ASType::ReadBuffer(_) = leaf {
                ASType::ConstPtr(rc_clone(elements_type))
            } else {
                ASType::MutPtr(rc_clone(elements_type))
            };
            let mut v = Vec::new();
            v.push(ASTypeDecomposed { name: suffixed(name, "_ptr"), type_: Rc::new(ptr_type) });
            v.push(ASTypeDecomposed { name: suffixed(name, "_len"), type_: Rc::new(ASType::USize) });
            v
        },
        _ => {
            let mut v = Vec::new();
            v.push(ASTypeDecomposed { name: name.to_owned(), type_: rc_clone(t) });
            v
        },
    }
}

/// Where the member after the `i`-th starts: the next member's offset, or
/// the size of the whole record after the last member.
pub open spec fn next_offset(offsets: Seq<usize>, total: usize, i: int) -> int {
    if i + 1 < offsets.len() {
        offsets[i + 1] as int
    } else {
        total as int
    }
}

/// The record layout is consistent: each member ends before the next one
/// (or the record's end) starts.
pub open spec fn layout_ok(offsets: Seq<usize>, sizes: Seq<usize>, total: usize) -> bool {
    &&& offsets.len() == sizes.len()
    &&& forall|i: int|
        0 <= i < offsets.len() ==> offsets[i] + sizes[i] <= #[trigger] next_offset(offsets, total, i)
}

/// The padding bytes after each member of a record whose members start at
/// `offsets`, take `sizes` bytes, and whose whole size is `total`: the gap
/// up to the next member, or to the record's end after the last member.
/// `None` when the layout is not consistent.
pub fn member_paddings(offsets: &[usize], sizes: &[usize], total: usize) -> (r: Option<Vec<usize>>)
    ensures
        r is Some <==> layout_ok(offsets@, sizes@, total),
        r matches Some(v) ==> v@.len() == offsets@.len() && forall|i: int|
            0 <= i < v@.len() ==> v@[i] == next_offset(offsets@, total, i) - offsets@[i] - sizes@[i],
{
    if offsets.len() != sizes.len() {
        return None;
    }
    let mut v: Vec<usize> = Vec::new();
    for i in 0..offsets.len()
        invariant
            offsets@.len() == sizes@.len(),
            v@.len() == i,
            forall|j: int|
                0 <= j < i ==> offsets@[j] + sizes@[j] <= #[trigger] next_offset(offsets@, total, j),
            forall|j: int|
                0 <= j < i ==> v@[j] == next_offset(offsets@, total, j) - offsets@[j] - sizes@[j],
    {
        let next = if i + 1 < offsets.len() {
            offsets[i + 1]
        } else {
            total
        };
        assert(next == next_offset(offsets@, total, i as int));
        if offsets[i] > next || sizes[i] > next - offsets[i] {
            assert(!layout_ok(offsets@, sizes@, total)) by {
                assert(!(offsets@[i as int] + sizes@[i as int] <= next_offset(offsets@, total, i as int)));
            }
            return None;
        }
        v.push(next - offsets[i] - sizes[i]);
    }
    Some(v)
}

} // verus!

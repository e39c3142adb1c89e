//! The library's model of a WITX document: what the generators read of it.

use std::rc::Rc;
use vstd::prelude::*;

use crate::astype::ASType;

verus! {

/// What a type name stands for.
pub enum ASTypeRef {
    /// Another name: holds the type that the other name stands for.
    Name(Rc<ASType>),
    /// A type written out.
    Value(Rc<ASType>),
}

/// A named type of the document.
pub struct ASNamedType {
    pub name: String,
    pub tref: ASTypeRef,
    pub docs: String,
}

/// A constant of the document, with the name of its type.
pub struct ASConstantDef {
    pub ty: String,
    pub name: String,
    pub value: u64,
    pub docs: String,
}

/// A parameter of a function.
pub struct ASParam {
    pub name: String,
    pub type_: Rc<ASType>,
}

/// A function of a module.
pub struct ASFunc {
    pub name: String,
    pub docs: String,
    pub params: Vec<ASParam>,
    /// The types of the results; a function has at most one, a result type.
    pub results: Vec<Rc<ASType>>,
    /// The number of core WebAssembly parameters and results of the
    /// function's lowered signature.
    pub wasm_signature_len: usize,
}

/// A module of the document: its functions.
pub struct ASModule {
    pub name: String,
    pub funcs: Vec<ASFunc>,
}

/// A document: its named types, constants and modules, in the order of
/// their definitions.
pub struct ASDocument {
    pub typenames: Vec<ASNamedType>,
    pub constants: Vec<ASConstantDef>,
    pub modules: Vec<ASModule>,
}

} // verus!

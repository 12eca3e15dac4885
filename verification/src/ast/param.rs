use vstd::prelude::*;

use crate::lexer::types::Type;

verus! {

/// A parameter of a function: its type and name.
#[derive(Debug, Clone, PartialEq)]
pub struct Param {
    pub typ: Type,
    pub name: String,
}

/// A parameter as the contracts see it.
pub struct SpecParam {
    pub typ: Type,
    pub name: Seq<char>,
}

impl View for Param {
    type V = SpecParam;

    open spec fn view(&self) -> SpecParam {
        SpecParam { typ: self.typ, name: self.name@ }
    }
}

/// The views of a list of parameters.
pub open spec fn params_view(ps: Seq<Param>) -> Seq<SpecParam> {
    ps.map_values(|p: Param| p@)
}

} // verus!

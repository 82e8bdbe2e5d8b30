//! Built-in leaf types and the namespace reserved for them.

use vstd::prelude::*;
use vstd::string::StringExecFns;

verus! {

/// The namespace under which the built-in leaf types are registered.
pub const INTERNAL_NAMESPACE: &'static str = "_internal_";

/// A scalar type a column can have.
#[derive(Debug, Clone, Copy, PartialEq, Eq, Structural)]
pub enum LeafType {
    String,
    Int,
    Float,
    Bool,
    Id,
}

impl LeafType {
    /// The name under which the type is written in declarations.
    pub open spec fn spec_name(self) -> Seq<char> {
        match self {
            LeafType::String => "String"@,
            LeafType::Int => "Int"@,
            LeafType::Float => "Float"@,
            LeafType::Bool => "Bool"@,
            LeafType::Id => "Id"@,
        }
    }

    /// The leaf types a declaration may name, in registration order.
    pub open spec fn spec_all() -> Seq<LeafType> {
        seq![LeafType::String, LeafType::Int, LeafType::Float, LeafType::Bool]
    }

    /// Whether `name` is the name of a leaf type a declaration may use.
    pub open spec fn spec_is_leaf_type(name: Seq<char>) -> bool {
        exists|i: int|
            0 <= i < Self::spec_all().len() && (#[trigger] Self::spec_all()[i]).spec_name() == name
    }

    pub fn all() -> (r: Vec<LeafType>)
        ensures
            r@ == Self::spec_all(),
    {
        let r = vec![LeafType::String, LeafType::Int, LeafType::Float, LeafType::Bool];
        assert(r@ =~= Self::spec_all());
        r
    }

    pub fn as_str(&self) -> (r: &'static str)
        ensures
            r@ == self.spec_name(),
    {
        match self {
            LeafType::String => "String",
            LeafType::Int => "Int",
            LeafType::Float => "Float",
            LeafType::Bool => "Bool",
            LeafType::Id => "Id",
        }
    }

    pub fn name(&self) -> (r: String)
        ensures
            r@ == self.spec_name(),
    {
        String::from_str(self.as_str())
    }

    /// Whether a declaration that writes `written` means a leaf type.
    pub fn is_leaf_type(written: &str) -> (r: bool)
        ensures
            r == Self::spec_is_leaf_type(written@),
    {
        let all = LeafType::all();
        let wanted = String::from_str(written);
        let mut k: usize = 0;
        while k < all.len()
            invariant
                k <= all.len(),
                all@ == Self::spec_all(),
                wanted@ == written@,
                forall|j: int| 0 <= j < k ==> (#[trigger] Self::spec_all()[j]).spec_name() != written@,
            decreases all.len() - k,
        {
            if all[k].name() == wanted {
                return true;
            }
            k += 1;
        }
        false
    }
}

} // verus!

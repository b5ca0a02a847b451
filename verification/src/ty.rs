//! The types of the language.

use vstd::prelude::*;
use vstd::string::StringExecFns;

verus! {

/// The type of a value.
#[derive(Debug)]
pub enum Type {
    Unit,
    String,
    Int,
    Float,
    Bool,
    List(Box<Self>),
}

impl Type {
    /// The name under which the type is shown. A list is shown as `List`
    /// whatever it holds.
    pub open spec fn name(&self) -> Seq<char> {
        match self {
            Type::Unit => "Unit"@,
            Type::String => "String"@,
            Type::Int => "Int"@,
            Type::Float => "Float"@,
            Type::Bool => "Bool"@,
            Type::List(_) => "List"@,
        }
    }

    /// The name under which the type is shown.
    pub fn to_string(&self) -> (shown: String)
        ensures
            shown@ == self.name(),
    {
        match self {
            Type::Unit => String::from_str("Unit"),
            Type::String => String::from_str("String"),
            Type::Int => String::from_str("Int"),
            Type::Float => String::from_str("Float"),
            Type::Bool => String::from_str("Bool"),
            Type::List(_) => String::from_str("List"),
        }
    }
}

} // verus!

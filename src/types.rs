use vstd::prelude::*;

verus! {

/// The static type of a value, as the semantic passes see it.
///
/// The flag on `String` records ownership: `String(true)` is a heap buffer that
/// the current scope must free, `String(false)` is a borrow.
#[derive(Debug, PartialEq, Eq, Clone, Copy, Structural)]
pub enum TypeInformation {
    Number,
    Boolean,
    String(bool),
}

/// Two types are the same when they agree modulo string ownership.
pub open spec fn same_type_spec(a: TypeInformation, b: TypeInformation) -> bool {
    match (a, b) {
        (TypeInformation::Number, TypeInformation::Number) => true,
        (TypeInformation::Boolean, TypeInformation::Boolean) => true,
        (TypeInformation::String(_), TypeInformation::String(_)) => true,
        _ => false,
    }
}

impl TypeInformation {
    pub open spec fn owned(self) -> TypeInformation {
        match self {
            TypeInformation::String(_) => TypeInformation::String(true),
            _ => self,
        }
    }

    pub open spec fn borrowed(self) -> TypeInformation {
        match self {
            TypeInformation::String(_) => TypeInformation::String(false),
            _ => self,
        }
    }

    pub fn mark_owned(self) -> (r: Self)
        ensures
            r == self.owned(),
    {
        match self {
            TypeInformation::String(_) => TypeInformation::String(true),
            _ => self,
        }
    }

    pub fn mark_borrowed(self) -> (r: Self)
        ensures
            r == self.borrowed(),
    {
        match self {
            TypeInformation::String(_) => TypeInformation::String(false),
            _ => self,
        }
    }

    pub fn same_type(a: Self, b: Self) -> (r: bool)
        ensures
            r == same_type_spec(a, b),
    {
        match (a, b) {
            (TypeInformation::Number, TypeInformation::Number) => true,
            (TypeInformation::Boolean, TypeInformation::Boolean) => true,
            (TypeInformation::String(_), TypeInformation::String(_)) => true,
            _ => false,
        }
    }

    /// The name of the type as it appears in diagnostics.
    pub open spec fn name_spec(self) -> Seq<char> {
        match self {
            TypeInformation::Number => "Number"@,
            TypeInformation::Boolean => "Boolean"@,
            TypeInformation::String(_) => "String"@,
        }
    }

    pub fn name(self) -> (r: &'static str)
        ensures
            r@ == self.name_spec(),
    {
        match self {
            TypeInformation::Number => "Number",
            TypeInformation::Boolean => "Boolean",
            TypeInformation::String(_) => "String",
        }
    }
}

} // verus!

use vstd::prelude::*;

use crate::ast::Comparison;
use crate::text::{append_str, decimal, push_decimal};
use crate::types::TypeInformation;

verus! {

/// The machine types that values of the language are lowered to.
#[derive(Debug, PartialEq, Eq, Clone, Copy, Structural)]
pub enum IrType {
    /// A 1-bit integer: booleans.
    I1,
    /// A 32-bit integer: numbers.
    I32,
    /// A pointer to bytes: strings.
    I8Ptr,
}

pub open spec fn ir_type_spec(t: TypeInformation) -> IrType {
    match t {
        TypeInformation::Number => IrType::I32,
        TypeInformation::Boolean => IrType::I1,
        TypeInformation::String(_) => IrType::I8Ptr,
    }
}

/// The machine type of a value of type `t`.
pub fn ir_type(t: TypeInformation) -> (r: IrType)
    ensures
        r == ir_type_spec(t),
{
    match t {
        TypeInformation::Number => IrType::I32,
        TypeInformation::Boolean => IrType::I1,
        TypeInformation::String(_) => IrType::I8Ptr,
    }
}

/// The signed integer comparisons of the IR.
#[derive(Debug, PartialEq, Eq, Clone, Copy, Structural)]
pub enum IntPredicate {
    Eq,
    Ne,
    Slt,
    Sle,
    Sgt,
    Sge,
}

pub open spec fn predicate_spec(c: Comparison) -> IntPredicate {
    match c {
        Comparison::Equal => IntPredicate::Eq,
        Comparison::NotEqual => IntPredicate::Ne,
        Comparison::LessThan => IntPredicate::Slt,
        Comparison::LessThanEqual => IntPredicate::Sle,
        Comparison::GreaterThan => IntPredicate::Sgt,
        Comparison::GreaterThanEqual => IntPredicate::Sge,
    }
}

/// The comparison instruction for one link of a comparison chain.
pub fn predicate(c: Comparison) -> (r: IntPredicate)
    ensures
        r == predicate_spec(c),
{
    match c {
        Comparison::Equal => IntPredicate::Eq,
        Comparison::NotEqual => IntPredicate::Ne,
        Comparison::LessThan => IntPredicate::Slt,
        Comparison::LessThanEqual => IntPredicate::Sle,
        Comparison::GreaterThan => IntPredicate::Sgt,
        Comparison::GreaterThanEqual => IntPredicate::Sge,
    }
}

/// The message that a failed assertion prints.
pub open spec fn assert_message_spec(line: nat) -> Seq<char> {
    "Assert on line "@ + decimal(line) + " failed"@
}

pub fn assert_message(line: usize) -> (r: String)
    ensures
        r@ == assert_message_spec(line as nat),
{
    let mut r = String::new();
    append_str(&mut r, "Assert on line ");
    push_decimal(&mut r, line);
    append_str(&mut r, " failed");
    r
}

/// The spaces between a test's name and its file name: the name is padded to
/// 17 characters, with at least none.
pub open spec fn test_padding_spec(name_len: nat) -> nat {
    if name_len >= 17 {
        0
    } else {
        (17 - name_len) as nat
    }
}

/// How a test is labelled in its report: the name in cyan, padding, and the
/// source file name in yellow.
pub open spec fn test_label_spec(name: Seq<char>, file: Seq<char>) -> Seq<char> {
    "\x1b[36m"@ + name + Seq::new(test_padding_spec(name.len()), |i: int| ' ') + "\x1b[33m"@ + file + "\x1b[0m"@
}

pub fn test_label(name: &str, file: &str) -> (r: String)
    ensures
        r@ == test_label_spec(name@, file@),
{
    let mut r = String::new();
    append_str(&mut r, "\x1b[36m");
    append_str(&mut r, name);
    let n = name.unicode_len();
    let pad: usize = if n >= 17 { 0 } else { 17 - n };
    let ghost start = r@;
    let mut k: usize = 0;
    while k < pad
        invariant
            k <= pad,
            r@ == start + Seq::new(k as nat, |i: int| ' '),
        decreases pad - k,
    {
        crate::text::push_char(&mut r, ' ');
        k = k + 1;
        assert(r@ =~= start + Seq::new(k as nat, |i: int| ' '));
    }
    append_str(&mut r, "\x1b[33m");
    append_str(&mut r, file);
    append_str(&mut r, "\x1b[0m");
    assert(r@ =~= test_label_spec(name@, file@));
    r
}

/// What a passing test prints.
pub fn test_ok_message(label: &str) -> (r: String)
    ensures
        r@ == "\x1b[32mOK "@ + label@ + "\x1b[0m"@,
{
    let mut r = String::new();
    append_str(&mut r, "\x1b[32mOK ");
    append_str(&mut r, label);
    append_str(&mut r, "\x1b[0m");
    r
}

/// What a failing test prints before it aborts.
pub fn test_failed_message(label: &str) -> (r: String)
    ensures
        r@ == "\x1b[31mFAILED "@ + label@ + "\x1b[0m"@,
{
    let mut r = String::new();
    append_str(&mut r, "\x1b[31mFAILED ");
    append_str(&mut r, label);
    append_str(&mut r, "\x1b[0m");
    r
}

} // verus!

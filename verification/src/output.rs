//! The text pieces of the standard-metadata outputs: the watermark of `dump.cs` and the
//! keys and values of `methods.json`.
use vstd::prelude::*;
use vstd::string::StringExecFns;

use crate::errors::LayoutError;
use crate::layout_output::dump_cs_banner;
use crate::text::{hexadecimal, join, join_with, push_hex};

verus! {

/// `content` with the watermark line in front.
pub fn prepend_watermark(content: &str) -> (r: String)
    ensures
        r@ == dump_cs_banner() + content@,
{
    let mut out = String::new();
    out.append("// FirelfyShelter static asm parse\n\n");
    out.append(content);
    out
}

/// The `methods.json` key of a method: type name, `::`, method name, then the parameter
/// type names joined with commas in parentheses.
pub open spec fn standard_method_key_text(display_name: Seq<char>, method_name: Seq<char>, params: Seq<Seq<char>>) -> Seq<char> {
    display_name + "::"@ + method_name + "("@ + join_with(params, ","@) + ")"@
}

/// Renders the `methods.json` key of a method.
pub fn standard_method_key(display_name: &str, method_name: &str, params: &Vec<String>) -> (r: String)
    ensures
        r@ == standard_method_key_text(display_name@, method_name@, params.deep_view()),
{
    let mut key = String::new();
    key.append(display_name);
    key.append("::");
    key.append(method_name);
    key.append("(");
    let joined = join(params, ",");
    key.append(joined.as_str());
    key.append(")");
    assert(key@ =~= standard_method_key_text(display_name@, method_name@, params.deep_view()));
    key
}

/// Renders a method pointer as `0x` and upper-case hexadecimal digits.
pub fn pointer_text(pointer: u64) -> (r: String)
    ensures
        r@ == "0x"@ + hexadecimal(pointer as nat, true),
{
    let mut out = String::new();
    out.append("0x");
    push_hex(&mut out, pointer, true);
    out
}

/// The index of parameter `offset` of a method whose parameters start at
/// `parameter_start`: refused when it is negative, or when the offset or the sum leaves
/// the `i32` range.
pub fn parameter_index(parameter_start: i32, offset: usize) -> (r: Result<usize, LayoutError>)
    ensures
        offset > i32::MAX || parameter_start + offset > i32::MAX ==> r == Err::<usize, LayoutError>(
            LayoutError::ArithmeticOverflow,
        ),
        offset <= i32::MAX && parameter_start + offset <= i32::MAX && parameter_start + offset < 0 ==> r == Err::<
            usize,
            LayoutError,
        >(LayoutError::NegativeParameterIndex),
        offset <= i32::MAX && 0 <= parameter_start + offset <= i32::MAX ==> r == Ok::<usize, LayoutError>(
            (parameter_start + offset) as usize,
        ),
{
    if offset > i32::MAX as usize {
        return Err(LayoutError::ArithmeticOverflow);
    }
    let step = offset as i32;
    if parameter_start > i32::MAX - step {
        return Err(LayoutError::ArithmeticOverflow);
    }
    let index = parameter_start + step;
    if index < 0 {
        return Err(LayoutError::NegativeParameterIndex);
    }
    Ok(index as usize)
}

} // verus!

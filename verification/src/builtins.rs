use crate::text::str_eq;
use vstd::prelude::*;

verus! {

/// Machine type of a builtin's parameter.
#[derive(Debug, Clone, Copy, PartialEq, Eq, Structural)]
pub enum ArgType {
    F64,
    I64,
    I32,
}

/// Machine type of a builtin's result.
#[derive(Debug, Clone, Copy, PartialEq, Eq, Structural)]
pub enum RetType {
    F64,
    I64,
    I32,
    Void,
}

/// A runtime function that a TypeScript builtin maps to.
pub struct BuiltinInfo {
    pub c_name: &'static str,
    pub param_types: &'static [ArgType],
    pub ret_type: RetType,
}

/// The builtin table: for each TypeScript name, the runtime symbol, the
/// parameter types and the result type.
pub open spec fn builtin_entry(name: Seq<char>) -> Option<(Seq<char>, Seq<ArgType>, RetType)> {
    if name == "Math.sin"@ {
        Some(("js_math_sin"@, seq![ArgType::F64], RetType::F64))
    } else if name == "Math.cos"@ {
        Some(("js_math_cos"@, seq![ArgType::F64], RetType::F64))
    } else if name == "Math.sqrt"@ {
        Some(("js_math_sqrt"@, seq![ArgType::F64], RetType::F64))
    } else if name == "Math.abs"@ {
        Some(("js_math_abs"@, seq![ArgType::F64], RetType::F64))
    } else if name == "Math.floor"@ {
        Some(("js_math_floor"@, seq![ArgType::F64], RetType::F64))
    } else if name == "Math.ceil"@ {
        Some(("js_math_ceil"@, seq![ArgType::F64], RetType::F64))
    } else if name == "Math.pow"@ {
        Some(("js_math_pow"@, seq![ArgType::F64, ArgType::F64], RetType::F64))
    } else {
        None
    }
}

impl BuiltinInfo {
    /// `self` is the table entry `e`.
    pub open spec fn is_entry(&self, e: (Seq<char>, Seq<ArgType>, RetType)) -> bool {
        self.c_name@ == e.0 && self.param_types@ == e.1 && self.ret_type == e.2
    }

    pub fn param_count(&self) -> (n: usize)
        ensures
            n == self.param_types@.len(),
    {
        self.param_types.len()
    }

    pub fn has_return(&self) -> (b: bool)
        ensures
            b == (self.ret_type != RetType::Void),
    {
        self.ret_type != RetType::Void
    }
}

fn unary_f64(c_name: &'static str) -> (b: BuiltinInfo)
    ensures
        b.c_name == c_name,
        b.param_types@ == seq![ArgType::F64],
        b.ret_type == RetType::F64,
{
    let p: &'static [ArgType] = &[ArgType::F64];
    assert(p@ =~= seq![ArgType::F64]);
    BuiltinInfo { c_name, param_types: p, ret_type: RetType::F64 }
}

/// The runtime function for a builtin TypeScript name, if it is one.
pub fn lookup_builtin(name: &str) -> (r: Option<BuiltinInfo>)
    ensures
        r is Some <==> builtin_entry(name@) is Some,
        r matches Some(info) ==> info.is_entry(builtin_entry(name@)->0),
{
    if str_eq(name, "Math.sin") {
        Some(unary_f64("js_math_sin"))
    } else if str_eq(name, "Math.cos") {
        Some(unary_f64("js_math_cos"))
    } else if str_eq(name, "Math.sqrt") {
        Some(unary_f64("js_math_sqrt"))
    } else if str_eq(name, "Math.abs") {
        Some(unary_f64("js_math_abs"))
    } else if str_eq(name, "Math.floor") {
        Some(unary_f64("js_math_floor"))
    } else if str_eq(name, "Math.ceil") {
        Some(unary_f64("js_math_ceil"))
    } else if str_eq(name, "Math.pow") {
        let p: &'static [ArgType] = &[ArgType::F64, ArgType::F64];
        assert(p@ =~= seq![ArgType::F64, ArgType::F64]);
        Some(BuiltinInfo { c_name: "js_math_pow", param_types: p, ret_type: RetType::F64 })
    } else {
        None
    }
}

} // verus!

//! Signature descriptors: an immutable record of a target function's call
//! interface (calling convention, safety qualifier, argument kinds, return
//! kind), built once per hook request from the target's type expression.
//!
//! Construction is the only validation point of the engine: variadic
//! signatures and non-function types are rejected here, never at patch time.

use vstd::prelude::*;
use crate::errors::HookError;

verus! {

/// The calling convention a target function declares. It must be propagated
/// unchanged to the trampoline, or the shim's ABI would not match the
/// target's and every forwarded call would corrupt the stack or registers.
#[derive(Clone, Copy, Debug, PartialEq, Eq, Structural)]
pub enum CallConv {
    C,
    System,
    Stdcall,
    Fastcall,
    Rust,
}

/// The machine-level kind of one argument or return slot.
#[derive(Clone, Copy, Debug, PartialEq, Eq, Structural)]
pub enum ValueKind {
    Unit,
    Bool,
    Int8,
    Int16,
    Int32,
    Int64,
    UInt8,
    UInt16,
    UInt32,
    UInt64,
    Pointer,
}

/// The shape of a bare function type: everything a hook request reads off
/// the target's type expression.
pub struct FnShape {
    pub convention: CallConv,
    pub is_unsafe: bool,
    /// Whether the type declares a trailing variadic argument list.
    pub variadic: bool,
    pub args: Vec<ValueKind>,
    pub ret: ValueKind,
}

/// The type expression a hook request names as the target's type. Only a
/// bare function type can be intercepted; anything else is data.
pub enum TypeExpr {
    Function(FnShape),
    Data(ValueKind),
}

/// Mathematical image of a `FnShape`.
#[verifier::ext_equal]
pub struct FnShapeView {
    pub convention: CallConv,
    pub is_unsafe: bool,
    pub variadic: bool,
    pub args: Seq<ValueKind>,
    pub ret: ValueKind,
}

impl View for FnShape {
    type V = FnShapeView;

    open spec fn view(&self) -> FnShapeView {
        FnShapeView {
            convention: self.convention,
            is_unsafe: self.is_unsafe,
            variadic: self.variadic,
            args: self.args@,
            ret: self.ret,
        }
    }
}

/// Mathematical image of a `TypeExpr`.
#[verifier::ext_equal]
pub enum TypeExprView {
    Function(FnShapeView),
    Data(ValueKind),
}

impl View for TypeExpr {
    type V = TypeExprView;

    open spec fn view(&self) -> TypeExprView {
        match self {
            TypeExpr::Function(shape) => TypeExprView::Function(shape@),
            TypeExpr::Data(k) => TypeExprView::Data(*k),
        }
    }
}

/// An accepted call interface: like `FnShape`, but guaranteed non-variadic.
/// Immutable once built; one per hook request.
pub struct SignatureDescriptor {
    pub convention: CallConv,
    pub is_unsafe: bool,
    pub args: Vec<ValueKind>,
    pub ret: ValueKind,
}

/// Mathematical image of a `SignatureDescriptor`.
#[verifier::ext_equal]
pub struct SigView {
    pub convention: CallConv,
    pub is_unsafe: bool,
    pub args: Seq<ValueKind>,
    pub ret: ValueKind,
}

impl View for SignatureDescriptor {
    type V = SigView;

    open spec fn view(&self) -> SigView {
        SigView {
            convention: self.convention,
            is_unsafe: self.is_unsafe,
            args: self.args@,
            ret: self.ret,
        }
    }
}

/// What descriptor construction yields for a given type expression: the
/// descriptor's image for a non-variadic function type, nothing otherwise.
pub open spec fn spec_descriptor_of(ty: TypeExprView) -> Option<SigView> {
    match ty {
        TypeExprView::Function(shape) => if shape.variadic {
            None
        } else {
            Some(SigView {
                convention: shape.convention,
                is_unsafe: shape.is_unsafe,
                args: shape.args,
                ret: shape.ret,
            })
        },
        TypeExprView::Data(_) => None,
    }
}

impl SignatureDescriptor {
    /// Builds the descriptor for a target's type expression, extracting the
    /// calling convention, safety qualifier, argument kinds and return kind
    /// verbatim. Rejects variadic signatures (no fixed-arity trampoline can
    /// forward an unknown-length argument list) and non-function types;
    /// either rejection is `UnsupportedSignature`, and nothing is installed.
    pub fn from_type(ty: &TypeExpr) -> (r: Result<SignatureDescriptor, HookError>)
        ensures
            match r {
                Ok(d) => spec_descriptor_of(ty@) == Some(d@),
                Err(e) => spec_descriptor_of(ty@) is None
                    && e == HookError::UnsupportedSignature,
            },
    {
        match ty {
            TypeExpr::Function(shape) => {
                if shape.variadic {
                    Err(HookError::UnsupportedSignature)
                } else {
                    let mut args: Vec<ValueKind> = Vec::new();
                    let mut i: usize = 0;
                    while i < shape.args.len()
                        invariant
                            i <= shape.args.len(),
                            args@ =~= shape.args@.take(i as int),
                        decreases shape.args.len() - i,
                    {
                        args.push(shape.args[i]);
                        i += 1;
                    }
                    proof {
                        assert(args@ =~= shape.args@);
                    }
                    Ok(SignatureDescriptor {
                        convention: shape.convention,
                        is_unsafe: shape.is_unsafe,
                        args,
                        ret: shape.ret,
                    })
                }
            },
            TypeExpr::Data(_) => Err(HookError::UnsupportedSignature),
        }
    }

    /// Number of arguments the described interface takes.
    pub fn arity(&self) -> (n: usize)
        ensures
            n == self@.args.len(),
    {
        self.args.len()
    }
}

} // verus!

//! The fixed shapes of the lines that the semantic analysis recognises,
//! compiled once for a scan.

use vstd::prelude::*;
use crate::engine::Shape;

verus! {

/// The shape of a template header.
pub const TEMPLATE_START: &'static str =
    r"^\s*template\s+(\w+)\s*\(";

/// A line that assigns with `<--`; group 1 is the assigned signal.
pub const UNCONSTRAINED: &'static str =
    r"^\s*(?:signal\s+)?([A-Za-z_]\w*(?:\.[A-Za-z_]\w*)?(?:\s*\[[^\]]+\])*)\s*<--";

/// A line that assigns with `<==`; group 1 is the assigned signal.
pub const CONSTRAINED: &'static str =
    r"^\s*(?:signal\s+)?([A-Za-z_]\w*(?:\.[A-Za-z_]\w*)?(?:\s*\[[^\]]+\])*)\s*<==";

/// A line that constrains with `===`; group 1 is the signal on the left.
pub const EQUALITY: &'static str =
    r"^\s*(?:signal\s+)?([A-Za-z_]\w*(?:\.[A-Za-z_]\w*)?(?:\s*\[[^\]]+\])*)\s*===";

/// `component.port <== signal`; the groups are the three names.
pub const PORT_WIRING: &'static str =
    r"(\w+)\.(\w+)\s*<==\s*(\w+)";

/// `lhs === rhs ;` between two plain names; the groups are the two sides.
pub const SELF_EQ: &'static str =
    r"^\s*(\w+)\s*===\s*(\w+)\s*;";

/// An identifier, possibly dotted as in `a.b`; group 1 is the identifier.
pub const IDENT: &'static str =
    r"\b([A-Za-z_]\w*(?:\.[A-Za-z_]\w*)?)\b";

/// A number that stands alone.
pub const NUMERIC_LITERAL: &'static str =
    r"\b\d+\b";

/// A `var` declaration; group 1 is the variable.
pub const VAR_DECL: &'static str =
    r"^\s*var\s+(\w+)";

/// A mutation of a variable: `v = ..;`, `v += ..;`, `v -= ..;`, `v *= ..;`
/// or `v /= ..;`.  Group 1 is the variable.
pub const VAR_MUTATION: &'static str =
    r"^\s*([A-Za-z_]\w*)\s*(?:\+?=|-?=|\*?=|/?=)\s*.+;\s*$";

/// The hint of an inverse: `x != 0 ? 1/x : 0`.  The groups are the two `x`.
pub const ISZERO_INV_EXPR: &'static str =
    r"^\s*([A-Za-z_]\w*(?:\.[A-Za-z_]\w*)?)\s*!=\s*0\s*\?\s*1\s*/\s*([A-Za-z_]\w*(?:\.[A-Za-z_]\w*)?)\s*:\s*0\s*$";

/// A quotient `i \ m` or a remainder `i % m`.  The groups are the input, the
/// operator and the modulus.
pub const SIMPLE_QR_EXPR: &'static str =
    r"^\s*([A-Za-z_]\w*(?:\.[A-Za-z_]\w*)?(?:\[[^\]]+\])?)\s*([%\\])\s*([A-Za-z_]\w*|\d+)\s*$";

/// The quotient of a product: `out * in \ m`.  The groups are the two
/// factors and the modulus.
pub const MODINV_K_EXPR: &'static str =
    r"^\s*([A-Za-z_]\w*(?:\.[A-Za-z_]\w*)?(?:\[[^\]]+\])?)\s*\*\s*([A-Za-z_]\w*(?:\.[A-Za-z_]\w*)?(?:\[[^\]]+\])?)\s*\\\s*([A-Za-z_]\w*|\d+)\s*$";

/// In compact form, `a*b===0;`.  The groups are the two factors.
pub const ZERO_PRODUCT: &'static str =
    r"^([A-Za-z_]\w*(?:\.[A-Za-z_]\w*)?)\*([A-Za-z_]\w*(?:\.[A-Za-z_]\w*)?)===0;$";

/// The texts of the fixed shapes, in the order in which a grammar holds
/// them.
pub open spec fn shape_texts() -> Seq<Seq<char>> {
    seq![
        TEMPLATE_START@,
        UNCONSTRAINED@,
        CONSTRAINED@,
        EQUALITY@,
        PORT_WIRING@,
        SELF_EQ@,
        IDENT@,
        NUMERIC_LITERAL@,
        VAR_DECL@,
        VAR_MUTATION@,
        ISZERO_INV_EXPR@,
        SIMPLE_QR_EXPR@,
        MODINV_K_EXPR@,
        ZERO_PRODUCT@,
    ]
}

/// The fixed shapes, each compiled once.
pub struct Grammar {
    template_start: Shape,
    unconstrained: Shape,
    constrained: Shape,
    equality: Shape,
    port_wiring: Shape,
    self_eq: Shape,
    ident: Shape,
    numeric_literal: Shape,
    var_decl: Shape,
    var_mutation: Shape,
    iszero_inv_expr: Shape,
    simple_qr_expr: Shape,
    modinv_k_expr: Shape,
    zero_product: Shape,
}

impl Grammar {
    #[verifier::type_invariant]
    spec fn well_formed(self) -> bool {
        &&& self.template_start@ == TEMPLATE_START@
        &&& self.unconstrained@ == UNCONSTRAINED@
        &&& self.constrained@ == CONSTRAINED@
        &&& self.equality@ == EQUALITY@
        &&& self.port_wiring@ == PORT_WIRING@
        &&& self.self_eq@ == SELF_EQ@
        &&& self.ident@ == IDENT@
        &&& self.numeric_literal@ == NUMERIC_LITERAL@
        &&& self.var_decl@ == VAR_DECL@
        &&& self.var_mutation@ == VAR_MUTATION@
        &&& self.iszero_inv_expr@ == ISZERO_INV_EXPR@
        &&& self.simple_qr_expr@ == SIMPLE_QR_EXPR@
        &&& self.modinv_k_expr@ == MODINV_K_EXPR@
        &&& self.zero_product@ == ZERO_PRODUCT@
    }

    /// The texts of the shapes that the grammar holds, in order.
    pub closed spec fn texts(&self) -> Seq<Seq<char>> {
        seq![
            self.template_start@,
            self.unconstrained@,
            self.constrained@,
            self.equality@,
            self.port_wiring@,
            self.self_eq@,
            self.ident@,
            self.numeric_literal@,
            self.var_decl@,
            self.var_mutation@,
            self.iszero_inv_expr@,
            self.simple_qr_expr@,
            self.modinv_k_expr@,
            self.zero_product@,
        ]
    }

    /// Compiles the fixed shapes.
    pub fn new() -> (r: Grammar)
        ensures
            r.texts() == shape_texts(),
    {
        Grammar {
            template_start: Shape::new(TEMPLATE_START),
            unconstrained: Shape::new(UNCONSTRAINED),
            constrained: Shape::new(CONSTRAINED),
            equality: Shape::new(EQUALITY),
            port_wiring: Shape::new(PORT_WIRING),
            self_eq: Shape::new(SELF_EQ),
            ident: Shape::new(IDENT),
            numeric_literal: Shape::new(NUMERIC_LITERAL),
            var_decl: Shape::new(VAR_DECL),
            var_mutation: Shape::new(VAR_MUTATION),
            iszero_inv_expr: Shape::new(ISZERO_INV_EXPR),
            simple_qr_expr: Shape::new(SIMPLE_QR_EXPR),
            modinv_k_expr: Shape::new(MODINV_K_EXPR),
            zero_product: Shape::new(ZERO_PRODUCT),
        }
    }

    /// The shape `TEMPLATE_START`.
    pub fn template_start(&self) -> (s: &Shape)
        ensures
            s@ == TEMPLATE_START@,
    {
        proof {
            use_type_invariant(self);
        }
        &self.template_start
    }

    /// The shape `UNCONSTRAINED`.
    pub fn unconstrained(&self) -> (s: &Shape)
        ensures
            s@ == UNCONSTRAINED@,
    {
        proof {
            use_type_invariant(self);
        }
        &self.unconstrained
    }

    /// The shape `CONSTRAINED`.
    pub fn constrained(&self) -> (s: &Shape)
        ensures
            s@ == CONSTRAINED@,
    {
        proof {
            use_type_invariant(self);
        }
        &self.constrained
    }

    /// The shape `EQUALITY`.
    pub fn equality(&self) -> (s: &Shape)
        ensures
            s@ == EQUALITY@,
    {
        proof {
            use_type_invariant(self);
        }
        &self.equality
    }

    /// The shape `PORT_WIRING`.
    pub fn port_wiring(&self) -> (s: &Shape)
        ensures
            s@ == PORT_WIRING@,
    {
        proof {
            use_type_invariant(self);
        }
        &self.port_wiring
    }

    /// The shape `SELF_EQ`.
    pub fn self_eq(&self) -> (s: &Shape)
        ensures
            s@ == SELF_EQ@,
    {
        proof {
            use_type_invariant(self);
        }
        &self.self_eq
    }

    /// The shape `IDENT`.
    pub fn ident(&self) -> (s: &Shape)
        ensures
            s@ == IDENT@,
    {
        proof {
            use_type_invariant(self);
        }
        &self.ident
    }

    /// The shape `NUMERIC_LITERAL`.
    pub fn numeric_literal(&self) -> (s: &Shape)
        ensures
            s@ == NUMERIC_LITERAL@,
    {
        proof {
            use_type_invariant(self);
        }
        &self.numeric_literal
    }

    /// The shape `VAR_DECL`.
    pub fn var_decl(&self) -> (s: &Shape)
        ensures
            s@ == VAR_DECL@,
    {
        proof {
            use_type_invariant(self);
        }
        &self.var_decl
    }

    /// The shape `VAR_MUTATION`.
    pub fn var_mutation(&self) -> (s: &Shape)
        ensures
            s@ == VAR_MUTATION@,
    {
        proof {
            use_type_invariant(self);
        }
        &self.var_mutation
    }

    /// The shape `ISZERO_INV_EXPR`.
    pub fn iszero_inv_expr(&self) -> (s: &Shape)
        ensures
            s@ == ISZERO_INV_EXPR@,
    {
        proof {
            use_type_invariant(self);
        }
        &self.iszero_inv_expr
    }

    /// The shape `SIMPLE_QR_EXPR`.
    pub fn simple_qr_expr(&self) -> (s: &Shape)
        ensures
            s@ == SIMPLE_QR_EXPR@,
    {
        proof {
            use_type_invariant(self);
        }
        &self.simple_qr_expr
    }

    /// The shape `MODINV_K_EXPR`.
    pub fn modinv_k_expr(&self) -> (s: &Shape)
        ensures
            s@ == MODINV_K_EXPR@,
    {
        proof {
            use_type_invariant(self);
        }
        &self.modinv_k_expr
    }

    /// The shape `ZERO_PRODUCT`.
    pub fn zero_product(&self) -> (s: &Shape)
        ensures
            s@ == ZERO_PRODUCT@,
    {
        proof {
            use_type_invariant(self);
        }
        &self.zero_product
    }
}

} // verus!

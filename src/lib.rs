//! Algebraic intermediate representations (AIRs): a constraint language over
//! the BabyBear prime field, a symbolic builder that records constraints with
//! their degrees, a row-by-row evaluator for concrete traces, bit-level gadgets
//! and affine virtual columns.

pub mod field;
pub mod symbolic_variable;
pub mod symbolic_expression;
pub mod symbolic_builder;
pub mod air;
pub mod utils;
pub mod matrix;
pub mod check_constraints;
pub mod virtual_column;
pub mod display;

pub use air::{
    Air, AirBuilderWithPublicValues, BaseAir, BaseAirWithPublicValues, FilteredAirBuilder,
    PairBuilder,
};
pub use check_constraints::{
    from_bool,
    check_constraints, check_trace, CheckError, DebugConstraintBuilder, RowFailure,
};
pub use field::BabyBear;
pub use symbolic_builder::{
    get_log_quotient_degree, get_max_constraint_degree, get_symbolic_constraints,
    log2_ceil_usize, log_quotient_degree, max_constraint_degree, SymbolicAirBuilder, VarMatrix,
};
pub use symbolic_expression::SymbolicExpression;
pub use symbolic_variable::{Entry, SymbolicVariable};
pub use virtual_column::{PairCol, VirtualPairCol};

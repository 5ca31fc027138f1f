//! The high-level intermediate representation: types and item signatures.
pub mod ty;
pub mod signature;
pub mod special_methods;
pub mod context;
pub mod keyed;
pub mod item;
pub mod generic_pool;
pub mod monomorph;
pub mod type_check;
pub mod ownership;
pub mod cycles;
pub mod extern_call;
pub mod lowering;
pub mod instantiate;

pub mod term;
pub mod subst;
pub mod unify;
pub mod laws;
pub mod render;

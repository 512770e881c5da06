pub mod be;
pub mod le;

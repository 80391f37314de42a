pub mod runtime;

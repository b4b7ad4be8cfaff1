//! Model-independent logic of the ONNX-ML linear operators: attribute
//! parsing, dimension inference, coefficient layouts, class-label mapping
//! and the symbol table used for symbolic dimensions.

pub mod text;
pub mod attributes;
pub mod layout;
pub mod symbols;
pub mod labels;
pub mod classifier;
pub mod regressor;
pub mod normalizer;
pub mod onnx_ops;
pub mod onnx_model;
pub mod processor;

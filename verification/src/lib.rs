//! Sapphire: the lexer, parser, type checker, bytecode compiler and native
//! runtime library of a small gradually typed, object-oriented scripting
//! language.

// Source text, tokens and syntax.
pub mod text;
pub mod strops;
pub mod token;
pub mod value;
pub mod ast;
pub mod error;
pub mod lexer;
pub mod parser;

// Checking and compiling.
pub mod typechecker;
pub mod chunk;
pub mod compiler;
pub mod doc;
pub mod report;

// The runtime: values, heap and native methods.
pub mod vm;
pub mod gc;
pub mod output;
pub mod native;
pub mod native_list;
pub mod native_map;
pub mod native_set;
pub mod native_int;
pub mod native_float;
pub mod native_nil;
pub mod native_range;
pub mod native_string;
pub mod native_regex;
pub mod native_json;
pub mod native_math;
pub mod native_io;
pub mod native_file;
pub mod native_dir;
pub mod native_env;
pub mod native_process;
pub mod native_socket;
pub mod datetime;

// Properties relating several operations.
pub mod laws;

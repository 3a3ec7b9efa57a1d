//! The oxide code generator's analyses and instruction sequences: the
//! name-resolution and closure-capture analyses that run over a syntax tree
//! before any instruction is emitted, the builtin-global tables, the
//! per-function compilation context (registers, constant pool, jump
//! targets), and the instruction sequences that need no name resolution
//! (constants and literals, global declaration instantiation, module
//! linking, class definitions, tagged templates, member accesses), and the
//! updates and deletes of resolved identifiers and members.

pub mod ast;
pub mod builtins;
pub mod names;
pub mod nameset;
pub mod text;
pub mod capture;
pub mod captured;
pub mod cells;
pub mod upvalues;
pub mod block_fn;
pub mod emitter;
pub mod restricted;
pub mod module;
pub mod syntax;
pub mod keys;
pub mod labels;
pub mod inst;
pub mod ctx;
pub mod prescan;
pub mod literal;
pub mod params;
pub mod emit_ops;
pub mod program;
pub mod function_setup;
pub mod regmap;
pub mod linking;
pub mod class_plan;
pub mod class_emit;
pub mod template;
pub mod field_buffer;
pub mod member;
pub mod update;
pub mod delete;
pub mod prologue;
pub mod read;
pub mod link_step;
pub mod fn_record;
pub mod assign;

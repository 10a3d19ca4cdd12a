//! Instruction-selection pattern compiler: reads pattern rules written in a
//! small DSL and emits the Rust source of the lowering functions they describe.

pub mod ast;
pub mod builder;
pub mod cond;
pub mod emit;
pub mod grammar;
pub mod scope;
pub mod template;
pub mod text;

use vstd::prelude::*;
use crate::ast::AstTarget;
use crate::builder::file_spec;
use crate::emit::{generated, CodeEmitter};
use crate::grammar::ParseError;

verus! {

/// Compiles DSL text into the generated lowering code for `target`, or reports
/// the first fault in the text; nothing is generated then.
pub fn generate(input: &str, target: AstTarget) -> (r: Result<String, ParseError>)
    requires
        input@.len() + 2 <= usize::MAX,
    ensures
        match file_spec(input@) {
            Ok(f) => r is Ok && r->Ok_0@ == generated(f.patterns),
            Err(e) => r == Err::<String, ParseError>(e),
        },
{
    match builder::parse(input) {
        Ok(file) => {
            let emitter = CodeEmitter { patterns: file.patterns };
            Ok(emitter.gen(target))
        },
        Err(e) => Err(e),
    }
}

} // verus!

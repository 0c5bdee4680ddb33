//! Entry points that turn Makefile, justfile and Taskfile text into a Mustfile.

use vstd::prelude::*;
use crate::justfile::{justfile_spec, parse_justfile};
use crate::lexer::{tokenize, tokenize_spec};
use crate::parser::{parse, parse_spec};
use crate::taskfile::{parse_taskfile, taskfile_spec};
use crate::translate::{ImportResult, ImportResultV, finish_import, result_spec, translate, translate_output};

verus! {

/// The import result of a Makefile.
pub open spec fn import_spec(input: Seq<char>) -> ImportResultV {
    result_spec(translate_output(parse_spec(tokenize_spec(input))))
}

/// Imports a Makefile: tokenize, parse, translate.
pub fn import(input: &str) -> (r: ImportResult)
    ensures
        r@ == import_spec(input@),
{
    let tokens = tokenize(input);
    let ast = parse(tokens);
    translate(ast)
}

/// Imports a justfile.
pub fn import_justfile(input: &str) -> (r: ImportResult)
    ensures
        r@ == result_spec(justfile_spec(input@)),
{
    let output = parse_justfile(input);
    finish_import(output)
}

/// Imports a Taskfile.
pub fn import_taskfile(input: &str) -> (r: ImportResult)
    ensures
        r@ == result_spec(taskfile_spec(input@)),
{
    let output = parse_taskfile(input);
    finish_import(output)
}

} // verus!

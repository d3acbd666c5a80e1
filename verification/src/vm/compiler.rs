use vstd::prelude::*;
use vstd::string::StringExecFns;

use crate::object::FunctionObj;
use crate::vm::scanner::model::{lemma_scan_bounds, spec_has_error};
use crate::vm::scanner::token::TokenType;
use crate::vm::scanner::Scanner;

verus! {

/// Drives the scanner over the whole source text.  The consumer contract of
/// the token stream: any `Error` token is fatal, so the compile returns
/// nothing exactly when the stream holds one; otherwise the script compiles
/// to a single function object.  The compiler proper is an external stub, so
/// a clean scan is all that success requires.
#[verifier::loop_isolation(false)]
pub fn compile(source: &str) -> (r: Option<FunctionObj>)
    requires
        source@.len() < 0xFFFF_FFFF,
    ensures
        r is Some <==> !spec_has_error(source@, 0),
        r matches Some(f) ==> f.name_spec() == "script"@,
{
    let mut scanner = Scanner::new(source);
    loop
        invariant
            scanner@.wf(),
            scanner@.src == source@,
            spec_has_error(source@, 0) == spec_has_error(source@, scanner@.cur),
        decreases source@.len() - scanner@.cur,
    {
        proof {
            lemma_scan_bounds(source@, scanner@.cur);
        }
        match scanner.next() {
            None => {
                return Some(FunctionObj::new(String::from_str("script")));
            },
            Some(token) => {
                if token.token_type == TokenType::Error {
                    return None;
                }
            },
        }
    }
}

} // verus!

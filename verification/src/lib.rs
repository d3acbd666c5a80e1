pub mod object;
pub mod vm;

use vstd::prelude::*;

verus! {

/// Configuration for a run of the interpreter: the path of the script to
/// execute, or the empty string to start an interactive prompt.
pub struct Config {
    path: String,
}

impl Config {
    /// The script path held by this configuration.
    pub closed spec fn path_spec(&self) -> Seq<char> {
        self.path@
    }

    fn new(path: String) -> (c: Config)
        ensures
            c.path_spec() == path@,
    {
        Config { path }
    }

    /// Read access to the script path, for the driver that opens the file.
    pub fn path(&self) -> (p: &String)
        ensures
            p@ == self.path_spec(),
    {
        &self.path
    }
}

/// Interprets the command line: the first argument is the program name, an
/// optional second argument is the script path, and anything further is a
/// usage error.  With no script path the configuration holds the empty
/// string, which selects the interactive prompt.
pub fn parse_args(mut args: Vec<String>) -> (r: Result<Config, &'static str>)
    ensures
        r is Ok <==> args@.len() <= 2,
        args@.len() > 2 ==> (r matches Err(e) && e@ == "Usage: rlox [path/to/lox/script]"@),
        args@.len() == 2 ==> (r matches Ok(c) && c.path_spec() == args@[1]@),
        args@.len() <= 1 ==> (r matches Ok(c) && c.path_spec() == Seq::<char>::empty()),
{
    if args.len() > 2 {
        return Err("Usage: rlox [path/to/lox/script]");
    }
    if args.len() == 2 {
        let path = args.pop().unwrap();
        Ok(Config::new(path))
    } else {
        Ok(Config::new(String::new()))
    }
}

} // verus!


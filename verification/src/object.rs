use vstd::prelude::*;

verus! {

/// The runtime object kinds the virtual machine distinguishes.  Only
/// functions are built within this crate; the other kinds belong to the
/// execution stages that consume the token stream.
#[allow(dead_code)]
enum ObjectType {
    LoxString,
    LoxFunction,
    LoxNative,
    LoxClosure,
    LoxUpvalue,
    LoxClass,
    LoxInstance,
    LoxMethod,
}

/// A compiled function object: the unit a successful compile hands to the
/// virtual machine.  A whole script compiles to a function with no
/// parameters and no upvalues.
pub struct FunctionObj {
    obj_type: ObjectType,
    arity: u8,
    name: String,
    upvalue_count: u8,
}

impl FunctionObj {
    /// The function's name.
    pub closed spec fn name_spec(&self) -> Seq<char> {
        self.name@
    }

    /// A fresh function object with the given name, taking no parameters
    /// and capturing no upvalues.
    pub fn new(name: String) -> (f: FunctionObj)
        ensures
            f.name_spec() == name@,
    {
        FunctionObj { obj_type: ObjectType::LoxFunction, arity: 0, name, upvalue_count: 0 }
    }

    /// Read access to the name, for a driver that prints the object.
    pub fn name(&self) -> (n: &String)
        ensures
            n@ == self.name_spec(),
    {
        &self.name
    }
}

} // verus!

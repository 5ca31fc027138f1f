//! Errors of lowering to the low-level representation.
use vstd::prelude::*;
use vstd::string::StringExecFns;

verus! {

/// A block was to be created while no function was being lowered.
#[derive(Debug)]
pub struct CurrentFunctionDoesntExistError {}

impl CurrentFunctionDoesntExistError {
    /// The error's message.
    pub fn to_string(&self) -> (r: String)
        ensures
            r@ == "Current function does not exist when trying to create a new block"@,
    {
        String::from_str("Current function does not exist when trying to create a new block")
    }
}

/// A function that returns a value has a path without `return`.
#[derive(Debug)]
pub struct NoReturnInFunctionError {
    pub name: String,
}

impl NoReturnInFunctionError {
    /// The error's message: ``No return statement in function `name` ``.
    pub fn to_string(&self) -> (r: String)
        ensures
            r@ == "No return statement in function `"@ + self.name@ + "`"@,
    {
        let mut out = String::from_str("No return statement in function `");
        out.append(self.name.as_str());
        out.append("`");
        out
    }
}

} // verus!

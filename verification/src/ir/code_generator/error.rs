use vstd::prelude::*;

verus! {

/// Why code generation stopped: a message and its code.
#[derive(Debug)]
pub struct Error {
    pub msg: String,
    pub code: u32,
}

/// The message that goes with each error code.
pub open spec fn error_message(code: u32) -> Seq<char> {
    if code == 1 {
        "Unsupported Statement Exception"@
    } else if code == 2 || code == 4 {
        "Undefined Variable"@
    } else if code == 3 {
        "Left expr should be a identifier"@
    } else if code == 6 {
        "Unsupported Expr"@
    } else if code == 7 {
        "Existed Variable"@
    } else {
        Seq::empty()
    }
}

impl Error {
    /// The error with the given code and its message.
    pub fn with_code(code: u32) -> (r: Error)
        requires
            code == 1 || code == 2 || code == 3 || code == 4 || code == 6 || code == 7,
        ensures
            r.code == code,
            r.msg@ == error_message(code),
    {
        let msg = if code == 1 {
            "Unsupported Statement Exception".to_owned()
        } else if code == 2 || code == 4 {
            "Undefined Variable".to_owned()
        } else if code == 3 {
            "Left expr should be a identifier".to_owned()
        } else if code == 6 {
            "Unsupported Expr".to_owned()
        } else {
            "Existed Variable".to_owned()
        };
        Error { msg, code }
    }
}

} // verus!

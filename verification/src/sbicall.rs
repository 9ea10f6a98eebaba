use vstd::prelude::*;

verus! {

/// The two registers that an SBI call hands back: `a0` (error) and `a1` (value).
pub struct SBIRet {
    pub error: i32,
    pub value: i32,
}

/// The argument registers of one `ecall` into the SBI firmware:
/// `a0`..`a5`, the function id in `a6` and the extension id in `a7`.
#[derive(Clone, Copy, PartialEq, Eq, Structural, Debug)]
pub struct SbiCall {
    pub a0: i32,
    pub a1: i32,
    pub a2: i32,
    pub a3: i32,
    pub a4: i32,
    pub a5: i32,
    pub fid: i32,
    pub eid: i32,
}

/// Legacy SBI extension that writes one character to the console.
pub const EID_CONSOLE_PUTCHAR: i32 = 1;

/// Legacy SBI extension that reads one character from the console.
pub const EID_CONSOLE_GETCHAR: i32 = 2;

} // verus!

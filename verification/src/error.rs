//! Errors that a request to the hypervisor can end in.

use vstd::prelude::*;

verus! {

/// The kinds of error, named after the errno values they are reported as.
#[derive(Debug, Clone, Copy, PartialEq, Eq, Structural)]
pub enum HvErrorNum {
    EPERM,
    ENOMEM,
    EFAULT,
    EBUSY,
    EINVAL,
}

/// An error of the hypervisor.
#[derive(Debug, Clone, Copy, PartialEq, Eq, Structural)]
pub struct HvError {
    pub num: HvErrorNum,
}

/// What a fallible operation of the hypervisor returns.
pub type HvResult<T> = Result<T, HvError>;

impl HvError {
    /// The errno value of an error, without its sign.
    pub open spec fn errno(self) -> int {
        match self.num {
            HvErrorNum::EPERM => 1,
            HvErrorNum::ENOMEM => 12,
            HvErrorNum::EFAULT => 14,
            HvErrorNum::EBUSY => 16,
            HvErrorNum::EINVAL => 22,
        }
    }

    /// An error of the given kind.
    pub fn new(num: HvErrorNum) -> (res: HvError)
        ensures
            res == (HvError { num }),
    {
        HvError { num }
    }

    /// The value a guest sees for this error: the negated errno.
    pub fn code(&self) -> (res: i32)
        ensures
            res == -self.errno(),
    {
        match self.num {
            HvErrorNum::EPERM => -1,
            HvErrorNum::ENOMEM => -12,
            HvErrorNum::EFAULT => -14,
            HvErrorNum::EBUSY => -16,
            HvErrorNum::EINVAL => -22,
        }
    }
}

} // verus!

//! The switch of the frame sensor that the kernel offers under
//! `/sys/kernel/fpsgo`. Reading frame times from it is the caller's work;
//! what the library knows is how the sensor is switched on and off.

use crate::write_pool::{file_ops, framed, framed_write, FileOp};
use vstd::prelude::*;

verus! {

/// The file that switches the sensor.
pub open spec fn fpsgo_switch() -> Seq<char> {
    "/sys/kernel/fpsgo/common/fpsgo_enable"@
}

/// The file operations that switch the sensor on.
pub fn enable_fpsgo() -> (r: Vec<FileOp>)
    ensures
        file_ops(r@) == framed_write(fpsgo_switch(), "1"@),
{
    framed("/sys/kernel/fpsgo/common/fpsgo_enable".to_owned(), "1".to_owned())
}

/// The file operations that switch the sensor off.
pub fn disable_fpsgo() -> (r: Vec<FileOp>)
    ensures
        file_ops(r@) == framed_write(fpsgo_switch(), "0"@),
{
    framed("/sys/kernel/fpsgo/common/fpsgo_enable".to_owned(), "0".to_owned())
}

} // verus!

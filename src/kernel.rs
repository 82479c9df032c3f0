//! The steps that hand a negotiated connection to the kernel's NBD driver,
//! and that take it back.
//!
//! The driver is configured through control operations on the device file
//! (`/dev/nbdN`). This module decides which operations, with which arguments,
//! and in which order; issuing them is left to the caller.
use crate::proto::{HAS_FLAGS, SEND_FLUSH};
use vstd::prelude::*;

verus! {

/// The block size given to the driver.
pub const BLOCK_SIZE: u64 = 4096;

/// One control operation on an NBD device.
#[derive(Debug, Clone, Copy, PartialEq, Eq, Structural)]
pub enum DeviceOp {
    /// Bind the connection's socket to the device.
    SetSock,
    /// Set the block size in bytes.
    SetBlksize(u64),
    /// Set the size in blocks.
    SetSizeBlocks(u64),
    /// Serve the device until it is disconnected.
    DoIt,
    /// Detach any bound socket.
    ClearSock,
    /// Ask the device to shut its connection down.
    Disconnect,
    /// Set the transmission flags.
    SetFlags(u16),
}

/// Attaching an export of `size` bytes: block size, size in blocks,
/// transmission flags HAS_FLAGS | SEND_FLUSH, clearing any old socket, and
/// binding the new one.
pub open spec fn attach_sequence(size: u64) -> Seq<DeviceOp> {
    seq![
        DeviceOp::SetBlksize(BLOCK_SIZE),
        DeviceOp::SetSizeBlocks(size / BLOCK_SIZE),
        DeviceOp::SetFlags(5),
        DeviceOp::ClearSock,
        DeviceOp::SetSock,
    ]
}

/// Detaching a device: disconnect, then clear the socket.
pub open spec fn detach_sequence() -> Seq<DeviceOp> {
    seq![DeviceOp::Disconnect, DeviceOp::ClearSock]
}

/// The operations that attach a connection to an export of `size` bytes.
pub fn set_client(size: u64) -> (r: Vec<DeviceOp>)
    ensures
        r@ == attach_sequence(size),
{
    let mut ops: Vec<DeviceOp> = Vec::new();
    ops.push(DeviceOp::SetBlksize(BLOCK_SIZE));
    ops.push(DeviceOp::SetSizeBlocks(size / BLOCK_SIZE));
    let flags = HAS_FLAGS | SEND_FLUSH;
    assert(HAS_FLAGS | SEND_FLUSH == 5) by (bit_vector);
    ops.push(DeviceOp::SetFlags(flags));
    ops.push(DeviceOp::ClearSock);
    ops.push(DeviceOp::SetSock);
    assert(ops@ =~= attach_sequence(size));
    ops
}

/// The operations that detach a device from its connection.
pub fn close() -> (r: Vec<DeviceOp>)
    ensures
        r@ == detach_sequence(),
{
    let mut ops: Vec<DeviceOp> = Vec::new();
    ops.push(DeviceOp::Disconnect);
    ops.push(DeviceOp::ClearSock);
    assert(ops@ =~= detach_sequence());
    ops
}

} // verus!

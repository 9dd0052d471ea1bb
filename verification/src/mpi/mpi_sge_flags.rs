//! Flags of an MPI 2.0 scatter/gather element. They occupy the high byte of
//! the element's first word.

use vstd::prelude::*;

verus! {

/// The element describes one contiguous buffer.
pub const SIMPLE_ELEMENT: u8 = 0x10;

/// The last element of the list.
pub const LAST_ELEMENT: u8 = 0x80;

/// The last element of the buffer.
pub const END_OF_BUFFER: u8 = 0x40;

/// The end of the whole list.
pub const END_OF_LIST: u8 = 0x01;

/// The address has 64 bits.
pub const ADDR_64BIT: u8 = 0x02;

/// The controller reads the buffer; without it the controller writes it.
pub const HOST_TO_IOC: u8 = 0x04;

} // verus!

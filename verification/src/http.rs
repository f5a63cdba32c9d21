//! The request-head side of the HTTP front: parsing a request line and
//! header lines into a structured head. Reading bytes off a stream is a
//! caller's concern; everything here works on bytes already in memory.

pub mod head;

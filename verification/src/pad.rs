//! Zero padding of byte buffers to a target length.
//!
//! Left padding aligns data to the right, as Solidity pads numeric values;
//! right padding aligns data to the left, as Solidity pads byte sequences.

use vstd::prelude::*;
use crate::errors::PackError;

verus! {

/// `n` zero bytes.
pub open spec fn zero_seq(n: nat) -> Seq<u8> {
    Seq::new(n, |i: int| 0u8)
}

/// Pads `data` with zero bytes to exactly `length` bytes: on the left when
/// `left` holds, else on the right. Fails with `BufferOverrun` when `data`
/// is already longer than `length`.
pub fn zero_pad(data: &[u8], length: usize, left: bool) -> (r: Result<Vec<u8>, PackError>)
    ensures
        r is Ok <==> data@.len() <= length,
        r matches Ok(b) ==> b@.len() == length && (left ==> b@ =~= zero_seq(
            (length - data@.len()) as nat,
        ) + data@) && (!left ==> b@ =~= data@ + zero_seq((length - data@.len()) as nat)),
        r matches Err(e) ==> e == PackError::BufferOverrun,
{
    let n: usize = data.len();
    if n > length {
        return Err(PackError::BufferOverrun);
    }
    let mut out: Vec<u8> = Vec::new();
    if left {
        let mut i: usize = 0;
        while i < length - n
            invariant
                n <= length,
                i <= length - n,
                out@ =~= zero_seq(i as nat),
            decreases length - n - i,
        {
            out.push(0u8);
            proof {
                assert(out@ =~= zero_seq((i + 1) as nat));
            }
            i = i + 1;
        }
        let mut j: usize = 0;
        while j < n
            invariant
                n <= length,
                n == data@.len(),
                j <= n,
                out@ =~= zero_seq((length - n) as nat) + data@.take(j as int),
            decreases n - j,
        {
            out.push(data[j]);
            proof {
                assert(out@ =~= zero_seq((length - n) as nat) + data@.take(j + 1 as int));
            }
            j = j + 1;
        }
        proof {
            assert(data@.take(n as int) =~= data@);
        }
        Ok(out)
    } else {
        let mut j: usize = 0;
        while j < n
            invariant
                n == data@.len(),
                j <= n,
                out@ =~= data@.take(j as int),
            decreases n - j,
        {
            out.push(data[j]);
            j = j + 1;
        }
        proof {
            assert(data@.take(n as int) =~= data@);
        }
        let mut i: usize = 0;
        while i < length - n
            invariant
                n <= length,
                n == data@.len(),
                i <= length - n,
                out@ =~= data@ + zero_seq(i as nat),
            decreases length - n - i,
        {
            out.push(0u8);
            proof {
                assert(out@ =~= data@ + zero_seq((i + 1) as nat));
            }
            i = i + 1;
        }
        Ok(out)
    }
}

/// Left-pads `data` to `length` bytes, as Solidity pads values.
pub fn zero_pad_value(data: &[u8], length: usize) -> (r: Result<Vec<u8>, PackError>)
    ensures
        r is Ok <==> data@.len() <= length,
        r matches Ok(b) ==> b@.len() == length && b@ =~= zero_seq((length - data@.len()) as nat)
            + data@,
        r matches Err(e) ==> e == PackError::BufferOverrun,
{
    zero_pad(data, length, true)
}

/// Right-pads `data` to `length` bytes, as Solidity pads byte sequences.
pub fn zero_pad_bytes(data: &[u8], length: usize) -> (r: Result<Vec<u8>, PackError>)
    ensures
        r is Ok <==> data@.len() <= length,
        r matches Ok(b) ==> b@.len() == length && b@ =~= data@ + zero_seq(
            (length - data@.len()) as nat,
        ),
        r matches Err(e) ==> e == PackError::BufferOverrun,
{
    zero_pad(data, length, false)
}

} // verus!

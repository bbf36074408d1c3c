//! The response writer: clips the response text produced by the
//! dispatcher to the caller's output capacity, copies it into the
//! caller-owned output buffer, and terminates it when room remains.
//!
//! The output target is a caller-owned byte buffer whose length is its
//! capacity; the writer never changes that length and never touches a
//! byte past it.

use vstd::prelude::*;

verus! {

/// Copy `src` into the front of `dest`, as many bytes as fit, and return
/// the number of bytes copied.  `dest` keeps its length; bytes past the
/// copied prefix keep their old values.
pub fn copy_str(src: &[u8], dest: &mut Vec<u8>) -> (n: usize)
    ensures
        n == if src@.len() <= old(dest)@.len() {
            src@.len()
        } else {
            old(dest)@.len()
        },
        final(dest)@.len() == old(dest)@.len(),
        forall|i: int| 0 <= i < n ==> final(dest)@[i] == src@[i],
        forall|i: int| n <= i < old(dest)@.len() ==> final(dest)@[i] == old(dest)@[i],
{
    let len = if src.len() > dest.len() {
        dest.len()
    } else {
        src.len()
    };
    let mut i: usize = 0;
    while i < len
        invariant
            len <= src@.len(),
            len <= dest@.len(),
            dest@.len() == old(dest)@.len(),
            0 <= i <= len,
            forall|k: int| 0 <= k < i ==> dest@[k] == src@[k],
            forall|k: int| i <= k < dest@.len() ==> dest@[k] == old(dest)@[k],
        decreases len - i,
    {
        dest.set(i, src[i]);
        i += 1;
    }
    len
}

/// Write a response into the caller's output buffer: copy the response
/// clipped to the buffer's capacity, put one terminator byte right after
/// the copied text when room remains within the capacity, and return the
/// number of response bytes written, the terminator not counted.  Bytes
/// past the terminator keep their old values; nothing past the capacity
/// is ever touched.
pub fn write_output(response: &[u8], out: &mut Vec<u8>) -> (n: usize)
    ensures
        final(out)@.len() == old(out)@.len(),
        n == if response@.len() <= old(out)@.len() {
            response@.len()
        } else {
            old(out)@.len()
        },
        n <= old(out)@.len(),
        forall|i: int| 0 <= i < n ==> final(out)@[i] == response@[i],
        n < old(out)@.len() ==> final(out)@[n as int] == 0,
        forall|i: int| n < i < old(out)@.len() ==> final(out)@[i] == old(out)@[i],
{
    let n = copy_str(response, out);
    if n < out.len() {
        out.set(n, 0);
    }
    n
}

} // verus!

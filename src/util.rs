use vstd::prelude::*;

verus! {

pub const CR: u8 = 0x0D;

pub const LF: u8 = 0x0A;

/// `b` holds a CRLF pair starting at index `i`.
pub open spec fn crlf_at(b: Seq<u8>, i: int) -> bool {
    0 <= i && i + 1 < b.len() && b[i] == CR && b[i + 1] == LF
}

/// `b` holds a CRLF pair somewhere.
pub open spec fn has_crlf(b: Seq<u8>) -> bool {
    exists|i: int| crlf_at(b, i)
}

/// `i` is the index of the first CRLF pair in `b`.
pub open spec fn first_crlf(b: Seq<u8>, i: int) -> bool {
    crlf_at(b, i) && forall|j: int| 0 <= j < i ==> !crlf_at(b, j)
}

/// Index of the first CR that is directly followed by LF, if there is one.
pub fn find_cr_lf(buf: &[u8]) -> (r: Option<usize>)
    ensures
        match r {
            Some(i) => first_crlf(buf@, i as int),
            None => !has_crlf(buf@),
        },
{
    if buf.len() < 2 {
        return None;
    }
    let mut i: usize = 0;
    while i < buf.len() - 1
        invariant
            buf.len() >= 2,
            i <= buf.len() - 1,
            forall|j: int| 0 <= j < i ==> !crlf_at(buf@, j),
        decreases buf.len() - 1 - i,
    {
        if buf[i] == CR && buf[i + 1] == LF {
            return Some(i);
        }
        i = i + 1;
    }
    None
}

} // verus!

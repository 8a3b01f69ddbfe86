use vstd::prelude::*;

verus! {

/// Why a string could not be encoded in UCS-2.
#[derive(Clone, Copy, PartialEq, Eq, Structural, Debug)]
pub enum Ucs2Error {
    /// The buffer ran out before the string did.
    BufferOverflow,
    /// A character lies outside the basic multilingual plane.
    MultiByte,
}

/// `c` has a UCS-2 code unit: it lies below 0x10000.
pub open spec fn in_bmp(c: char) -> bool {
    (c as u32) < 0x10000
}

/// The number of characters that encoding `cs` into a buffer of `size` code units
/// gets through: it stops at the first character outside the basic multilingual
/// plane, or at the first character for which the buffer has no room.
pub open spec fn encoded_count(cs: Seq<char>, size: int) -> int
    decreases cs.len(),
{
    if cs.len() == 0 {
        0
    } else {
        let n = encoded_count(cs.drop_last(), size);
        if n == cs.len() - 1 && in_bmp(cs.last()) && n < size {
            n + 1
        } else {
            n
        }
    }
}

/// What encoding `cs` into a buffer of `size` code units answers.
pub open spec fn encode_result(cs: Seq<char>, size: int) -> Result<usize, Ucs2Error> {
    let n = encoded_count(cs, size);
    if n == cs.len() {
        Ok(n as usize)
    } else if !in_bmp(cs[n]) {
        Err(Ucs2Error::MultiByte)
    } else {
        Err(Ucs2Error::BufferOverflow)
    }
}

/// `ucs2::encode`: writes the UCS-2 code unit of each character of `input` in turn
/// into `buffer`, from the start, and answers the number written. It stops with
/// `MultiByte` at a character outside the basic multilingual plane, and with
/// `BufferOverflow` at a character for which the buffer has no room; the code units
/// written before it stay. Entries past those written are left as they were.
#[verifier::external_body]
fn ucs2_encode(input: &str, buffer: &mut Vec<u16>) -> (ret: Result<usize, Ucs2Error>)
    ensures
        ret == encode_result(input@, old(buffer)@.len() as int),
        final(buffer)@.len() == old(buffer)@.len(),
        forall|k: int| 0 <= k < final(buffer)@.len() ==> #[trigger] final(buffer)@[k] == if k < encoded_count(input@, old(buffer)@.len() as int) {
            input@[k] as u16
        } else {
            old(buffer)@[k]
        },
{
    match ::ucs2::encode(input, buffer.as_mut_slice()) {
        Ok(n) => Ok(n),
        Err(::ucs2::Error::BufferOverflow) => Err(Ucs2Error::BufferOverflow),
        Err(::ucs2::Error::MultiByte) => Err(Ucs2Error::MultiByte),
    }
}

/// `string` as `char_count` UCS-2 code units, padded with zeros. Every character
/// must have a code unit and there must be room for all of them.
pub fn to_utf16(string: &str, char_count: usize) -> (ret: Vec<u16>)
    requires
        encode_result(string@, char_count as int) is Ok,
    ensures
        ret@.len() == char_count,
        forall|k: int| 0 <= k < char_count ==> #[trigger] ret@[k] == if k < string@.len() {
            string@[k] as u16
        } else {
            0u16
        },
{
    let mut ret: Vec<u16> = Vec::new();
    let mut i: usize = 0;
    while i < char_count
        invariant
            i <= char_count,
            ret@.len() == i,
            forall|k: int| 0 <= k < i ==> #[trigger] ret@[k] == 0,
        decreases char_count - i,
    {
        ret.push(0);
        i = i + 1;
    }
    let r = ucs2_encode(string, &mut ret);
    proof {
        assert(encoded_count(string@, char_count as int) == string@.len());
    }
    ret
}

} // verus!

//! What the compiler hands to its caller besides the machine code: the name
//! of the file that the code goes to, and the code as a list of opcodes.

use vstd::prelude::*;
use crate::text::{chars_of, push_char, push_text, same_text};

verus! {

/// A path without the extension `.py`; where the extension is repeated, all
/// repetitions go.
pub open spec fn without_py(path: Seq<char>) -> Seq<char>
    decreases path.len(),
{
    if path.len() >= 3 && path[path.len() - 3] == '.' && path[path.len() - 2] == 'p' && path[path.len()
        - 1] == 'y' {
        without_py(path.subrange(0, path.len() - 3))
    } else {
        path
    }
}

/// The extension of the files that hold code for a target.
pub open spec fn extension(target: Seq<char>) -> Seq<char> {
    if target == "chip8"@ {
        ".ch8"@
    } else {
        ".bin"@
    }
}

/// The path that compiled code goes to if the caller names none: the path
/// of the source without `.py`, with the extension of the target.
pub open spec fn output_path(input: Seq<char>, target: Seq<char>) -> Seq<char> {
    without_py(input) + extension(target)
}

/// The path that compiled code goes to if the caller names none.
pub fn default_output_path(input: &str, target: &str) -> (path: String)
    ensures
        path@ == output_path(input@, target@),
{
    let chars = chars_of(input);
    let mut n: usize = chars.len();
    assert(chars@.subrange(0, n as int) =~= chars@);
    while n >= 3 && chars[n - 3] == '.' && chars[n - 2] == 'p' && chars[n - 1] == 'y'
        invariant
            n <= chars.len(),
            without_py(chars@) == without_py(chars@.subrange(0, n as int)),
        decreases n,
    {
        assert(chars@.subrange(0, n as int).subrange(0, n - 3) =~= chars@.subrange(0, n - 3));
        n -= 3;
    }
    let mut path = String::new();
    let mut k: usize = 0;
    while k < n
        invariant
            k <= n <= chars.len(),
            path@ == chars@.subrange(0, k as int),
        decreases n - k,
    {
        push_char(&mut path, chars[k]);
        assert(path@ =~= chars@.subrange(0, k + 1));
        k += 1;
    }
    if same_text(target, "chip8") {
        push_text(&mut path, ".ch8");
    } else {
        push_text(&mut path, ".bin");
    }
    path
}

/// The opcodes that a sequence of bytes holds: each pair of bytes is one
/// opcode, high byte first; a last byte without a partner is left out.
pub open spec fn opcodes_of(code: Seq<u8>) -> Seq<u16> {
    Seq::new(code.len() / 2, |k: int| (code[2 * k] as int * 256 + code[2 * k + 1] as int) as u16)
}

/// The opcodes of a piece of machine code, for a listing. Opcode `k` stands
/// at address `0x200 + 2 * k`.
pub fn opcodes(code: &[u8]) -> (listing: Vec<u16>)
    ensures
        listing@ == opcodes_of(code@),
{
    let mut listing: Vec<u16> = Vec::new();
    let mut k: usize = 0;
    while k < code.len() / 2
        invariant
            k <= code.len() / 2,
            listing@ == opcodes_of(code@).subrange(0, k as int),
        decreases code.len() / 2 - k,
    {
        let high: u16 = code[2 * k] as u16;
        let low: u16 = code[2 * k + 1] as u16;
        listing.push(high * 256 + low);
        assert(listing@ =~= opcodes_of(code@).subrange(0, k + 1));
        k += 1;
    }
    assert(opcodes_of(code@).subrange(0, (code.len() / 2) as int) =~= opcodes_of(code@));
    listing
}

} // verus!

//! Which directory entries the player takes as tracks.
use vstd::prelude::*;

verus! {

/// `c` is the ASCII letter `lower`, in either case.
pub open spec fn is_letter_ignoring_case(c: u8, lower: u8) -> bool {
    c == lower || c == lower - 0x20
}

/// The file name has the extension `wav` in any mix of cases: it ends in a dot
/// and the three letters, and the dot is not the first byte (a name that starts
/// with its only dot has no extension).
pub open spec fn has_wav_extension(name: Seq<u8>) -> bool {
    let n = name.len() as int;
    &&& n >= 5
    &&& name[n - 4] == 0x2e
    &&& is_letter_ignoring_case(name[n - 3], 0x77)
    &&& is_letter_ignoring_case(name[n - 2], 0x61)
    &&& is_letter_ignoring_case(name[n - 1], 0x76)
}

/// A name is a track exactly when, after at least one byte, it ends in `.wav` in
/// any mix of cases: nothing before those four bytes matters but that it is there.
pub proof fn lemma_wav_names(prefix: Seq<u8>, ending: Seq<u8>)
    requires
        prefix.len() >= 1,
        ending.len() == 4,
    ensures
        has_wav_extension(prefix + ending) <==> (
            ending[0] == '.' as u8
            && (ending[1] == 'w' as u8 || ending[1] == 'W' as u8)
            && (ending[2] == 'a' as u8 || ending[2] == 'A' as u8)
            && (ending[3] == 'v' as u8 || ending[3] == 'V' as u8)
        ),
        !has_wav_extension(ending),
{
    let name = prefix + ending;
    let n = name.len() as int;
    assert(name[n - 4] == ending[0] && name[n - 3] == ending[1] && name[n - 2] == ending[2] && name[n - 1] == ending[3]);
}

/// Whether a directory entry named `name` is taken as a track.
pub fn is_wav_file_name(name: &[u8]) -> (r: bool)
    ensures
        r == has_wav_extension(name@),
{
    let n = name.len();
    if n < 5 {
        return false;
    }
    let w = name[n - 3];
    let a = name[n - 2];
    let v = name[n - 1];
    name[n - 4] == 0x2e && (w == 0x77 || w == 0x57) && (a == 0x61 || a == 0x41) && (v == 0x76 || v == 0x56)
}

} // verus!

//! Names that the build helper needs.

use vstd::prelude::*;
use vstd::string::StringSliceAdditionalSpecFns;

verus! {

/// Whether `needle` stands in `hay` from the place `i` on.
pub open spec fn occurs_at(hay: Seq<u8>, needle: Seq<u8>, i: int) -> bool {
    0 <= i && i + needle.len() <= hay.len() && hay.subrange(i, i + needle.len()) == needle
}

/// Whether `needle` stands somewhere in `hay`.
pub open spec fn has_infix(hay: Seq<u8>, needle: Seq<u8>) -> bool {
    exists|i: int| occurs_at(hay, needle, i)
}

/// Whether the target triple `target` names Windows: it holds `-windows-`.
pub open spec fn names_windows(target: Seq<char>) -> bool {
    has_infix(vstd::utf8::encode_utf8(target), "-windows-".spec_bytes())
}

/// Tests whether `needle` stands in `hay` from the place `i` on.
fn matches_at(hay: &[u8], needle: &[u8], i: usize) -> (r: bool)
    requires
        i + needle@.len() <= hay@.len(),
    ensures
        r == occurs_at(hay@, needle@, i as int),
{
    let total: usize = hay.len();
    let mut k: usize = 0;
    while k < needle.len()
        invariant
            0 <= k <= needle@.len(),
            i + needle@.len() <= hay@.len() == total,
            forall|j: int| 0 <= j < k ==> hay@[i + j] == needle@[j],
        decreases needle@.len() - k,
    {
        if hay[i + k] != needle[k] {
            proof {
                assert(hay@.subrange(i as int, i + needle@.len())[k as int] == hay@[i + k]);
            }
            return false;
        }
        k = k + 1;
    }
    assert(hay@.subrange(i as int, i + needle@.len()) =~= needle@);
    true
}

/// Tests whether `needle` stands somewhere in `hay`.
pub fn contains_bytes(hay: &[u8], needle: &[u8]) -> (r: bool)
    ensures
        r == has_infix(hay@, needle@),
{
    if needle.len() > hay.len() {
        return false;
    }
    let last: usize = hay.len() - needle.len();
    let mut i: usize = 0;
    loop
        invariant
            0 <= i <= last,
            last == hay@.len() - needle@.len(),
            forall|j: int| 0 <= j < i ==> !occurs_at(hay@, needle@, j),
        decreases last - i,
    {
        if matches_at(hay, needle, i) {
            return true;
        }
        if i == last {
            return false;
        }
        i = i + 1;
    }
}

/// The file name of the game's executable for the target triple `target`,
/// or for the host where no target is given: with the extension `.exe` on
/// Windows and without one elsewhere.
pub fn get_filename(target: &Option<String>, host_is_windows: bool) -> (name: &'static str)
    ensures
        name@ == if match target {
            Some(target) => names_windows(target@),
            None => host_is_windows,
        } {
            "univ.exe"@
        } else {
            "univ"@
        },
{
    let windows: bool = match target {
        Some(target) => contains_bytes(target.as_str().as_bytes(), "-windows-".as_bytes()),
        None => host_is_windows,
    };
    if windows {
        "univ.exe"
    } else {
        "univ"
    }
}

} // verus!

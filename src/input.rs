use vstd::prelude::*;
use vstd::string::StrSliceExecFns;

use crate::error::CryptError;

verus! {

/// How an input path is read: one still raster, or an animation (an animated
/// file, or a directory of numbered stills).
#[derive(Debug, Clone, Copy, PartialEq, Eq)]
pub enum InputKind {
    Still,
    Animation,
}

/// `s` ends with `suffix`.
pub open spec fn has_suffix(s: Seq<char>, suffix: Seq<char>) -> bool {
    suffix.len() <= s.len() && s.subrange(s.len() - suffix.len(), s.len() as int) == suffix
}

/// Whether `s` ends with `suffix`.
fn ends_with(s: &str, suffix: &str) -> (r: bool)
    ensures
        r == has_suffix(s@, suffix@),
{
    let n: usize = s.unicode_len();
    let m: usize = suffix.unicode_len();
    if m > n {
        return false;
    }
    let mut i: usize = 0;
    while i < m
        invariant
            n == s@.len(),
            m == suffix@.len(),
            m <= n,
            i <= m,
            forall|j: int| 0 <= j < i ==> s@[n - m + j] == suffix@[j],
        decreases m - i,
    {
        if s.get_char(n - m + i) != suffix.get_char(i) {
            assert(s@.subrange(n - m, n as int)[i as int] != suffix@[i as int]);
            return false;
        }
        i = i + 1;
    }
    assert(s@.subrange(n - m, n as int) =~= suffix@);
    true
}

/// The path names a still raster file: it ends in `.png`, `.jpg` or `.jpeg`.
pub open spec fn is_still_path(path: Seq<char>) -> bool {
    has_suffix(path, ".png"@) || has_suffix(path, ".jpg"@) || has_suffix(path, ".jpeg"@)
}

/// Decides how to read an input: a still raster by its extension, else an
/// animation when it is a directory or ends in `.gif`; anything else is
/// refused with `UnsupportedInput`.
pub fn classify_input(path: &str, is_dir: bool) -> (r: Result<InputKind, CryptError>)
    ensures
        r == (if is_still_path(path@) {
            Ok::<InputKind, CryptError>(InputKind::Still)
        } else if is_dir || has_suffix(path@, ".gif"@) {
            Ok(InputKind::Animation)
        } else {
            Err(CryptError::UnsupportedInput)
        }),
{
    if ends_with(path, ".png") || ends_with(path, ".jpg") || ends_with(path, ".jpeg") {
        Ok(InputKind::Still)
    } else if is_dir || ends_with(path, ".gif") {
        Ok(InputKind::Animation)
    } else {
        Err(CryptError::UnsupportedInput)
    }
}

} // verus!

//! Helpers for the platform layer: object-name translation to NT paths and
//! status-word tests.  The syscalls themselves live with the caller; these
//! are the pure rules they follow.

use vstd::prelude::*;
use vstd::string::StrSliceExecFns;
use vstd::string::StringExecFns;

verus! {

/// The status word that reports success (any non-negative status does).
pub const STATUS_SUCCESS: i32 = 0;

/// The status word that reports an expired wait.
pub const STATUS_TIMEOUT: i32 = 0x102;

/// `s` starts with `p`.
pub open spec fn has_prefix(s: Seq<char>, p: Seq<char>) -> bool {
    s.len() >= p.len() && s.subrange(0, p.len() as int) == p
}

/// Where an object name lands in the NT namespace: `Local\` and `Global\`
/// prefixes are replaced by the base objects directory, an absolute NT path
/// stays as it is, and a bare name moves under the base objects directory.
pub open spec fn spec_to_nt_path(name: Seq<char>) -> Seq<char> {
    if has_prefix(name, "Global\\"@) {
        "\\BaseNamedObjects\\"@ + name.skip("Global\\"@.len() as int)
    } else if has_prefix(name, "Local\\"@) {
        "\\BaseNamedObjects\\"@ + name.skip("Local\\"@.len() as int)
    } else if name.len() > 0 && name[0] == '\\' {
        name
    } else {
        "\\BaseNamedObjects\\"@ + name
    }
}

/// Whether `s` starts with `p`, by characters.
fn str_has_prefix(s: &str, p: &str) -> (r: bool)
    ensures
        r == has_prefix(s@, p@),
{
    let slen = s.unicode_len();
    let plen = p.unicode_len();
    if slen < plen {
        proof {
            assert(!has_prefix(s@, p@));
        }
        return false;
    }
    let mut i: usize = 0;
    while i < plen
        invariant
            i <= plen,
            plen == p@.len(),
            slen == s@.len(),
            plen <= slen,
            forall|k: int| 0 <= k < i ==> s@[k] == p@[k],
        decreases plen - i,
    {
        if s.get_char(i) != p.get_char(i) {
            proof {
                assert(s@.subrange(0, plen as int)[i as int] != p@[i as int]);
            }
            return false;
        }
        i = i + 1;
    }
    proof {
        assert(s@.subrange(0, plen as int) =~= p@);
    }
    true
}

/// Translate a Win32 object name into its NT path.
pub fn to_nt_path(name: &str) -> (r: String)
    ensures
        r@ == spec_to_nt_path(name@),
{
    let base = "\\BaseNamedObjects\\";
    if str_has_prefix(name, "Global\\") {
        let start = "Global\\".unicode_len();
        let end = name.unicode_len();
        let mut s = String::from_str(base);
        s.append(name.substring_char(start, end));
        proof {
            assert(name@.subrange("Global\\"@.len() as int, name@.len() as int) =~= name@.skip(
                "Global\\"@.len() as int,
            ));
        }
        s
    } else if str_has_prefix(name, "Local\\") {
        let start = "Local\\".unicode_len();
        let end = name.unicode_len();
        let mut s = String::from_str(base);
        s.append(name.substring_char(start, end));
        proof {
            assert(name@.subrange("Local\\"@.len() as int, name@.len() as int) =~= name@.skip(
                "Local\\"@.len() as int,
            ));
        }
        s
    } else if name.unicode_len() > 0 && name.get_char(0) == '\\' {
        String::from_str(name)
    } else {
        let mut s = String::from_str(base);
        s.append(name);
        s
    }
}

/// Whether a status word reports success: every non-negative status does.
pub fn nt_success(status: i32) -> (r: bool)
    ensures
        r == (status >= 0),
{
    status >= 0
}

/// Whether a status word reports an expired wait.
pub fn is_timeout(status: i32) -> (r: bool)
    ensures
        r == (status == STATUS_TIMEOUT),
{
    status == STATUS_TIMEOUT
}

/// A duration in nanoseconds as a relative NT timeout: negative hundreds of
/// nanoseconds.
pub fn duration_to_nt_timeout(nanos: u64) -> (r: i64)
    requires
        nanos / 100 <= i64::MAX as u64,
    ensures
        r == -((nanos / 100) as int),
{
    -((nanos / 100) as i64)
}

} // verus!

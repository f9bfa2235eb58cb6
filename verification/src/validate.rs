use vstd::prelude::*;
use vstd::string::StrSliceExecFns;

verus! {

/// The Unicode white-space characters, the set that trimming removes.
pub open spec fn spec_is_space(c: char) -> bool {
    ||| c as u32 == 32
    ||| (9 <= c as u32 && c as u32 <= 13)
    ||| c as u32 == 0x85
    ||| c as u32 == 0xA0
    ||| c as u32 == 0x1680
    ||| (0x2000 <= c as u32 && c as u32 <= 0x200A)
    ||| c as u32 == 0x2028
    ||| c as u32 == 0x2029
    ||| c as u32 == 0x202F
    ||| c as u32 == 0x205F
    ||| c as u32 == 0x3000
}

/// A string that trims to nothing: every character is white space.
pub open spec fn spec_all_space(s: Seq<char>) -> bool {
    forall|i: int| 0 <= i < s.len() ==> spec_is_space(#[trigger] s[i])
}

fn is_space_char(c: char) -> (r: bool)
    ensures
        r == spec_is_space(c),
{
    let u = c as u32;
    u == 32 || (9 <= u && u <= 13) || u == 0x85 || u == 0xA0 || u == 0x1680 || (0x2000 <= u && u
        <= 0x200A) || u == 0x2028 || u == 0x2029 || u == 0x202F || u == 0x205F || u == 0x3000
}

/// Whether a group name is acceptable: it must hold at least one
/// non-white-space character (a name that trims to nothing is refused).
pub fn group_name_valid(name: &str) -> (r: bool)
    ensures
        r == !spec_all_space(name@),
{
    let n = name.unicode_len();
    let mut i: usize = 0;
    while i < n
        invariant
            i <= n,
            n == name@.len(),
            forall|k: int| 0 <= k < i ==> spec_is_space(#[trigger] name@[k]),
        decreases n - i,
    {
        if !is_space_char(name.get_char(i)) {
            return true;
        }
        i = i + 1;
    }
    false
}

/// Whether the string holds `..` anywhere.
pub open spec fn spec_has_dotdot(s: Seq<char>) -> bool {
    exists|i: int| 0 <= i && i + 1 < s.len() && #[trigger] s[i] == '.' && s[i + 1] == '.'
}

/// A file name that stays inside its project directory: no `..`, no
/// path separator of either kind.
pub open spec fn spec_filename_safe(s: Seq<char>) -> bool {
    !spec_has_dotdot(s) && !s.contains('/') && !s.contains('\\')
}

/// Whether a client-supplied markdown file name may be used inside a
/// project directory.
pub fn markdown_filename_is_safe(filename: &str) -> (r: bool)
    ensures
        r == spec_filename_safe(filename@),
{
    let n = filename.unicode_len();
    let mut i: usize = 0;
    while i < n
        invariant
            i <= n,
            n == filename@.len(),
            forall|k: int| 0 <= k < i ==> #[trigger] filename@[k] != '/',
            forall|k: int| 0 <= k < i ==> #[trigger] filename@[k] != '\\',
            forall|k: int|
                0 <= k < i && k + 1 < n ==> !(#[trigger] filename@[k] == '.' && filename@[k + 1]
                    == '.'),
        decreases n - i,
    {
        let c = filename.get_char(i);
        if c == '/' || c == '\\' {
            proof {
                assert(filename@.contains(c)) by {
                    assert(filename@[i as int] == c);
                }
            }
            return false;
        }
        if c == '.' && i + 1 < n {
            if filename.get_char(i + 1) == '.' {
                proof {
                    assert(spec_has_dotdot(filename@)) by {
                        assert(filename@[i as int] == '.' && filename@[i + 1 as int] == '.');
                    }
                }
                return false;
            }
        }
        i = i + 1;
    }
    proof {
        if filename@.contains('/') {
            let w = choose|w: int| 0 <= w < filename@.len() && filename@[w] == '/';
            assert(filename@[w] != '/');
        }
        if filename@.contains('\\') {
            let w = choose|w: int| 0 <= w < filename@.len() && filename@[w] == '\\';
            assert(filename@[w] != '\\');
        }
    }
    true
}

} // verus!

use vstd::prelude::*;
use vstd::string::*;

verus! {

/// Position of the last `.` in `s`, if there is one.
pub open spec fn last_dot(s: Seq<char>) -> Option<int>
    decreases s.len(),
{
    if s.len() == 0 {
        None
    } else if s.last() == '.' {
        Some(s.len() - 1)
    } else {
        last_dot(s.drop_last())
    }
}

/// The extension of a file name: the text after its last `.`. A name with no
/// `.`, or whose only `.` is its first character, has none.
pub open spec fn extension(s: Seq<char>) -> Option<Seq<char>> {
    match last_dot(s) {
        None => None,
        Some(k) => if k == 0 {
            None
        } else {
            Some(s.subrange(k + 1, s.len() as int))
        },
    }
}

/// The extension of `name`, case kept as it is.
pub fn extension_of(name: &str) -> (r: Option<String>)
    ensures
        r matches Some(e) ==> extension(name@) == Some(e@),
        r is None ==> extension(name@) is None,
{
    let n = name.unicode_len();
    let mut i: usize = n;
    assert(name@.subrange(0, n as int) =~= name@);
    while i > 0
        invariant
            n == name@.len(),
            i <= n,
            last_dot(name@) == last_dot(name@.subrange(0, i as int)),
        decreases i,
    {
        let c = name.get_char(i - 1);
        if c == '.' {
            if i == 1 {
                return None;
            }
            let tail = name.substring_char(i, n);
            return Some(String::from_str(tail));
        }
        assert(name@.subrange(0, i as int).drop_last() =~= name@.subrange(0, i - 1));
        i -= 1;
    }
    None
}

} // verus!

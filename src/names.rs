use vstd::prelude::*;
use vstd::string::*;
use crate::entry::{DirEntry, listing_view};

verus! {

/// Characters that a clean name does not hold.
pub open spec fn is_unclean(c: char) -> bool {
    c == ' ' || c == '(' || c == ')'
}

pub open spec fn is_paren(c: char) -> bool {
    c == '(' || c == ')'
}

/// A name with each space turned into `_` and each `(` and `)` dropped.
pub open spec fn cleaned(s: Seq<char>) -> Seq<char>
    decreases s.len(),
{
    if s.len() == 0 {
        s
    } else {
        let rest = cleaned(s.drop_last());
        if s.last() == ' ' {
            rest.push('_')
        } else if is_paren(s.last()) {
            rest
        } else {
            rest.push(s.last())
        }
    }
}

/// A name with its parentheses taken out, every other character kept in order.
pub open spec fn without_parens(s: Seq<char>) -> Seq<char> {
    s.filter(|c: char| !is_paren(c))
}

/// A character of a name as it stands after cleaning, once parentheses are gone.
pub open spec fn underscored(c: char) -> char {
    if c == ' ' {
        '_'
    } else {
        c
    }
}

/// The new name for an entry, where it needs one: only regular files are
/// renamed, and only when cleaning changes their name.
pub open spec fn rename_target(e: (Seq<char>, bool)) -> Option<Seq<char>> {
    if e.1 && cleaned(e.0) != e.0 {
        Some(cleaned(e.0))
    } else {
        None
    }
}

/// The listing as it stands once every planned rename has been made.
pub open spec fn after_cleaning(v: Seq<(Seq<char>, bool)>) -> Seq<(Seq<char>, bool)> {
    v.map_values(
        |e: (Seq<char>, bool)|
            match rename_target(e) {
                Some(t) => (t, e.1),
                None => e,
            },
    )
}

/// Computes the clean form of a file name.
pub fn clean_name(name: &str) -> (r: String)
    ensures
        r@ == cleaned(name@),
{
    let n = name.unicode_len();
    let mut out = String::new();
    let mut i: usize = 0;
    while i < n
        invariant
            n == name@.len(),
            i <= n,
            out@ == cleaned(name@.subrange(0, i as int)),
        decreases n - i,
    {
        let c = name.get_char(i);
        assert(name@.subrange(0, i + 1).drop_last() =~= name@.subrange(0, i as int));
        if c == ' ' {
            proof {
                reveal_strlit("_");
            }
            out.append("_");
            assert(out@ =~= cleaned(name@.subrange(0, i + 1)));
        } else if c == '(' || c == ')' {
        } else {
            out.append(name.substring_char(i, i + 1));
            assert(out@ =~= cleaned(name@.subrange(0, i + 1)));
        }
        i += 1;
    }
    assert(name@.subrange(0, n as int) =~= name@);
    out
}

/// For each entry of a listing, the name it is to be renamed to, if any.
pub fn plan_renames(entries: &Vec<DirEntry>) -> (r: Vec<Option<String>>)
    ensures
        r.len() == entries.len(),
        forall|i: int|
            0 <= i < r.len() ==> match #[trigger] r@[i] {
                Some(t) => rename_target(entries@[i]@) == Some(t@),
                None => rename_target(entries@[i]@) is None,
            },
{
    let mut r: Vec<Option<String>> = Vec::new();
    let mut i: usize = 0;
    while i < entries.len()
        invariant
            i <= entries.len(),
            r.len() == i,
            forall|k: int|
                0 <= k < i ==> match #[trigger] r@[k] {
                    Some(t) => rename_target(entries@[k]@) == Some(t@),
                    None => rename_target(entries@[k]@) is None,
                },
        decreases entries.len() - i,
    {
        let e = &entries[i];
        if e.is_file {
            let t = clean_name(e.name.as_str());
            if t == e.name {
                r.push(None);
            } else {
                r.push(Some(t));
            }
        } else {
            r.push(None);
        }
        i += 1;
    }
    r
}

/// A cleaned name holds no space and no parenthesis; apart from that it is
/// the original name with its parentheses taken out and each space written
/// as `_`, every other character kept in its order.
pub proof fn lemma_cleaned_name_shape(s: Seq<char>)
    ensures
        forall|i: int| 0 <= i < cleaned(s).len() ==> !is_unclean(#[trigger] cleaned(s)[i]),
        cleaned(s) == without_parens(s).map_values(|c: char| underscored(c)),
    decreases s.len(),
{
    if s.len() > 0 {
        lemma_cleaned_name_shape(s.drop_last());
        reveal(Seq::filter);
        let f = without_parens(s);
        let g = without_parens(s.drop_last());
        if !is_paren(s.last()) {
            assert(f == g.push(s.last()));
            assert(f.map_values(|c: char| underscored(c)) =~= g.map_values(
                |c: char| underscored(c),
            ).push(underscored(s.last())));
        } else {
            assert(f == g);
        }
        assert(cleaned(s) =~= f.map_values(|c: char| underscored(c)));
    }
}

/// Cleaning a clean name leaves it as it is.
pub proof fn lemma_cleaned_is_clean(s: Seq<char>)
    ensures
        cleaned(cleaned(s)) == cleaned(s),
{
    lemma_cleaned_name_shape(s);
    lemma_clean_without_unclean(cleaned(s));
}

proof fn lemma_clean_without_unclean(s: Seq<char>)
    requires
        forall|i: int| 0 <= i < s.len() ==> !is_unclean(#[trigger] s[i]),
    ensures
        cleaned(s) == s,
    decreases s.len(),
{
    if s.len() > 0 {
        assert(forall|i: int|
            0 <= i < s.drop_last().len() ==> s.drop_last()[i] == #[trigger] s[i]);
        lemma_clean_without_unclean(s.drop_last());
        assert(s.drop_last().push(s.last()) =~= s);
    }
}

/// Once the planned renames are made, planning again renames nothing.
pub proof fn lemma_second_cleaning_renames_nothing(v: Seq<(Seq<char>, bool)>)
    ensures
        forall|i: int|
            0 <= i < after_cleaning(v).len() ==> #[trigger] rename_target(after_cleaning(v)[i])
                is None,
{
    assert forall|i: int| 0 <= i < after_cleaning(v).len() implies #[trigger] rename_target(
        after_cleaning(v)[i],
    ) is None by {
        lemma_cleaned_is_clean(v[i].0);
    }
}

} // verus!

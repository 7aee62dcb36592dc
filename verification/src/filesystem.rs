use vstd::prelude::*;
use crate::text::{split_on, char_views, chars_of, split_chars, first_token, first_token_of, string_from_chars};

verus! {

/// Whether `s` ends with `suffix`.
pub open spec fn ends_with(s: Seq<char>, suffix: Seq<char>) -> bool {
    suffix.len() <= s.len() && s.skip(s.len() - suffix.len()) == suffix
}

/// The first of `ls` that ends with `suffix`.
pub open spec fn first_line_ending(ls: Seq<Seq<char>>, suffix: Seq<char>) -> Option<Seq<char>>
    decreases ls.len(),
{
    if ls.len() == 0 {
        None
    } else if ends_with(ls[0], suffix) {
        Some(ls[0])
    } else {
        first_line_ending(ls.drop_first(), suffix)
    }
}

/// The dataset mounted at `mountpoint` in a `zfs list -o name,mountpoint`
/// listing: the first word of the first line that ends with a space followed
/// by the mountpoint, as `grep ' <mountpoint>$'` picks lines and
/// `split_whitespace` picks the word. `None` when no line ends so.
pub open spec fn filesystem_for(listing: Seq<char>, mountpoint: Seq<char>) -> Option<Seq<char>> {
    match first_line_ending(split_on(listing, '\n'), seq![' '] + mountpoint) {
        Some(l) => first_token(l),
        None => None,
    }
}

fn ends_with_exec(s: &Vec<char>, suffix: &Vec<char>) -> (r: bool)
    ensures
        r == ends_with(s@, suffix@),
{
    if suffix.len() > s.len() {
        return false;
    }
    let off = s.len() - suffix.len();
    let mut k: usize = 0;
    while k < suffix.len()
        invariant
            off + suffix.len() == s.len(),
            k <= suffix.len(),
            forall|j: int| 0 <= j < k ==> s@[off + j] == suffix@[j],
        decreases suffix.len() - k,
    {
        if s[off + k] != suffix[k] {
            assert(s@.skip(off as int)[k as int] != suffix@[k as int]);
            return false;
        }
        k = k + 1;
    }
    assert(s@.skip(off as int) =~= suffix@);
    true
}

/// The dataset mounted at `mountpoint`, read from the output of
/// `zfs list -t filesystem -o name,mountpoint`; `None` when no dataset is
/// mounted there.
pub fn get_filesystem(listing: &str, mountpoint: &str) -> (r: Option<String>)
    ensures
        match r {
            Some(s) => filesystem_for(listing@, mountpoint@) == Some(s@),
            None => filesystem_for(listing@, mountpoint@) is None,
        },
{
    let chars = chars_of(listing);
    let ls = split_chars(&chars, '\n');
    let mut suffix: Vec<char> = Vec::new();
    suffix.push(' ');
    let m = chars_of(mountpoint);
    let mut k: usize = 0;
    while k < m.len()
        invariant
            k <= m.len(),
            suffix@ =~= seq![' '] + m@.take(k as int),
        decreases m.len() - k,
    {
        suffix.push(m[k]);
        k = k + 1;
    }
    assert(m@.take(m.len() as int) =~= m@);
    let ghost lv = char_views(ls@);
    let mut i: usize = 0;
    assert(lv.skip(0) =~= lv);
    while i < ls.len()
        invariant
            lv == char_views(ls@),
            lv == split_on(listing@, '\n'),
            suffix@ == seq![' '] + mountpoint@,
            i <= ls.len(),
            first_line_ending(lv, suffix@) == first_line_ending(lv.skip(i as int), suffix@),
        decreases ls.len() - i,
    {
        assert(lv.skip(i as int).drop_first() =~= lv.skip(i as int + 1));
        assert(lv.skip(i as int)[0] == ls@[i as int]@);
        if ends_with_exec(&ls[i], &suffix) {
            return match first_token_of(&ls[i]) {
                Some(t) => Some(string_from_chars(&t)),
                None => None,
            };
        }
        i = i + 1;
    }
    None
}

/// The dataset mounted at `/`, read from a `zfs list -t filesystem -o
/// name,mountpoint` listing. Some dataset must be mounted there.
pub fn get_root(listing: &str) -> (r: String)
    requires
        filesystem_for(listing@, "/"@) is Some,
    ensures
        r@ == filesystem_for(listing@, "/"@)->0,
{
    match get_filesystem(listing, "/") {
        Some(s) => s,
        None => {
            assert(false);
            String::new()
        },
    }
}

/// The dataset mounted at `/home`, read from a `zfs list -t filesystem -o
/// name,mountpoint` listing. Some dataset must be mounted there.
pub fn get_home(listing: &str) -> (r: String)
    requires
        filesystem_for(listing@, "/home"@) is Some,
    ensures
        r@ == filesystem_for(listing@, "/home"@)->0,
{
    match get_filesystem(listing, "/home") {
        Some(s) => s,
        None => {
            assert(false);
            String::new()
        },
    }
}

} // verus!

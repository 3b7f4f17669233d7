//! Unix path pieces: file names and joining relative components.
use vstd::prelude::*;

verus! {

/// The index of the last `/` in `s`, or -1.
pub open spec fn last_slash(s: Seq<char>) -> int
    decreases s.len(),
{
    if s.len() == 0 {
        -1
    } else if s.last() == '/' {
        s.len() - 1
    } else {
        last_slash(s.drop_last())
    }
}

/// The last component of a Unix path: trailing `/` and lone `.` pieces are
/// skipped, and the piece after the last remaining `/` is the component;
/// none for an empty path, `/` or `.`.
pub open spec fn last_component(s: Seq<char>) -> Option<Seq<char>>
    decreases s.len(),
{
    if s.len() == 0 {
        None
    } else if s.last() == '/' {
        last_component(s.drop_last())
    } else if s.last() == '.' && (s.len() == 1 || s[s.len() - 2] == '/') {
        last_component(s.drop_last())
    } else {
        Some(s.subrange(last_slash(s) + 1, s.len() as int))
    }
}

/// The file name of a Unix path, as `Path::file_name` gives it: the last
/// component, unless that is `..`.
pub open spec fn file_name(s: Seq<char>) -> Option<Seq<char>> {
    match last_component(s) {
        Some(c) => if c == seq!['.', '.'] { None } else { Some(c) },
        None => None,
    }
}

proof fn lemma_last_slash(s: Seq<char>, k: int)
    requires
        -1 <= k < s.len(),
        k >= 0 ==> s[k] == '/',
        forall|j: int| k < j < s.len() ==> s[j] != '/',
    ensures
        last_slash(s) == k,
    decreases s.len(),
{
    if s.len() > 0 && s.last() != '/' {
        assert(k != s.len() - 1);
        lemma_last_slash(s.drop_last(), k);
    }
}

/// The last component of a path (see `last_component`), as a slice of it.
pub fn last_component_of(path: &str) -> (r: Option<&str>)
    ensures
        match r {
            Some(c) => last_component(path@) == Some(c@),
            None => last_component(path@) is None,
        },
{
    let n = path.unicode_len();
    let ghost s = path@;
    let mut end: usize = n;
    assert(s.take(n as int) =~= s);
    loop
        invariant
            s == path@,
            n == s.len(),
            end <= n,
            last_component(s) == last_component(s.take(end as int)),
        ensures
            n == s.len(),
            end <= n,
            last_component(s) == last_component(s.take(end as int)),
            end > 0 ==> s[end - 1] != '/' && !(s[end - 1] == '.' && (end == 1 || s[end - 2] == '/')),
        decreases end,
    {
        if end > 0 && path.get_char(end - 1) == '/' {
            assert(s.take(end as int).drop_last() =~= s.take(end - 1));
            end = end - 1;
        } else if end > 0 && path.get_char(end - 1) == '.' && (end == 1 || path.get_char(end - 2) == '/') {
            assert(s.take(end as int).drop_last() =~= s.take(end - 1));
            end = end - 1;
        } else {
            break;
        }
    }
    if end == 0 {
        return None;
    }
    let mut start: usize = end;
    while start > 0 && path.get_char(start - 1) != '/'
        invariant
            s == path@,
            start <= end <= n,
            n == s.len(),
            forall|j: int| start <= j < end ==> s[j] != '/',
        decreases start,
    {
        start = start - 1;
    }
    let seg = path.substring_char(start, end);
    proof {
        let p = s.take(end as int);
        assert(p.last() == s[end - 1]);
        assert(end >= 2 ==> p[p.len() - 2] == s[end - 2]);
        lemma_last_slash(p, start - 1);
        assert(seg@ =~= p.subrange(last_slash(p) + 1, p.len() as int));
    }
    Some(seg)
}

/// The file name of a path (see `file_name`), as a slice of it.
pub fn file_name_of(path: &str) -> (r: Option<&str>)
    ensures
        match r {
            Some(c) => file_name(path@) == Some(c@),
            None => file_name(path@) is None,
        },
{
    match last_component_of(path) {
        Some(c) => {
            proof { reveal_strlit(".."); }
            if c.unicode_len() == 2 && c.get_char(0) == '.' && c.get_char(1) == '.' {
                assert(c@ =~= seq!['.', '.']);
                None
            } else {
                assert(c@ != seq!['.', '.']);
                Some(c)
            }
        },
        None => None,
    }
}

/// `base` joined with the relative path `comp`, as `Path::join` does it on
/// Unix: a `/` goes between them unless `base` is empty or already ends in
/// one.
pub open spec fn joined(base: Seq<char>, comp: Seq<char>) -> Seq<char> {
    if base.len() == 0 || base.last() == '/' { base + comp } else { base + seq!['/'] + comp }
}

/// Joins a relative component onto a path.
pub fn join_path(base: &str, comp: &str) -> (r: String)
    ensures
        r@ == joined(base@, comp@),
{
    let mut s = String::from_str(base);
    let n = base.unicode_len();
    if n > 0 && base.get_char(n - 1) != '/' {
        proof { reveal_strlit("/"); }
        s.append("/");
    }
    s.append(comp);
    s
}


/// The index of the last `.` in `s`, or -1.
pub open spec fn last_dot(s: Seq<char>) -> int
    decreases s.len(),
{
    if s.len() == 0 {
        -1
    } else if s.last() == '.' {
        s.len() - 1
    } else {
        last_dot(s.drop_last())
    }
}

/// The extension of a path, as `Path::extension` gives it: what follows the
/// last `.` of the file name, unless that `.` is its first character or it
/// has none.
pub open spec fn extension(path: Seq<char>) -> Option<Seq<char>> {
    match file_name(path) {
        Some(c) => if last_dot(c) <= 0 { None } else { Some(c.subrange(last_dot(c) + 1, c.len() as int)) },
        None => None,
    }
}

proof fn lemma_last_dot(s: Seq<char>, k: int)
    requires
        -1 <= k < s.len(),
        k >= 0 ==> s[k] == '.',
        forall|j: int| k < j < s.len() ==> s[j] != '.',
    ensures
        last_dot(s) == k,
    decreases s.len(),
{
    if s.len() > 0 && s.last() != '.' {
        assert(k != s.len() - 1);
        lemma_last_dot(s.drop_last(), k);
    }
}

/// The extension of a path (see `extension`), as a slice of it.
pub fn extension_of(path: &str) -> (r: Option<&str>)
    ensures
        match r {
            Some(e) => extension(path@) == Some(e@),
            None => extension(path@) is None,
        },
{
    match file_name_of(path) {
        Some(c) => {
            let n = c.unicode_len();
            let mut k: usize = n;
            while k > 0 && c.get_char(k - 1) != '.'
                invariant
                    k <= n,
                    n == c@.len(),
                    forall|j: int| k <= j < n ==> c@[j] != '.',
                decreases k,
            {
                k = k - 1;
            }
            proof { lemma_last_dot(c@, k - 1); }
            if k <= 1 {
                None
            } else {
                Some(c.substring_char(k, n))
            }
        },
        None => None,
    }
}

} // verus!

//! Paths as '/'-separated strings, read the way `std::path` reads them on
//! Unix: `file_name`, `extension`, `file_stem`, the first component, and
//! `PathBuf::push` of a single component, and whether a path is absolute.
use crate::text::{
    chars_eq, chars_to_string, concat_chars, last_index_of, lemma_split_nonempty, split_chars,
    split_on, str_chars, views,
};
use vstd::prelude::*;

verus! {

/// Whether a path is absolute, as `Path::is_absolute` reads it on Unix: it
/// starts at the root '/'. A drive path such as "D:/x" is relative there.
pub open spec fn is_absolute_path(p: Seq<char>) -> bool {
    p.len() > 0 && p[0] == '/'
}

/// Whether `path` is absolute; see `is_absolute_path`.
pub fn is_absolute(path: &str) -> (r: bool)
    ensures
        r == is_absolute_path(path@),
{
    let v = str_chars(path);
    v.len() > 0 && v[0] == '/'
}

/// The segments of `parts` (processed from the back) that name a normal
/// component or a parent directory: empty and "." segments are dropped, as
/// `Path::components` drops them after the first position.
pub open spec fn named_segments(parts: Seq<Seq<char>>) -> Seq<Seq<char>>
    decreases parts.len(),
{
    if parts.len() == 0 {
        Seq::empty()
    } else {
        let rest = named_segments(parts.drop_last());
        let p = parts.last();
        if p.len() == 0 || p == seq!['.'] {
            rest
        } else {
            rest.push(p)
        }
    }
}

/// `Path::file_name`: the last component when it is a normal one.
pub open spec fn spec_file_name(path: Seq<char>) -> Option<Seq<char>> {
    let segs = named_segments(split_on(path, '/'));
    if segs.len() == 0 || segs.last() == seq!['.', '.'] {
        None
    } else {
        Some(segs.last())
    }
}

/// The split of a file name at its last dot, as `Path::extension` and
/// `Path::file_stem` make it: `(stem, extension)`.
pub open spec fn split_at_last_dot(name: Seq<char>) -> (Seq<char>, Option<Seq<char>>) {
    if name == seq!['.', '.'] {
        (name, None)
    } else {
        match last_index_of(name, '.') {
            None => (name, None),
            Some(k) => if k == 0 {
                (name, None)
            } else {
                (name.take(k), Some(name.skip(k + 1)))
            },
        }
    }
}

/// `Path::extension`.
pub open spec fn spec_extension(path: Seq<char>) -> Option<Seq<char>> {
    match spec_file_name(path) {
        None => None,
        Some(name) => split_at_last_dot(name).1,
    }
}

/// `Path::file_stem`.
pub open spec fn spec_file_stem(path: Seq<char>) -> Option<Seq<char>> {
    match spec_file_name(path) {
        None => None,
        Some(name) => Some(split_at_last_dot(name).0),
    }
}

/// The text of the first component of a path (`Path::components().next()`):
/// "/" for an absolute path, otherwise the text before the first '/'.
pub open spec fn spec_first_component(path: Seq<char>) -> Option<Seq<char>> {
    if path.len() == 0 {
        None
    } else if path[0] == '/' {
        Some(seq!['/'])
    } else {
        Some(split_on(path, '/')[0])
    }
}

/// `PathBuf::push` of a component that holds no '/'.
pub open spec fn push_component(path: Seq<char>, comp: Seq<char>) -> Seq<char> {
    if path.len() == 0 || path.last() == '/' {
        path + comp
    } else {
        path + seq!['/'] + comp
    }
}

/// The last occurrence of `c` in `v`, if any.
pub fn chars_last_index_of(v: &Vec<char>, c: char) -> (r: Option<usize>)
    ensures
        match r {
            None => last_index_of(v@, c) is None,
            Some(k) => last_index_of(v@, c) == Some(k as int) && k < v@.len(),
        },
{
    let mut i = v.len();
    while i > 0
        invariant
            i <= v.len(),
            forall|j: int| i <= j < v.len() ==> v@[j] != c,
        decreases i,
    {
        if v[i - 1] == c {
            let k = i - 1;
            assert(exists|j: int| 0 <= j < v@.len() && v@[j] == c) by {
                assert(v@[k as int] == c);
            }
            let ghost w = choose|j: int|
                0 <= j < v@.len() && v@[j] == c && forall|l: int| j < l < v@.len() ==> v@[l] != c;
            assert(v@[k as int] == c && forall|l: int| k < l < v@.len() ==> v@[l] != c);
            assert(w == k) by {
                if w < k {
                } else if w > k {
                }
            }
            return Some(k);
        }
        i -= 1;
    }
    None
}

/// The segments that name components, in order.
fn named_segments_exec(parts: &Vec<Vec<char>>) -> (r: Vec<Vec<char>>)
    ensures
        views(r@) == named_segments(views(parts@)),
{
    let mut out: Vec<Vec<char>> = Vec::new();
    let mut i: usize = 0;
    let dot: Vec<char> = vec!['.'];
    assert(dot@ =~= seq!['.']);
    while i < parts.len()
        invariant
            i <= parts.len(),
            dot@ == seq!['.'],
            views(out@) == named_segments(views(parts@).take(i as int)),
        decreases parts.len() - i,
    {
        assert(views(parts@).take(i + 1).drop_last() =~= views(parts@).take(i as int));
        let p = &parts[i];
        if p.len() != 0 && !chars_eq(p, &dot) {
            let ghost before = views(out@);
            out.push(p.clone());
            assert(views(out@) =~= before.push(parts@[i as int]@));
        }
        i += 1;
    }
    assert(views(parts@).take(parts.len() as int) =~= views(parts@));
    out
}

/// `Path::file_name` of a '/'-separated path.
pub fn file_name_chars(path: &Vec<char>) -> (r: Option<Vec<char>>)
    ensures
        match r {
            None => spec_file_name(path@) is None,
            Some(n) => spec_file_name(path@) == Some(n@),
        },
{
    let parts = split_chars(path, '/');
    let segs = named_segments_exec(&parts);
    if segs.len() == 0 {
        return None;
    }
    let last = segs[segs.len() - 1].clone();
    let dotdot: Vec<char> = vec!['.', '.'];
    assert(dotdot@ =~= seq!['.', '.']);
    assert(views(segs@).last() == last@);
    if chars_eq(&last, &dotdot) {
        None
    } else {
        Some(last)
    }
}

/// `(stem, extension)` of a file name.
pub fn split_name_at_last_dot(name: &Vec<char>) -> (r: (Vec<char>, Option<Vec<char>>))
    ensures
        r.0@ == split_at_last_dot(name@).0,
        match r.1 {
            None => split_at_last_dot(name@).1 is None,
            Some(e) => split_at_last_dot(name@).1 == Some(e@),
        },
{
    let dotdot: Vec<char> = vec!['.', '.'];
    assert(dotdot@ =~= seq!['.', '.']);
    if chars_eq(name, &dotdot) {
        return (name.clone(), None);
    }
    match chars_last_index_of(name, '.') {
        None => (name.clone(), None),
        Some(k) => {
            if k == 0 {
                (name.clone(), None)
            } else {
                let mut stem: Vec<char> = Vec::new();
                let mut i: usize = 0;
                while i < k
                    invariant
                        k < name.len(),
                        i <= k,
                        stem@ == name@.take(i as int),
                    decreases k - i,
                {
                    stem.push(name[i]);
                    i += 1;
                    assert(stem@ =~= name@.take(i as int));
                }
                let mut ext: Vec<char> = Vec::new();
                let mut j: usize = k + 1;
                while j < name.len()
                    invariant
                        k < name.len(),
                        k + 1 <= j <= name.len(),
                        ext@ == name@.subrange(k + 1, j as int),
                    decreases name.len() - j,
                {
                    ext.push(name[j]);
                    j += 1;
                    assert(ext@ =~= name@.subrange(k + 1, j as int));
                }
                assert(ext@ =~= name@.skip(k + 1));
                (stem, Some(ext))
            }
        },
    }
}

/// `Path::extension` of a '/'-separated path.
pub fn extension_of(path: &str) -> (r: Option<String>)
    ensures
        match r {
            None => spec_extension(path@) is None,
            Some(e) => spec_extension(path@) == Some(e@),
        },
{
    let pv = str_chars(path);
    match file_name_chars(&pv) {
        None => None,
        Some(name) => {
            let (_stem, ext) = split_name_at_last_dot(&name);
            match ext {
                None => None,
                Some(e) => Some(chars_to_string(&e)),
            }
        },
    }
}

/// `Path::file_stem` of a '/'-separated path.
pub fn file_stem_of(path: &str) -> (r: Option<String>)
    ensures
        match r {
            None => spec_file_stem(path@) is None,
            Some(s) => spec_file_stem(path@) == Some(s@),
        },
{
    let pv = str_chars(path);
    match file_name_chars(&pv) {
        None => None,
        Some(name) => {
            let (stem, _ext) = split_name_at_last_dot(&name);
            Some(chars_to_string(&stem))
        },
    }
}

/// `Path::file_name` of a '/'-separated path.
pub fn file_name_of(path: &str) -> (r: Option<String>)
    ensures
        match r {
            None => spec_file_name(path@) is None,
            Some(s) => spec_file_name(path@) == Some(s@),
        },
{
    let pv = str_chars(path);
    match file_name_chars(&pv) {
        None => None,
        Some(name) => Some(chars_to_string(&name)),
    }
}

/// The text of the first component of a '/'-separated path.
pub fn first_component_of(path: &Vec<char>) -> (r: Option<Vec<char>>)
    ensures
        match r {
            None => spec_first_component(path@) is None,
            Some(c) => spec_first_component(path@) == Some(c@),
        },
{
    if path.len() == 0 {
        None
    } else if path[0] == '/' {
        let root: Vec<char> = vec!['/'];
        assert(root@ =~= seq!['/']);
        Some(root)
    } else {
        let parts = split_chars(path, '/');
        proof {
            lemma_split_nonempty(path@, '/', 0, Seq::empty());
        }
        assert(views(parts@)[0] == parts@[0]@);
        Some(parts[0].clone())
    }
}

/// `PathBuf::push` of a component without '/'.
pub fn push_component_chars(path: &Vec<char>, comp: &Vec<char>) -> (r: Vec<char>)
    ensures
        r@ == push_component(path@, comp@),
{
    if path.len() == 0 || path[path.len() - 1] == '/' {
        concat_chars(path, comp)
    } else {
        let mut p = path.clone();
        p.push('/');
        concat_chars(&p, comp)
    }
}

} // verus!

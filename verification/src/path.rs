//! File names, stems and extensions of `/`-separated paths, with the
//! meaning `std::path::Path` gives them on Unix.
use vstd::prelude::*;

use crate::text::{chars_of, push_char, push_chars, string_from_chars};

verus! {

/// `p` without its trailing `/` separators.
pub open spec fn trim_trailing_slashes(p: Seq<char>) -> Seq<char>
    decreases p.len(),
{
    if p.len() > 0 && p.last() == '/' {
        trim_trailing_slashes(p.drop_last())
    } else {
        p
    }
}

/// The characters after the last `/` of `p` (all of `p` if it has none).
pub open spec fn after_last_slash(p: Seq<char>) -> Seq<char>
    decreases p.len(),
{
    if p.len() == 0 {
        p
    } else if p.last() == '/' {
        Seq::empty()
    } else {
        after_last_slash(p.drop_last()).push(p.last())
    }
}

/// The last component of a path if it is a name (`Path::file_name`):
/// trailing separators and `.` components are skipped; a path that ends in
/// `..`, or has no name at all (`""`, `/`, `.`), has none.
pub open spec fn file_name(p: Seq<char>) -> Option<Seq<char>>
    decreases p.len(),
{
    let t = trim_trailing_slashes(p);
    if t.len() == 0 {
        None
    } else {
        let last = after_last_slash(t);
        if last == seq!['.'] {
            proof {
                lemma_trim_trailing_slashes_len(p);
            }
            file_name(t.drop_last())
        } else if last == seq!['.', '.'] {
            None
        } else {
            Some(last)
        }
    }
}

/// Where the file name of `p` lies in `p`: the start and the end of the
/// component that `file_name` gives.
pub open spec fn name_span(p: Seq<char>) -> Option<(int, int)>
    decreases p.len(),
{
    let t = trim_trailing_slashes(p);
    if t.len() == 0 {
        None
    } else {
        let last = after_last_slash(t);
        if last == seq!['.'] {
            proof {
                lemma_trim_trailing_slashes_len(p);
            }
            name_span(t.drop_last())
        } else if last == seq!['.', '.'] {
            None
        } else {
            Some((t.len() - last.len(), t.len() as int))
        }
    }
}

/// Dropping trailing separators never lengthens a path.
pub proof fn lemma_trim_trailing_slashes_len(p: Seq<char>)
    ensures
        trim_trailing_slashes(p).len() <= p.len(),
    decreases p.len(),
{
    if p.len() > 0 && p.last() == '/' {
        lemma_trim_trailing_slashes_len(p.drop_last());
    }
}

/// Index of the last `.` in `name`, if any.
pub open spec fn last_dot(name: Seq<char>) -> Option<int>
    decreases name.len(),
{
    if name.len() == 0 {
        None
    } else if name.last() == '.' {
        Some(name.len() - 1)
    } else {
        last_dot(name.drop_last())
    }
}

/// The extension of a file name: what follows its last `.`, unless there
/// is no `.` or the only `.` starts the name.
pub open spec fn name_extension(name: Seq<char>) -> Option<Seq<char>> {
    match last_dot(name) {
        Some(i) => if i == 0 {
            None
        } else {
            Some(name.subrange(i + 1, name.len() as int))
        },
        None => None,
    }
}

/// The stem of a file name: what precedes its last `.`, or the whole name
/// when it has no extension.
pub open spec fn name_stem(name: Seq<char>) -> Seq<char> {
    match last_dot(name) {
        Some(i) => if i == 0 {
            name
        } else {
            name.subrange(0, i)
        },
        None => name,
    }
}

/// `Path::extension`.
pub open spec fn path_extension(p: Seq<char>) -> Option<Seq<char>> {
    match file_name(p) {
        Some(n) => name_extension(n),
        None => None,
    }
}

/// `Path::file_stem`.
pub open spec fn path_stem(p: Seq<char>) -> Option<Seq<char>> {
    match file_name(p) {
        Some(n) => Some(name_stem(n)),
        None => None,
    }
}

proof fn lemma_last_dot_bounds(name: Seq<char>)
    ensures
        last_dot(name) matches Some(i) ==> 0 <= i < name.len() && name[i] == '.',
    decreases name.len(),
{
    if name.len() > 0 && name.last() != '.' {
        lemma_last_dot_bounds(name.drop_last());
        if let Some(i) = last_dot(name.drop_last()) {
            assert(name.drop_last()[i] == name[i]);
        }
    }
}

/// Start and end (exclusive) of the file name in `v[..end]`.
fn name_bounds(v: &Vec<char>, end: usize) -> (r: Option<(usize, usize)>)
    requires
        end <= v@.len(),
    ensures
        match file_name(v@.subrange(0, end as int)) {
            None => r is None,
            Some(n) => r matches Some((a, b)) && a <= b <= end && v@.subrange(a as int, b as int)
                == n,
        },
        match r {
            Some((a, b)) => name_span(v@.subrange(0, end as int)) == Some((a as int, b as int)),
            None => name_span(v@.subrange(0, end as int)) is None,
        },
    decreases end,
{
    let ghost p = v@.subrange(0, end as int);
    let mut e = end;
    while e > 0 && v[e - 1] == '/'
        invariant
            e <= end <= v@.len(),
            p == v@.subrange(0, end as int),
            trim_trailing_slashes(p) == trim_trailing_slashes(v@.subrange(0, e as int)),
        decreases e,
    {
        assert(v@.subrange(0, e as int).drop_last() =~= v@.subrange(0, e - 1));
        e = e - 1;
    }
    let ghost t = v@.subrange(0, e as int);
    assert(trim_trailing_slashes(t) == t);
    if e == 0 {
        return None;
    }
    let mut a = e;
    while a > 0 && v[a - 1] != '/'
        invariant
            a <= e <= v@.len(),
            t == v@.subrange(0, e as int),
            after_last_slash(t) == after_last_slash(v@.subrange(0, a as int)) + v@.subrange(
                a as int,
                e as int,
            ),
        decreases a,
    {
        assert(v@.subrange(0, a as int).drop_last() =~= v@.subrange(0, a - 1));
        assert(v@.subrange(a - 1, e as int) =~= seq![v@[a - 1]] + v@.subrange(a as int, e as int));
        assert(after_last_slash(v@.subrange(0, a as int)) == after_last_slash(
            v@.subrange(0, a - 1),
        ).push(v@[a - 1]));
        a = a - 1;
    }
    assert(after_last_slash(v@.subrange(0, a as int)) =~= Seq::<char>::empty());
    assert(after_last_slash(t) =~= v@.subrange(a as int, e as int));
    if e - a == 1 && v[a] == '.' {
        assert(v@.subrange(a as int, e as int) =~= seq!['.']);
        assert(t.drop_last() =~= v@.subrange(0, e - 1));
        return name_bounds(v, e - 1);
    }
    if e - a == 2 && v[a] == '.' && v[a + 1] == '.' {
        assert(v@.subrange(a as int, e as int) =~= seq!['.', '.']);
        return None;
    }
    proof {
        let last = v@.subrange(a as int, e as int);
        if last == seq!['.'] {
            assert(last.len() == 1 && last[0] == v@[a as int]);
            assert(seq!['.'][0] == '.');
            assert(false);
        }
        if last == seq!['.', '.'] {
            assert(last.len() == 2 && last[0] == v@[a as int] && last[1] == v@[a + 1]);
            assert(seq!['.', '.'][0] == '.' && seq!['.', '.'][1] == '.');
            assert(false);
        }
    }
    assert(trim_trailing_slashes(p) == t);
    assert(t.len() > 0);
    assert(after_last_slash(t) != seq!['.']);
    assert(after_last_slash(t) != seq!['.', '.']);
    assert(file_name(p) == Some(after_last_slash(t)));
    Some((a, e))
}

/// Position of the last `.` in `v[a..b]`.
fn last_dot_in(v: &Vec<char>, a: usize, b: usize) -> (r: Option<usize>)
    requires
        a <= b <= v@.len(),
    ensures
        r is Some <==> last_dot(v@.subrange(a as int, b as int)) is Some,
        r matches Some(j) ==> a <= j < b && last_dot(v@.subrange(a as int, b as int)) == Some(
            j - a,
        ),
{
    proof {
        lemma_last_dot_bounds(v@.subrange(a as int, b as int));
    }
    let mut j = b;
    while j > a
        invariant
            a <= j <= b <= v@.len(),
            forall|k: int| j <= k < b ==> v@[k] != '.',
        decreases j,
    {
        if v[j - 1] == '.' {
            proof {
                lemma_last_dot_suffix(v@, a as int, j as int, b as int);
            }
            return Some(j - 1);
        }
        j = j - 1;
    }
    proof {
        lemma_last_dot_suffix(v@, a as int, a as int, b as int);
        assert(v@.subrange(a as int, a as int).len() == 0);
    }
    None
}

/// If `s[j..b]` has no `.`, the last `.` of `s[a..b]` is that of `s[a..j]`.
proof fn lemma_last_dot_suffix(s: Seq<char>, a: int, j: int, b: int)
    requires
        0 <= a <= j <= b <= s.len(),
        forall|k: int| j <= k < b ==> s[k] != '.',
    ensures
        last_dot(s.subrange(a, b)) == last_dot(s.subrange(a, j)),
        j > a && s[j - 1] == '.' ==> last_dot(s.subrange(a, b)) == Some(j - 1 - a),
    decreases b - j,
{
    if b > j {
        assert(s.subrange(a, b).drop_last() =~= s.subrange(a, b - 1));
        lemma_last_dot_suffix(s, a, j, b - 1);
    }
    if j > a && s[j - 1] == '.' {
        assert(s.subrange(a, j).last() == '.');
    }
}

/// `Path::new(p).file_name()` as a string.
pub fn file_name_of(p: &str) -> (r: Option<String>)
    ensures
        match file_name(p@) {
            None => r is None,
            Some(n) => r matches Some(s) && s@ == n,
        },
{
    let v = crate::text::chars_of(p);
    assert(v@.subrange(0, v@.len() as int) =~= p@);
    match name_bounds(&v, v.len()) {
        None => None,
        Some((a, b)) => Some(string_from_chars(slice_of(&v, a, b).as_slice())),
    }
}

/// `Path::new(p).extension()` as a string.
pub fn extension_of(p: &str) -> (r: Option<String>)
    ensures
        match path_extension(p@) {
            None => r is None,
            Some(x) => r matches Some(s) && s@ == x,
        },
{
    let v = crate::text::chars_of(p);
    assert(v@.subrange(0, v@.len() as int) =~= p@);
    match name_bounds(&v, v.len()) {
        None => None,
        Some((a, b)) => {
            let ghost name = v@.subrange(a as int, b as int);
            match last_dot_in(&v, a, b) {
                None => None,
                Some(i) => {
                    if i == a {
                        None
                    } else {
                        assert(v@.subrange(i + 1, b as int) =~= name.subrange(
                            (i - a) + 1,
                            name.len() as int,
                        ));
                        Some(string_from_chars(slice_of(&v, i + 1, b).as_slice()))
                    }
                },
            }
        },
    }
}

/// `Path::new(p).file_stem()` as a string.
pub fn file_stem_of(p: &str) -> (r: Option<String>)
    ensures
        match path_stem(p@) {
            None => r is None,
            Some(x) => r matches Some(s) && s@ == x,
        },
{
    let v = crate::text::chars_of(p);
    assert(v@.subrange(0, v@.len() as int) =~= p@);
    match name_bounds(&v, v.len()) {
        None => None,
        Some((a, b)) => {
            let ghost name = v@.subrange(a as int, b as int);
            match last_dot_in(&v, a, b) {
                None => Some(string_from_chars(slice_of(&v, a, b).as_slice())),
                Some(i) => {
                    if i == a {
                        Some(string_from_chars(slice_of(&v, a, b).as_slice()))
                    } else {
                        assert(v@.subrange(a as int, i as int) =~= name.subrange(0, i - a));
                        Some(string_from_chars(slice_of(&v, a, i).as_slice()))
                    }
                },
            }
        },
    }
}

/// A copy of `v[a..b]`.
pub fn slice_of(v: &Vec<char>, a: usize, b: usize) -> (r: Vec<char>)
    requires
        a <= b <= v@.len(),
    ensures
        r@ == v@.subrange(a as int, b as int),
{
    let mut r: Vec<char> = Vec::new();
    let mut k = a;
    while k < b
        invariant
            a <= k <= b <= v@.len(),
            r@ == v@.subrange(a as int, k as int),
        decreases b - k,
    {
        r.push(v[k]);
        k = k + 1;
        assert(r@ =~= v@.subrange(a as int, k as int));
    }
    r
}

} // verus!

verus! {

/// `s` holds no `/`.
pub open spec fn no_slash(s: Seq<char>) -> bool {
    forall|i: int| 0 <= i < s.len() ==> s[i] != '/'
}

/// `s` holds no `.`.
pub open spec fn no_dot(s: Seq<char>) -> bool {
    forall|i: int| 0 <= i < s.len() ==> s[i] != '.'
}

proof fn lemma_after_last_slash_shape(p: Seq<char>)
    ensures
        no_slash(after_last_slash(p)),
        p.len() > 0 && p.last() != '/' ==> after_last_slash(p).len() > 0,
        no_slash(p) ==> after_last_slash(p) == p,
    decreases p.len(),
{
    if p.len() > 0 && p.last() != '/' {
        lemma_after_last_slash_shape(p.drop_last());
        let a = after_last_slash(p.drop_last());
        assert forall|i: int| 0 <= i < a.push(p.last()).len() implies a.push(p.last())[i]
            != '/' by {
            if i < a.len() {
                assert(a.push(p.last())[i] == a[i]);
            }
        }
        if no_slash(p) {
            assert(no_slash(p.drop_last()));
            assert(p.drop_last().push(p.last()) =~= p);
        }
    }
}

proof fn lemma_trim_trailing_slashes_shape(p: Seq<char>)
    ensures
        trim_trailing_slashes(p).len() > 0 ==> trim_trailing_slashes(p).last() != '/',
        p.len() > 0 && p.last() != '/' ==> trim_trailing_slashes(p) == p,
    decreases p.len(),
{
    if p.len() > 0 && p.last() == '/' {
        lemma_trim_trailing_slashes_shape(p.drop_last());
    }
}

/// A file name is never empty and never holds a `/`.
pub proof fn lemma_file_name_shape(p: Seq<char>)
    ensures
        file_name(p) matches Some(n) ==> n.len() > 0 && no_slash(n),
    decreases p.len(),
{
    let t = trim_trailing_slashes(p);
    lemma_trim_trailing_slashes_shape(p);
    lemma_trim_trailing_slashes_len(p);
    if t.len() > 0 {
        lemma_after_last_slash_shape(t);
        if after_last_slash(t) == seq!['.'] {
            lemma_file_name_shape(t.drop_last());
        }
    }
}

/// A file stem is never empty and never holds a `/`.
pub proof fn lemma_path_stem_shape(p: Seq<char>)
    ensures
        path_stem(p) matches Some(s) ==> s.len() > 0 && no_slash(s),
{
    lemma_file_name_shape(p);
    if let Some(n) = file_name(p) {
        lemma_last_dot_bounds(n);
    }
}

/// A plain name (no `/`, not `.` or `..`) is its own file name.
pub proof fn lemma_plain_name(s: Seq<char>)
    requires
        s.len() > 0,
        no_slash(s),
        s != seq!['.'],
        s != seq!['.', '.'],
    ensures
        file_name(s) == Some(s),
{
    lemma_trim_trailing_slashes_shape(s);
    lemma_after_last_slash_shape(s);
}

proof fn lemma_last_dot_concat(a: Seq<char>, b: Seq<char>)
    requires
        no_dot(b),
    ensures
        last_dot(a + b) == last_dot(a),
    decreases b.len(),
{
    if b.len() > 0 {
        assert((a + b).drop_last() =~= a + b.drop_last());
        assert((a + b).last() == b.last());
        lemma_last_dot_concat(a, b.drop_last());
    } else {
        assert(a + b =~= a);
    }
}

/// `base.ext` has the extension `ext` when `base` is a non-empty name and
/// `ext` a non-empty name without dots.
pub proof fn lemma_name_with_extension(base: Seq<char>, ext: Seq<char>)
    requires
        base.len() > 0,
        no_slash(base),
        ext.len() > 0,
        no_slash(ext),
        no_dot(ext),
    ensures
        path_extension(base + seq!['.'] + ext) == Some(ext),
{
    let s = base + seq!['.'] + ext;
    assert(no_slash(s)) by {
        assert forall|i: int| 0 <= i < s.len() implies s[i] != '/' by {
            if i < base.len() {
                assert(s[i] == base[i]);
            } else if i > base.len() {
                assert(s[i] == ext[i - base.len() - 1]);
            }
        }
    }
    assert(s.len() >= 3);
    assert(seq!['.'].len() == 1);
    assert(seq!['.', '.'].len() == 2);
    lemma_plain_name(s);
    lemma_last_dot_concat(base + seq!['.'], ext);
    assert((base + seq!['.']).last() == '.');
    assert(last_dot(base + seq!['.']) == Some(base.len() as int));
    assert(s.subrange(base.len() + 1int, s.len() as int) =~= ext);
}

} // verus!

verus! {

/// Joining two slash-free strings gives a slash-free string.
pub proof fn lemma_no_slash_concat(a: Seq<char>, b: Seq<char>)
    requires
        no_slash(a),
        no_slash(b),
    ensures
        no_slash(a + b),
{
    assert forall|i: int| 0 <= i < (a + b).len() implies (a + b)[i] != '/' by {
        if i < a.len() {
            assert((a + b)[i] == a[i]);
        } else {
            assert((a + b)[i] == b[i - a.len()]);
        }
    }
}

} // verus!

verus! {

/// `p` without its leading `/` separators.
pub open spec fn trim_leading_slashes(p: Seq<char>) -> Seq<char>
    decreases p.len(),
{
    if p.len() > 0 && p[0] == '/' {
        trim_leading_slashes(p.drop_first())
    } else {
        p
    }
}

/// `Path::join` on Unix: an absolute `b` replaces `a`; otherwise `b` is
/// appended, with a `/` between the two unless `a` is empty or ends in one.
pub open spec fn join(a: Seq<char>, b: Seq<char>) -> Seq<char> {
    if b.len() > 0 && b[0] == '/' {
        b
    } else if a.len() > 0 && a.last() != '/' {
        a + seq!['/'] + b
    } else {
        a + b
    }
}

/// `file` starts with the directory `dir` as a whole component: `dir` is
/// not empty and is followed in `file` by nothing or by a `/`.
pub open spec fn under_dir(file: Seq<char>, dir: Seq<char>) -> bool {
    &&& dir.len() > 0
    &&& dir.len() <= file.len()
    &&& file.subrange(0, dir.len() as int) == dir
    &&& (dir.last() == '/' || file.len() == dir.len() || file[dir.len() as int] == '/')
}

/// `file` relative to the directory `dir` it was found under: what follows
/// `dir` and the separators after it. A file outside `dir` is kept whole.
pub open spec fn relative_to(file: Seq<char>, dir: Seq<char>) -> Seq<char> {
    if under_dir(file, dir) {
        trim_leading_slashes(file.subrange(dir.len() as int, file.len() as int))
    } else {
        file
    }
}

/// `Path::set_extension` for a non-empty extension: `p` cut after its file
/// stem, then `.` and `ext`. A path without a file name is kept.
pub open spec fn set_extension(p: Seq<char>, ext: Seq<char>) -> Seq<char> {
    match name_span(p) {
        Some((a, b)) => p.subrange(0, a) + name_stem(p.subrange(a, b)) + seq!['.'] + ext,
        None => p,
    }
}

/// `Path::with_extension` for a non-empty extension: the extension `p`
/// already has is cut off from the end of `p` (the `.` before it stays),
/// then `set_extension` puts `ext` in its place.
pub open spec fn with_extension(p: Seq<char>, ext: Seq<char>) -> Seq<char> {
    let cut = match path_extension(p) {
        Some(x) => p.subrange(0, p.len() - x.len()),
        None => p,
    };
    set_extension(cut, ext)
}

/// `Path::new(a).join(b)` as a string.
pub fn join_paths(a: &str, b: &str) -> (r: String)
    ensures
        r@ == join(a@, b@),
{
    let av = chars_of(a);
    let bv = chars_of(b);
    let mut out = String::new();
    if bv.len() > 0 && bv[0] == '/' {
        push_chars(&mut out, bv.as_slice());
        assert(out@ =~= b@);
        return out;
    }
    push_chars(&mut out, av.as_slice());
    if av.len() > 0 && av[av.len() - 1] != '/' {
        push_char(&mut out, '/');
    }
    push_chars(&mut out, bv.as_slice());
    assert(out@ =~= join(a@, b@));
    out
}

/// `Path::new(file).strip_prefix(dir)`, or `file` itself when it does not
/// lie under `dir`, as a string.
pub fn relative_path(file: &str, dir: &str) -> (r: String)
    ensures
        r@ == relative_to(file@, dir@),
{
    let fv = chars_of(file);
    let dv = chars_of(dir);
    let n = dv.len();
    let mut under = n > 0 && n <= fv.len();
    let mut i: usize = 0;
    while under && i < n
        invariant
            fv@ == file@,
            dv@ == dir@,
            n == dv@.len(),
            i <= n,
            under ==> 0 < n <= fv@.len(),
            under ==> fv@.subrange(0, i as int) == dv@.subrange(0, i as int),
            !under ==> !under_dir(file@, dir@),
        decreases n - i + if under {
            1int
        } else {
            0int
        },
    {
        if fv[i] != dv[i] {
            under = false;
            proof {
                if under_dir(file@, dir@) {
                    assert(file@.subrange(0, dir@.len() as int)[i as int] == file@[i as int]);
                }
            }
        } else {
            i = i + 1;
            assert(fv@.subrange(0, i as int) =~= dv@.subrange(0, i as int));
        }
    }
    if under {
        assert(fv@.subrange(0, n as int) =~= dv@);
        if !(dv[n - 1] == '/' || fv.len() == n || fv[n] == '/') {
            under = false;
        }
    }
    if !under {
        return string_from_chars(fv.as_slice());
    }
    assert(under_dir(file@, dir@));
    let mut j = n;
    while j < fv.len() && fv[j] == '/'
        invariant
            fv@ == file@,
            n <= j <= fv@.len(),
            trim_leading_slashes(fv@.subrange(n as int, fv@.len() as int))
                == trim_leading_slashes(fv@.subrange(j as int, fv@.len() as int)),
        decreases fv.len() - j,
    {
        assert(fv@.subrange(j as int, fv@.len() as int).drop_first() =~= fv@.subrange(
            j + 1,
            fv@.len() as int,
        ));
        j = j + 1;
    }
    let rest = slice_of(&fv, j, fv.len());
    assert(trim_leading_slashes(rest@) == rest@);
    string_from_chars(rest.as_slice())
}

/// `Path::new(p).with_extension(ext)` as a string, for a non-empty `ext`.
pub fn with_extension_of(p: &str, ext: &str) -> (r: String)
    ensures
        r@ == with_extension(p@, ext@),
{
    let v = chars_of(p);
    assert(v@.subrange(0, v@.len() as int) =~= p@);
    let cut_end = match name_bounds(&v, v.len()) {
        None => v.len(),
        Some((a, b)) => {
            let ghost name = v@.subrange(a as int, b as int);
            match last_dot_in(&v, a, b) {
                None => v.len(),
                Some(i) => if i == a {
                    v.len()
                } else {
                    assert(v@.subrange(i + 1, b as int) =~= name.subrange(
                        (i - a) + 1,
                        name.len() as int,
                    ));
                    v.len() - (b - i - 1)
                },
            }
        },
    };
    let ghost cut = v@.subrange(0, cut_end as int);
    assert(cut == match path_extension(p@) {
        Some(x) => p@.subrange(0, p@.len() - x.len()),
        None => p@,
    });
    match name_bounds(&v, cut_end) {
        None => string_from_chars(slice_of(&v, 0, cut_end).as_slice()),
        Some((a, b)) => {
            let ghost name = v@.subrange(a as int, b as int);
            let stem_end = match last_dot_in(&v, a, b) {
                Some(i) => if i == a {
                    b
                } else {
                    i
                },
                None => b,
            };
            assert(cut.subrange(a as int, b as int) =~= name);
            assert(cut.subrange(0, a as int) + name_stem(name) =~= v@.subrange(
                0,
                stem_end as int,
            ));
            let mut out = string_from_chars(slice_of(&v, 0, stem_end).as_slice());
            push_char(&mut out, '.');
            out.append(ext);
            out
        },
    }
}

} // verus!

verus! {

proof fn lemma_trim_trailing_slashes_prefix(p: Seq<char>)
    ensures
        trim_trailing_slashes(p) =~= p.subrange(0, trim_trailing_slashes(p).len() as int),
        trim_trailing_slashes(p).len() <= p.len(),
    decreases p.len(),
{
    if p.len() > 0 && p.last() == '/' {
        lemma_trim_trailing_slashes_prefix(p.drop_last());
    }
}

proof fn lemma_after_last_slash_suffix(t: Seq<char>)
    ensures
        after_last_slash(t).len() <= t.len(),
        after_last_slash(t) =~= t.subrange(t.len() - after_last_slash(t).len(), t.len() as int),
        after_last_slash(t).len() == t.len() || t[t.len() - after_last_slash(t).len() - 1]
            == '/',
    decreases t.len(),
{
    if t.len() > 0 && t.last() != '/' {
        lemma_after_last_slash_suffix(t.drop_last());
    }
}

/// Where `name_span` puts the file name: a non-empty range that starts the
/// path or follows a `/`, holding what `file_name` gives.
proof fn lemma_name_span(p: Seq<char>)
    ensures
        name_span(p) matches Some((a, b)) ==> 0 <= a < b <= p.len() && (a == 0 || p[a - 1]
            == '/') && file_name(p) == Some(p.subrange(a, b)),
        name_span(p) is None <==> file_name(p) is None,
    decreases p.len(),
{
    let t = trim_trailing_slashes(p);
    lemma_trim_trailing_slashes_prefix(p);
    lemma_trim_trailing_slashes_shape(p);
    if t.len() > 0 {
        let last = after_last_slash(t);
        lemma_after_last_slash_suffix(t);
        lemma_after_last_slash_shape(t);
        if last == seq!['.'] {
            lemma_name_span(t.drop_last());
            if let Some((a, b)) = name_span(t.drop_last()) {
                assert(t.drop_last().subrange(a, b) =~= p.subrange(a, b));
                if a > 0 {
                    assert(t.drop_last()[a - 1] == t[a - 1]);
                    assert(t[a - 1] == p[a - 1]);
                }
            }
        } else if last != seq!['.', '.'] {
            let a = t.len() - last.len();
            assert(last =~= p.subrange(a, t.len() as int));
            if a > 0 {
                assert(t[a - 1] == p[a - 1]);
            }
        }
    }
}

proof fn lemma_after_last_slash_concat(q: Seq<char>, x: Seq<char>)
    requires
        q.len() == 0 || q.last() == '/',
        no_slash(x),
    ensures
        after_last_slash(q + x) == x,
    decreases x.len(),
{
    if x.len() == 0 {
        assert(q + x =~= q);
    } else {
        assert((q + x).drop_last() =~= q + x.drop_last());
        assert((q + x).last() == x.last());
        lemma_after_last_slash_concat(q, x.drop_last());
        assert(x.drop_last().push(x.last()) =~= x);
    }
}

/// A plain name after a directory part (empty or ending in `/`) is the
/// file name of the whole, and lies at its end.
pub proof fn lemma_name_after_dir(q: Seq<char>, x: Seq<char>)
    requires
        q.len() == 0 || q.last() == '/',
        x.len() > 0,
        no_slash(x),
        x != seq!['.'],
        x != seq!['.', '.'],
    ensures
        file_name(q + x) == Some(x),
        name_span(q + x) == Some((q.len() as int, (q + x).len() as int)),
{
    assert((q + x).last() == x.last());
    lemma_trim_trailing_slashes_shape(q + x);
    lemma_after_last_slash_concat(q, x);
}

proof fn lemma_stem_of_plain_name(name: Seq<char>)
    requires
        name.len() > 0,
        no_slash(name),
    ensures
        name_stem(name).len() > 0,
        no_slash(name_stem(name)),
{
    lemma_last_dot_bounds(name);
}

/// What `with_extension` makes of a file name after a directory part.
proof fn lemma_with_extension_of_name(
    head: Seq<char>,
    name: Seq<char>,
    ext: Seq<char>,
)
    requires
        head.len() == 0 || head.last() == '/',
        name.len() > 0,
        no_slash(name),
        name != seq!['.'],
        name != seq!['.', '.'],
        name_stem(name) != seq!['.'],
        ext.len() > 0,
        no_slash(ext),
        no_dot(ext),
    ensures
        with_extension(head + name, ext) == head + name_stem(name) + seq!['.'] + ext,
{
    let p = head + name;
    lemma_name_after_dir(head, name);
    lemma_last_dot_bounds(name);
    lemma_stem_of_plain_name(name);
    let stem = name_stem(name);
    match last_dot(name) {
        Some(i) => {
            if i > 0 {
                let x = name.subrange(i + 1, name.len() as int);
                assert(path_extension(p) == Some(x));
                let s = name.subrange(0, i);
                let sd = s + seq!['.'];
                let cut = p.subrange(0, p.len() - x.len());
                assert(cut =~= head + sd);
                assert(no_slash(sd)) by {
                    assert forall|k: int| 0 <= k < sd.len() implies sd[k] != '/' by {
                        if k < s.len() {
                            assert(sd[k] == name[k]);
                        }
                    }
                }
                assert(sd.len() >= 2);
                assert(seq!['.'].len() == 1);
                if sd == seq!['.', '.'] {
                    assert(s =~= seq!['.']);
                    assert(false);
                }
                lemma_name_after_dir(head, sd);
                assert(cut.subrange(head.len() as int, cut.len() as int) =~= sd);
                assert(last_dot(sd) == Some(s.len() as int)) by {
                    assert(sd.last() == '.');
                }
                assert(name_stem(sd) =~= s);
                assert(cut.subrange(0, head.len() as int) =~= head);
            } else {
                assert(path_extension(p) is None);
                assert(p.subrange(head.len() as int, p.len() as int) =~= name);
                assert(p.subrange(0, head.len() as int) =~= head);
            }
        },
        None => {
            assert(path_extension(p) is None);
            assert(p.subrange(head.len() as int, p.len() as int) =~= name);
            assert(p.subrange(0, head.len() as int) =~= head);
        },
    }
}

/// What `with_extension` makes of a file name after a directory part, and
/// that the result, joined under any directory, has the new extension. A
/// name whose stem is `.` (such as `..png`) is left out: `with_extension`
/// turns it into `..`, which has no file name.
pub proof fn lemma_with_extension_sets_extension(
    dir: Seq<char>,
    head: Seq<char>,
    name: Seq<char>,
    ext: Seq<char>,
)
    requires
        head.len() == 0 || head.last() == '/',
        name.len() > 0,
        no_slash(name),
        name != seq!['.'],
        name != seq!['.', '.'],
        name_stem(name) != seq!['.'],
        ext.len() > 0,
        no_slash(ext),
        no_dot(ext),
    ensures
        with_extension(head + name, ext) == head + name_stem(name) + seq!['.'] + ext,
        path_extension(join(dir, with_extension(head + name, ext))) == Some(ext),
{
    let p = head + name;
    lemma_with_extension_of_name(head, name, ext);
    lemma_stem_of_plain_name(name);
    let stem = name_stem(name);
    let w = with_extension(p, ext);
    assert(w == head + stem + seq!['.'] + ext);
    let x = stem + seq!['.'] + ext;
    lemma_name_with_extension(stem, ext);
    assert(no_slash(x)) by {
        assert forall|k: int| 0 <= k < x.len() implies x[k] != '/' by {
            if k < stem.len() {
                assert(x[k] == stem[k]);
            } else if k > stem.len() {
                assert(x[k] == ext[k - stem.len() - 1]);
            }
        }
    }
    assert(x.len() >= 3);
    assert(seq!['.'].len() == 1);
    assert(seq!['.', '.'].len() == 2);
    lemma_plain_name(x);
    assert(w =~= head + x);
    let q = if w.len() > 0 && w[0] == '/' {
        head
    } else if dir.len() > 0 && dir.last() != '/' {
        dir + seq!['/'] + head
    } else {
        dir + head
    };
    assert(q.len() == 0 || q.last() == '/') by {
        if head.len() > 0 {
            assert(q.last() == head.last());
        }
    }
    assert(join(dir, w) =~= q + x);
    lemma_name_after_dir(q, x);
}

} // verus!

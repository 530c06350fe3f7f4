use vstd::prelude::*;

use crate::text::{chars_of, opt_view, string_from_range};

verus! {

/// Start of the last `/`-separated segment of `s`: the index just after
/// the last `/`, or 0 when there is none.
pub open spec fn seg_start(s: Seq<char>) -> int
    decreases s.len(),
{
    if s.len() == 0 {
        0
    } else if s.last() == '/' {
        s.len() as int
    } else {
        seg_start(s.drop_last())
    }
}

pub proof fn lemma_seg_start_bounds(s: Seq<char>)
    ensures
        0 <= seg_start(s) <= s.len(),
        s.len() > 0 && s.last() != '/' ==> seg_start(s) < s.len(),
        forall|k: int| seg_start(s) <= k < s.len() ==> s[k] != '/',
        seg_start(s) > 0 ==> s[seg_start(s) - 1] == '/',
    decreases s.len(),
{
    if s.len() > 0 && s.last() != '/' {
        lemma_seg_start_bounds(s.drop_last());
        assert forall|k: int| seg_start(s) <= k < s.len() implies s[k] != '/' by {
            if k < s.len() - 1 {
                assert(s[k] == s.drop_last()[k]);
            }
        }
        if seg_start(s) > 0 {
            assert(s[seg_start(s) - 1] == s.drop_last()[seg_start(s) - 1]);
        }
    }
}

/// Where the file name of a `/`-separated path lies: the index range of its
/// last normal component. Empty components and `.` components are passed
/// over; a path whose last component is `..`, or that has no normal
/// component, has none.
pub open spec fn name_span(s: Seq<char>) -> Option<(int, int)>
    decreases s.len(),
{
    if s.len() == 0 {
        None
    } else if s.last() == '/' {
        name_span(s.drop_last())
    } else {
        let start = seg_start(s);
        proof {
            lemma_seg_start_bounds(s);
        }
        let seg = s.subrange(start, s.len() as int);
        if seg == seq!['.'] {
            name_span(s.subrange(0, start))
        } else if seg == seq!['.', '.'] {
            None
        } else {
            Some((start, s.len() as int))
        }
    }
}

/// The file name of a path: its last normal component.
pub open spec fn file_name(s: Seq<char>) -> Option<Seq<char>> {
    match name_span(s) {
        Some((a, b)) => Some(s.subrange(a, b)),
        None => None,
    }
}

proof fn lemma_seg_start_is(s: Seq<char>, start: int)
    requires
        0 <= start <= s.len(),
        forall|k: int| start <= k < s.len() ==> s[k] != '/',
        start == 0 || s[start - 1] == '/',
    ensures
        seg_start(s) == start,
    decreases s.len(),
{
    if s.len() > start {
        let t = s.drop_last();
        assert forall|k: int| start <= k < t.len() implies t[k] != '/' by {
            assert(t[k] == s[k]);
        }
        if start > 0 {
            assert(t[start - 1] == s[start - 1]);
        }
        lemma_seg_start_is(t, start);
    }
}

/// Locates the file name of `cs[..limit]`.
fn span_within(cs: &Vec<char>, limit: usize) -> (r: Option<(usize, usize)>)
    requires
        limit <= cs@.len(),
    ensures
        match r {
            Some((a, b)) => name_span(cs@.subrange(0, limit as int)) == Some((a as int, b as int)),
            None => name_span(cs@.subrange(0, limit as int)) is None,
        },
{
    let ghost whole = cs@.subrange(0, limit as int);
    let mut end: usize = limit;
    loop
        invariant
            end <= limit <= cs@.len(),
            whole == cs@.subrange(0, limit as int),
            name_span(whole) == name_span(cs@.subrange(0, end as int)),
        decreases end,
    {
        let ghost end0 = end;
        while end > 0 && cs[end - 1] == '/'
            invariant
                end <= end0,
                end <= limit <= cs@.len(),
                whole == cs@.subrange(0, limit as int),
                name_span(whole) == name_span(cs@.subrange(0, end as int)),
            decreases end,
        {
            assert(cs@.subrange(0, end as int).drop_last() =~= cs@.subrange(0, end - 1));
            end = end - 1;
        }
        if end == 0 {
            return None;
        }
        let mut start: usize = end;
        while start > 0 && cs[start - 1] != '/'
            invariant
                start <= end <= limit <= cs@.len(),
                forall|k: int| start <= k < end ==> cs@[k] != '/',
            decreases start,
        {
            start = start - 1;
        }
        let ghost t = cs@.subrange(0, end as int);
        proof {
            assert forall|k: int| start <= k < t.len() implies t[k] != '/' by {
                assert(t[k] == cs@[k]);
            }
            if start > 0 {
                assert(t[start - 1] == cs@[start - 1]);
            }
            lemma_seg_start_is(t, start as int);
            assert(t.last() == cs@[end - 1]);
            assert(t.subrange(0, start as int) =~= cs@.subrange(0, start as int));
        }
        let ghost seg = t.subrange(start as int, end as int);
        assert(seg.len() == end - start);
        if end - start == 1 && cs[start] == '.' {
            assert(seg =~= seq!['.']);
            assert(name_span(t) == name_span(t.subrange(0, start as int)));
            if start == 0 {
                return None;
            }
            end = start;
        } else if end - start == 2 && cs[start] == '.' && cs[start + 1] == '.' {
            assert(seg =~= seq!['.', '.']);
            return None;
        } else {
            assert(seg != seq!['.']) by {
                if seg == seq!['.'] {
                    assert(seq!['.'].len() == 1);
                    assert(seq!['.'][0] == '.');
                    assert(seg[0] == cs@[start as int]);
                }
            }
            assert(seg != seq!['.', '.']) by {
                if seg == seq!['.', '.'] {
                    assert(seq!['.', '.'].len() == 2);
                    assert(seq!['.', '.'][0] == '.');
                    assert(seq!['.', '.'][1] == '.');
                    assert(seg[0] == cs@[start as int]);
                    assert(seg[1] == cs@[start + 1]);
                }
            }
            return Some((start, end));
        }
    }
}

/// The file name of `audio_src` read as a path, when it has one.
pub fn get_filename_from_url(audio_src: &str) -> (r: Option<String>)
    ensures
        opt_view(r) == file_name(audio_src@),
{
    let cs = chars_of(audio_src);
    assert(cs@.subrange(0, cs@.len() as int) =~= cs@);
    match span_within(&cs, cs.len()) {
        Some((a, b)) => {
            proof {
                lemma_span_bounds(cs@);
            }
            Some(string_from_range(&cs, a, b))
        },
        None => None,
    }
}

/// A located file name lies inside the path.
pub proof fn lemma_span_bounds(s: Seq<char>)
    ensures
        name_span(s) matches Some((a, b)) ==> 0 <= a < b <= s.len(),
    decreases s.len(),
{
    if s.len() > 0 {
        if s.last() == '/' {
            lemma_span_bounds(s.drop_last());
        } else {
            lemma_seg_start_bounds(s);
            let start = seg_start(s);
            if s.subrange(start, s.len() as int) == seq!['.'] {
                lemma_span_bounds(s.subrange(0, start));
            }
        }
    }
}

/// Index of the last `.` in `name`, or -1 when there is none.
pub open spec fn last_dot(name: Seq<char>) -> int
    decreases name.len(),
{
    if name.len() == 0 {
        -1
    } else if name.last() == '.' {
        name.len() - 1
    } else {
        last_dot(name.drop_last())
    }
}

/// Length of the stem of a file name: the name up to its last `.`, or the
/// whole name when it has no `.` or its only `.` is its first character.
pub open spec fn stem_len(name: Seq<char>) -> int {
    let d = last_dot(name);
    if d <= 0 {
        name.len() as int
    } else {
        d
    }
}

/// Length of the extension of a file name: what follows its last `.`, when
/// that `.` is not its first character; none otherwise.
pub open spec fn ext_len(name: Seq<char>) -> Option<int> {
    if last_dot(name) > 0 {
        Some(name.len() - last_dot(name) - 1)
    } else {
        None
    }
}

/// The path cut just after the stem of its file name; unchanged when it has
/// no file name.
pub open spec fn cut_after_stem(t: Seq<char>) -> Seq<char> {
    match name_span(t) {
        Some((a, b)) => t.subrange(0, a + stem_len(t.subrange(a, b))),
        None => t,
    }
}

/// The path with as many characters dropped from its end as its file name's
/// extension has; unchanged when the file name has no extension.
pub open spec fn drop_ext_chars(s: Seq<char>) -> Seq<char> {
    match name_span(s) {
        Some((a, b)) => match ext_len(s.subrange(a, b)) {
            Some(e) => s.subrange(0, s.len() - e),
            None => s,
        },
        None => s,
    }
}

/// The path with the extension of its file name removed: as many characters
/// as the extension has are dropped from the end, then the path is cut just
/// after the stem of its file name, if it still has one.
pub open spec fn without_extension(s: Seq<char>) -> Seq<char> {
    cut_after_stem(drop_ext_chars(s))
}

/// The file name of the path once its extension is removed.
pub open spec fn shortname(s: Seq<char>) -> Option<Seq<char>> {
    file_name(without_extension(s))
}

/// The last `.` of the file name `cs[a..b]`, as an offset from `a`.
fn last_dot_of(cs: &Vec<char>, a: usize, b: usize) -> (r: Option<usize>)
    requires
        a <= b <= cs@.len(),
    ensures
        match r {
            Some(d) => last_dot(cs@.subrange(a as int, b as int)) == d && d < b - a,
            None => last_dot(cs@.subrange(a as int, b as int)) == -1,
        },
{
    let mut j: usize = b;
    while j > a && cs[j - 1] != '.'
        invariant
            a <= j <= b <= cs@.len(),
            last_dot(cs@.subrange(a as int, b as int)) == last_dot(cs@.subrange(a as int, j as int)),
        decreases j,
    {
        assert(cs@.subrange(a as int, j as int).drop_last() =~= cs@.subrange(a as int, j - 1));
        j = j - 1;
    }
    if j == a {
        None
    } else {
        Some(j - 1 - a)
    }
}

/// `cs[..limit]` cut just after the stem of its file name, as a length.
fn stem_cut_len(cs: &Vec<char>, limit: usize) -> (r: usize)
    requires
        limit <= cs@.len(),
    ensures
        r <= limit,
        cs@.subrange(0, r as int) == cut_after_stem(cs@.subrange(0, limit as int)),
{
    let ghost t = cs@.subrange(0, limit as int);
    match span_within(cs, limit) {
        Some((a, b)) => {
            proof {
                lemma_span_bounds(t);
                assert(t.subrange(a as int, b as int) =~= cs@.subrange(a as int, b as int));
            }
            let stem = match last_dot_of(cs, a, b) {
                Some(d) => if d == 0 {
                    b - a
                } else {
                    d
                },
                None => b - a,
            };
            assert(cs@.subrange(0, (a + stem) as int) =~= t.subrange(0, (a + stem) as int));
            a + stem
        },
        None => {
            assert(cs@.subrange(0, limit as int) =~= t);
            limit
        },
    }
}

/// `cs` with as many characters dropped from its end as its file name's
/// extension has, as a length.
fn ext_drop_len(cs: &Vec<char>) -> (r: usize)
    ensures
        r <= cs@.len(),
        cs@.subrange(0, r as int) == drop_ext_chars(cs@),
{
    assert(cs@.subrange(0, cs@.len() as int) =~= cs@);
    match span_within(cs, cs.len()) {
        Some((a, b)) => {
            proof {
                lemma_span_bounds(cs@);
            }
            match last_dot_of(cs, a, b) {
                Some(d) => if d > 0 {
                    cs.len() - (b - a - d - 1)
                } else {
                    cs.len()
                },
                None => cs.len(),
            }
        },
        None => cs.len(),
    }
}

/// The file name of `src` read as a path, after its extension is removed.
pub fn file_stem_name(src: &str) -> (r: Option<String>)
    ensures
        opt_view(r) == shortname(src@),
{
    let cs = chars_of(src);
    let dropped = ext_drop_len(&cs);
    let cut = stem_cut_len(&cs, dropped);
    let ghost t = cs@.subrange(0, cut as int);
    assert(without_extension(src@) =~= t);
    match span_within(&cs, cut) {
        Some((a, b)) => {
            proof {
                lemma_span_bounds(t);
                assert(t.subrange(a as int, b as int) =~= cs@.subrange(a as int, b as int));
            }
            Some(string_from_range(&cs, a, b))
        },
        None => None,
    }
}

/// The file name of `audio_src` without its extension.
pub fn get_shortname(audio_src: &str) -> (r: String)
    requires
        shortname(audio_src@) is Some,
    ensures
        r@ == shortname(audio_src@)->0,
{
    file_stem_name(audio_src).unwrap()
}

/// A normal path component: non-empty, without `/`, and neither `.` nor
/// `..`.
pub open spec fn is_normal_name(f: Seq<char>) -> bool {
    &&& f.len() > 0
    &&& forall|k: int| 0 <= k < f.len() ==> f[k] != '/'
    &&& f != seq!['.']
    &&& f != seq!['.', '.']
}

/// A file name is always a normal component.
pub proof fn lemma_file_name_is_normal(s: Seq<char>)
    ensures
        file_name(s) matches Some(f) ==> is_normal_name(f),
    decreases s.len(),
{
    lemma_span_bounds(s);
    if s.len() > 0 {
        if s.last() == '/' {
            lemma_file_name_is_normal(s.drop_last());
            lemma_span_bounds(s.drop_last());
            if let Some((a, b)) = name_span(s.drop_last()) {
                assert(s.subrange(a, b) =~= s.drop_last().subrange(a, b));
            }
        } else {
            lemma_seg_start_bounds(s);
            let start = seg_start(s);
            let seg = s.subrange(start, s.len() as int);
            if seg == seq!['.'] {
                let t = s.subrange(0, start);
                lemma_file_name_is_normal(t);
                lemma_span_bounds(t);
                if let Some((a, b)) = name_span(t) {
                    assert(t.subrange(a, b) =~= s.subrange(a, b));
                }
            } else if seg != seq!['.', '.'] {
                assert forall|k: int| 0 <= k < seg.len() implies seg[k] != '/' by {
                    assert(seg[k] == s[start + k]);
                }
            }
        }
    }
}

/// A normal component placed after a `/` is the file name of the result.
pub proof fn lemma_file_name_of_join(dir: Seq<char>, f: Seq<char>)
    requires
        is_normal_name(f),
    ensures
        file_name(dir + seq!['/'] + f) == Some(f),
{
    let t = dir + seq!['/'] + f;
    lemma_name_span_is(dir, f);
    assert(t.subrange(dir.len() as int + 1, t.len() as int) =~= f);
}

/// The local copy of a file keeps its file name: joining a directory with
/// the file name of a path gives a path with that same file name.
pub proof fn local_file_keeps_file_name(files_dir: Seq<char>, src: Seq<char>)
    requires
        file_name(src) is Some,
    ensures
        file_name(files_dir + "/"@ + file_name(src)->0) == file_name(src),
{
    reveal_strlit("/");
    assert("/"@ =~= seq!['/']);
    lemma_file_name_is_normal(src);
    lemma_file_name_of_join(files_dir, file_name(src)->0);
}

/// Whether `p` can stand before a component: empty, or ending in `/`.
pub open spec fn is_dir_prefix(p: Seq<char>) -> bool {
    p.len() == 0 || p.last() == '/'
}

/// Where the file name of `p f` lies, for a normal component `f` after a
/// directory prefix `p`.
proof fn lemma_name_span_after(p: Seq<char>, f: Seq<char>)
    requires
        is_normal_name(f),
        is_dir_prefix(p),
    ensures
        name_span(p + f) == Some((p.len() as int, (p.len() + f.len()) as int)),
        (p + f).subrange(p.len() as int, (p + f).len() as int) == f,
{
    let t = p + f;
    let start: int = p.len() as int;
    assert forall|k: int| start <= k < t.len() implies t[k] != '/' by {
        assert(t[k] == f[k - start]);
    }
    if start > 0 {
        assert(t[start - 1] == p.last());
    }
    lemma_seg_start_is(t, start);
    assert(t.last() == f[f.len() - 1]);
    assert(t.subrange(start, t.len() as int) =~= f);
}

proof fn lemma_name_span_is(dir: Seq<char>, f: Seq<char>)
    requires
        is_normal_name(f),
    ensures
        name_span(dir + seq!['/'] + f) == Some((dir.len() as int + 1, (dir.len() + 1 + f.len()) as int)),
{
    lemma_name_span_after(dir + seq!['/'], f);
}

/// The short name of `p base.ext` is `base`.
proof fn lemma_shortname_after(p: Seq<char>, base: Seq<char>, ext: Seq<char>)
    requires
        is_dir_prefix(p),
        is_normal_name(base),
        forall|k: int| 0 <= k < ext.len() ==> ext[k] != '.' && ext[k] != '/',
    ensures
        shortname(p + base + seq!['.'] + ext) == Some(base),
{
    let name = base + seq!['.'] + ext;
    let s = p + name;
    assert(s =~= p + base + seq!['.'] + ext);
    assert(name != seq!['.', '.']) by {
        if name == seq!['.', '.'] {
            assert(name[0] == base[0]);
            assert(base.len() == 1);
            assert(base =~= seq!['.']);
        }
    }
    assert forall|k: int| 0 <= k < name.len() implies name[k] != '/' by {
        if k < base.len() {
            assert(name[k] == base[k]);
        } else if k > base.len() {
            assert(name[k] == ext[k - base.len() - 1]);
        }
    }
    lemma_name_span_after(p, name);
    lemma_last_dot_after(base, ext);
    let name2 = base + seq!['.'];
    let u = p + name2;
    assert(drop_ext_chars(s) =~= u);
    assert(name2 != seq!['.', '.']) by {
        if name2 == seq!['.', '.'] {
            assert(base.len() == 1);
            assert(name2[0] == base[0]);
            assert(base =~= seq!['.']);
        }
    }
    assert forall|k: int| 0 <= k < name2.len() implies name2[k] != '/' by {
        if k < base.len() {
            assert(name2[k] == base[k]);
        }
    }
    lemma_name_span_after(p, name2);
    lemma_last_dot_after(base, Seq::empty());
    assert(base + seq!['.'] + Seq::<char>::empty() =~= name2);
    assert(without_extension(s) =~= p + base);
    lemma_name_span_after(p, base);
}

/// The short name of `dir/base.ext` is `base`, when `base` is a normal
/// component and `ext` holds neither `.` nor `/`.
pub proof fn shortname_drops_last_extension(dir: Seq<char>, base: Seq<char>, ext: Seq<char>)
    requires
        is_normal_name(base),
        forall|k: int| 0 <= k < ext.len() ==> ext[k] != '.' && ext[k] != '/',
    ensures
        shortname(dir + seq!['/'] + base + seq!['.'] + ext) == Some(base),
{
    lemma_shortname_after(dir + seq!['/'], base, ext);
    assert(dir + seq!['/'] + base + seq!['.'] + ext =~= (dir + seq!['/']) + base + seq!['.'] + ext);
}

/// The short name of a bare file name `base.ext` is `base`, when `base` is
/// a normal component and `ext` holds neither `.` nor `/`.
pub proof fn shortname_of_bare_name(base: Seq<char>, ext: Seq<char>)
    requires
        is_normal_name(base),
        forall|k: int| 0 <= k < ext.len() ==> ext[k] != '.' && ext[k] != '/',
    ensures
        shortname(base + seq!['.'] + ext) == Some(base),
{
    lemma_shortname_after(Seq::empty(), base, ext);
    assert(Seq::<char>::empty() + base + seq!['.'] + ext =~= base + seq!['.'] + ext);
}

/// A file name without any `.` is its own short name, bare or after a
/// directory.
pub proof fn shortname_keeps_name_without_dot(p: Seq<char>, f: Seq<char>)
    requires
        is_dir_prefix(p),
        is_normal_name(f),
        forall|k: int| 0 <= k < f.len() ==> f[k] != '.',
    ensures
        shortname(p + f) == Some(f),
{
    lemma_name_span_after(p, f);
    lemma_last_dot_none(f);
    assert(drop_ext_chars(p + f) == p + f);
    assert((p + f).subrange(0, (p.len() + f.len()) as int) =~= p + f);
    assert(without_extension(p + f) == p + f);
}

proof fn lemma_last_dot_none(f: Seq<char>)
    requires
        forall|k: int| 0 <= k < f.len() ==> f[k] != '.',
    ensures
        last_dot(f) == -1,
    decreases f.len(),
{
    if f.len() > 0 {
        let t = f.drop_last();
        assert forall|k: int| 0 <= k < t.len() implies t[k] != '.' by {
            assert(t[k] == f[k]);
        }
        lemma_last_dot_none(t);
    }
}

/// A normal component is its own file name, bare or after a directory.
pub proof fn normal_name_is_own_file_name(p: Seq<char>, f: Seq<char>)
    requires
        is_dir_prefix(p),
        is_normal_name(f),
    ensures
        file_name(p + f) == Some(f),
        file_name(f) == Some(f),
{
    lemma_name_span_after(p, f);
    lemma_name_span_after(Seq::empty(), f);
    assert(Seq::<char>::empty() + f =~= f);
}

/// A trailing `/` or a trailing `/.` does not change the file name.
pub proof fn file_name_ignores_trailing_separators(s: Seq<char>)
    ensures
        file_name(s.push('/')) == file_name(s),
        file_name(s + seq!['/', '.']) == file_name(s),
{
    let t = s.push('/');
    assert(t.drop_last() =~= s);
    lemma_span_bounds(s);
    if let Some((a, b)) = name_span(s) {
        assert(t.subrange(a, b) =~= s.subrange(a, b));
    }
    let u = s + seq!['/', '.'];
    assert(u.last() == '.');
    lemma_seg_start_is(u, s.len() as int + 1);
    assert(u.subrange(s.len() as int + 1, u.len() as int) =~= seq!['.']);
    assert(u.subrange(0, s.len() as int + 1) =~= t);
    assert(name_span(u) == name_span(t));
    lemma_span_bounds(t);
    if let Some((a, b)) = name_span(t) {
        assert(u.subrange(a, b) =~= t.subrange(a, b));
    }
}

/// A path ending in a `..` component has no file name.
pub proof fn parent_component_has_no_file_name(p: Seq<char>)
    requires
        is_dir_prefix(p),
    ensures
        file_name(p + seq!['.', '.']) is None,
{
    let u = p + seq!['.', '.'];
    assert(u.last() == '.');
    if p.len() > 0 {
        assert(u[p.len() - 1] == p.last());
    }
    lemma_seg_start_is(u, p.len() as int);
    assert(u.subrange(p.len() as int, u.len() as int) =~= seq!['.', '.']);
}

/// A path without a file name has no short name.
pub proof fn no_file_name_no_shortname(s: Seq<char>)
    requires
        file_name(s) is None,
    ensures
        shortname(s) is None,
{
    assert(without_extension(s) == s);
}

/// The last `.` of `base.ext` is the one before `ext` when `ext` has none.
proof fn lemma_last_dot_after(base: Seq<char>, ext: Seq<char>)
    requires
        forall|k: int| 0 <= k < ext.len() ==> ext[k] != '.',
    ensures
        last_dot(base + seq!['.'] + ext) == base.len(),
    decreases ext.len(),
{
    let name = base + seq!['.'] + ext;
    if ext.len() == 0 {
        assert(name.last() == '.');
    } else {
        assert(name.last() == ext.last());
        assert(name.drop_last() =~= base + seq!['.'] + ext.drop_last());
        lemma_last_dot_after(base, ext.drop_last());
    }
}

} // verus!

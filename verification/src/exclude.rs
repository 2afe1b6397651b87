//! Exclusion sets and file filtering.
//!
//! An exclusion set is a set of directory or file names merged from two
//! sources (project configuration and invocation-level override) with plain
//! set-union semantics — duplicates collapse silently. Directory names are
//! filtered before descent; file paths are filtered by their name and by
//! every ancestor directory name, with `/` as the path separator.

use vstd::prelude::*;

use crate::chars::{chars_eq, str_to_chars};
use crate::text::{find_from, lemma_find_from, matches_at, matches_at_idx, sub_vec};

verus! {

/// A set of directory or file names to leave out of a scan.
pub struct ExclusionSet {
    names: Vec<Vec<char>>,
}

impl View for ExclusionSet {
    type V = Set<Seq<char>>;

    closed spec fn view(&self) -> Set<Seq<char>> {
        Set::new(|n: Seq<char>| exists|i: int| 0 <= i < self.names@.len() && self.names@[i]@ == n)
    }
}

impl ExclusionSet {
    /// The empty exclusion set.
    pub fn new() -> (r: ExclusionSet)
        ensures
            r@ == Set::<Seq<char>>::empty(),
    {
        let r = ExclusionSet { names: Vec::new() };
        proof {
            assert(r@ =~= Set::<Seq<char>>::empty());
        }
        r
    }

    /// Whether `name` is in the set.
    pub fn contains_chars(&self, name: &Vec<char>) -> (r: bool)
        ensures
            r == self@.contains(name@),
    {
        let mut i: usize = 0;
        let n: usize = self.names.len();
        while i < n
            invariant
                i <= n,
                n == self.names@.len(),
                forall|k: int| 0 <= k < i ==> self.names@[k]@ != name@,
            decreases n - i,
        {
            if chars_eq(&self.names[i], name) {
                return true;
            }
            i = i + 1;
        }
        false
    }

    /// Whether `name` is in the set.
    pub fn contains_name(&self, name: &str) -> (r: bool)
        ensures
            r == self@.contains(name@),
    {
        let cs = str_to_chars(name);
        self.contains_chars(&cs)
    }

    /// Add `name`; adding a name already present changes nothing.
    pub fn insert(&mut self, name: &str) -> (r: ())
        ensures
            final(self)@ == old(self)@.insert(name@),
    {
        let cs = str_to_chars(name);
        if !self.contains_chars(&cs) {
            let ghost old_names = self.names@;
            self.names.push(cs);
            proof {
                assert forall|x: Seq<char>| self@.contains(x) implies old(self)@.contains(x) || x
                    == name@ by {
                    let i = choose|i: int|
                        0 <= i < self.names@.len() && (#[trigger] self.names@[i])@ == x;
                    if i < old_names.len() {
                        assert(old(self).names@[i]@ == x);
                    }
                }
                assert forall|x: Seq<char>|
                    old(self)@.contains(x) || x == name@ implies self@.contains(x) by {
                    if old(self)@.contains(x) {
                        let i = choose|i: int|
                            0 <= i < old(self).names@.len() && (#[trigger] old(self).names@[i])@
                                == x;
                        assert(self.names@[i]@ == x);
                    } else {
                        assert(self.names@[self.names@.len() - 1]@ == x);
                    }
                }
                assert(self@ =~= old(self)@.insert(name@));
            }
        } else {
            proof {
                assert(old(self)@.contains(name@));
                assert(self@ =~= old(self)@.insert(name@));
            }
        }
    }
}

/// The set of the views of a list of names.
pub open spec fn names_as_set(names: Seq<Seq<char>>) -> Set<Seq<char>> {
    Set::new(|n: Seq<char>| names.contains(n))
}

/// Merge the two exclusion sources into one exclusion set: plain set union.
pub fn merge_excludes(config: &Vec<String>, override_list: &Vec<String>) -> (r: ExclusionSet)
    ensures
        r@ == names_as_set(config.deep_view()).union(names_as_set(override_list.deep_view())),
{
    let mut r = ExclusionSet::new();
    let ghost gc = config.deep_view();
    let ghost go = override_list.deep_view();
    let mut i: usize = 0;
    let n: usize = config.len();
    assert(r@ =~= names_as_set(gc.take(0)).union(names_as_set(Seq::<Seq<char>>::empty())));
    while i < n
        invariant
            i <= n,
            n == gc.len(),
            gc == config.deep_view(),
            r@ == names_as_set(gc.take(i as int)).union(names_as_set(Seq::<Seq<char>>::empty())),
        decreases n - i,
    {
        assert(gc[i as int] == config@[i as int]@);
        r.insert(config[i].as_str());
        proof {
            assert(gc.take(i + 1 as int) =~= gc.take(i as int).push(gc[i as int]));
            assert(r@ =~= names_as_set(gc.take(i + 1 as int)).union(
                names_as_set(Seq::<Seq<char>>::empty()),
            )) by {
                assert forall|x: Seq<char>| gc.take(i + 1 as int).contains(x) implies gc.take(
                    i as int,
                ).contains(x) || x == gc[i as int] by {
                    let t = choose|t: int|
                        0 <= t < gc.take(i + 1 as int).len() && (#[trigger] gc.take(i + 1 as int)[t]) == x;
                    if t < i {
                        assert(gc.take(i as int)[t] == x);
                    }
                }
                assert forall|x: Seq<char>| gc.take(i as int).contains(x) implies gc.take(
                    i + 1 as int,
                ).contains(x) by {
                    let t = choose|t: int|
                        0 <= t < gc.take(i as int).len() && (#[trigger] gc.take(i as int)[t]) == x;
                    assert(gc.take(i + 1 as int)[t] == x);
                }
                assert(gc.take(i + 1 as int).contains(gc[i as int])) by {
                    assert(gc.take(i + 1 as int)[i as int] == gc[i as int]);
                }
            }
        }
        i = i + 1;
    }
    assert(gc.take(n as int) =~= gc);
    let mut i: usize = 0;
    let m: usize = override_list.len();
    assert(r@ =~= names_as_set(gc).union(names_as_set(go.take(0)))) by {
        assert(names_as_set(Seq::<Seq<char>>::empty()) =~= names_as_set(go.take(0)));
    }
    while i < m
        invariant
            i <= m,
            m == go.len(),
            go == override_list.deep_view(),
            r@ == names_as_set(gc).union(names_as_set(go.take(i as int))),
        decreases m - i,
    {
        assert(go[i as int] == override_list@[i as int]@);
        r.insert(override_list[i].as_str());
        proof {
            assert(r@ =~= names_as_set(gc).union(names_as_set(go.take(i + 1 as int)))) by {
                assert forall|x: Seq<char>| go.take(i + 1 as int).contains(x) implies go.take(
                    i as int,
                ).contains(x) || x == go[i as int] by {
                    let t = choose|t: int|
                        0 <= t < go.take(i + 1 as int).len() && (#[trigger] go.take(i + 1 as int)[t]) == x;
                    if t < i {
                        assert(go.take(i as int)[t] == x);
                    }
                }
                assert forall|x: Seq<char>| go.take(i as int).contains(x) implies go.take(
                    i + 1 as int,
                ).contains(x) by {
                    let t = choose|t: int|
                        0 <= t < go.take(i as int).len() && (#[trigger] go.take(i as int)[t]) == x;
                    assert(go.take(i + 1 as int)[t] == x);
                }
                assert(go.take(i + 1 as int).contains(go[i as int])) by {
                    assert(go.take(i + 1 as int)[i as int] == go[i as int]);
                }
            }
        }
        i = i + 1;
    }
    assert(go.take(m as int) =~= go);
    r
}

/// Whether `s` ends with `suffix`.
pub open spec fn ends_with(s: Seq<char>, suffix: Seq<char>) -> bool {
    s.len() >= suffix.len() && s.subrange(s.len() - suffix.len(), s.len() as int) == suffix
}

fn ends_with_idx(s: &Vec<char>, suffix: &Vec<char>) -> (r: bool)
    ensures
        r == ends_with(s@, suffix@),
{
    if suffix.len() > s.len() {
        return false;
    }
    let r = matches_at_idx(s, s.len() - suffix.len(), suffix);
    proof {
        if r {
            assert(matches_at(s@, s@.len() - suffix@.len(), suffix@));
        }
    }
    r
}

/// Whether a directory of this name is pruned from the walk: it is in the
/// exclusion set, starts with a dot or an underscore, is one of the
/// conventionally generated directories (`frontend`, `build`, `dist`, `venv`,
/// `env`, `__pycache__`), or ends with `.egg-info`.
pub open spec fn skip_dir_spec(name: Seq<char>, excludes: Set<Seq<char>>) -> bool {
    excludes.contains(name) || (name.len() > 0 && (name[0] == '.' || name[0] == '_')) || name
        == "frontend"@ || name == "build"@ || name == "dist"@ || ends_with(name, ".egg-info"@)
        || name == "venv"@ || name == "env"@ || name == "__pycache__"@
}

/// Whether to prune the walk at a directory of this name.
pub fn should_skip_dir(name: &str, excludes: &ExclusionSet) -> (r: bool)
    ensures
        r == skip_dir_spec(name@, excludes@),
{
    let cs = str_to_chars(name);
    if excludes.contains_chars(&cs) {
        return true;
    }
    if cs.len() > 0 && (cs[0] == '.' || cs[0] == '_') {
        return true;
    }
    let frontend = str_to_chars("frontend");
    let build = str_to_chars("build");
    let dist = str_to_chars("dist");
    let venv = str_to_chars("venv");
    let env_name = str_to_chars("env");
    let pycache = str_to_chars("__pycache__");
    let egg = str_to_chars(".egg-info");
    chars_eq(&cs, &frontend) || chars_eq(&cs, &build) || chars_eq(&cs, &dist) || ends_with_idx(
        &cs,
        &egg,
    ) || chars_eq(&cs, &venv) || chars_eq(&cs, &env_name) || chars_eq(&cs, &pycache)
}

/// The position after the last `/` of `s` (0 if there is none).
pub open spec fn file_name_start(s: Seq<char>, j: int) -> int
    decreases j
        when 0 <= j <= s.len()
{
    if j <= 0 {
        0
    } else if s[j - 1] == '/' {
        j
    } else {
        file_name_start(s, j - 1)
    }
}

/// The file name of a `/`-separated path: everything after the last `/`.
pub open spec fn file_name_of(s: Seq<char>) -> Seq<char> {
    s.subrange(file_name_start(s, s.len() as int), s.len() as int)
}

/// The position of the last `.` of the file name, or -1: the split between
/// stem and extension.
pub open spec fn last_dot(s: Seq<char>, j: int) -> int
    decreases j
        when 0 <= j <= s.len()
{
    if j <= 0 {
        -1
    } else if s[j - 1] == '.' {
        j - 1
    } else {
        last_dot(s, j - 1)
    }
}

/// Whether a path names a Python source file: its file name has an extension
/// (a `.` that is not the leading character) and the extension is `py`.
pub open spec fn python_path_spec(path: Seq<char>) -> bool {
    let f = file_name_of(path);
    let d = last_dot(f, f.len() as int);
    d > 0 && f.subrange(d + 1, f.len() as int) == "py"@
}

proof fn lemma_last_dot(s: Seq<char>, j: int)
    requires
        0 <= j <= s.len(),
    ensures
        -1 <= last_dot(s, j) < j,
    decreases j,
{
    if j > 0 && s[j - 1] != '.' {
        lemma_last_dot(s, j - 1);
    }
}

fn file_name_start_idx(s: &Vec<char>) -> (r: usize)
    ensures
        r as int == file_name_start(s@, s@.len() as int),
        r <= s@.len(),
{
    let mut j: usize = s.len();
    while j > 0 && s[j - 1] != '/'
        invariant
            j <= s@.len(),
            file_name_start(s@, s@.len() as int) == file_name_start(s@, j as int),
        decreases j,
    {
        j = j - 1;
    }
    j
}

/// Whether the path names a Python source file.
pub fn is_python_file(path: &str) -> (r: bool)
    ensures
        r == python_path_spec(path@),
{
    let cs = str_to_chars(path);
    let fstart = file_name_start_idx(&cs);
    let f = sub_vec(&cs, fstart, cs.len());
    assert(f@ == file_name_of(cs@));
    let mut j: usize = f.len();
    while j > 0 && f[j - 1] != '.'
        invariant
            j <= f@.len(),
            last_dot(f@, f@.len() as int) == last_dot(f@, j as int),
        decreases j,
    {
        j = j - 1;
    }
    if j <= 1 {
        proof {
            lemma_last_dot(f@, f@.len() as int);
        }
        return false;
    }
    assert(last_dot(f@, f@.len() as int) == j - 1);
    let ext = sub_vec(&f, j, f.len());
    let py = str_to_chars("py");
    chars_eq(&ext, &py)
}

/// The `/`-separated segments of a path.
pub open spec fn path_segments(s: Seq<char>) -> Seq<Seq<char>>
    decreases s.len()
        via path_segments_dec
{
    if s.len() == 0 {
        Seq::empty()
    } else {
        let k = find_from(s, 0, '/');
        if k == s.len() {
            seq![s]
        } else {
            seq![s.subrange(0, k)] + path_segments(s.subrange(k + 1, s.len() as int))
        }
    }
}

#[via_fn]
proof fn path_segments_dec(s: Seq<char>) {
    if s.len() > 0 {
        lemma_find_from(s, 0, '/');
    }
}

/// Whether a file path is excluded: some nonempty `/`-separated segment of it
/// — its file name or any ancestor directory name — is in the exclusion set.
pub open spec fn exclude_path_spec(path: Seq<char>, excludes: Set<Seq<char>>) -> bool {
    exists|i: int|
        0 <= i < path_segments(path).len() && (#[trigger] path_segments(path)[i]).len() > 0
            && excludes.contains(path_segments(path)[i])
}

proof fn lemma_path_segments_step(s: Seq<char>, start: int, i: int)
    requires
        0 <= start <= i < s.len(),
        forall|k: int| start <= k < i ==> s[k] != '/',
        s[i] == '/',
    ensures
        path_segments(s.subrange(start, s.len() as int)) == seq![s.subrange(start, i)]
            + path_segments(s.subrange(i + 1, s.len() as int)),
{
    let rest = s.subrange(start, s.len() as int);
    let k = find_from(rest, 0, '/');
    assert forall|t: int| 0 <= t < i - start implies rest[t] != '/' by {
        assert(rest[t] == s[start + t]);
    }
    lemma_find_from(rest, 0, '/');
    assert(rest[i - start] == '/');
    if k < i - start {
        assert(rest[k] != '/');
        assert(false);
    }
    if k > i - start {
        assert(rest[i - start] != '/');
        assert(false);
    }
    assert(rest.subrange(0, k) =~= s.subrange(start, i));
    assert(rest.subrange(k + 1, rest.len() as int) =~= s.subrange(i + 1, s.len() as int));
}

proof fn lemma_path_segments_last(s: Seq<char>, start: int)
    requires
        0 <= start <= s.len(),
        forall|k: int| start <= k < s.len() ==> s[k] != '/',
    ensures
        start == s.len() ==> path_segments(s.subrange(start, s.len() as int)) == Seq::<
            Seq<char>,
        >::empty(),
        start < s.len() ==> path_segments(s.subrange(start, s.len() as int)) == seq![
            s.subrange(start, s.len() as int),
        ],
{
    let rest = s.subrange(start, s.len() as int);
    if start == s.len() {
        assert(rest.len() == 0);
    } else {
        assert forall|t: int| 0 <= t < rest.len() implies rest[t] != '/' by {
            assert(rest[t] == s[start + t]);
        }
        lemma_find_from(rest, 0, '/');
        assert(find_from(rest, 0, '/') == rest.len());
    }
}

/// Whether to leave a file of this path out of the scan.
pub fn should_exclude_file(path: &str, excludes: &ExclusionSet) -> (r: bool)
    ensures
        r == exclude_path_spec(path@, excludes@),
{
    let cs = str_to_chars(path);
    let ghost segs = path_segments(cs@);
    let n: usize = cs.len();
    let mut start: usize = 0;
    let mut i: usize = 0;
    let ghost done: Seq<Seq<char>> = Seq::empty();
    assert(segs =~= done + path_segments(cs@.subrange(0, n as int))) by {
        assert(cs@.subrange(0, n as int) =~= cs@);
    }
    proof {
        assert(forall|t: int|
            0 <= t < done.len() ==> !((#[trigger] done[t]).len() > 0 && excludes@.contains(
                done[t],
            )));
    }
    let ghost mut gdone = done;
    while i < n
        invariant
            start <= i <= n,
            n == cs@.len(),
            forall|k: int| start <= k < i ==> cs@[k] != '/',
            segs == gdone + path_segments(cs@.subrange(start as int, n as int)),
            forall|t: int|
                0 <= t < gdone.len() ==> !((#[trigger] gdone[t]).len() > 0 && excludes@.contains(
                    gdone[t],
                )),
        decreases n - i,
    {
        if cs[i] == '/' {
            let seg = sub_vec(&cs, start, i);
            if seg.len() > 0 && excludes.contains_chars(&seg) {
                proof {
                    lemma_path_segments_step(cs@, start as int, i as int);
                    assert(segs[gdone.len() as int] == seg@);
                }
                return true;
            }
            proof {
                lemma_path_segments_step(cs@, start as int, i as int);
                let rest = path_segments(cs@.subrange(i + 1, n as int));
                assert(gdone + (seq![seg@] + rest) =~= (gdone + seq![seg@]) + rest);
                gdone = gdone + seq![seg@];
            }
            start = i + 1;
        }
        i = i + 1;
    }
    proof {
        lemma_path_segments_last(cs@, start as int);
    }
    if start < n {
        let seg = sub_vec(&cs, start, n);
        if seg.len() > 0 && excludes.contains_chars(&seg) {
            proof {
                assert(segs[gdone.len() as int] == seg@);
            }
            return true;
        }
        proof {
            assert(segs =~= gdone + seq![cs@.subrange(start as int, n as int)]);
            assert forall|t: int|
                0 <= t < segs.len() implies !((#[trigger] segs[t]).len() > 0
                && excludes@.contains(segs[t])) by {
                if t < gdone.len() {
                } else {
                    assert(segs[t] == cs@.subrange(start as int, n as int));
                }
            }
        }
        return false;
    }
    proof {
        assert(segs =~= gdone);
    }
    false
}

/// Every file under an excluded directory name is excluded, whatever its
/// content: if a name in the exclusion set occurs as a segment of the path,
/// the path is excluded.
pub proof fn lemma_excluded_subtree(path: Seq<char>, name: Seq<char>, excludes: Set<Seq<char>>)
    requires
        name.len() > 0,
        excludes.contains(name),
        path_segments(path).contains(name),
    ensures
        exclude_path_spec(path, excludes),
{
    let i = choose|i: int|
        0 <= i < path_segments(path).len() && (#[trigger] path_segments(path)[i]) == name;
    assert(path_segments(path)[i].len() > 0 && excludes.contains(path_segments(path)[i]));
}

} // verus!

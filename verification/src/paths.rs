//! Request paths as file paths: the last component, its extension, and the
//! file that a request path names.
use vstd::prelude::*;

verus! {

/// The characters after the last `/` of `s`.
pub open spec fn last_segment(s: Seq<char>) -> Seq<char>
    decreases s.len(),
{
    if s.len() == 0 || s.last() == '/' {
        Seq::empty()
    } else {
        last_segment(s.drop_last()).push(s.last())
    }
}

/// The last component of a path, as `std::path::Path::file_name` finds it:
/// trailing separators and `.` components are skipped, and a last component
/// of `..` or no component at all gives none.
pub open spec fn file_name(s: Seq<char>) -> Option<Seq<char>>
    decreases s.len(),
{
    if s.len() == 0 {
        None
    } else if s.last() == '/' {
        file_name(s.drop_last())
    } else if last_segment(s) == seq!['.'] {
        file_name(s.drop_last())
    } else if last_segment(s) == seq!['.', '.'] {
        None
    } else {
        Some(last_segment(s))
    }
}

/// A file name has an extension when a `.` stands after its first character,
/// as `std::path::Path::extension` decides.
pub open spec fn name_has_extension(f: Seq<char>) -> bool {
    exists|i: int| 1 <= i < f.len() && f[i] == '.'
}

/// `Path::extension(s).is_some()`.
pub open spec fn has_extension(s: Seq<char>) -> bool {
    match file_name(s) {
        Some(f) => name_has_extension(f),
        None => false,
    }
}

/// The number of `/` at the start of `s`.
pub open spec fn leading_slashes(s: Seq<char>) -> nat
    decreases s.len(),
{
    if s.len() > 0 && s[0] == '/' {
        1 + leading_slashes(s.drop_first())
    } else {
        0
    }
}

/// `s` without its leading `/`s, as `trim_start_matches("/")` gives it.
pub open spec fn trim_leading_slashes(s: Seq<char>) -> Seq<char> {
    s.skip(leading_slashes(s) as int)
}

/// The file that a request path names, relative to the served directory:
/// `/` names `index.html`; a path with an extension names itself; any other
/// path names itself with `.html` added.
pub open spec fn spec_determine_file(input: Seq<char>) -> Seq<char> {
    if input == seq!['/'] {
        "index.html"@
    } else if has_extension(input) {
        trim_leading_slashes(input)
    } else {
        trim_leading_slashes(input) + ".html"@
    }
}

/// A `..` segment starts at index `i` of `s`: two dots with a `/` or an end
/// on either side.
pub open spec fn parent_segment_at(s: Seq<char>, i: int) -> bool {
    &&& 0 <= i
    &&& i + 2 <= s.len()
    &&& s[i] == '.'
    &&& s[i + 1] == '.'
    &&& (i == 0 || s[i - 1] == '/')
    &&& (i + 2 == s.len() || s[i + 2] == '/')
}

/// `s` has a `..` segment, so joined to a directory it could name a file
/// outside it.
pub open spec fn climbs(s: Seq<char>) -> bool {
    exists|i: int| parent_segment_at(s, i)
}

/// `dir` joined with the relative path `rel`, as `PathBuf::join` does: a
/// separator is put between them unless `dir` is empty or already ends with
/// one.
pub open spec fn spec_join(dir: Seq<char>, rel: Seq<char>) -> Seq<char> {
    if dir.len() == 0 || dir.last() == '/' {
        dir + rel
    } else {
        dir + seq!['/'] + rel
    }
}

proof fn lemma_last_segment_shape(s: Seq<char>)
    ensures
        last_segment(s).len() <= s.len(),
        last_segment(s) == s.subrange(s.len() - last_segment(s).len(), s.len() as int),
        forall|i: int| 0 <= i < last_segment(s).len() ==> last_segment(s)[i] != '/',
        last_segment(s).len() < s.len() ==> s[s.len() - last_segment(s).len() - 1] == '/',
    decreases s.len(),
{
    if s.len() == 0 || s.last() == '/' {
    } else {
        lemma_last_segment_shape(s.drop_last());
        let t = s.drop_last();
        assert(last_segment(s) =~= s.subrange(s.len() - last_segment(s).len(), s.len() as int));
    }
}

/// The start of the last segment of `s[..n]`.
fn last_segment_start(s: &Vec<char>, n: usize) -> (b: usize)
    requires
        n <= s@.len(),
    ensures
        b <= n,
        last_segment(s@.subrange(0, n as int)) == s@.subrange(b as int, n as int),
{
    let mut b = n;
    proof {
        lemma_last_segment_shape(s@.subrange(0, n as int));
    }
    while b > 0 && s[b - 1] != '/'
        invariant
            b <= n <= s@.len(),
            forall|i: int| b <= i < n ==> s@[i] != '/',
            last_segment(s@.subrange(0, n as int)).len() >= n - b,
            last_segment(s@.subrange(0, n as int)) == s@.subrange(
                n - last_segment(s@.subrange(0, n as int)).len(),
                n as int,
            ),
            last_segment(s@.subrange(0, n as int)).len() <= n,
            last_segment(s@.subrange(0, n as int)).len() < n ==> s@[n - last_segment(s@.subrange(0, n as int)).len() - 1] == '/',
        decreases b,
    {
        b = b - 1;
    }
    proof {
        let l = last_segment(s@.subrange(0, n as int)).len();
        if l > n - b {
            assert(b > 0);
            assert(s@.subrange(0, n as int)[b - 1] == s@[b - 1]);
            assert(last_segment(s@.subrange(0, n as int))[b - 1 - (n - l)] == s@[b - 1]);
        }
    }
    b
}

/// Where the file name of `s[..n]` lies in `s`, if it has one.
fn file_name_range(s: &Vec<char>, n: usize) -> (r: Option<(usize, usize)>)
    requires
        n <= s@.len(),
    ensures
        r is None ==> file_name(s@.subrange(0, n as int)) is None,
        r matches Some((b, e)) ==> b <= e <= n && file_name(s@.subrange(0, n as int)) == Some(s@.subrange(b as int, e as int)),
    decreases n,
{
    if n == 0 {
        return None;
    }
    let ghost t = s@.subrange(0, n as int);
    assert(t.drop_last() =~= s@.subrange(0, n - 1));
    if s[n - 1] == '/' {
        return file_name_range(s, n - 1);
    }
    let b = last_segment_start(s, n);
    if n - b == 1 && s[b] == '.' {
        assert(last_segment(t) =~= seq!['.']);
        return file_name_range(s, n - 1);
    }
    if n - b == 2 && s[b] == '.' && s[b + 1] == '.' {
        assert(last_segment(t) =~= seq!['.', '.']);
        return None;
    }
    proof {
        if last_segment(t) == seq!['.'] {
            assert(last_segment(t)[0] == s@[b as int]);
        }
        if last_segment(t) == seq!['.', '.'] {
            assert(last_segment(t)[0] == s@[b as int]);
            assert(last_segment(t)[1] == s@[b + 1]);
        }
    }
    Some((b, n))
}

/// Whether the path `s` has an extension, as `Path::extension` decides.
pub fn path_has_extension(s: &Vec<char>) -> (r: bool)
    ensures
        r == has_extension(s@),
{
    assert(s@.subrange(0, s@.len() as int) =~= s@);
    match file_name_range(s, s.len()) {
        None => false,
        Some((b, e)) => {
            let ghost f = s@.subrange(b as int, e as int);
            if e - b < 2 {
                return false;
            }
            let mut i = b + 1;
            while i < e
                invariant
                    b + 1 <= i <= e <= s@.len(),
                    f == s@.subrange(b as int, e as int),
                    file_name(s@) == Some(f),
                    forall|j: int| 1 <= j < i - b ==> f[j] != '.',
                decreases e - i,
            {
                if s[i] == '.' {
                    assert(f[i - b] == '.');
                    return true;
                }
                i = i + 1;
            }
            false
        },
    }
}

proof fn lemma_leading_slashes_from(s: Seq<char>, k: int)
    requires
        0 <= k <= s.len(),
        forall|i: int| 0 <= i < k ==> s[i] == '/',
    ensures
        leading_slashes(s) == k + leading_slashes(s.skip(k)),
    decreases k,
{
    if k > 0 {
        lemma_leading_slashes_from(s.drop_first(), k - 1);
        assert(s.drop_first().skip(k - 1) =~= s.skip(k));
    } else {
        assert(s.skip(0) =~= s);
    }
}

/// `s` without its leading `/`s.
pub fn trim_leading_slashes_exec(s: &str) -> (r: &str)
    ensures
        r@ == trim_leading_slashes(s@),
{
    let n = s.unicode_len();
    let mut k: usize = 0;
    while k < n && s.get_char(k) == '/'
        invariant
            n == s@.len(),
            k <= n,
            forall|i: int| 0 <= i < k ==> s@[i] == '/',
        decreases n - k,
    {
        k = k + 1;
    }
    proof {
        lemma_leading_slashes_from(s@, k as int);
        let rest = s@.skip(k as int);
        if k < n {
            assert(rest[0] == s@[k as int]);
        }
        assert(leading_slashes(rest) == 0);
    }
    s.substring_char(k, n)
}

/// The file that a request path names, relative to the served directory.
pub fn determine_file(input: &str) -> (r: String)
    ensures
        r@ == spec_determine_file(input@),
{
    let chars = crate::text::chars_of(input);
    if chars.len() == 1 && chars[0] == '/' {
        assert(input@ =~= seq!['/']);
        let r = String::from_str("index.html");
        proof {
            reveal_strlit("index.html");
        }
        return r;
    }
    assert(input@ != seq!['/']) by {
        if input@ == seq!['/'] {
            assert(chars@[0] == '/');
        }
    }
    let trimmed = trim_leading_slashes_exec(input);
    if path_has_extension(&chars) {
        String::from_str(trimmed)
    } else {
        let r = String::from_str(trimmed);
        r.concat(".html")
    }
}

/// Whether `s` has a `..` segment.
pub fn has_parent_segment(s: &str) -> (r: bool)
    ensures
        r == climbs(s@),
{
    let c = crate::text::chars_of(s);
    let n = c.len();
    let mut i: usize = 0;
    while n > 0 && i < n - 1
        invariant
            i <= n,
            n == s@.len(),
            c@ == s@,
            forall|j: int| 0 <= j < i ==> !parent_segment_at(s@, j),
        decreases n - i,
    {
        if c[i] == '.' && c[i + 1] == '.' && (i == 0 || c[i - 1] == '/') && (i + 2 == n || c[i + 2] == '/') {
            assert(parent_segment_at(s@, i as int));
            return true;
        }
        i = i + 1;
    }
    assert forall|j: int| !parent_segment_at(s@, j) by {
        if 0 <= j && j < i {
        }
    }
    false
}

/// `dir` joined with the relative path `rel`.
pub fn join_path(dir: &str, rel: &str) -> (r: String)
    ensures
        r@ == spec_join(dir@, rel@),
{
    let n = dir.unicode_len();
    let d = String::from_str(dir);
    if n == 0 || dir.get_char(n - 1) == '/' {
        d.concat(rel)
    } else {
        let with_sep = d.concat("/");
        proof {
            reveal_strlit("/");
        }
        let r = with_sep.concat(rel);
        r
    }
}

/// The index of the first `/` in `s`, or its length.
pub open spec fn first_slash(s: Seq<char>) -> nat
    decreases s.len(),
{
    if s.len() == 0 {
        0
    } else if s[0] == '/' {
        0
    } else {
        1 + first_slash(s.drop_first())
    }
}

proof fn lemma_first_slash(s: Seq<char>)
    ensures
        first_slash(s) <= s.len(),
        first_slash(s) < s.len() ==> s[first_slash(s) as int] == '/',
        forall|i: int| 0 <= i < first_slash(s) ==> s[i] != '/',
    decreases s.len(),
{
    if s.len() > 0 && s[0] != '/' {
        lemma_first_slash(s.drop_first());
        assert forall|i: int| 0 <= i < first_slash(s) implies s[i] != '/' by {
            if i > 0 {
                assert(s[i] == s.drop_first()[i - 1]);
            }
        }
    }
}

/// A segment that names something: not empty and not `.`.
pub open spec fn kept(seg: Seq<char>) -> bool {
    seg.len() > 0 && seg != seq!['.']
}

/// The segments of `s` between `/`s that name something, in order.
pub open spec fn kept_segments(s: Seq<char>) -> Seq<Seq<char>>
    decreases s.len(),
{
    let i = first_slash(s);
    let seg = s.subrange(0, i as int);
    let head = if kept(seg) { seq![seg] } else { Seq::<Seq<char>>::empty() };
    if i >= s.len() {
        head
    } else {
        head + kept_segments(s.subrange((i + 1) as int, s.len() as int))
    }
}

/// The components of a path, as `std::path::Path` compares paths: whether it
/// has a root, whether it begins with a `.` component, and its named
/// segments. Two paths are equal exactly when these are.
pub open spec fn path_components(s: Seq<char>) -> (bool, bool, Seq<Seq<char>>) {
    let root = s.len() > 0 && s[0] == '/';
    let cur = !root && s.len() > 0 && s[0] == '.' && (s.len() == 1 || s[1] == '/');
    (root, cur, kept_segments(s))
}

/// The components of a path, computed.
pub struct PathKey {
    pub root: bool,
    pub cur: bool,
    pub segments: Vec<String>,
}

impl PathKey {
    pub open spec fn view(&self) -> (bool, bool, Seq<Seq<char>>) {
        (self.root, self.cur, self.segments@.map_values(|x: String| x@))
    }

    /// Whether two keys name the same path.
    pub fn same(&self, other: &PathKey) -> (r: bool)
        ensures
            r == (self.view() == other.view()),
    {
        if self.root != other.root || self.cur != other.cur || self.segments.len() != other.segments.len() {
            proof {
                if self.segments.len() != other.segments.len() {
                    assert(self.view().2.len() != other.view().2.len());
                }
            }
            return false;
        }
        let n = self.segments.len();
        let mut i: usize = 0;
        while i < n
            invariant
                n == self.segments@.len(),
                n == other.segments@.len(),
                i <= n,
                forall|j: int| 0 <= j < i ==> self.segments@[j]@ == other.segments@[j]@,
            decreases n - i,
        {
            if !crate::text::str_equal(self.segments[i].as_str(), other.segments[i].as_str()) {
                assert(self.view().2[i as int] != other.view().2[i as int]);
                return false;
            }
            i = i + 1;
        }
        assert(self.view().2 =~= other.view().2);
        true
    }
}

/// The components of `s`.
pub fn path_key(s: &str) -> (r: PathKey)
    ensures
        r.view() == path_components(s@),
{
    let n = s.unicode_len();
    let root = n > 0 && s.get_char(0) == '/';
    let cur = !root && n > 0 && s.get_char(0) == '.' && (n == 1 || s.get_char(1) == '/');
    let mut segments: Vec<String> = Vec::new();
    let mut j: usize = 0;
    assert(s@.subrange(0, n as int) =~= s@);
    loop
        invariant_except_break
            kept_segments(s@) == segments@.map_values(|x: String| x@) + kept_segments(s@.subrange(j as int, n as int)),
        invariant
            n == s@.len(),
            j <= n,
        ensures
            kept_segments(s@) == segments@.map_values(|x: String| x@),
        decreases n - j,
    {
        let ghost rest = s@.subrange(j as int, n as int);
        proof {
            lemma_first_slash(rest);
        }
        let mut k = j;
        while k < n && s.get_char(k) != '/'
            invariant
                n == s@.len(),
                j <= k <= n,
                rest == s@.subrange(j as int, n as int),
                first_slash(rest) >= k - j,
                first_slash(rest) <= rest.len(),
                first_slash(rest) < rest.len() ==> rest[first_slash(rest) as int] == '/',
                forall|i: int| 0 <= i < first_slash(rest) ==> rest[i] != '/',
            decreases n - k,
        {
            k = k + 1;
        }
        proof {
            if first_slash(rest) > k - j {
                assert(k < n);
                assert(rest[k - j] == s@[k as int]);
            }
        }
        let seg = s.substring_char(j, k);
        assert(seg@ =~= rest.subrange(0, (k - j) as int));
        let keep = k > j && !(k - j == 1 && s.get_char(j) == '.');
        let ghost before = segments@.map_values(|x: String| x@);
        proof {
            if kept(seg@) != keep {
                if k - j == 1 {
                    assert(seg@[0] == s@[j as int]);
                    assert(seg@ =~= seq![s@[j as int]]);
                } else if k > j {
                    assert(seg@.len() != 1);
                }
            }
        }
        if keep {
            segments.push(String::from_str(seg));
        }
        let ghost head = if kept(seg@) { seq![seg@] } else { Seq::<Seq<char>>::empty() };
        assert(segments@.map_values(|x: String| x@) =~= before + head);
        if k >= n {
            assert(kept_segments(rest) == head);
            assert(kept_segments(s@) =~= segments@.map_values(|x: String| x@));
            break;
        }
        assert(rest.subrange((k - j + 1) as int, rest.len() as int) =~= s@.subrange(k + 1, n as int));
        assert(kept_segments(rest) == head + kept_segments(s@.subrange(k + 1, n as int)));
        j = k + 1;
    }
    let r = PathKey { root, cur, segments };
    proof {
        assert(kept_segments(s@) == segments@.map_values(|x: String| x@));
    }
    r
}

} // verus!

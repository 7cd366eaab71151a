//! Mapping a URL's path segments to a local mirror file path.
//!
//! The mirror path is the output root, followed by every path segment but the
//! last as nested directories, followed by a file name derived from the last
//! segment: `index.html` where there is no last segment or it is empty, the
//! segment with `.html` appended where it has no `.`, and otherwise the
//! segment with anything at or after a literal `?` stripped.

use vstd::prelude::*;
use vstd::string::StrSliceExecFns;
use vstd::string::StringExecFns;

use crate::text::contains_char;

verus! {

/// The position of the first occurrence of `c` in `s`, or `s.len()` when
/// `c` does not occur.
pub open spec fn first_index_of(s: Seq<char>, c: char) -> int
    decreases s.len(),
{
    if s.len() == 0 {
        0
    } else if s[0] == c {
        0
    } else {
        1 + first_index_of(s.drop_first(), c)
    }
}

/// The part of `s` strictly before the first occurrence of `c`
/// (all of `s` when `c` does not occur).
pub open spec fn prefix_before(s: Seq<char>, c: char) -> Seq<char> {
    s.subrange(0, first_index_of(s, c))
}

/// A position with `c` at it and no `c` before it is the first occurrence;
/// the length is the first occurrence when `c` does not occur at all.
pub proof fn lemma_first_index_unique(s: Seq<char>, c: char, i: int)
    requires
        0 <= i <= s.len(),
        forall|j: int| 0 <= j < i ==> s[j] != c,
        i < s.len() ==> s[i] == c,
    ensures
        first_index_of(s, c) == i,
    decreases s.len(),
{
    if s.len() == 0 {
    } else if s[0] == c {
        assert(i == 0);
    } else {
        assert(i >= 1) by {
            if i == 0 {
                assert(s[0] == c);
            }
        }
        assert(forall|j: int| 0 <= j < i - 1 ==> s.drop_first()[j] == s[j + 1] && s[j + 1] != c);
        assert(i - 1 < s.drop_first().len() ==> s.drop_first()[i - 1] == s[i]);
        lemma_first_index_unique(s.drop_first(), c, i - 1);
    }
}

/// The file name the last path segment maps to.
pub open spec fn file_name_of(segs: Seq<Seq<char>>) -> Seq<char> {
    if segs.len() == 0 || segs.last().len() == 0 {
        "index.html"@
    } else if !segs.last().contains('.') {
        segs.last() + ".html"@
    } else {
        prefix_before(segs.last(), '?')
    }
}

/// The directory part of the mirror path: the root joined with each of
/// `dirs` in order, separated by `/`.
pub open spec fn dir_path_of(root: Seq<char>, dirs: Seq<Seq<char>>) -> Seq<char>
    decreases dirs.len(),
{
    if dirs.len() == 0 {
        root
    } else {
        dir_path_of(root, dirs.drop_last()) + "/"@ + dirs.last()
    }
}

/// The directory segments of a segment list: all but the last segment.
pub open spec fn dirs_of(segs: Seq<Seq<char>>) -> Seq<Seq<char>> {
    if segs.len() == 0 {
        segs
    } else {
        segs.drop_last()
    }
}

/// The full mirror path of a URL with path segments `segs` under `root`.
pub open spec fn mirror_path_of(root: Seq<char>, segs: Seq<Seq<char>>) -> Seq<char> {
    dir_path_of(root, dirs_of(segs)) + "/"@ + file_name_of(segs)
}

/// The mirror path is a function of the root and the URL's path segments
/// alone: two results for the same arguments are the same path.
pub proof fn lemma_path_deterministic(r1: Seq<char>, r2: Seq<char>, root: Seq<char>, segs: Seq<Seq<char>>)
    requires
        r1 == mirror_path_of(root, segs),
        r2 == mirror_path_of(root, segs),
    ensures
        r1 == r2,
{
}

/// The file name for a URL's path segments.
pub fn file_name(segments: &Vec<String>) -> (r: String)
    ensures
        r@ == file_name_of(segments.deep_view()),
{
    let n = segments.len();
    if n == 0 {
        return "index.html".to_owned();
    }
    let last = segments[n - 1].as_str();
    proof {
        assert(segments.deep_view()[n - 1] == segments@[n - 1]@);
        assert(segments.deep_view().last() == last@);
    }
    if last.unicode_len() == 0 {
        "index.html".to_owned()
    } else if !contains_char(last, '.') {
        let mut f = last.to_owned();
        f.append(".html");
        f
    } else {
        let len = last.unicode_len();
        let mut i: usize = 0;
        while i < len && last.get_char(i) != '?'
            invariant
                len == last@.len(),
                i <= len,
                forall|j: int| 0 <= j < i ==> last@[j] != '?',
            decreases len - i,
        {
            i = i + 1;
        }
        proof {
            lemma_first_index_unique(last@, '?', i as int);
        }
        last.substring_char(0, i).to_owned()
    }
}

impl crate::urls::CrawlTarget {
    /// The directory under which this target's mirror file is written:
    /// `root` joined with every path segment but the last.
    pub fn mirror_dir(&self, root: &str) -> (r: String)
        ensures
            r@ == dir_path_of(root@, dirs_of(self.segments.deep_view())),
    {
        let mut p = root.to_owned();
        let n = self.segments.len();
        let dirs_n: usize = if n == 0 { 0 } else { n - 1 };
        let ghost dirs = dirs_of(self.segments.deep_view());
        proof {
            assert(dirs.len() == dirs_n);
            assert(dirs.take(0) =~= Seq::<Seq<char>>::empty());
        }
        let mut i: usize = 0;
        while i < dirs_n
            invariant
                dirs_n <= n,
                n == self.segments@.len(),
                dirs == dirs_of(self.segments.deep_view()),
                dirs.len() == dirs_n,
                forall|j: int| 0 <= j < dirs_n ==> dirs[j] == self.segments.deep_view()[j],
                i <= dirs_n,
                p@ == dir_path_of(root@, dirs.take(i as int)),
            decreases dirs_n - i,
        {
            p.append("/");
            p.append(self.segments[i].as_str());
            proof {
                assert(self.segments.deep_view()[i as int] == self.segments@[i as int]@);
                assert(dirs.take(i + 1).drop_last() =~= dirs.take(i as int));
                assert(dirs.take(i + 1).last() == dirs[i as int]);
            }
            i = i + 1;
        }
        proof {
            assert(dirs.take(dirs_n as int) =~= dirs);
        }
        p
    }

    /// The local file path this target is mirrored to under `root`.
    pub fn mirror_path(&self, root: &str) -> (r: String)
        ensures
            r@ == mirror_path_of(root@, self.segments.deep_view()),
    {
        let mut p = self.mirror_dir(root);
        p.append("/");
        let f = file_name(&self.segments);
        p.append(f.as_str());
        p
    }
}

} // verus!

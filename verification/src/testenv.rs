//! Path bookkeeping for a test environment: a wrapper around the directory a
//! test runs in, with utility operations relative to that directory.
//!
//! Everything here is pure path arithmetic over the directory name. Creating
//! the directory, reading, writing, copying and canonicalizing files are the
//! embedding application's concern.

use vstd::prelude::*;
use vstd::string::StrSliceExecFns;
use vstd::string::StringExecFns;

use crate::strutil::str_starts_with;

verus! {

/// `rel` resolved against `base`: an absolute `rel` stands as it is, any
/// other is `base`, a separator, and `rel`.
pub open spec fn path_join(base: Seq<char>, rel: Seq<char>) -> Seq<char> {
    if rel.len() > 0 && rel[0] == '/' {
        rel
    } else {
        base + seq!['/'] + rel
    }
}

/// `full` made relative to `base`: empty when `full` is `base` itself, the
/// remainder when `full` is `base`, a separator, and more; nothing otherwise.
pub open spec fn path_strip(base: Seq<char>, full: Seq<char>) -> Option<Seq<char>> {
    if full == base {
        Some(Seq::<char>::empty())
    } else if full.len() > base.len() && full.subrange(0, base.len() as int) == base && full[
        base.len() as int
    ] == '/' {
        Some(full.subrange(base.len() as int + 1, full.len() as int))
    } else {
        None
    }
}

/// Directory discovery ignores a path component whose name starts with an
/// underscore.
pub fn component_is_ignored(name: &str) -> (r: bool)
    ensures
        r == (name@.len() > 0 && name@[0] == '_'),
{
    if name.unicode_len() == 0 {
        false
    } else {
        name.get_char(0) == '_'
    }
}

/// Directory discovery only runs files with a `.json` extension.
pub fn path_is_json(path: &str) -> (r: bool)
    ensures
        r == (path@.len() >= 5 && path@.subrange(path@.len() - 5, path@.len() as int) == seq![
            '.',
            'j',
            's',
            'o',
            'n',
        ]),
{
    let m = path.unicode_len();
    if m < 5 {
        return false;
    }
    let matches_extension = path.get_char(m - 5) == '.' && path.get_char(m - 4) == 'j'
        && path.get_char(m - 3) == 's' && path.get_char(m - 2) == 'o' && path.get_char(m - 1)
        == 'n';
    proof {
        let tail = path@.subrange(path@.len() - 5, path@.len() as int);
        let expected: Seq<char> = seq!['.', 'j', 's', 'o', 'n'];
        if matches_extension {
            assert(tail =~= expected);
        } else {
            assert(tail[0] == path@[path@.len() - 5]);
            assert(tail[1] == path@[path@.len() - 4]);
            assert(tail[2] == path@[path@.len() - 3]);
            assert(tail[3] == path@[path@.len() - 2]);
            assert(tail[4] == path@[path@.len() - 1]);
        }
    }
    matches_extension
}

/// A test environment: a wrapper around the directory a test executes in.
pub struct TestEnv {
    current_dir: String,
}

impl TestEnv {
    /// The directory this environment is rooted at.
    pub closed spec fn dir(&self) -> Seq<char> {
        self.current_dir@
    }

    /// An environment rooted at `current_dir`. The optional result mirrors a
    /// root that must also exist on disk; the bookkeeping itself always
    /// succeeds, and the embedding application creates the directory.
    pub fn new(current_dir: &str) -> (r: Option<TestEnv>)
        ensures
            r matches Some(env) && env.dir() == current_dir@,
    {
        Some(TestEnv { current_dir: String::from_str(current_dir) })
    }

    /// The environment rooted at the child directory `child` of this one.
    pub fn push(&self, child: &str) -> (r: Option<TestEnv>)
        ensures
            r matches Some(env) && env.dir() == path_join(self.dir(), child@),
    {
        let path = self.full_path(child);
        TestEnv::new(path.as_str())
    }

    /// The directory where the test is being executed.
    pub fn current_dir(&self) -> (r: &str)
        ensures
            r@ == self.dir(),
    {
        self.current_dir.as_str()
    }

    /// Convert a relative path to the full path from the test root.
    pub fn full_path(&self, rel_path: &str) -> (r: String)
        ensures
            r@ == path_join(self.dir(), rel_path@),
    {
        let is_absolute = if rel_path.unicode_len() == 0 {
            false
        } else {
            rel_path.get_char(0) == '/'
        };
        if is_absolute {
            String::from_str(rel_path)
        } else {
            let joined = self.current_dir.clone().concat("/").concat(rel_path);
            proof {
                reveal_strlit("/");
                assert("/"@ =~= seq!['/']);
            }
            joined
        }
    }

    /// Convert a full path to the path relative to the test root; nothing
    /// when the full path does not sit under the test root.
    pub fn rel_path(&self, full_path: &str) -> (r: Option<String>)
        ensures
            (match (r, path_strip(self.dir(), full_path@)) {
                (Some(stripped), Some(expected)) => stripped@ == expected,
                (None, None) => true,
                _ => false,
            }),
    {
        let n = self.current_dir.unicode_len();
        let m = full_path.unicode_len();
        if !str_starts_with(full_path, self.current_dir.as_str()) {
            proof {
                if full_path@ == self.dir() {
                    assert(full_path@.subrange(0, self.dir().len() as int) =~= self.dir());
                }
            }
            return None;
        }
        if m == n {
            proof {
                assert(full_path@.subrange(0, n as int) =~= full_path@);
            }
            return Some(String::new());
        }
        if full_path.get_char(n) != '/' {
            return None;
        }
        let rest = full_path.substring_char(n + 1, m);
        Some(String::from_str(rest))
    }
}

} // verus!

//! Forward-relative paths: relative, with no empty, `.` or `..` segment.

use vstd::prelude::*;
use vstd::string::StrSliceExecFns;

use crate::error::AnalysisError;

verus! {

/// Whether a segment of `s` starts at position `i`.
pub open spec fn segment_starts(s: Seq<char>, i: int) -> bool {
    i == 0 || s[i - 1] == '/'
}

/// Whether a segment of `s` ends just before position `j`.
pub open spec fn segment_ends(s: Seq<char>, j: int) -> bool {
    j == s.len() || s[j] == '/'
}

/// Whether position `i` of `s` breaks the rules of a forward-relative
/// path: a separator at the start or the end or next to another one, or a
/// segment that is `.` or `..`.
pub open spec fn breaks_at(s: Seq<char>, i: int) -> bool {
    ||| s[i] == '/' && (i == 0 || i == s.len() - 1 || s[i + 1] == '/')
    ||| s[i] == '.' && segment_starts(s, i) && segment_ends(s, i + 1)
    ||| s[i] == '.' && segment_starts(s, i) && i + 1 < s.len() && s[i + 1] == '.'
        && segment_ends(s, i + 2)
}

/// Whether `s` is a forward-relative path. The empty path is one.
pub open spec fn is_forward_relative(s: Seq<char>) -> bool {
    forall|i: int| 0 <= i < s.len() ==> !#[trigger] breaks_at(s, i)
}

/// `a` and `b` joined by a separator; an empty side is left out.
pub open spec fn join_paths(a: Seq<char>, b: Seq<char>) -> Seq<char> {
    if a.len() == 0 {
        b
    } else if b.len() == 0 {
        a
    } else {
        a + seq!['/'] + b
    }
}

/// An owned forward-relative path.
#[derive(Debug)]
pub struct ForwardRelativePathBuf {
    chars: Vec<char>,
}

impl View for ForwardRelativePathBuf {
    type V = Seq<char>;

    closed spec fn view(&self) -> Seq<char> {
        self.chars@
    }
}

/// The characters of `s`, in order.
fn chars_of(s: &str) -> (r: Vec<char>)
    ensures
        r@ == s@,
{
    let n = s.unicode_len();
    let mut r: Vec<char> = Vec::new();
    let mut i: usize = 0;
    while i < n
        invariant
            n == s@.len(),
            i <= n,
            r@ == s@.subrange(0, i as int),
        decreases n - i,
    {
        r.push(s.get_char(i));
        i = i + 1;
    }
    assert(r@ =~= s@);
    r
}

/// Whether position `i` of `s` breaks the rules of a forward-relative path.
fn check_breaks_at(s: &Vec<char>, i: usize) -> (r: bool)
    requires
        i < s@.len(),
    ensures
        r == breaks_at(s@, i as int),
{
    let n = s.len();
    let c = s[i];
    let starts = i == 0 || s[i - 1] == '/';
    if c == '/' {
        i == 0 || i == n - 1 || s[i + 1] == '/'
    } else if c == '.' && starts {
        if i + 1 == n || s[i + 1] == '/' {
            true
        } else {
            s[i + 1] == '.' && (i + 2 == n || s[i + 2] == '/')
        }
    } else {
        false
    }
}

impl ForwardRelativePathBuf {
    /// The path of `s`, or `InvalidPath` where `s` is not forward-relative.
    pub fn new(s: &str) -> (r: Result<ForwardRelativePathBuf, AnalysisError>)
        ensures
            r is Ok <==> is_forward_relative(s@),
            r matches Ok(p) ==> p@ == s@,
            r matches Err(e) ==> e == AnalysisError::InvalidPath,
    {
        let chars = chars_of(s);
        let n = chars.len();
        let mut i: usize = 0;
        while i < n
            invariant
                n == chars@.len(),
                chars@ == s@,
                i <= n,
                forall|j: int| 0 <= j < i ==> !#[trigger] breaks_at(s@, j),
            decreases n - i,
        {
            if check_breaks_at(&chars, i) {
                return Err(AnalysisError::InvalidPath);
            }
            i = i + 1;
        }
        Ok(ForwardRelativePathBuf { chars })
    }

    /// The empty path.
    pub fn empty() -> (r: ForwardRelativePathBuf)
        ensures
            r@ == Seq::<char>::empty(),
    {
        ForwardRelativePathBuf { chars: Vec::new() }
    }

    /// The characters of this path.
    pub fn as_chars(&self) -> (r: &Vec<char>)
        ensures
            r@ == self@,
    {
        &self.chars
    }

    /// A copy of this path.
    pub fn duplicate(&self) -> (r: ForwardRelativePathBuf)
        ensures
            r@ == self@,
    {
        ForwardRelativePathBuf { chars: self.chars.clone() }
    }

    /// Whether this path and `other` are the same path.
    pub fn same_as(&self, other: &ForwardRelativePathBuf) -> (r: bool)
        ensures
            r == (self@ == other@),
    {
        let n = self.chars.len();
        if n != other.chars.len() {
            return false;
        }
        let mut i: usize = 0;
        while i < n
            invariant
                n == self@.len(),
                n == other@.len(),
                i <= n,
                forall|j: int| 0 <= j < i ==> self@[j] == other@[j],
            decreases n - i,
        {
            if self.chars[i] != other.chars[i] {
                return false;
            }
            i = i + 1;
        }
        assert(self@ =~= other@);
        true
    }

    /// This path followed by `other`.
    pub fn join(&self, other: &ForwardRelativePathBuf) -> (r: ForwardRelativePathBuf)
        ensures
            r@ == join_paths(self@, other@),
    {
        if self.chars.len() == 0 {
            return other.duplicate();
        }
        if other.chars.len() == 0 {
            return self.duplicate();
        }
        let mut chars = self.chars.clone();
        chars.push('/');
        let n = other.chars.len();
        let mut i: usize = 0;
        while i < n
            invariant
                n == other@.len(),
                i <= n,
                chars@ == self@ + seq!['/'] + other@.subrange(0, i as int),
            decreases n - i,
        {
            chars.push(other.chars[i]);
            i = i + 1;
        }
        assert(other@.subrange(0, n as int) =~= other@);
        ForwardRelativePathBuf { chars }
    }
}

} // verus!

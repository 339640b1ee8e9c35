use vstd::prelude::*;

verus! {

/// Where the SDK archive is downloaded from.
pub const ADDRESS: &'static str = "https://sdk.lunarg.com/sdk/download/latest/mac/vulkan-sdk.tar.gz";

/// The archive's file name when the address's path has no last segment.
pub const DEFAULT_ARCHIVE_NAME: &'static str = "vulkan-sdk.tar.gz";

/// The download size assumed when the server reports none.
pub const FILE_SIZE: u64 = 209_715_200;

/// What follows the last `/` of `s` (all of `s` when it has none).
pub open spec fn last_segment(s: Seq<char>) -> Seq<char>
    decreases s.len(),
{
    if s.len() == 0 || s.last() == '/' {
        Seq::empty()
    } else {
        last_segment(s.drop_last()).push(s.last())
    }
}

/// `c` starts the query or the fragment of a URL.
pub open spec fn is_stop(c: char) -> bool {
    c == '?' || c == '#'
}

/// Where the query or fragment of `s` starts at or after `i`: the first
/// `?` or `#`, or the length of `s`.
pub open spec fn query_start(s: Seq<char>, i: int) -> int
    decreases s.len() - i,
{
    if i >= s.len() {
        s.len() as int
    } else if is_stop(s[i]) {
        i
    } else {
        query_start(s, i + 1)
    }
}

/// Where the first `://` of `s` at or after `i` starts, or the length of
/// `s` when there is none.
pub open spec fn scheme_sep(s: Seq<char>, i: int) -> int
    decreases s.len() - i,
{
    if i < 0 || i + 3 > s.len() {
        s.len() as int
    } else if s[i] == ':' && s[i + 1] == '/' && s[i + 2] == '/' {
        i
    } else {
        scheme_sep(s, i + 1)
    }
}

/// A URL without its query and fragment, then without its `scheme://`:
/// the host followed by the path.
pub open spec fn url_body(url: Seq<char>) -> Seq<char> {
    let u = url.subrange(0, query_start(url, 0));
    let k = scheme_sep(u, 0);
    if k < u.len() {
        u.subrange(k + 3, u.len() as int)
    } else {
        u
    }
}

/// `s` holds a `/`.
pub open spec fn has_slash(s: Seq<char>) -> bool {
    exists|j: int| 0 <= j < s.len() && s[j] == '/'
}

/// The last segment of the URL's path; empty when the URL has no path.
pub open spec fn path_name(url: Seq<char>) -> Seq<char> {
    let b = url_body(url);
    if has_slash(b) {
        last_segment(b)
    } else {
        Seq::empty()
    }
}

/// The archive's file name for the resolved address `url`: the last
/// segment of its path, or the default name when that segment is empty.
pub open spec fn spec_archive_name(url: Seq<char>) -> Seq<char> {
    if path_name(url).len() == 0 {
        DEFAULT_ARCHIVE_NAME@
    } else {
        path_name(url)
    }
}

proof fn lemma_last_segment_from(s: Seq<char>, i: int)
    requires
        0 <= i <= s.len(),
        forall|j: int| i <= j < s.len() ==> s[j] != '/',
        i == 0 || s[i - 1] == '/',
    ensures
        last_segment(s) == s.subrange(i, s.len() as int),
    decreases s.len(),
{
    if s.len() == i {
        assert(s.subrange(i, s.len() as int) =~= Seq::<char>::empty());
    } else {
        let t = s.drop_last();
        assert forall|j: int| i <= j < t.len() implies t[j] != '/' by {
            assert(t[j] == s[j]);
        }
        lemma_last_segment_from(t, i);
        assert(t.subrange(i, t.len() as int).push(s.last()) =~= s.subrange(i, s.len() as int));
    }
}

/// The name the downloaded archive is saved under.
pub fn archive_name(url: &str) -> (r: String)
    ensures
        r@ == spec_archive_name(url@),
{
    let n = url.unicode_len();
    let mut q: usize = 0;
    while q < n && url.get_char(q) != '?' && url.get_char(q) != '#'
        invariant
            q <= n,
            n == url@.len(),
            query_start(url@, 0) == query_start(url@, q as int),
        decreases n - q,
    {
        q += 1;
    }
    let u = url.substring_char(0, q);
    let m = q;
    let mut k: usize = 0;
    while m >= 3 && k <= m - 3 && !(u.get_char(k) == ':' && u.get_char(k + 1) == '/'
        && u.get_char(k + 2) == '/')
        invariant
            k <= m,
            m == u@.len(),
            scheme_sep(u@, 0) == scheme_sep(u@, k as int),
        decreases m - k,
    {
        k += 1;
    }
    let body = if m >= 3 && k <= m - 3 {
        u.substring_char(k + 3, m)
    } else {
        u
    };
    assert(body@ == url_body(url@));
    let b = body.unicode_len();
    let mut i: usize = b;
    while i > 0 && body.get_char(i - 1) != '/'
        invariant
            b == body@.len(),
            i <= b,
            forall|j: int| i <= j < b ==> body@[j] != '/',
        decreases i,
    {
        i -= 1;
    }
    proof {
        lemma_last_segment_from(body@, i as int);
        if i > 0 {
            assert(body@[i - 1] == '/');
        }
    }
    if i == 0 || i == b {
        String::from_str(DEFAULT_ARCHIVE_NAME)
    } else {
        String::from_str(body.substring_char(i, b))
    }
}

/// The total size handed to the progress callback: the size the server
/// reported, or the fixed estimate when it reported none.
pub fn progress_total(reported: u64) -> (r: u64)
    ensures
        r == if reported == 0 {
            FILE_SIZE
        } else {
            reported
        },
{
    if reported == 0 {
        FILE_SIZE
    } else {
        reported
    }
}

/// Where the archive named `name` lands inside `dir`: `<dir>/<name>`.
pub fn archive_path(dir: &str, name: &str) -> (r: String)
    ensures
        r@ == dir@ + "/"@ + name@,
{
    let mut r = String::from_str(dir);
    r.append("/");
    r.append(name);
    r
}

} // verus!

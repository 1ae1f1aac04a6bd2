//! Path collection logic: splitting a path into file name and extension,
//! the fixed allow-list of image extensions (matched case-insensitively),
//! and the filter that keeps only supported candidate paths.

use vstd::prelude::*;
use vstd::string::StrSliceExecFns;

verus! {

pub open spec fn is_sep(c: char) -> bool {
    c == '/' || c == '\\'
}

/// Index of the last path separator in `p`, or -1 if there is none.
pub open spec fn last_sep_pos(p: Seq<char>) -> int
    decreases p.len(),
{
    if p.len() == 0 {
        -1
    } else if is_sep(p.last()) {
        p.len() - 1
    } else {
        last_sep_pos(p.drop_last())
    }
}

/// Index of the last `.` in `s`, or -1 if there is none.
pub open spec fn last_dot_pos(s: Seq<char>) -> int
    decreases s.len(),
{
    if s.len() == 0 {
        -1
    } else if s.last() == '.' {
        s.len() - 1
    } else {
        last_dot_pos(s.drop_last())
    }
}

/// `last_sep_pos` is the position characterized by: it holds a separator
/// (unless -1), and nothing after it does.
proof fn lemma_last_sep_pos_char(p: Seq<char>, d: int)
    requires
        -1 <= d < p.len(),
        d >= 0 ==> is_sep(p[d]),
        forall|j: int| d < j < p.len() ==> !is_sep(#[trigger] p[j]),
    ensures
        last_sep_pos(p) == d,
    decreases p.len(),
{
    if p.len() == 0 {
    } else if is_sep(p.last()) {
        assert(d == p.len() - 1);
    } else {
        assert(d < p.len() - 1);
        lemma_last_sep_pos_char(p.drop_last(), d);
    }
}

proof fn lemma_last_dot_pos_char(s: Seq<char>, d: int)
    requires
        -1 <= d < s.len(),
        d >= 0 ==> s[d] == '.',
        forall|j: int| d < j < s.len() ==> #[trigger] s[j] != '.',
    ensures
        last_dot_pos(s) == d,
    decreases s.len(),
{
    if s.len() == 0 {
    } else if s.last() == '.' {
        assert(d == s.len() - 1);
    } else {
        assert(d < s.len() - 1);
        lemma_last_dot_pos_char(s.drop_last(), d);
    }
}

/// `p` with its trailing separators removed (a path library skips them
/// before taking the final component).
pub open spec fn strip_trailing_seps(p: Seq<char>) -> Seq<char>
    decreases p.len(),
{
    if p.len() > 0 && is_sep(p.last()) {
        strip_trailing_seps(p.drop_last())
    } else {
        p
    }
}

proof fn lemma_strip_trailing(p: Seq<char>, end: int)
    requires
        0 <= end <= p.len(),
        forall|j: int| end <= j < p.len() ==> is_sep(#[trigger] p[j]),
        end > 0 ==> !is_sep(p[end - 1]),
    ensures
        strip_trailing_seps(p) == p.subrange(0, end),
    decreases p.len(),
{
    if p.len() == 0 {
        assert(p.subrange(0, 0) =~= p);
    } else if is_sep(p.last()) {
        assert(end <= p.len() - 1);
        lemma_strip_trailing(p.drop_last(), end);
        assert(p.drop_last().subrange(0, end) =~= p.subrange(0, end));
    } else {
        assert(end == p.len());
        assert(p.subrange(0, end) =~= p);
    }
}

/// Finds where the trailing separators of `path` begin.
pub fn strip_trailing_index(path: &str) -> (end: usize)
    ensures
        end <= path@.len(),
        path@.subrange(0, end as int) == strip_trailing_seps(path@),
{
    let n = path.unicode_len();
    let mut end = n;
    while end > 0
        invariant
            end <= n,
            n == path@.len(),
            forall|j: int| end <= j < n ==> is_sep(#[trigger] path@[j]),
        decreases end,
    {
        let c = path.get_char(end - 1);
        if !(c == '/' || c == '\\') {
            proof {
                lemma_strip_trailing(path@, end as int);
            }
            return end;
        }
        end = end - 1;
    }
    proof {
        lemma_strip_trailing(path@, 0);
    }
    0
}

/// Where the file name of `p` begins: right after the last separator.
pub open spec fn file_name_start(p: Seq<char>) -> int {
    last_sep_pos(p) + 1
}

/// The final path component: everything after the last separator.
pub open spec fn spec_file_name(p: Seq<char>) -> Seq<char> {
    p.subrange(file_name_start(p), p.len() as int)
}

/// The extension of `p`: what follows the last `.` of the file name,
/// provided that dot exists and does not open the name (a leading dot
/// marks a hidden file, not an extension).
pub open spec fn spec_extension(p: Seq<char>) -> Option<Seq<char>> {
    let name = spec_file_name(p);
    let d = last_dot_pos(name);
    if d <= 0 {
        None
    } else {
        Some(name.subrange(d + 1, name.len() as int))
    }
}

/// Finds where the file name begins in `path`.
pub fn file_name_start_index(path: &str) -> (i: usize)
    ensures
        i == file_name_start(path@),
        i <= path@.len(),
{
    let n = path.unicode_len();
    let mut i = n;
    while i > 0
        invariant
            i <= n,
            n == path@.len(),
            forall|j: int| i <= j < n ==> !is_sep(#[trigger] path@[j]),
        decreases i,
    {
        let c = path.get_char(i - 1);
        if c == '/' || c == '\\' {
            proof {
                lemma_last_sep_pos_char(path@, i - 1);
            }
            return i;
        }
        i = i - 1;
    }
    proof {
        lemma_last_sep_pos_char(path@, -1);
    }
    0
}

/// The final component of `path`, possibly empty (for paths that end in
/// a separator).
pub fn file_name_of(path: &str) -> (name: String)
    ensures
        name@ == spec_file_name(path@),
{
    let n = path.unicode_len();
    let start = file_name_start_index(path);
    path.substring_char(start, n).to_owned()
}

/// The extension of `path`, if its file name has one.
pub fn extension_of(path: &str) -> (r: Option<String>)
    ensures
        r is Some <==> spec_extension(path@) is Some,
        r matches Some(e) ==> e@ == spec_extension(path@)->0,
{
    let n = path.unicode_len();
    let start = file_name_start_index(path);
    let ghost name = spec_file_name(path@);
    let mut i = n;
    while i > start
        invariant
            start <= i <= n,
            n == path@.len(),
            start == file_name_start(path@),
            name == spec_file_name(path@),
            forall|j: int| i <= j < n ==> #[trigger] path@[j] != '.',
        decreases i,
    {
        let c = path.get_char(i - 1);
        if c == '.' {
            proof {
                assert forall|j: int| (i - 1 - start) < j < name.len() implies #[trigger] name[j]
                    != '.' by {
                    assert(name[j] == path@[start + j]);
                }
                lemma_last_dot_pos_char(name, i - 1 - start);
            }
            if i - 1 == start {
                // a leading dot marks a hidden file, not an extension
                return None;
            }
            let ext = path.substring_char(i, n).to_owned();
            proof {
                assert(ext@ =~= name.subrange(i - start, name.len() as int));
            }
            return Some(ext);
        }
        i = i - 1;
    }
    proof {
        assert forall|j: int| -1 < j < name.len() implies #[trigger] name[j] != '.' by {
            assert(name[j] == path@[start + j]);
        }
        lemma_last_dot_pos_char(name, -1);
    }
    None
}

/// ASCII lowercasing of one character; anything but `A`..`Z` is kept.
pub open spec fn lower_char(c: char) -> char {
    match c {
        'A' => 'a',
        'B' => 'b',
        'C' => 'c',
        'D' => 'd',
        'E' => 'e',
        'F' => 'f',
        'G' => 'g',
        'H' => 'h',
        'I' => 'i',
        'J' => 'j',
        'K' => 'k',
        'L' => 'l',
        'M' => 'm',
        'N' => 'n',
        'O' => 'o',
        'P' => 'p',
        'Q' => 'q',
        'R' => 'r',
        'S' => 's',
        'T' => 't',
        'U' => 'u',
        'V' => 'v',
        'W' => 'w',
        'X' => 'x',
        'Y' => 'y',
        'Z' => 'z',
        _ => c,
    }
}

pub open spec fn lower_seq(s: Seq<char>) -> Seq<char> {
    s.map_values(|c: char| lower_char(c))
}

/// The fixed allow-list of the similarity analysis, matched on the
/// ASCII-lowercased extension.
pub open spec fn is_supported_ext(e: Seq<char>) -> bool {
    ||| lower_seq(e) == "jpg"@
    ||| lower_seq(e) == "jpeg"@
    ||| lower_seq(e) == "png"@
    ||| lower_seq(e) == "webp"@
    ||| lower_seq(e) == "bmp"@
    ||| lower_seq(e) == "gif"@
}

/// A path qualifies for analysis exactly when its file name has an
/// extension and that extension, lowercased, is in the allow-list.
pub open spec fn path_is_supported(p: Seq<char>) -> bool {
    match spec_extension(p) {
        Some(e) => is_supported_ext(e),
        None => false,
    }
}

/// ASCII-lowercases one character.
pub fn lower_char_exec(c: char) -> (r: char)
    ensures
        r == lower_char(c),
{
    match c {
        'A' => 'a',
        'B' => 'b',
        'C' => 'c',
        'D' => 'd',
        'E' => 'e',
        'F' => 'f',
        'G' => 'g',
        'H' => 'h',
        'I' => 'i',
        'J' => 'j',
        'K' => 'k',
        'L' => 'l',
        'M' => 'm',
        'N' => 'n',
        'O' => 'o',
        'P' => 'p',
        'Q' => 'q',
        'R' => 'r',
        'S' => 's',
        'T' => 't',
        'U' => 'u',
        'V' => 'v',
        'W' => 'w',
        'X' => 'x',
        'Y' => 'y',
        'Z' => 'z',
        _ => c,
    }
}

/// Decides, case-insensitively, whether `ext` is a supported extension.
pub fn is_supported_extension(ext: &str) -> (r: bool)
    ensures
        r == is_supported_ext(ext@),
{
    proof {
        reveal_strlit("jpg");
        reveal_strlit("jpeg");
        reveal_strlit("png");
        reveal_strlit("webp");
        reveal_strlit("bmp");
        reveal_strlit("gif");
    }
    let n = ext.unicode_len();
    if n == 3 {
        let c0 = lower_char_exec(ext.get_char(0));
        let c1 = lower_char_exec(ext.get_char(1));
        let c2 = lower_char_exec(ext.get_char(2));
        let r = (c0 == 'j' && c1 == 'p' && c2 == 'g') || (c0 == 'p' && c1 == 'n' && c2 == 'g') || (
        c0 == 'b' && c1 == 'm' && c2 == 'p') || (c0 == 'g' && c1 == 'i' && c2 == 'f');
        proof {
            if r {
                if c0 == 'j' && c1 == 'p' && c2 == 'g' {
                    assert(lower_seq(ext@) =~= "jpg"@);
                } else if c0 == 'p' && c1 == 'n' && c2 == 'g' {
                    assert(lower_seq(ext@) =~= "png"@);
                } else if c0 == 'b' && c1 == 'm' && c2 == 'p' {
                    assert(lower_seq(ext@) =~= "bmp"@);
                } else {
                    assert(lower_seq(ext@) =~= "gif"@);
                }
            } else {
                assert(lower_seq(ext@).len() == 3);
                if lower_seq(ext@) == "jpg"@ {
                    assert(c0 == lower_seq(ext@)[0] && c1 == lower_seq(ext@)[1] && c2 == lower_seq(
                        ext@,
                    )[2]);
                }
                if lower_seq(ext@) == "png"@ {
                    assert(c0 == lower_seq(ext@)[0] && c1 == lower_seq(ext@)[1] && c2 == lower_seq(
                        ext@,
                    )[2]);
                }
                if lower_seq(ext@) == "bmp"@ {
                    assert(c0 == lower_seq(ext@)[0] && c1 == lower_seq(ext@)[1] && c2 == lower_seq(
                        ext@,
                    )[2]);
                }
                if lower_seq(ext@) == "gif"@ {
                    assert(c0 == lower_seq(ext@)[0] && c1 == lower_seq(ext@)[1] && c2 == lower_seq(
                        ext@,
                    )[2]);
                }
            }
        }
        r
    } else if n == 4 {
        let c0 = lower_char_exec(ext.get_char(0));
        let c1 = lower_char_exec(ext.get_char(1));
        let c2 = lower_char_exec(ext.get_char(2));
        let c3 = lower_char_exec(ext.get_char(3));
        let r = (c0 == 'j' && c1 == 'p' && c2 == 'e' && c3 == 'g') || (c0 == 'w' && c1 == 'e' && c2
            == 'b' && c3 == 'p');
        proof {
            if r {
                if c0 == 'j' {
                    assert(lower_seq(ext@) =~= "jpeg"@);
                } else {
                    assert(lower_seq(ext@) =~= "webp"@);
                }
            } else {
                assert(lower_seq(ext@).len() == 4);
                if lower_seq(ext@) == "jpeg"@ {
                    assert(c0 == lower_seq(ext@)[0] && c1 == lower_seq(ext@)[1] && c2 == lower_seq(
                        ext@,
                    )[2] && c3 == lower_seq(ext@)[3]);
                }
                if lower_seq(ext@) == "webp"@ {
                    assert(c0 == lower_seq(ext@)[0] && c1 == lower_seq(ext@)[1] && c2 == lower_seq(
                        ext@,
                    )[2] && c3 == lower_seq(ext@)[3]);
                }
            }
        }
        r
    } else {
        proof {
            assert(lower_seq(ext@).len() == ext@.len());
        }
        false
    }
}

/// Decides whether `path` names a file the analysis may consider.
pub fn has_supported_extension(path: &str) -> (r: bool)
    ensures
        r == path_is_supported(path@),
{
    match extension_of(path) {
        Some(e) => is_supported_extension(e.as_str()),
        None => false,
    }
}

/// The broader allow-list of the plain folder scan (raw formats
/// included), matched on the ASCII-lowercased extension. The similarity
/// analysis itself uses the narrower `is_supported_ext` set.
pub open spec fn is_scan_ext(e: Seq<char>) -> bool {
    ||| lower_seq(e) == "jpg"@
    ||| lower_seq(e) == "jpeg"@
    ||| lower_seq(e) == "png"@
    ||| lower_seq(e) == "heic"@
    ||| lower_seq(e) == "heif"@
    ||| lower_seq(e) == "webp"@
    ||| lower_seq(e) == "cr2"@
    ||| lower_seq(e) == "nef"@
    ||| lower_seq(e) == "arw"@
    ||| lower_seq(e) == "dng"@
}

/// A path qualifies for the plain scan exactly when its file name has an
/// extension and that extension, lowercased, is in the scan allow-list.
pub open spec fn path_is_scanned(p: Seq<char>) -> bool {
    match spec_extension(p) {
        Some(e) => is_scan_ext(e),
        None => false,
    }
}

/// Decides, case-insensitively, whether `ext` is in the scan allow-list.
pub fn is_scan_extension(ext: &str) -> (r: bool)
    ensures
        r == is_scan_ext(ext@),
{
    proof {
        reveal_strlit("jpg");
        reveal_strlit("jpeg");
        reveal_strlit("png");
        reveal_strlit("heic");
        reveal_strlit("heif");
        reveal_strlit("webp");
        reveal_strlit("cr2");
        reveal_strlit("nef");
        reveal_strlit("arw");
        reveal_strlit("dng");
    }
    let n = ext.unicode_len();
    if n == 3 {
        let c0 = lower_char_exec(ext.get_char(0));
        let c1 = lower_char_exec(ext.get_char(1));
        let c2 = lower_char_exec(ext.get_char(2));
        let r = (c0 == 'j' && c1 == 'p' && c2 == 'g') || (c0 == 'p' && c1 == 'n' && c2 == 'g') || (
        c0 == 'c' && c1 == 'r' && c2 == '2') || (c0 == 'n' && c1 == 'e' && c2 == 'f') || (c0 == 'a'
            && c1 == 'r' && c2 == 'w') || (c0 == 'd' && c1 == 'n' && c2 == 'g');
        proof {
            if r {
                if c0 == 'j' {
                    assert(lower_seq(ext@) =~= "jpg"@);
                } else if c0 == 'p' {
                    assert(lower_seq(ext@) =~= "png"@);
                } else if c0 == 'c' {
                    assert(lower_seq(ext@) =~= "cr2"@);
                } else if c0 == 'n' {
                    assert(lower_seq(ext@) =~= "nef"@);
                } else if c0 == 'a' {
                    assert(lower_seq(ext@) =~= "arw"@);
                } else {
                    assert(lower_seq(ext@) =~= "dng"@);
                }
            } else {
                assert(lower_seq(ext@).len() == 3);
                if lower_seq(ext@) == "jpg"@ {
                    assert(c0 == lower_seq(ext@)[0] && c1 == lower_seq(ext@)[1] && c2 == lower_seq(
                        ext@,
                    )[2]);
                }
                if lower_seq(ext@) == "png"@ {
                    assert(c0 == lower_seq(ext@)[0] && c1 == lower_seq(ext@)[1] && c2 == lower_seq(
                        ext@,
                    )[2]);
                }
                if lower_seq(ext@) == "cr2"@ {
                    assert(c0 == lower_seq(ext@)[0] && c1 == lower_seq(ext@)[1] && c2 == lower_seq(
                        ext@,
                    )[2]);
                }
                if lower_seq(ext@) == "nef"@ {
                    assert(c0 == lower_seq(ext@)[0] && c1 == lower_seq(ext@)[1] && c2 == lower_seq(
                        ext@,
                    )[2]);
                }
                if lower_seq(ext@) == "arw"@ {
                    assert(c0 == lower_seq(ext@)[0] && c1 == lower_seq(ext@)[1] && c2 == lower_seq(
                        ext@,
                    )[2]);
                }
                if lower_seq(ext@) == "dng"@ {
                    assert(c0 == lower_seq(ext@)[0] && c1 == lower_seq(ext@)[1] && c2 == lower_seq(
                        ext@,
                    )[2]);
                }
            }
        }
        r
    } else if n == 4 {
        let c0 = lower_char_exec(ext.get_char(0));
        let c1 = lower_char_exec(ext.get_char(1));
        let c2 = lower_char_exec(ext.get_char(2));
        let c3 = lower_char_exec(ext.get_char(3));
        let r = (c0 == 'j' && c1 == 'p' && c2 == 'e' && c3 == 'g') || (c0 == 'h' && c1 == 'e' && c2
            == 'i' && c3 == 'c') || (c0 == 'h' && c1 == 'e' && c2 == 'i' && c3 == 'f') || (c0 == 'w'
            && c1 == 'e' && c2 == 'b' && c3 == 'p');
        proof {
            if r {
                if c0 == 'j' {
                    assert(lower_seq(ext@) =~= "jpeg"@);
                } else if c0 == 'w' {
                    assert(lower_seq(ext@) =~= "webp"@);
                } else if c3 == 'c' {
                    assert(lower_seq(ext@) =~= "heic"@);
                } else {
                    assert(lower_seq(ext@) =~= "heif"@);
                }
            } else {
                assert(lower_seq(ext@).len() == 4);
                if lower_seq(ext@) == "jpeg"@ {
                    assert(c0 == lower_seq(ext@)[0] && c1 == lower_seq(ext@)[1] && c2 == lower_seq(
                        ext@,
                    )[2] && c3 == lower_seq(ext@)[3]);
                }
                if lower_seq(ext@) == "heic"@ {
                    assert(c0 == lower_seq(ext@)[0] && c1 == lower_seq(ext@)[1] && c2 == lower_seq(
                        ext@,
                    )[2] && c3 == lower_seq(ext@)[3]);
                }
                if lower_seq(ext@) == "heif"@ {
                    assert(c0 == lower_seq(ext@)[0] && c1 == lower_seq(ext@)[1] && c2 == lower_seq(
                        ext@,
                    )[2] && c3 == lower_seq(ext@)[3]);
                }
                if lower_seq(ext@) == "webp"@ {
                    assert(c0 == lower_seq(ext@)[0] && c1 == lower_seq(ext@)[1] && c2 == lower_seq(
                        ext@,
                    )[2] && c3 == lower_seq(ext@)[3]);
                }
            }
        }
        r
    } else {
        proof {
            assert(lower_seq(ext@).len() == ext@.len());
        }
        false
    }
}

/// Decides whether `path` names a file the plain folder scan reports.
pub fn has_scan_extension(path: &str) -> (r: bool)
    ensures
        r == path_is_scanned(path@),
{
    match extension_of(path) {
        Some(e) => is_scan_extension(e.as_str()),
        None => false,
    }
}

/// The candidate paths among `ps`, in order.
pub open spec fn supported_of(ps: Seq<Seq<char>>) -> Seq<Seq<char>> {
    ps.filter(|p: Seq<char>| path_is_supported(p))
}

pub proof fn lemma_filter_push<A>(s: Seq<A>, pred: spec_fn(A) -> bool, x: A)
    ensures
        s.push(x).filter(pred) == if pred(x) {
            s.filter(pred).push(x)
        } else {
            s.filter(pred)
        },
{
    reveal(Seq::filter);
    assert(s.push(x).drop_last() =~= s);
    assert(s.push(x).last() == x);
}

/// Keeps, in order, exactly the paths whose extension is in the
/// allow-list; every path with an extension outside it is dropped,
/// whatever its letter case.
pub fn filter_supported(paths: &Vec<String>) -> (r: Vec<String>)
    ensures
        r@.map_values(|s: String| s@) == supported_of(paths@.map_values(|s: String| s@)),
        forall|k: int| 0 <= k < r@.len() ==> path_is_supported(#[trigger] r@[k]@),
{
    let ghost all = paths@.map_values(|s: String| s@);
    let mut out: Vec<String> = Vec::new();
    let mut idx: usize = 0;
    while idx < paths.len()
        invariant
            idx <= paths.len(),
            all == paths@.map_values(|s: String| s@),
            out@.map_values(|s: String| s@) == supported_of(all.subrange(0, idx as int)),
            forall|k: int| 0 <= k < out@.len() ==> path_is_supported(#[trigger] out@[k]@),
        decreases paths.len() - idx,
    {
        let ghost prefix = all.subrange(0, idx as int);
        let p = &paths[idx];
        proof {
            assert(all.subrange(0, idx + 1) =~= prefix.push(p@));
            lemma_filter_push(prefix, |q: Seq<char>| path_is_supported(q), p@);
        }
        if has_supported_extension(p.as_str()) {
            out.push(p.clone());
            proof {
                assert(out@.map_values(|s: String| s@) =~= supported_of(prefix).push(p@));
            }
        }
        idx = idx + 1;
    }
    proof {
        assert(all.subrange(0, paths@.len() as int) =~= all);
    }
    out
}

} // verus!

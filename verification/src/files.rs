//! File classification: decides whether a path refers to an image file,
//! by the extension of its final path segment, case-insensitively.

use vstd::prelude::*;
use vstd::string::StrSliceExecFns;
use vstd::string::StringExecFns;

verus! {

/// Code point of a character, with ASCII upper-case letters folded to their
/// lower-case counterparts. Case-insensitive comparison compares these values.
pub open spec fn lower_val(c: char) -> int {
    if 65 <= c as int <= 90 {
        c as int + 32
    } else {
        c as int
    }
}

/// The code points of a sequence of characters after case folding.
pub open spec fn lower_seq(s: Seq<char>) -> Seq<int> {
    s.map_values(|c: char| lower_val(c))
}

/// The code points of a sequence of characters, unchanged.
pub open spec fn seq_vals(s: Seq<char>) -> Seq<int> {
    s.map_values(|c: char| c as int)
}

/// The extension of a path: the characters after the last `.` of the final
/// path segment, or nothing when that segment holds no `.` at all.
pub open spec fn spec_ext(p: Seq<char>) -> Option<Seq<char>>
    decreases p.len(),
{
    if p.len() == 0 {
        None
    } else if p.last() == '/' {
        None
    } else if p.last() == '.' {
        Some(Seq::empty())
    } else {
        match spec_ext(p.drop_last()) {
            None => None,
            Some(e) => Some(e.push(p.last())),
        }
    }
}

/// The final segment of a path: the characters after the last `/`.
pub open spec fn spec_final_segment(p: Seq<char>) -> Seq<char>
    decreases p.len(),
{
    if p.len() == 0 {
        Seq::empty()
    } else if p.last() == '/' {
        Seq::empty()
    } else {
        spec_final_segment(p.drop_last()).push(p.last())
    }
}

/// Whether an extension, after case folding, is one of the recognized
/// image extensions.
pub open spec fn spec_recognized(e: Seq<char>) -> bool {
    ||| lower_seq(e) == seq_vals("jpg"@)
    ||| lower_seq(e) == seq_vals("jpeg"@)
    ||| lower_seq(e) == seq_vals("png"@)
    ||| lower_seq(e) == seq_vals("tiff"@)
}

/// Whether a path is classified as an image: it has an extension and that
/// extension, case folded, is recognized.
pub open spec fn spec_is_image(p: Seq<char>) -> bool {
    match spec_ext(p) {
        Some(e) => spec_recognized(e),
        None => false,
    }
}

/// When a dot stands at position `d - 1` and no dot or slash follows it,
/// the extension is exactly the characters from `d` to the end.
proof fn lemma_ext_found(p: Seq<char>, d: int)
    requires
        0 < d <= p.len(),
        p[d - 1] == '.',
        forall|k: int| d <= k < p.len() ==> p[k] != '.' && p[k] != '/',
    ensures
        spec_ext(p) == Some(p.subrange(d, p.len() as int)),
    decreases p.len(),
{
    if d == p.len() {
        assert(p.last() == '.');
        assert(p.subrange(d, p.len() as int) =~= Seq::<char>::empty());
    } else {
        assert(p.last() != '.' && p.last() != '/');
        lemma_ext_found(p.drop_last(), d);
        assert(p.drop_last().subrange(d, p.len() - 1).push(p.last()) =~= p.subrange(
            d,
            p.len() as int,
        ));
    }
}

/// When no dot or slash stands at or after position `j`, and position `j`
/// starts the scan at the path's start or right after a slash, the path has
/// no extension.
proof fn lemma_no_ext(p: Seq<char>, j: int)
    requires
        0 <= j <= p.len(),
        forall|k: int| j <= k < p.len() ==> p[k] != '.' && p[k] != '/',
        j == 0 || p[j - 1] == '/',
    ensures
        spec_ext(p) is None,
    decreases p.len(),
{
    if p.len() == 0 {
    } else if j == p.len() {
        assert(p.last() == '/');
    } else {
        assert(p.last() != '.' && p.last() != '/');
        lemma_no_ext(p.drop_last(), j);
    }
}

/// Case-insensitive comparison of the path characters in `[start, end)`
/// against a literal that is already lower case.
fn ext_eq_ci(path: &str, start: usize, end: usize, lit: &str) -> (b: bool)
    requires
        start <= end <= path@.len(),
    ensures
        b == (lower_seq(path@.subrange(start as int, end as int)) == seq_vals(lit@)),
{
    let m = lit.unicode_len();
    if end - start != m {
        assert(lower_seq(path@.subrange(start as int, end as int)).len() != seq_vals(
            lit@,
        ).len());
        return false;
    }
    let mut j: usize = 0;
    while j < m
        invariant
            start <= end <= path@.len(),
            end - start == m == lit@.len(),
            j <= m,
            forall|k: int|
                0 <= k < j ==> lower_val(path@[start + k]) == lit@[k] as int,
        decreases m - j,
    {
        let pc = path.get_char(start + j);
        let lc = lit.get_char(j);
        let pv: u32 = pc as u32;
        let lv: u32 = lc as u32;
        let plow: u32 = if 65 <= pv && pv <= 90 {
            pv + 32
        } else {
            pv
        };
        if plow != lv {
            assert(lower_val(path@[start + j]) != lit@[j as int] as int);
            assert(lower_seq(path@.subrange(start as int, end as int))[j as int] != seq_vals(
                lit@,
            )[j as int]);
            return false;
        }
        j += 1;
    }
    assert(lower_seq(path@.subrange(start as int, end as int)) =~= seq_vals(lit@));
    true
}

/// Whether the path names an image file: its final segment has an extension
/// after a `.`, and the extension, compared case-insensitively, is `jpg`,
/// `jpeg`, `png` or `tiff`.
pub fn is_image(path: &str) -> (b: bool)
    ensures
        b == spec_is_image(path@),
{
    let n = path.unicode_len();
    let mut i = n;
    loop
        invariant_except_break
            i <= n == path@.len(),
            forall|k: int| i <= k < n ==> path@[k] != '.' && path@[k] != '/',
        ensures
            0 < i <= n == path@.len(),
            path@[i - 1] == '.',
            forall|k: int| i <= k < n ==> path@[k] != '.' && path@[k] != '/',
        decreases i,
    {
        if i == 0 {
            proof {
                lemma_no_ext(path@, 0);
            }
            return false;
        }
        let c = path.get_char(i - 1);
        if c == '/' {
            proof {
                lemma_no_ext(path@, i as int);
            }
            return false;
        }
        if c == '.' {
            break;
        }
        i -= 1;
    }
    proof {
        lemma_ext_found(path@, i as int);
    }
    let b = ext_eq_ci(path, i, n, "jpg") || ext_eq_ci(path, i, n, "jpeg") || ext_eq_ci(
        path,
        i,
        n,
        "png",
    ) || ext_eq_ci(path, i, n, "tiff");
    b
}

/// The views of a sequence of strings.
pub open spec fn views_of(v: Seq<String>) -> Seq<Seq<char>> {
    v.map_values(|s: String| s@)
}

/// The paths of a listing that are classified as images, in listing order.
pub open spec fn spec_image_filter(ps: Seq<Seq<char>>) -> Seq<Seq<char>> {
    ps.filter(|p: Seq<char>| spec_is_image(p))
}

proof fn lemma_filter_push<A>(s: Seq<A>, x: A, pred: spec_fn(A) -> bool)
    ensures
        s.push(x).filter(pred) == if pred(x) {
            s.filter(pred).push(x)
        } else {
            s.filter(pred)
        },
{
    reveal(Seq::filter);
    assert(s.push(x).drop_last() =~= s);
    assert(s.push(x).last() == x);
}

/// Keeps, of the regular-file entries that a directory listing produced, those
/// that are classified as images, in the listing's order.
pub fn get_images(entries: Vec<String>) -> (r: Vec<String>)
    ensures
        views_of(r@) == spec_image_filter(views_of(entries@)),
{
    let mut r: Vec<String> = Vec::new();
    let mut i: usize = 0;
    proof {
        assert(views_of(entries@.subrange(0, 0)) =~= Seq::<Seq<char>>::empty());
        reveal(Seq::filter);
        assert(views_of(r@) =~= Seq::<Seq<char>>::empty());
    }
    while i < entries.len()
        invariant
            i <= entries.len(),
            views_of(r@) == spec_image_filter(views_of(entries@.subrange(0, i as int))),
        decreases entries.len() - i,
    {
        let ghost pre = r@;
        let e = &entries[i];
        let keep = is_image(e.as_str());
        if keep {
            r.push(e.clone());
        }
        proof {
            assert(entries@.subrange(0, i + 1) =~= entries@.subrange(0, i as int).push(
                entries@[i as int],
            ));
            assert(views_of(entries@.subrange(0, i as int).push(entries@[i as int])) =~= views_of(
                entries@.subrange(0, i as int),
            ).push(entries@[i as int]@));
            lemma_filter_push(
                views_of(entries@.subrange(0, i as int)),
                entries@[i as int]@,
                |p: Seq<char>| spec_is_image(p),
            );
            if keep {
                assert(views_of(pre.push(entries@[i as int])) =~= views_of(pre).push(
                    entries@[i as int]@,
                ));
            }
        }
        i += 1;
    }
    proof {
        assert(entries@.subrange(0, entries@.len() as int) =~= entries@);
    }
    r
}

/// The message given for a path that does not exist.
pub open spec fn msg_not_exists(d: Seq<char>) -> Seq<char> {
    "The directory '"@ + d + "' does not exist."@
}

/// The message given for a path that exists but is not a directory.
pub open spec fn msg_not_dir(d: Seq<char>) -> Seq<char> {
    "'"@ + d + "' is not a directory."@
}

/// Accepts a directory argument exactly when the path exists and is a
/// directory; otherwise names the failing condition. The caller supplies
/// what it observed of the filesystem: whether the path exists and whether
/// it is a directory.
pub fn dir_validator(dir_str: String, exists: bool, is_dir: bool) -> (r: Result<(), String>)
    ensures
        r is Ok <==> exists && is_dir,
        !exists ==> (r matches Err(m) && m@ == msg_not_exists(dir_str@)),
        exists && !is_dir ==> (r matches Err(m) && m@ == msg_not_dir(dir_str@)),
{
    if !exists {
        let mut m = String::from_str("The directory '");
        m.append(dir_str.as_str());
        m.append("' does not exist.");
        assert(m@ =~= msg_not_exists(dir_str@));
        Err(m)
    } else if !is_dir {
        let mut m = String::from_str("'");
        m.append(dir_str.as_str());
        m.append("' is not a directory.");
        assert(m@ =~= msg_not_dir(dir_str@));
        Err(m)
    } else {
        Ok(())
    }
}

/// A character and its case variant: either the same character, or the same
/// letter in the other ASCII case.
pub open spec fn case_variant(a: char, b: char) -> bool {
    ||| a == b
    ||| (65 <= a as int <= 90 && b as int == a as int + 32)
    ||| (65 <= b as int <= 90 && a as int == b as int + 32)
}

proof fn lemma_case_variant_dot_slash(a: char, b: char)
    requires
        case_variant(a, b),
    ensures
        (a == '.') ==> (b == '.'),
        (a == '/') ==> (b == '/'),
        lower_val(a) == lower_val(b),
{
}

/// Two paths of equal length whose characters are pairwise case variants have
/// the same extension structure: both have none, or both have one and the two
/// extensions agree after case folding.
proof fn lemma_ext_case_variant(p: Seq<char>, q: Seq<char>)
    requires
        p.len() == q.len(),
        forall|i: int| 0 <= i < p.len() ==> case_variant(p[i], q[i]),
    ensures
        match (spec_ext(p), spec_ext(q)) {
            (Some(a), Some(b)) => lower_seq(a) == lower_seq(b),
            (None, None) => true,
            _ => false,
        },
    decreases p.len(),
{
    if p.len() == 0 {
    } else {
        lemma_case_variant_dot_slash(p.last(), q.last());
        lemma_case_variant_dot_slash(q.last(), p.last());
        if p.last() == '/' {
        } else if p.last() == '.' {
            assert(lower_seq(Seq::<char>::empty()) =~= lower_seq(Seq::<char>::empty()));
        } else {
            assert(forall|i: int|
                0 <= i < p.drop_last().len() ==> case_variant(
                    p.drop_last()[i],
                    q.drop_last()[i],
                ));
            lemma_ext_case_variant(p.drop_last(), q.drop_last());
            match (spec_ext(p.drop_last()), spec_ext(q.drop_last())) {
                (Some(a), Some(b)) => {
                    assert(lower_seq(a.push(p.last())) =~= lower_seq(a).push(lower_val(p.last())));
                    assert(lower_seq(b.push(q.last())) =~= lower_seq(b).push(lower_val(q.last())));
                },
                _ => {},
            }
        }
    }
}

/// Classification is case-insensitive: two paths of equal length whose
/// characters are pairwise case variants classify alike. In particular, a
/// path and its uppercase-extension variant classify alike.
pub proof fn lemma_is_image_case_insensitive(p: Seq<char>, q: Seq<char>)
    requires
        p.len() == q.len(),
        forall|i: int| 0 <= i < p.len() ==> case_variant(p[i], q[i]),
    ensures
        spec_is_image(p) == spec_is_image(q),
{
    lemma_ext_case_variant(p, q);
}

/// A path with a `/` or a `.` as its last character, or a path whose
/// extension scan reaches a dot, relates to its final segment: a path whose
/// extension exists has a `.` in its final segment.
proof fn lemma_ext_implies_dot_in_final_segment(p: Seq<char>)
    requires
        spec_ext(p) is Some,
    ensures
        spec_final_segment(p).contains('.'),
    decreases p.len(),
{
    if p.len() == 0 {
    } else if p.last() == '/' {
    } else if p.last() == '.' {
        assert(spec_final_segment(p).last() == '.');
        assert(spec_final_segment(p).contains('.'));
    } else {
        lemma_ext_implies_dot_in_final_segment(p.drop_last());
        let fs = spec_final_segment(p.drop_last());
        let k = choose|k: int| 0 <= k < fs.len() && fs[k] == '.';
        assert(spec_final_segment(p)[k] == '.');
        assert(spec_final_segment(p).contains('.'));
    }
}

/// A path with no `.` in its final segment is not an image.
pub proof fn lemma_no_dot_not_image(p: Seq<char>)
    requires
        !spec_final_segment(p).contains('.'),
    ensures
        !spec_is_image(p),
{
    if spec_ext(p) is Some {
        lemma_ext_implies_dot_in_final_segment(p);
    }
}

/// A path whose final segment is exactly a recognized extension, with no
/// leading dot, is not an image.
pub proof fn lemma_bare_extension_not_image(p: Seq<char>)
    requires
        spec_final_segment(p) == "jpg"@ || spec_final_segment(p) == "jpeg"@
            || spec_final_segment(p) == "png"@ || spec_final_segment(p) == "tiff"@,
    ensures
        !spec_is_image(p),
{
    reveal_strlit("jpg");
    reveal_strlit("jpeg");
    reveal_strlit("png");
    reveal_strlit("tiff");
    lemma_no_dot_not_image(p);
}

} // verus!

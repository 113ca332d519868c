//! File-name rules of the pipeline: how a segment's ordinal is encoded into
//! its output path, how it is recovered from a path alone, and why the names
//! of two runs with distinct identifiers never collide.

use vstd::prelude::*;

use crate::digits::{
    digit_val, digits_value, is_digit, lemma_digits_value_of_spec_digits,
    lemma_spec_digits_injective, lemma_spec_digits_wf, spec_digits, format_u64,
};

verus! {

/// Index of the last occurrence of `c` in `s`, or -1 when `c` does not occur.
pub open spec fn last_occurrence(s: Seq<char>, c: char) -> int
    decreases s.len(),
{
    if s.len() == 0 {
        -1
    } else if s.last() == c {
        s.len() - 1
    } else {
        last_occurrence(s.drop_last(), c)
    }
}

/// The file-name portion of a path: everything after the last `/`.
pub open spec fn file_name_part(p: Seq<char>) -> Seq<char> {
    p.subrange(last_occurrence(p, '/') + 1, p.len() as int)
}

/// The stem of a file name: everything before the last `.`, unless that dot
/// is absent or leads the name, in which case the whole name is the stem.
pub open spec fn stem_part(name: Seq<char>) -> Seq<char> {
    let d = last_occurrence(name, '.');
    if d <= 0 {
        name
    } else {
        name.take(d)
    }
}

/// The maximal run of decimal digits at the end of `s`.
pub open spec fn trailing_digit_run(s: Seq<char>) -> Seq<char>
    decreases s.len(),
{
    if s.len() == 0 {
        Seq::empty()
    } else if is_digit(s.last()) {
        trailing_digit_run(s.drop_last()).push(s.last())
    } else {
        Seq::empty()
    }
}

/// The extension of a path's file name: everything after the last `.`, or
/// nothing when that dot is absent or leads the name.
pub open spec fn extension_part(p: Seq<char>) -> Option<Seq<char>> {
    let name = file_name_part(p);
    let d = last_occurrence(name, '.');
    if d <= 0 {
        None
    } else {
        Some(name.skip(d + 1))
    }
}

/// The ordinal recovered from a path: the value of the trailing digits of its
/// stem, or zero when there are none or their value does not fit in `usize`.
/// The rule is total by choice: a path with no file name — empty, or nothing
/// after its last separator — has an empty stem, hence no trailing digits,
/// and recovers zero like any other name without them.
pub open spec fn spec_recovered_index(path: Seq<char>) -> nat {
    let run = trailing_digit_run(stem_part(file_name_part(path)));
    if run.len() == 0 || digits_value(run) > usize::MAX {
        0
    } else {
        digits_value(run)
    }
}

/// Name of the private workspace directory of the run with this identifier.
pub open spec fn spec_workspace_dir_name(run_id: u32) -> Seq<char> {
    "tmp_audio_dir"@ + spec_digits(run_id as nat)
}

/// Name of the transient concatenation manifest of the run with this
/// identifier.
pub open spec fn spec_manifest_file_name(run_id: u32) -> Seq<char> {
    "filelist"@ + spec_digits(run_id as nat) + ".txt"@
}

/// Output path of the segment with ordinal `i`, under workspace `dir`.
pub open spec fn spec_segment_output_path(dir: Seq<char>, i: nat) -> Seq<char> {
    dir + "/"@ + "tmp_output"@ + spec_digits(i) + ".wav"@
}

pub fn workspace_dir_name(run_id: u32) -> (s: String)
    ensures
        s@ == spec_workspace_dir_name(run_id),
{
    let mut s = "tmp_audio_dir".to_owned();
    let ds = format_u64(run_id as u64);
    s.append(ds.as_str());
    s
}

pub fn manifest_file_name(run_id: u32) -> (s: String)
    ensures
        s@ == spec_manifest_file_name(run_id),
{
    let mut s = "filelist".to_owned();
    let ds = format_u64(run_id as u64);
    s.append(ds.as_str());
    s.append(".txt");
    s
}

pub fn segment_output_path(dir: &str, i: usize) -> (s: String)
    ensures
        s@ == spec_segment_output_path(dir@, i as nat),
{
    let mut s = dir.to_owned();
    s.append("/");
    s.append("tmp_output");
    let ds = format_u64(i as u64);
    s.append(ds.as_str());
    s.append(".wav");
    s
}

/// A segment's ordinal is recoverable from its output path alone, for any
/// workspace directory name free of path separators.
pub proof fn lemma_recover_segment_index(dir: Seq<char>, i: nat)
    requires
        !dir.contains('/'),
        i <= usize::MAX,
    ensures
        spec_recovered_index(spec_segment_output_path(dir, i)) == i,
{
    reveal_strlit("/");
    reveal_strlit("tmp_output");
    reveal_strlit(".wav");
    lemma_spec_digits_wf(i);
    lemma_digits_value_of_spec_digits(i);
    let ds = spec_digits(i);
    let p = spec_segment_output_path(dir, i);
    let slash = "/"@;
    let body = "tmp_output"@;
    let ext = ".wav"@;
    let dl = dir.len() as int;
    assert(p.len() == dl + 1 + 10 + ds.len() + 4);
    assert(p[dl] == '/');
    assert forall|m: int| dl < m < p.len() implies p[m] != '/' by {
        if m < dl + 11 {
            assert(p[m] == body[m - dl - 1]);
        } else if m < dl + 11 + ds.len() {
            assert(p[m] == ds[m - dl - 11]);
            assert(is_digit(ds[m - dl - 11]));
        } else {
            assert(p[m] == ext[m - dl - 11 - ds.len()]);
        }
    }
    lemma_last_occurrence_at(p, '/', dl);
    let name = file_name_part(p);
    assert(name =~= body + ds + ext);
    let dot = 10 + ds.len() as int;
    assert(name[dot] == '.');
    assert forall|m: int| dot < m < name.len() implies name[m] != '.' by {
        assert(name[m] == ext[m - 10 - ds.len()]);
    }
    lemma_last_occurrence_at(name, '.', dot);
    let stem = stem_part(name);
    assert(stem =~= body + ds);
    assert forall|m: int| 10 <= m < stem.len() implies is_digit(#[trigger] stem[m]) by {
        assert(stem[m] == ds[m - 10]);
    }
    assert(!is_digit(stem[9]));
    lemma_trailing_run_at(stem, 10);
    assert(trailing_digit_run(stem) =~= ds);
}

/// A workspace directory name holds no path separator, so every segment
/// path under it has the directory as its only directory part.
pub proof fn lemma_workspace_dir_name_no_slash(run_id: u32)
    ensures
        !spec_workspace_dir_name(run_id).contains('/'),
{
    reveal_strlit("tmp_audio_dir");
    lemma_spec_digits_wf(run_id as nat);
    let s = spec_workspace_dir_name(run_id);
    let l = "tmp_audio_dir"@.len() as int;
    assert forall|i: int| 0 <= i < s.len() implies s[i] != '/' by {
        if i < l {
            assert(s[i] == "tmp_audio_dir"@[i]);
        } else {
            assert(s[i] == spec_digits(run_id as nat)[i - l]);
            assert(is_digit(s[i]));
        }
    }
    if s.contains('/') {
        let i = choose|i: int| 0 <= i < s.len() && s[i] == '/';
        assert(false);
    }
}

/// Distinct run identifiers give distinct workspace directory names and
/// distinct manifest file names: two concurrent runs with distinct
/// identifiers never collide on either.
pub proof fn lemma_distinct_runs_never_collide(a: u32, b: u32)
    requires
        a != b,
    ensures
        spec_workspace_dir_name(a) != spec_workspace_dir_name(b),
        spec_manifest_file_name(a) != spec_manifest_file_name(b),
{
    let da = spec_digits(a as nat);
    let db = spec_digits(b as nat);
    if spec_workspace_dir_name(a) == spec_workspace_dir_name(b) {
        let l = "tmp_audio_dir"@.len() as int;
        assert(spec_workspace_dir_name(a).len() == l + da.len());
        assert(spec_workspace_dir_name(b).len() == l + db.len());
        assert(da =~= db) by {
            assert(da.len() == db.len());
            assert forall|i: int| 0 <= i < da.len() implies da[i] == db[i] by {
                assert(spec_workspace_dir_name(a)[l + i] == da[i]);
                assert(spec_workspace_dir_name(b)[l + i] == db[i]);
            }
        }
        lemma_spec_digits_injective(a as nat, b as nat);
    }
    if spec_manifest_file_name(a) == spec_manifest_file_name(b) {
        let l = "filelist"@.len() as int;
        assert(spec_manifest_file_name(a).len() == l + da.len() + ".txt"@.len());
        assert(spec_manifest_file_name(b).len() == l + db.len() + ".txt"@.len());
        assert(da.len() == db.len());
        assert(da =~= db) by {
            assert forall|i: int| 0 <= i < da.len() implies da[i] == db[i] by {
                assert(spec_manifest_file_name(a)[l + i] == da[i]);
                assert(spec_manifest_file_name(b)[l + i] == db[i]);
            }
        }
        lemma_spec_digits_injective(a as nat, b as nat);
    }
}

/// `last_occurrence` is pinned down by a witness position `k` after which
/// `c` does not occur.
proof fn lemma_last_occurrence_at(s: Seq<char>, c: char, k: int)
    requires
        -1 <= k < s.len(),
        k >= 0 ==> s[k] == c,
        forall|m: int| k < m < s.len() ==> s[m] != c,
    ensures
        last_occurrence(s, c) == k,
    decreases s.len(),
{
    if s.len() == 0 {
    } else if s.last() == c {
        assert(k == s.len() - 1);
    } else {
        assert(k < s.len() - 1);
        lemma_last_occurrence_at(s.drop_last(), c, k);
    }
}

/// When `c` does not occur after position `k`, the last occurrence is at or
/// before `k`.
proof fn lemma_last_occurrence_le(s: Seq<char>, c: char, k: int)
    requires
        -1 <= k,
        forall|m: int| k < m < s.len() ==> s[m] != c,
    ensures
        last_occurrence(s, c) <= k,
    decreases s.len(),
{
    if s.len() == 0 {
    } else if s.last() == c {
        assert(k >= s.len() - 1);
    } else {
        lemma_last_occurrence_le(s.drop_last(), c, k);
    }
}

/// The trailing digit run is pinned down by its start `t`: all digits from
/// `t` on, and `t` is either the start or preceded by a non-digit.
proof fn lemma_trailing_run_at(s: Seq<char>, t: int)
    requires
        0 <= t <= s.len(),
        forall|m: int| t <= m < s.len() ==> is_digit(#[trigger] s[m]),
        t > 0 ==> !is_digit(s[t - 1]),
    ensures
        trailing_digit_run(s) =~= s.skip(t),
    decreases s.len(),
{
    if s.len() == 0 {
    } else if is_digit(s.last()) {
        assert(t <= s.len() - 1);
        lemma_trailing_run_at(s.drop_last(), t);
        assert(trailing_digit_run(s) =~= s.drop_last().skip(t).push(s.last()));
    } else {
        assert(t == s.len());
    }
}

/// Decides `is_digit`.
fn is_digit_char(c: char) -> (b: bool)
    ensures
        b == is_digit(c),
{
    let u = c as u32;
    48 <= u && u <= 57
}

/// Recovers a segment's ordinal from its path: the trailing decimal digits
/// of the file-name stem, read as a number; zero when the stem has no
/// trailing digits or their value does not fit in `usize`. Deliberately
/// total: recovery is a fallback rule, so a path without a file name is not
/// rejected but defaults to zero, as `spec_recovered_index` spells out.
pub fn extract_index(path: &str) -> (i: usize)
    ensures
        i as nat == spec_recovered_index(path@),
{
    let n = path.unicode_len();

    // One past the last '/' in the path; 0 when there is none.
    let mut start: usize = 0;
    let mut j: usize = 0;
    while j < n
        invariant
            0 <= j <= n,
            n == path@.len(),
            start == 0 ==> forall|k: int| 0 <= k < j ==> path@[k] != '/',
            start > 0 ==> start <= j && path@[start - 1] == '/' && forall|k: int|
                start <= k < j ==> path@[k] != '/',
        decreases n - j,
    {
        if path.get_char(j) == '/' {
            start = j + 1;
        }
        j += 1;
    }
    proof {
        lemma_last_occurrence_at(path@, '/', start - 1);
        assert(file_name_part(path@) == path@.subrange(start as int, n as int));
    }
    let ghost name = file_name_part(path@);

    // End of the stem: the last '.' strictly after the name's first
    // character; the end of the name when there is none.
    let mut stem_end: usize = n;
    let mut j2: usize = start;
    while j2 < n
        invariant
            start <= j2 <= n <= usize::MAX,
            n == path@.len(),
            stem_end == n || (start < stem_end < j2 && path@[stem_end as int] == '.' && (forall|
                k: int,
            | stem_end < k < j2 ==> path@[k] != '.')),
            stem_end == n ==> forall|k: int| start < k < j2 ==> path@[k] != '.',
        decreases n - j2,
    {
        if j2 > start && path.get_char(j2) == '.' {
            stem_end = j2;
        }
        j2 += 1;
    }
    proof {
        if stem_end == n {
            lemma_last_occurrence_le(name, '.', 0);
            assert(stem_part(name) =~= path@.subrange(start as int, stem_end as int));
        } else {
            lemma_last_occurrence_at(name, '.', stem_end - start);
            assert(stem_part(name) =~= name.take(stem_end - start));
            assert(stem_part(name) =~= path@.subrange(start as int, stem_end as int));
        }
    }
    let ghost stem = stem_part(name);

    // Start of the trailing digit run of the stem.
    let mut t: usize = stem_end;
    while t > start && is_digit_char(path.get_char(t - 1))
        invariant
            start <= t <= stem_end <= n,
            n == path@.len(),
            forall|k: int| t <= k < stem_end ==> is_digit(#[trigger] path@[k]),
        decreases t,
    {
        t -= 1;
    }
    proof {
        lemma_trailing_run_at(stem, t - start);
        assert(trailing_digit_run(stem) =~= path@.subrange(t as int, stem_end as int));
    }
    let ghost run = trailing_digit_run(stem);

    // The run's value, watching for overflow beyond usize.
    let mut acc: usize = 0;
    let mut overflow = false;
    let mut j3: usize = t;
    while j3 < stem_end
        invariant
            t <= j3 <= stem_end <= n,
            n == path@.len(),
            run == path@.subrange(t as int, stem_end as int),
            forall|k: int| t <= k < stem_end ==> is_digit(#[trigger] path@[k]),
            !overflow ==> acc as nat == digits_value(run.take(j3 - t)),
            overflow ==> digits_value(run.take(j3 - t)) > usize::MAX,
        decreases stem_end - j3,
    {
        let c = path.get_char(j3);
        proof {
            assert(is_digit(path@[j3 as int]));
        }
        let d = (c as u32 - 48) as usize;
        proof {
            assert(run.take(j3 + 1 - t).drop_last() =~= run.take(j3 - t));
            assert(run.take(j3 + 1 - t).last() == path@[j3 as int]);
            assert(digits_value(run.take(j3 + 1 - t)) == digits_value(run.take(j3 - t)) * 10
                + digit_val(path@[j3 as int]));
        }
        if !overflow {
            if acc > (usize::MAX - d) / 10 {
                proof {
                    assert(acc as nat * 10 + d as nat > usize::MAX) by (nonlinear_arith)
                        requires
                            acc as nat > (usize::MAX as nat - d as nat) / 10,
                            d as nat <= usize::MAX as nat,
                    ;
                }
                overflow = true;
            } else {
                proof {
                    assert(acc as nat * 10 + d as nat <= usize::MAX) by (nonlinear_arith)
                        requires
                            acc as nat <= (usize::MAX as nat - d as nat) / 10,
                            d as nat <= usize::MAX as nat,
                    ;
                }
                acc = acc * 10 + d;
            }
        }
        j3 += 1;
    }
    proof {
        assert(run.take(stem_end - t) =~= run);
    }
    if overflow {
        0
    } else {
        acc
    }
}

/// The extension of a path's file name, or `None` when it has none.
pub fn path_extension(path: &str) -> (r: Option<String>)
    ensures
        (r is Some) == (extension_part(path@) is Some),
        (r matches Some(e) ==> extension_part(path@) == Some(e@)),
{
    let n = path.unicode_len();

    // One past the last '/' in the path; 0 when there is none.
    let mut start: usize = 0;
    let mut j: usize = 0;
    while j < n
        invariant
            0 <= j <= n,
            n == path@.len(),
            start == 0 ==> forall|k: int| 0 <= k < j ==> path@[k] != '/',
            start > 0 ==> start <= j && path@[start - 1] == '/' && forall|k: int|
                start <= k < j ==> path@[k] != '/',
        decreases n - j,
    {
        if path.get_char(j) == '/' {
            start = j + 1;
        }
        j += 1;
    }
    proof {
        lemma_last_occurrence_at(path@, '/', start - 1);
        assert(file_name_part(path@) == path@.subrange(start as int, n as int));
    }
    let ghost name = file_name_part(path@);

    // The last '.' strictly after the name's first character, if any.
    let mut dot: usize = n;
    let mut j2: usize = start;
    while j2 < n
        invariant
            start <= j2 <= n <= usize::MAX,
            n == path@.len(),
            dot == n || (start < dot < j2 && path@[dot as int] == '.' && (forall|k: int|
                dot < k < j2 ==> path@[k] != '.')),
            dot == n ==> forall|k: int| start < k < j2 ==> path@[k] != '.',
        decreases n - j2,
    {
        if j2 > start && path.get_char(j2) == '.' {
            dot = j2;
        }
        j2 += 1;
    }
    if dot == n {
        proof {
            lemma_last_occurrence_le(name, '.', 0);
        }
        None
    } else {
        proof {
            lemma_last_occurrence_at(name, '.', dot - start);
            assert(name.skip(dot - start + 1) =~= path@.subrange(dot as int + 1, n as int));
        }
        let e = path.substring_char(dot + 1, n);
        Some(e.to_owned())
    }
}

} // verus!

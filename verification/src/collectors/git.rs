//! Repository-status adapter: turns raw version-control output into typed
//! status records.
//!
//! The hosting binary runs the version-control client; this module owns
//! every rule for interpreting its output: status-line classification,
//! branch fallback for detached states, commit-summary truncation, ordering
//! and the entry cap.

use vstd::prelude::*;
use vstd::multiset::Multiset;
use crate::config::Config;
use crate::context::{GitInfo, GitInfoV};
use crate::raw::RawRepo;
use crate::strutil::{
    lemma_lex_le_total, lemma_lex_le_trans, lex_le, starts_with, str_eq, str_starts_with,
    str_le, trim_str, trim_ws,
};

verus! {

/// The number of entries the repository list is capped to.
pub const MAX_GIT_REPOS: usize = 10;

/// A status line reporting an untracked file.
pub open spec fn line_marks_untracked(line: Seq<char>) -> bool {
    starts_with(line, "??"@)
}

/// A status line counted as a modification: one carrying a modify marker in
/// either column, or any other non-blank line that is not an untracked
/// marker.
pub open spec fn line_marks_modified(line: Seq<char>) -> bool {
    starts_with(line, " M"@) || starts_with(line, "M "@) || starts_with(line, "MM"@)
        || (!line_marks_untracked(line) && trim_ws(line).len() > 0)
}

/// Number of lines of `lines` counted as modifications.
pub open spec fn modified_count(lines: Seq<Seq<char>>) -> int
    decreases lines.len(),
{
    if lines.len() == 0 {
        0
    } else {
        modified_count(lines.drop_last()) + if line_marks_modified(lines.last()) {
            1int
        } else {
            0int
        }
    }
}

/// Number of lines of `lines` counted as untracked files.
pub open spec fn untracked_count(lines: Seq<Seq<char>>) -> int
    decreases lines.len(),
{
    if lines.len() == 0 {
        0
    } else {
        untracked_count(lines.drop_last()) + if line_marks_untracked(lines.last()) {
            1int
        } else {
            0int
        }
    }
}

/// Classify porcelain status lines into modified and untracked counts.
pub fn classify_status_lines(lines: &Vec<String>) -> (r: (usize, usize))
    ensures
        r.0 == modified_count(lines.deep_view()),
        r.1 == untracked_count(lines.deep_view()),
{
    let mut modified: usize = 0;
    let mut untracked: usize = 0;
    let mut i: usize = 0;
    while i < lines.len()
        invariant
            0 <= i <= lines@.len(),
            modified <= i,
            untracked <= i,
            modified == modified_count(lines.deep_view().take(i as int)),
            untracked == untracked_count(lines.deep_view().take(i as int)),
        decreases lines@.len() - i,
    {
        let line: &str = lines[i].as_str();
        proof {
            reveal_strlit(" M");
            reveal_strlit("M ");
            reveal_strlit("MM");
            reveal_strlit("??");
        }
        if str_starts_with(line, " M") || str_starts_with(line, "M ") || str_starts_with(
            line,
            "MM",
        ) {
            assert(!line_marks_untracked(line@)) by {
                if starts_with(line@, "??"@) {
                    assert(line@.take(2)[0] == '?');
                }
            }
            assert(line_marks_modified(line@));
            modified = modified + 1;
        } else if str_starts_with(line, "??") {
            assert(line_marks_untracked(line@));
            assert(!line_marks_modified(line@));
            untracked = untracked + 1;
        } else {
            assert(!line_marks_untracked(line@));
            let trimmed = trim_str(line);
            if trimmed.unicode_len() > 0 {
                assert(line_marks_modified(line@));
                modified = modified + 1;
            } else {
                assert(!line_marks_modified(line@));
            }
        }
        proof {
            assert(lines.deep_view().take(i + 1).drop_last() =~= lines.deep_view().take(i as int));
            assert(lines.deep_view().take(i + 1).last() == line@);
        }
        i = i + 1;
    }
    assert(lines.deep_view().take(i as int) =~= lines.deep_view());
    (modified, untracked)
}

/// The stored commit summary: the line itself when it fits in 50
/// characters, else its first 47 characters with an ellipsis marker.
pub open spec fn truncate_commit_seq(s: Seq<char>) -> Seq<char> {
    if s.len() > 50 {
        s.take(47) + "..."@
    } else {
        s
    }
}

/// Truncate a last-commit line to the stored summary form.
pub fn truncate_commit_summary(line: &str) -> (r: String)
    ensures
        r@ == truncate_commit_seq(line@),
{
    let len = line.unicode_len();
    if len > 50 {
        let mut s = String::from_str(line.substring_char(0, 47));
        s.append("...");
        s
    } else {
        String::from_str(line)
    }
}

/// For every commit line whose combined hash and message exceed 50
/// characters, the stored summary is exactly the first 47 characters
/// followed by the three-character ellipsis marker, 50 characters in all.
pub proof fn lemma_commit_truncation(line: Seq<char>)
    requires
        line.len() > 50,
    ensures
        truncate_commit_seq(line).len() == 50,
        truncate_commit_seq(line).take(47) == line.take(47),
        truncate_commit_seq(line).skip(47) == "..."@,
{
    reveal_strlit("...");
    assert(truncate_commit_seq(line).take(47) =~= line.take(47));
    assert(truncate_commit_seq(line).skip(47) =~= "..."@);
}

/// The rendered branch name: the trimmed branch query output when it is
/// non-empty, else the trimmed describe output in parentheses when the
/// describe query succeeded, else empty.
pub open spec fn branch_of(
    branch_output: Option<Seq<char>>,
    describe_output: Option<Seq<char>>,
) -> Seq<char> {
    let b = match branch_output {
        Some(s) => trim_ws(s),
        None => Seq::<char>::empty(),
    };
    if b.len() > 0 {
        b
    } else {
        match describe_output {
            Some(d) => "("@ + trim_ws(d) + ")"@,
            None => b,
        }
    }
}

/// Resolve the branch name from the two raw query outputs.
pub fn branch_name(branch_output: &Option<String>, describe_output: &Option<String>) -> (r:
    String)
    ensures
        r@ == branch_of(branch_output.deep_view(), describe_output.deep_view()),
{
    let b = match branch_output {
        Some(s) => trim_str(s.as_str()),
        None => String::new(),
    };
    if b.unicode_len() > 0 {
        b
    } else {
        match describe_output {
            Some(d) => {
                let mut r = String::from_str("(");
                let t = trim_str(d.as_str());
                r.append(t.as_str());
                r.append(")");
                r
            },
            None => b,
        }
    }
}

/// The modified count a raw status result yields: zero when the status
/// query failed.
pub open spec fn raw_modified(status_lines: Option<Seq<Seq<char>>>) -> int {
    match status_lines {
        Some(ls) => modified_count(ls),
        None => 0,
    }
}

/// The untracked count a raw status result yields.
pub open spec fn raw_untracked(status_lines: Option<Seq<Seq<char>>>) -> int {
    match status_lines {
        Some(ls) => untracked_count(ls),
        None => 0,
    }
}

/// The typed status record a raw repository result maps to.  The dirty flag
/// holds exactly when a modified or untracked file was counted.
pub open spec fn git_info_of(r: RawRepo) -> GitInfoV {
    let m = raw_modified(r.status_lines.deep_view());
    let u = raw_untracked(r.status_lines.deep_view());
    GitInfoV {
        repo_path: r.path@,
        branch: branch_of(r.branch_output.deep_view(), r.describe_output.deep_view()),
        is_dirty: m > 0 || u > 0,
        modified_files: m,
        untracked_files: u,
        last_commit_short: match r.commit_output.deep_view() {
            Some(c) => truncate_commit_seq(trim_ws(c)),
            None => Seq::<char>::empty(),
        },
    }
}

/// Build the typed status record for one repository from its raw outputs.
pub fn build_git_info(r: &RawRepo) -> (g: GitInfo)
    ensures
        g@ == git_info_of(*r),
{
    let counts: (usize, usize) = match &r.status_lines {
        Some(ls) => classify_status_lines(ls),
        None => (0, 0),
    };
    let commit: String = match &r.commit_output {
        Some(c) => {
            let t = trim_str(c.as_str());
            truncate_commit_summary(t.as_str())
        },
        None => String::new(),
    };
    GitInfo {
        repo_path: r.path.clone(),
        branch: branch_name(&r.branch_output, &r.describe_output),
        is_dirty: counts.0 > 0 || counts.1 > 0,
        modified_files: counts.0,
        untracked_files: counts.1,
        last_commit_short: commit,
    }
}

/// Repository paths are ordered by their rendered path.
pub open spec fn repo_le(a: GitInfoV, b: GitInfoV) -> bool {
    lex_le(a.repo_path, b.repo_path)
}

/// `x` inserted into `s` after every entry whose path is at most `x`'s:
/// one step of the stable insertion sort that orders the repository list.
pub open spec fn insert_sorted(x: GitInfoV, s: Seq<GitInfoV>) -> Seq<GitInfoV>
    decreases s.len(),
{
    if s.len() == 0 {
        seq![x]
    } else if repo_le(s[0], x) {
        seq![s[0]] + insert_sorted(x, s.drop_first())
    } else {
        seq![x] + s
    }
}

/// The repository list ordered by path, stably.
pub open spec fn sort_by_path(s: Seq<GitInfoV>) -> Seq<GitInfoV>
    decreases s.len(),
{
    if s.len() == 0 {
        s
    } else {
        insert_sorted(s.last(), sort_by_path(s.drop_last()))
    }
}

/// The list is sorted when every entry's path is at most every later one's.
pub open spec fn path_sorted(s: Seq<GitInfoV>) -> bool {
    forall|i: int, j: int| 0 <= i < j < s.len() ==> repo_le(#[trigger] s[i], #[trigger] s[j])
}

proof fn lemma_insert_sorted_len(x: GitInfoV, s: Seq<GitInfoV>)
    ensures
        insert_sorted(x, s).len() == s.len() + 1,
    decreases s.len(),
{
    if s.len() > 0 && repo_le(s[0], x) {
        lemma_insert_sorted_len(x, s.drop_first());
    }
}

proof fn lemma_insert_sorted_sorted(x: GitInfoV, s: Seq<GitInfoV>)
    requires
        path_sorted(s),
    ensures
        path_sorted(insert_sorted(x, s)),
        insert_sorted(x, s).to_multiset() == s.to_multiset().insert(x),
    decreases s.len(),
{
    broadcast use vstd::seq_lib::group_to_multiset_ensures;

    let r = insert_sorted(x, s);
    lemma_insert_sorted_len(x, s);
    if s.len() == 0 {
        assert(seq![x] =~= Seq::<GitInfoV>::empty().push(x));
        assert(r.to_multiset() == s.to_multiset().insert(x));
    } else if repo_le(s[0], x) {
        let s1 = s.drop_first();
        assert(path_sorted(s1)) by {
            assert(forall|i: int, j: int|
                0 <= i < j < s1.len() ==> s1[i] == s[i + 1] && s1[j] == s[j + 1]);
        }
        lemma_insert_sorted_sorted(x, s1);
        let r1 = insert_sorted(x, s1);
        assert(r =~= seq![s[0]] + r1);
        // the head is at most every entry of the inserted tail
        assert forall|j: int| 1 <= j < r.len() implies repo_le(r[0], r[j]) by {
            assert(r[j] == r1[j - 1]);
            assert(r1.to_multiset().contains(r1[j - 1]));
            assert(s1.to_multiset().insert(x).contains(r1[j - 1]));
            if r1[j - 1] == x {
                assert(repo_le(s[0], x));
            } else {
                assert(s1.to_multiset().contains(r1[j - 1]));
                let w = choose|w: int| 0 <= w < s1.len() && s1[w] == r1[j - 1];
                assert(repo_le(s[0], s[w + 1]));
            }
        }
        assert(path_sorted(r)) by {
            assert(forall|i: int, j: int|
                1 <= i < j < r.len() ==> r[i] == r1[i - 1] && r[j] == r1[j - 1]);
        }
        assert(seq![s[0]] + r1 =~= r1.insert(0, s[0]));
        assert(r.to_multiset() == r1.to_multiset().insert(s[0])) by {
            assert(r =~= r1.insert(0, s[0]));
            vstd::seq_lib::lemma_multiset_commutative(seq![s[0]], r1);
            assert(seq![s[0]].to_multiset() =~= Multiset::<GitInfoV>::empty().insert(s[0]));
        }
        assert(s.to_multiset() == s1.to_multiset().insert(s[0])) by {
            assert(s =~= seq![s[0]] + s1);
            vstd::seq_lib::lemma_multiset_commutative(seq![s[0]], s1);
            assert(seq![s[0]].to_multiset() =~= Multiset::<GitInfoV>::empty().insert(s[0]));
        }
        assert(r.to_multiset() =~= s.to_multiset().insert(x));
    } else {
        lemma_lex_le_total(s[0].repo_path, x.repo_path);
        assert(repo_le(x, s[0]));
        assert forall|j: int| 1 <= j < r.len() implies repo_le(r[0], r[j]) by {
            assert(r[j] == s[j - 1]);
            if j == 1 {
            } else {
                assert(repo_le(s[0], s[j - 1]));
                lemma_lex_le_trans(x.repo_path, s[0].repo_path, s[j - 1].repo_path);
            }
        }
        assert(path_sorted(r)) by {
            assert(forall|i: int, j: int|
                1 <= i < j < r.len() ==> r[i] == s[i - 1] && r[j] == s[j - 1]);
        }
        assert(r =~= s.insert(0, x));
        vstd::seq_lib::lemma_multiset_commutative(seq![x], s);
        assert(seq![x].to_multiset() =~= Multiset::<GitInfoV>::empty().insert(x));
        assert(r.to_multiset() =~= s.to_multiset().insert(x));
    }
}

/// Sorting the repository list keeps its length and its entries and orders
/// it by path.
pub proof fn lemma_sort_by_path_ensures(s: Seq<GitInfoV>)
    ensures
        sort_by_path(s).len() == s.len(),
        path_sorted(sort_by_path(s)),
        sort_by_path(s).to_multiset() == s.to_multiset(),
    decreases s.len(),
{
    broadcast use vstd::seq_lib::group_to_multiset_ensures;

    if s.len() > 0 {
        lemma_sort_by_path_ensures(s.drop_last());
        lemma_insert_sorted_len(s.last(), sort_by_path(s.drop_last()));
        lemma_insert_sorted_sorted(s.last(), sort_by_path(s.drop_last()));
        assert(s =~= s.drop_last().push(s.last()));
        assert(s.drop_last().push(s.last()).to_multiset() == s.drop_last().to_multiset().insert(
            s.last(),
        ));
    }
}

proof fn lemma_insert_sorted_splice(x: GitInfoV, s: Seq<GitInfoV>, idx: int)
    requires
        0 <= idx <= s.len(),
        forall|k: int| 0 <= k < idx ==> repo_le(#[trigger] s[k], x),
        idx == s.len() || !repo_le(s[idx], x),
    ensures
        insert_sorted(x, s) == s.take(idx) + seq![x] + s.skip(idx),
    decreases idx,
{
    if s.len() == 0 {
        assert(s.take(0) + seq![x] + s.skip(0) =~= seq![x]);
    } else if idx == 0 {
        assert(s.take(0) + seq![x] + s.skip(0) =~= seq![x] + s);
    } else {
        lemma_insert_sorted_splice(x, s.drop_first(), idx - 1);
        assert(s.drop_first().take(idx - 1) =~= s.take(idx).drop_first());
        assert(s.drop_first().skip(idx - 1) =~= s.skip(idx));
        assert(seq![s[0]] + (s.take(idx).drop_first() + seq![x] + s.skip(idx)) =~= s.take(idx)
            + seq![x] + s.skip(idx));
    }
}

/// Sort typed status records by repository path, ascending and stably.
pub fn sort_git_infos(v: Vec<GitInfo>) -> (r: Vec<GitInfo>)
    ensures
        r.deep_view() == sort_by_path(v.deep_view()),
{
    let ghost orig = v.deep_view();
    let mut rest = v;
    let mut out: Vec<GitInfo> = Vec::new();
    proof {
        assert(out.deep_view() =~= Seq::<GitInfoV>::empty());
        assert(orig.take(0) =~= Seq::<GitInfoV>::empty());
        assert(rest.deep_view() =~= orig.skip(0));
    }
    while rest.len() > 0
        invariant
            rest@.len() <= orig.len(),
            rest.deep_view() == orig.skip(orig.len() - rest@.len()),
            out.deep_view() == sort_by_path(orig.take(orig.len() - rest@.len())),
        decreases rest@.len(),
    {
        let ghost done = orig.len() - rest@.len();
        let ghost pre = rest;
        proof {
            assert(rest.deep_view()[0] == orig[done]);
        }
        let x = rest.remove(0);
        proof {
            crate::strutil::lemma_deep_view_split(pre);
            crate::strutil::lemma_deep_view_split(rest);
            assert forall|j: int| 0 <= j < rest@.len() implies rest.deep_view()[j] == orig.skip(
                done + 1,
            )[j] by {
                assert(pre@.remove(0)[j] == pre@[j + 1]);
                assert(rest.deep_view()[j] == rest@[j].deep_view());
                assert(pre.deep_view()[j + 1] == pre@[j + 1].deep_view());
                assert(orig.skip(done)[j + 1] == orig[done + 1 + j]);
                assert(orig.skip(done + 1)[j] == orig[done + 1 + j]);
            }
            assert(rest.deep_view() =~= orig.skip(done + 1));
            assert(x@ == orig[done]);
        }
        let mut idx: usize = 0;
        while idx < out.len() && str_le(out[idx].repo_path.as_str(), x.repo_path.as_str())
            invariant
                0 <= idx <= out@.len(),
                forall|k: int| 0 <= k < idx ==> repo_le(#[trigger] out.deep_view()[k], x@),
            decreases out@.len() - idx,
        {
            idx = idx + 1;
        }
        let ghost old_deep = out.deep_view();
        let ghost pre_out = out;
        out.insert(idx, x);
        proof {
            lemma_insert_sorted_splice(x@, old_deep, idx as int);
            crate::strutil::lemma_deep_view_split(pre_out);
            crate::strutil::lemma_deep_view_split(out);
            let spliced = old_deep.take(idx as int) + seq![x@] + old_deep.skip(idx as int);
            assert forall|j: int| 0 <= j < out@.len() implies out.deep_view()[j] == spliced[j] by {
                assert(out.deep_view()[j] == out@[j].deep_view());
                assert(out@[j] == pre_out@.insert(idx as int, x)[j]);
                if j < idx {
                    assert(pre_out@.insert(idx as int, x)[j] == pre_out@[j]);
                    assert(pre_out.deep_view()[j] == pre_out@[j].deep_view());
                } else if j == idx {
                    assert(pre_out@.insert(idx as int, x)[j] == x);
                } else {
                    assert(pre_out@.insert(idx as int, x)[j] == pre_out@[j - 1]);
                    assert(pre_out.deep_view()[j - 1] == pre_out@[j - 1].deep_view());
                }
            }
            assert(out.deep_view() =~= spliced);
            assert(orig.take(done + 1).drop_last() =~= orig.take(done));
            assert(orig.take(done + 1).last() == x@);
        }
    }
    assert(orig.take(orig.len() - rest@.len()) =~= orig);
    out
}

/// The repository list capped to its maximum length.
pub open spec fn cap_repos(s: Seq<GitInfoV>) -> Seq<GitInfoV> {
    if s.len() > MAX_GIT_REPOS {
        s.take(MAX_GIT_REPOS as int)
    } else {
        s
    }
}

/// The typed records of a sequence of raw repository results, in order.
pub open spec fn infos_of(repos: Seq<RawRepo>) -> Seq<GitInfoV> {
    Seq::new(repos.len(), |i: int| git_info_of(repos[i]))
}

/// The status record of the project root itself: its raw data, listed
/// under the path `"."`.
pub open spec fn root_entry_of(r: RawRepo) -> GitInfoV {
    GitInfoV { repo_path: "."@, ..git_info_of(r) }
}

/// The repository list of one run.  When the working directory itself is
/// a repository it is the only entry, under the path `"."`, and no
/// candidate is consulted.  Otherwise the candidates' records are sorted
/// by path ascending and capped to [`MAX_GIT_REPOS`] entries.
pub open spec fn git_repos_of(root_repo: Option<RawRepo>, repos: Seq<RawRepo>) -> Seq<
    GitInfoV,
> {
    match root_repo {
        Some(root) => seq![root_entry_of(root)],
        None => cap_repos(sort_by_path(infos_of(repos))),
    }
}

/// Assemble the repository list of one snapshot.
pub fn assemble_git_repos(root_repo: &Option<RawRepo>, repos: &Vec<RawRepo>) -> (r: Vec<
    GitInfo,
>)
    ensures
        r.deep_view() == git_repos_of(*root_repo, repos@),
{
    match root_repo {
        Some(root) => {
            let mut g = build_git_info(root);
            g.repo_path = String::from_str(".");
            let mut out: Vec<GitInfo> = Vec::new();
            out.push(g);
            proof {
                crate::strutil::lemma_deep_view_split(out);
                assert(out.deep_view() =~= seq![root_entry_of(*root)]);
            }
            out
        },
        None => {
            let mut infos: Vec<GitInfo> = Vec::new();
            let mut i: usize = 0;
            proof {
                assert(infos.deep_view() =~= infos_of(repos@.take(0)));
            }
            while i < repos.len()
                invariant
                    0 <= i <= repos@.len(),
                    infos.deep_view() == infos_of(repos@.take(i as int)),
                decreases repos@.len() - i,
            {
                let g = build_git_info(&repos[i]);
                let ghost pre = infos;
                infos.push(g);
                proof {
                    crate::strutil::lemma_deep_view_split(pre);
                    crate::strutil::lemma_deep_view_split(infos);
                    assert forall|j: int| 0 <= j < infos@.len() implies infos.deep_view()[j]
                        == infos_of(repos@.take(i + 1))[j] by {
                        assert(infos.deep_view()[j] == infos@[j].deep_view());
                        if j < i {
                            assert(infos@[j] == pre@[j]);
                            assert(pre.deep_view()[j] == infos_of(repos@.take(i as int))[j]);
                        } else {
                            assert(infos@[j] == g);
                        }
                    }
                    assert(infos.deep_view() =~= infos_of(repos@.take(i + 1)));
                }
                i = i + 1;
            }
            assert(repos@.take(i as int) =~= repos@);
            let mut sorted = sort_git_infos(infos);
            if sorted.len() > MAX_GIT_REPOS {
                sorted.truncate(MAX_GIT_REPOS);
                assert(sorted.deep_view() =~= cap_repos(sort_by_path(infos_of(repos@))));
            }
            sorted
        },
    }
}

/// A repository record's dirty flag holds exactly when its modified and
/// untracked counts sum to something positive.
pub proof fn lemma_dirty_flag(r: RawRepo)
    ensures
        git_info_of(r).is_dirty <==> git_info_of(r).modified_files + git_info_of(
            r,
        ).untracked_files > 0,
{
    let m = raw_modified(r.status_lines.deep_view());
    let u = raw_untracked(r.status_lines.deep_view());
    lemma_counts_nonneg(r);
}

/// The two counts of a raw status result are never negative.
proof fn lemma_counts_nonneg(r: RawRepo)
    ensures
        raw_modified(r.status_lines.deep_view()) >= 0,
        raw_untracked(r.status_lines.deep_view()) >= 0,
{
    match r.status_lines.deep_view() {
        Some(ls) => {
            lemma_modified_count_nonneg(ls);
            lemma_untracked_count_nonneg(ls);
        },
        None => {},
    }
}

proof fn lemma_modified_count_nonneg(lines: Seq<Seq<char>>)
    ensures
        modified_count(lines) >= 0,
    decreases lines.len(),
{
    if lines.len() > 0 {
        lemma_modified_count_nonneg(lines.drop_last());
    }
}

proof fn lemma_untracked_count_nonneg(lines: Seq<Seq<char>>)
    ensures
        untracked_count(lines) >= 0,
    decreases lines.len(),
{
    if lines.len() > 0 {
        lemma_untracked_count_nonneg(lines.drop_last());
    }
}

/// The assembled repository list keeps the data model's list invariant:
/// at most [`MAX_GIT_REPOS`] entries, ordered by path ascending.
pub proof fn lemma_git_list_invariant(root_repo: Option<RawRepo>, repos: Seq<RawRepo>)
    ensures
        git_repos_of(root_repo, repos).len() <= MAX_GIT_REPOS,
        path_sorted(git_repos_of(root_repo, repos)),
{
    match root_repo {
        Some(root) => {
        },
        None => {
            lemma_sort_by_path_ensures(infos_of(repos));
            let sorted = sort_by_path(infos_of(repos));
            let capped = cap_repos(sorted);
            assert forall|i: int, j: int| 0 <= i < j < capped.len() implies repo_le(
                #[trigger] capped[i],
                #[trigger] capped[j],
            ) by {
                assert(capped[i] == sorted[i]);
                assert(capped[j] == sorted[j]);
            }
        },
    }
}

/// How repository candidates are found for one run.
pub enum GitScanPlan {
    /// Check exactly these configured paths.
    Explicit(Vec<String>),
    /// Scan subdirectories down to this depth.
    Scan(usize),
    /// Neither configured paths nor scanning: no candidates.
    Skip,
}

/// View of a scan plan.
#[verifier::ext_equal]
pub ghost enum GitScanPlanV {
    Explicit(Seq<Seq<char>>),
    Scan(int),
    Skip,
}

impl View for GitScanPlan {
    type V = GitScanPlanV;

    open spec fn view(&self) -> GitScanPlanV {
        match self {
            GitScanPlan::Explicit(paths) => GitScanPlanV::Explicit(paths.deep_view()),
            GitScanPlan::Scan(depth) => GitScanPlanV::Scan(*depth as int),
            GitScanPlan::Skip => GitScanPlanV::Skip,
        }
    }
}

/// The scan plan a configuration calls for: explicit paths when given,
/// else a scan to the configured depth (default 2) unless auto-detection
/// is switched off.
pub open spec fn scan_plan_of(config: &Config) -> GitScanPlanV {
    match config.git {
        None => GitScanPlanV::Scan(2),
        Some(g) => match g.paths {
            Some(paths) => GitScanPlanV::Explicit(paths.deep_view()),
            None => {
                let auto = match g.auto_detect {
                    Some(b) => b,
                    None => true,
                };
                if auto {
                    GitScanPlanV::Scan(
                        match g.scan_depth {
                            Some(d) => d as int,
                            None => 2,
                        },
                    )
                } else {
                    GitScanPlanV::Skip
                }
            },
        },
    }
}

/// Decide how repository candidates are to be found under this
/// configuration.
pub fn git_scan_plan(config: &Config) -> (r: GitScanPlan)
    ensures
        r@ == scan_plan_of(config),
{
    match &config.git {
        None => GitScanPlan::Scan(2),
        Some(g) => match &g.paths {
            Some(paths) => GitScanPlan::Explicit(crate::strutil::clone_string_vec(paths)),
            None => {
                let auto: bool = match g.auto_detect {
                    Some(b) => b,
                    None => true,
                };
                if auto {
                    let depth: usize = match g.scan_depth {
                        Some(d) => d,
                        None => 2,
                    };
                    GitScanPlan::Scan(depth)
                } else {
                    GitScanPlan::Skip
                }
            },
        },
    }
}

/// Directory names the repository scan never descends into: hidden
/// directories and conventional build or output directories.
pub fn is_skipped_dir_name(name: &str) -> (r: bool)
    ensures
        r == (starts_with(name@, "."@) || name@ == "node_modules"@ || name@ == "target"@
            || name@ == "out"@),
{
    str_starts_with(name, ".") || str_eq(name, "node_modules") || str_eq(name, "target")
        || str_eq(name, "out")
}

/// The repository-status collector.
pub struct GitCollector;

impl crate::collectors::traits::Collector for GitCollector {
    open spec fn spec_name(&self) -> Seq<char> {
        "git"@
    }

    open spec fn spec_enabled(&self, config: &Config) -> bool {
        true
    }

    open spec fn spec_collect(
        &self,
        config: &Config,
        raw: &crate::raw::RawInputs,
        ctx: crate::context::ContextV,
    ) -> crate::context::ContextV {
        crate::context::ContextV { git_repos: git_repos_of(raw.root_repo, raw.repos@), ..ctx }
    }

    fn name(&self) -> (r: &'static str) {
        "git"
    }

    fn is_enabled(&self, config: &Config) -> (r: bool) {
        true
    }

    fn collect(
        &self,
        config: &Config,
        raw: &crate::raw::RawInputs,
        ctx: &mut crate::context::Context,
    ) {
        ctx.git_repos = assemble_git_repos(&raw.root_repo, &raw.repos);
    }
}

} // verus!

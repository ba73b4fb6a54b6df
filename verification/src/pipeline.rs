use vstd::prelude::*;

use crate::extract::extraction_reflects;
use crate::extract::parse_message;
use crate::extract::ParseOutcome;
use crate::format::markdown_line;
use crate::format::repo_view;
use crate::model::Config;
use crate::model::ExtractionError;
use crate::model::OutputFormat;
use crate::model::PullRequestInfo;

verus! {

/// One commit as the version-control backend hands it over: a stable
/// identifier for diagnostics, the parent count, and the message, which may
/// be absent.
pub struct CommitRecord {
    pub id: String,
    pub parent_count: usize,
    pub message: Option<String>,
}

/// The view of a commit's optional message.
pub open spec fn commit_message_view(c: CommitRecord) -> Option<Seq<char>> {
    match c.message {
        Some(m) => Some(m@),
        None => None,
    }
}

/// What extraction yields on one commit.
pub open spec fn commit_outcome(c: CommitRecord) -> ParseOutcome {
    parse_message(commit_message_view(c))
}

/// The merge commits of a range, in the order given: exactly those with two
/// parents.
pub open spec fn merge_commits(cs: Seq<CommitRecord>) -> Seq<CommitRecord>
    decreases cs.len(),
{
    if cs.len() == 0 {
        Seq::empty()
    } else {
        (if cs[0].parent_count == 2 {
            seq![cs[0]]
        } else {
            Seq::empty()
        }) + merge_commits(cs.drop_first())
    }
}

/// The merge commits whose message parses, in order.
pub open spec fn parsed_commits(ms: Seq<CommitRecord>) -> Seq<CommitRecord>
    decreases ms.len(),
{
    if ms.len() == 0 {
        Seq::empty()
    } else {
        (if commit_outcome(ms[0]) is Parsed {
            seq![ms[0]]
        } else {
            Seq::empty()
        }) + parsed_commits(ms.drop_first())
    }
}

/// The merge commits whose message does not parse, in order.
pub open spec fn failed_commits(ms: Seq<CommitRecord>) -> Seq<CommitRecord>
    decreases ms.len(),
{
    if ms.len() == 0 {
        Seq::empty()
    } else {
        (if commit_outcome(ms[0]) is Parsed {
            Seq::empty()
        } else {
            seq![ms[0]]
        }) + failed_commits(ms.drop_first())
    }
}

/// Extending a range by one commit extends its merge commits by that commit
/// exactly when it has two parents.
pub proof fn lemma_merge_push(cs: Seq<CommitRecord>, c: CommitRecord)
    ensures
        merge_commits(cs.push(c)) == merge_commits(cs) + (if c.parent_count == 2 {
            seq![c]
        } else {
            Seq::<CommitRecord>::empty()
        }),
    decreases cs.len(),
{
    if cs.len() == 0 {
        assert(cs.push(c).drop_first() =~= Seq::<CommitRecord>::empty());
        assert(cs.push(c)[0] == c);
        assert(merge_commits(cs.push(c).drop_first()) =~= Seq::<CommitRecord>::empty());
        assert(merge_commits(cs) =~= Seq::<CommitRecord>::empty());
        if c.parent_count == 2 {
            assert(merge_commits(cs.push(c)) =~= merge_commits(cs) + seq![c]);
        } else {
            assert(merge_commits(cs.push(c)) =~= merge_commits(cs));
        }
    } else {
        lemma_merge_push(cs.drop_first(), c);
        assert(cs.push(c).drop_first() =~= cs.drop_first().push(c));
        assert(cs.push(c)[0] == cs[0]);
        if cs[0].parent_count == 2 {
            assert(merge_commits(cs.push(c)) =~= seq![cs[0]] + merge_commits(
                cs.drop_first().push(c),
            ));
            assert(seq![cs[0]] + (merge_commits(cs.drop_first()) + (if c.parent_count == 2 {
                seq![c]
            } else {
                Seq::<CommitRecord>::empty()
            })) =~= merge_commits(cs) + (if c.parent_count == 2 {
                seq![c]
            } else {
                Seq::<CommitRecord>::empty()
            }));
        } else {
            assert(merge_commits(cs.push(c)) =~= merge_commits(cs.drop_first().push(c)));
        }
    }
}

/// The successful records among a sequence of extraction results, in order.
pub open spec fn oks(rs: Seq<Result<PullRequestInfo, ExtractionError>>) -> Seq<PullRequestInfo>
    decreases rs.len(),
{
    if rs.len() == 0 {
        Seq::empty()
    } else {
        (match rs[0] {
            Ok(p) => seq![p],
            Err(_) => Seq::empty(),
        }) + oks(rs.drop_first())
    }
}

/// The failures among a sequence of extraction results, in order.
pub open spec fn errs(rs: Seq<Result<PullRequestInfo, ExtractionError>>) -> Seq<ExtractionError>
    decreases rs.len(),
{
    if rs.len() == 0 {
        Seq::empty()
    } else {
        (match rs[0] {
            Ok(_) => Seq::empty(),
            Err(e) => seq![e],
        }) + errs(rs.drop_first())
    }
}

/// The outcome of consuming the whole batch of extraction results.
pub struct Aggregated {
    /// The successfully extracted records, in the order supplied.
    pub records: Vec<PullRequestInfo>,
    /// The failures, in the order supplied.
    pub errors: Vec<ExtractionError>,
    /// Whether the run goes on to produce output: always when nothing failed,
    /// and under the skip policy even when something did.
    pub proceed: bool,
}

/// Consumes the full batch of per-commit extraction results, separating
/// successes from failures and applying the all-or-nothing skip policy: with
/// failures present and skipping disallowed, the run aborts and no records
/// are released for formatting.
pub fn aggregate(results: Vec<Result<PullRequestInfo, ExtractionError>>, allow_skip: bool) -> (r:
    Aggregated)
    ensures
        r.records@ == oks(results@),
        r.errors@ == errs(results@),
        r.proceed == (errs(results@).len() == 0 || allow_skip),
{
    let ghost orig = results@;
    let mut rest = results;
    let mut records: Vec<PullRequestInfo> = Vec::new();
    let mut errors: Vec<ExtractionError> = Vec::new();
    proof {
        assert(oks(orig) =~= records@ + oks(rest@));
        assert(errs(orig) =~= errors@ + errs(rest@));
    }
    while rest.len() > 0
        invariant
            oks(orig) == records@ + oks(rest@),
            errs(orig) == errors@ + errs(rest@),
        decreases rest.len(),
    {
        let ghost prev = rest@;
        let x = rest.remove(0);
        proof {
            assert(rest@ =~= prev.drop_first());
        }
        match x {
            Ok(p) => {
                records.push(p);
                proof {
                    assert(records@ + oks(rest@) =~= oks(orig));
                }
            },
            Err(e) => {
                errors.push(e);
                proof {
                    assert(errors@ + errs(rest@) =~= errs(orig));
                }
            },
        }
    }
    proof {
        assert(rest@ =~= Seq::<Result<PullRequestInfo, ExtractionError>>::empty());
        assert(records@ =~= oks(orig));
        assert(errors@ =~= errs(orig));
    }
    let proceed = errors.len() == 0 || allow_skip;
    Aggregated { records, errors, proceed }
}

/// A record matches a parse outcome when the outcome is a success carrying
/// exactly the record's fields.
pub open spec fn info_matches(p: PullRequestInfo, o: ParseOutcome) -> bool {
    &&& o matches ParseOutcome::Parsed { id, author, branch, name }
    &&& p.id as nat == id
    &&& p.author@ == author
    &&& p.branch@ == branch
    &&& p.name@ == name
}

/// Each extraction result stands for the outcome of the commit at the same
/// position.
pub open spec fn results_reflect(
    rs: Seq<Result<PullRequestInfo, ExtractionError>>,
    ms: Seq<CommitRecord>,
) -> bool {
    &&& rs.len() == ms.len()
    &&& forall|j: int|
        0 <= j < ms.len() ==> extraction_reflects(rs[j], commit_outcome(ms[j]), ms[j].id@)
}

/// Splitting reflected results splits the commits the same way: the successes
/// line up with the commits that parse, the failures with those that do not.
pub proof fn lemma_reflect_split(
    rs: Seq<Result<PullRequestInfo, ExtractionError>>,
    ms: Seq<CommitRecord>,
)
    requires
        results_reflect(rs, ms),
    ensures
        oks(rs).len() == parsed_commits(ms).len(),
        forall|j: int|
            0 <= j < oks(rs).len() ==> info_matches(oks(rs)[j], commit_outcome(parsed_commits(ms)[j])),
        errs(rs).len() == failed_commits(ms).len(),
        forall|j: int|
            0 <= j < errs(rs).len() ==> extraction_reflects(
                Err(errs(rs)[j]),
                commit_outcome(failed_commits(ms)[j]),
                failed_commits(ms)[j].id@,
            ),
    decreases rs.len(),
{
    if rs.len() > 0 {
        assert(extraction_reflects(rs[0], commit_outcome(ms[0]), ms[0].id@));
        assert(forall|j: int|
            0 <= j < ms.drop_first().len() ==> extraction_reflects(
                rs.drop_first()[j],
                commit_outcome(ms.drop_first()[j]),
                ms.drop_first()[j].id@,
            ));
        lemma_reflect_split(rs.drop_first(), ms.drop_first());
    }
}

/// The lines the whole pipeline produces on a commit range: the merge commits
/// are classified, each is extracted, and unless a failure aborts the run the
/// parsed records are rendered in order.
pub open spec fn pipeline_lines(cs: Seq<CommitRecord>, config: Config, allow_skip: bool) -> Seq<
    Seq<char>,
> {
    let ms = merge_commits(cs);
    if failed_commits(ms).len() > 0 && !allow_skip {
        Seq::empty()
    } else {
        parsed_commits(ms).map_values(|c: CommitRecord| line_of(c, config))
    }
}

/// The rendered line of one parsed merge commit.
pub open spec fn line_of(c: CommitRecord, config: Config) -> Seq<char> {
    match commit_outcome(c) {
        ParseOutcome::Parsed { id, author, branch, name } => match config.output_format {
            OutputFormat::Markdown => markdown_line(
                id,
                author,
                name,
                repo_view(config.repo_name),
                config.omit_author,
            ),
        },
        _ => Seq::empty(),
    }
}

/// Everything one run produces.
pub struct RunOutput {
    /// One line per retained record, in the order supplied; empty when the
    /// run aborts.
    pub lines: Vec<String>,
    /// The per-commit failures, in the order supplied, for diagnostics.
    pub errors: Vec<ExtractionError>,
    /// False exactly when failures occurred and skipping them was disallowed.
    pub succeeded: bool,
}

/// The full pipeline over one commit range: classify, extract, aggregate
/// under the skip policy, and render. One pass, no output before the whole
/// batch is decided.
pub fn run(commits: &Vec<CommitRecord>, config: &Config, allow_skip: bool) -> (r: RunOutput)
    ensures
        r.lines.deep_view() == pipeline_lines(commits@, *config, allow_skip),
        r.succeeded == (failed_commits(merge_commits(commits@)).len() == 0 || allow_skip),
        r.errors@.len() == failed_commits(merge_commits(commits@)).len(),
        forall|j: int|
            0 <= j < r.errors@.len() ==> extraction_reflects(
                Err(r.errors@[j]),
                commit_outcome(failed_commits(merge_commits(commits@))[j]),
                failed_commits(merge_commits(commits@))[j].id@,
            ),
{
    let n = commits.len();
    let mut results: Vec<Result<PullRequestInfo, ExtractionError>> = Vec::new();
    let mut i: usize = 0;
    proof {
        assert(commits@.subrange(0, 0) =~= Seq::<CommitRecord>::empty());
    }
    while i < n
        invariant
            0 <= i <= n,
            n == commits@.len(),
            results_reflect(results@, merge_commits(commits@.subrange(0, i as int))),
        decreases n - i,
    {
        let ghost pre = commits@.subrange(0, i as int);
        let c = &commits[i];
        proof {
            lemma_merge_push(pre, commits@[i as int]);
            assert(commits@.subrange(0, i + 1) =~= pre.push(commits@[i as int]));
        }
        if crate::is_merge_commit(c.parent_count) {
            let msg = match &c.message {
                Some(m) => Some(m.as_str()),
                None => None,
            };
            let res = PullRequestInfo::from_message(c.id.as_str(), msg);
            results.push(res);
        }
        i += 1;
    }
    proof {
        assert(commits@.subrange(0, n as int) =~= commits@);
    }
    let ghost ms = merge_commits(commits@);
    proof {
        lemma_reflect_split(results@, ms);
    }
    let agg = aggregate(results, allow_skip);
    if !agg.proceed {
        let out = RunOutput { lines: Vec::new(), errors: agg.errors, succeeded: false };
        proof {
            assert(out.lines.deep_view() =~~= pipeline_lines(commits@, *config, allow_skip));
        }
        return out;
    }
    let mut lines: Vec<String> = Vec::new();
    let mut k: usize = 0;
    let m = agg.records.len();
    while k < m
        invariant
            0 <= k <= m,
            m == agg.records@.len(),
            agg.records@.len() == parsed_commits(ms).len(),
            forall|j: int|
                0 <= j < m ==> info_matches(agg.records@[j], commit_outcome(parsed_commits(ms)[j])),
            lines@.len() == k,
            ms == merge_commits(commits@),
            forall|j: int| 0 <= j < k ==> lines@[j]@ == line_of(parsed_commits(ms)[j], *config),
        decreases m - k,
    {
        let line = config.output_format.format(&agg.records[k], config);
        proof {
            assert(info_matches(agg.records@[k as int], commit_outcome(parsed_commits(ms)[k as int])));
            assert(line@ == line_of(parsed_commits(ms)[k as int], *config));
        }
        lines.push(line);
        k += 1;
    }
    let out = RunOutput { lines, errors: agg.errors, succeeded: true };
    proof {
        assert(out.lines.deep_view() =~~= pipeline_lines(commits@, *config, allow_skip));
    }
    out
}

} // verus!

use vstd::prelude::*;

use crate::chars::is_digit_char;
use crate::chars::is_ws_char;
use crate::extract::from_marker;
use crate::extract::header_author;
use crate::extract::header_branch;
use crate::extract::header_digits;
use crate::extract::header_matches;
use crate::extract::header_prefix;
use crate::extract::header_rest;
use crate::extract::lemma_digit_run_unique;
use crate::extract::lemma_slash_unique;
use crate::extract::parse_message;
use crate::extract::ParseOutcome;
use crate::format::rendered_line;
use crate::model::Config;
use crate::model::OutputFormat;
use crate::model::PullRequestInfo;
use crate::num::digits_val;
use crate::pipeline::merge_commits;
use crate::pipeline::pipeline_lines;
use crate::pipeline::CommitRecord;
use crate::text::join_nl;
use crate::text::lemma_find_nl_unique;
use crate::text::split_lines;
use crate::text::trim;
use crate::text::trim_end;
use crate::text::trim_start;

verus! {

/// Law: the merge classifier keeps exactly the commits with two parents, in
/// order, regardless of their message content — every commit it keeps has a
/// parent count of two.
pub proof fn lemma_classifier_excludes_non_merges(cs: Seq<CommitRecord>)
    ensures
        forall|j: int|
            0 <= j < merge_commits(cs).len() ==> merge_commits(cs)[j].parent_count == 2,
    decreases cs.len(),
{
    if cs.len() > 0 {
        lemma_classifier_excludes_non_merges(cs.drop_first());
    }
}

/// Law of the text model: splitting a text without carriage returns into
/// lines and joining them back restores the text, except that one final line
/// terminator is not restored.
pub proof fn lemma_join_split_no_cr(s: Seq<char>)
    requires
        forall|k: int| 0 <= k < s.len() ==> s[k] != '\r',
    ensures
        s.len() > 0 && s[s.len() - 1] == '\n' ==> join_nl(split_lines(s)) == s.drop_last(),
        !(s.len() > 0 && s[s.len() - 1] == '\n') ==> join_nl(split_lines(s)) == s,
    decreases s.len(),
{
    if s.len() == 0 {
        assert(join_nl(split_lines(s)) =~= s);
    } else {
        let j = crate::text::find_nl(s, 0);
        crate::text::lemma_find_nl_props(s, 0);
        if j == s.len() {
            assert(split_lines(s) == seq![s]);
            assert(join_nl(seq![s]) == s);
        } else {
            let first = s.subrange(0, j);
            let rest = s.subrange(j + 1, s.len() as int);
            assert(crate::text::strip_cr(first) == first);
            assert(split_lines(s) == seq![first] + split_lines(rest));
            lemma_join_split_no_cr(rest);
            if rest.len() == 0 {
                assert(split_lines(rest) =~= Seq::<Seq<char>>::empty());
                assert(seq![first] + split_lines(rest) =~= seq![first]);
                assert(join_nl(seq![first]) == first);
                assert(first =~= s.drop_last());
                assert(s[s.len() - 1] == '\n');
            } else {
                assert(split_lines(rest).len() >= 1);
                let all = seq![first] + split_lines(rest);
                assert(all.len() >= 2);
                assert(all[0] == first);
                assert(all.drop_first() =~= split_lines(rest));
                assert(join_nl(all) == first + seq!['\n'] + join_nl(split_lines(rest)));
                if rest[rest.len() - 1] == '\n' {
                    assert(join_nl(split_lines(rest)) == rest.drop_last());
                    assert(first + seq!['\n'] + rest.drop_last() =~= s.drop_last());
                    assert(s[s.len() - 1] == rest[rest.len() - 1]);
                } else {
                    assert(join_nl(split_lines(rest)) == rest);
                    assert(first + seq!['\n'] + rest =~= s);
                    assert(s[s.len() - 1] == rest[rest.len() - 1]);
                }
            }
        }
    }
}

/// Law of the text model: trimming ignores a trailing whitespace character.
pub proof fn lemma_trim_drop_last_ws(s: Seq<char>)
    requires
        s.len() > 0,
        is_ws_char(s[s.len() - 1]),
    ensures
        trim(s) == trim(s.drop_last()),
    decreases s.len(),
{
    if s.len() == 1 {
        assert(s.drop_first() =~= Seq::<char>::empty());
        assert(trim_start(Seq::<char>::empty()) =~= Seq::<char>::empty());
        assert(trim_start(s) =~= Seq::<char>::empty());
        assert(s.drop_last() =~= Seq::<char>::empty());
        assert(trim_end(trim_start(s)) =~= Seq::<char>::empty());
    } else {
        if is_ws_char(s[0]) {
            assert(trim_start(s) == trim_start(s.drop_first()));
            let t = s.drop_first();
            assert(t.len() > 0 && is_ws_char(t[t.len() - 1]));
            lemma_trim_drop_last_ws(t);
            assert(t.drop_last() =~= s.drop_last().drop_first());
            assert(s.drop_last().len() > 0 && is_ws_char(s.drop_last()[0]));
            assert(trim_start(s.drop_last()) == trim_start(s.drop_last().drop_first()));
        } else {
            assert(trim_start(s) == s);
            assert(trim_end(s) == trim_end(s.drop_last()));
            assert(s.drop_last().len() > 0 && !is_ws_char(s.drop_last()[0]));
            assert(trim_start(s.drop_last()) == s.drop_last());
        }
    }
}

/// Law: a message in the exact merge form — the literal header prefix, one or
/// more digits, the ` from ` marker, a slash-free author, a slash, a branch
/// (which may itself contain slashes), a newline, and a body free of carriage
/// returns — extracts to exactly the embedded number, author, branch, and
/// trimmed body, whenever the number fits in 32 bits; a number too large for
/// 32 bits fails as an invalid pull request id carrying those digits.
pub proof fn lemma_merge_form_extraction(
    digits: Seq<char>,
    author: Seq<char>,
    branch: Seq<char>,
    body: Seq<char>,
)
    requires
        digits.len() > 0,
        forall|k: int| 0 <= k < digits.len() ==> is_digit_char(digits[k]),
        author.len() > 0,
        forall|k: int| 0 <= k < author.len() ==> author[k] != '/' && author[k] != '\n',
        branch.len() > 0,
        forall|k: int| 0 <= k < branch.len() ==> branch[k] != '\n',
        branch[branch.len() - 1] != '\r',
        forall|k: int| 0 <= k < body.len() ==> body[k] != '\r',
    ensures
        ({
            let msg = header_prefix() + digits + from_marker() + author + seq!['/'] + branch
                + seq!['\n'] + body;
            &&& digits_val(digits) <= u32::MAX ==> parse_message(Some(msg)) == (ParseOutcome::Parsed {
                id: digits_val(digits),
                author,
                branch,
                name: trim(body),
            })
            &&& digits_val(digits) > u32::MAX ==> parse_message(Some(msg))
                == (ParseOutcome::BadId { digits })
        }),
{
    let msg = header_prefix() + digits + from_marker() + author + seq!['/'] + branch + seq!['\n']
        + body;
    let header = header_prefix() + digits + from_marker() + author + seq!['/'] + branch;
    let hl = header.len() as int;
    let dl = digits.len() as int;
    let al = author.len() as int;
    assert(msg =~= header + seq!['\n'] + body);
    assert(forall|k: int| 0 <= k < 20 ==> header_prefix()[k] != '\n');
    assert(forall|k: int| 0 <= k < 6 ==> from_marker()[k] != '\n');
    assert(forall|k: int| 0 <= k < dl ==> digits[k] != '\n');
    assert(forall|k: int| 0 <= k < hl ==> header[k] != '\n');
    assert(msg[hl] == '\n');
    assert(forall|k: int| 0 <= k < hl ==> msg[k] == header[k]);
    lemma_find_nl_unique(msg, 0, hl);
    // the first line is the header, unshorn: it does not end in a carriage
    // return
    assert(header[hl - 1] == branch[branch.len() - 1]);
    assert(msg.subrange(0, hl) =~= header);
    assert(msg.subrange(hl + 1, msg.len() as int) =~= body);
    assert(crate::text::strip_cr(header) == header);
    assert(split_lines(msg) == seq![header] + split_lines(body));
    let lines = split_lines(msg);
    assert(lines.len() >= 1);
    assert(lines[0] == header);
    assert(lines.drop_first() =~= split_lines(body));
    // the digit run ends exactly where the marker starts
    assert(header.subrange(0, 20) =~= header_prefix());
    assert(forall|k: int| 20 <= k < 20 + dl ==> header[k] == digits[k - 20]);
    assert(header[20 + dl] == from_marker()[0]);
    assert(!is_digit_char(' '));
    lemma_digit_run_unique(header, 20, 20 + dl);
    assert(header.subrange(20 + dl, 20 + dl + 6) =~= from_marker());
    // the rest splits at the first slash, which closes the author
    let rest = header.subrange(20 + dl + 6, hl);
    assert(header_rest(header) == rest);
    assert(rest =~= author + seq!['/'] + branch);
    assert(rest[al] == '/');
    assert(al + 1 < rest.len());
    assert(forall|k: int| 1 <= k < al ==> rest[k] == author[k] && author[k] != '/');
    lemma_slash_unique(rest, 1, al);
    assert(header_matches(header));
    assert(header_digits(header) =~= digits);
    assert(header_author(header) =~= author);
    assert(header_branch(header) =~= branch);
    // the title is the trimmed body
    lemma_join_split_no_cr(body);
    if body.len() > 0 && body[body.len() - 1] == '\n' {
        assert(is_ws_char('\n'));
        lemma_trim_drop_last_ws(body);
        assert(trim(join_nl(split_lines(body))) == trim(body));
    } else {
        assert(trim(join_nl(split_lines(body))) == trim(body));
    }
}

/// Law: formatting is a pure function of the record and the configuration —
/// two rendering results for identical inputs are identical text. The
/// formatter's own contract pins each result to `rendered_line`.
pub proof fn lemma_format_pure(
    fmt: OutputFormat,
    info: PullRequestInfo,
    config: Config,
    r1: Seq<char>,
    r2: Seq<char>,
)
    requires
        r1 == rendered_line(fmt, info, config),
        r2 == rendered_line(fmt, info, config),
    ensures
        r1 == r2,
{
}

/// Law: the pipeline is deterministic — two runs over the same commit range,
/// configuration, and skip policy produce identical output lines. The
/// pipeline's own contract pins each run's lines to `pipeline_lines`.
pub proof fn lemma_pipeline_idempotent(
    cs: Seq<CommitRecord>,
    config: Config,
    allow_skip: bool,
    lines1: Seq<Seq<char>>,
    lines2: Seq<Seq<char>>,
)
    requires
        lines1 == pipeline_lines(cs, config, allow_skip),
        lines2 == pipeline_lines(cs, config, allow_skip),
    ensures
        lines1 == lines2,
{
}

} // verus!

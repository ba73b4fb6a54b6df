use vstd::prelude::*;

use crate::chars::is_digit;
use crate::chars::is_digit_char;
use crate::model::ExtractionError;
use crate::model::ExtractionReason;
use crate::model::PullRequestInfo;
use crate::num::digits_val;
use crate::num::parse_u32_digits;
use crate::text::join_nl;
use crate::text::join_tail;
use crate::text::split_lines;
use crate::text::split_message_lines;
use crate::text::str_eq;
use crate::text::trim;
use crate::text::trim_str;
use vstd::string::StrSliceExecFns;

verus! {

/// The literal that a merge header must start with.
pub open spec fn header_prefix() -> Seq<char> {
    seq![
        'M',
        'e',
        'r',
        'g',
        'e',
        ' ',
        'p',
        'u',
        'l',
        'l',
        ' ',
        'r',
        'e',
        'q',
        'u',
        'e',
        's',
        't',
        ' ',
        '#',
    ]
}

/// The literal that separates the pull request number from the source branch.
pub open spec fn from_marker() -> Seq<char> {
    seq![' ', 'f', 'r', 'o', 'm', ' ']
}

proof fn lemma_prefix_lit()
    ensures
        "Merge pull request #"@ == header_prefix(),
{
    reveal_strlit("Merge pull request #");
    assert("Merge pull request #"@ =~= header_prefix());
}

proof fn lemma_from_lit()
    ensures
        " from "@ == from_marker(),
{
    reveal_strlit(" from ");
    assert(" from "@ =~= from_marker());
}

/// End of the run of decimal digits that starts at position `i`.
pub open spec fn digit_run_end(h: Seq<char>, i: int) -> int
    decreases h.len() - i,
{
    if i < 0 || i >= h.len() {
        h.len() as int
    } else if is_digit_char(h[i]) {
        digit_run_end(h, i + 1)
    } else {
        i
    }
}

/// A position bounding a digit run on the right is `digit_run_end`'s result.
pub proof fn lemma_digit_run_unique(h: Seq<char>, i: int, j: int)
    requires
        0 <= i <= j <= h.len(),
        forall|k: int| i <= k < j ==> is_digit_char(h[k]),
        j < h.len() ==> !is_digit_char(h[j]),
    ensures
        digit_run_end(h, i) == j,
    decreases h.len() - i,
{
    if i < h.len() && is_digit_char(h[i]) {
        lemma_digit_run_unique(h, i + 1, j);
    }
}

/// Position of the separating slash: the first `'/'` at or after `i` that
/// still leaves at least one character of branch after it (the author capture
/// is non-greedy, the branch capture runs to the end of the line). The
/// sequence length means that no such slash exists.
pub open spec fn find_author_slash(rest: Seq<char>, i: int) -> int
    decreases rest.len() - i,
{
    if i < 0 || i >= rest.len() {
        rest.len() as int
    } else if rest[i] == '/' && i + 1 < rest.len() {
        i
    } else {
        find_author_slash(rest, i + 1)
    }
}

/// A position with the slash properties, nothing qualifying before it, is
/// `find_author_slash`'s result.
pub proof fn lemma_slash_unique(rest: Seq<char>, i: int, j: int)
    requires
        0 <= i,
        i <= j || j == rest.len(),
        j <= rest.len(),
        j < rest.len() ==> (rest[j] == '/' && j + 1 < rest.len()),
        forall|k: int| i <= k < j ==> !(rest[k] == '/' && k + 1 < rest.len()),
    ensures
        find_author_slash(rest, i) == j,
    decreases rest.len() - i,
{
    if 0 <= i && i < rest.len() {
        if rest[i] == '/' && i + 1 < rest.len() {
        } else {
            lemma_slash_unique(rest, i + 1, j);
        }
    }
}

/// Everything after the ` from ` marker: the author/branch portion.
pub open spec fn header_rest(h: Seq<char>) -> Seq<char> {
    h.subrange(digit_run_end(h, 20) + 6, h.len() as int)
}

/// Whether a header line has the recognized merge form: the literal prefix,
/// one or more digits, the ` from ` marker, then a non-empty author, a slash
/// and a non-empty branch.
pub open spec fn header_matches(h: Seq<char>) -> bool {
    let de = digit_run_end(h, 20);
    &&& h.len() > 20
    &&& h.subrange(0, 20) == header_prefix()
    &&& de > 20
    &&& de + 6 <= h.len()
    &&& h.subrange(de, de + 6) == from_marker()
    &&& find_author_slash(header_rest(h), 1) < header_rest(h).len()
}

/// The digit characters of the pull request number.
pub open spec fn header_digits(h: Seq<char>) -> Seq<char> {
    h.subrange(20, digit_run_end(h, 20))
}

/// The author segment: everything before the separating slash. It is the
/// shortest candidate, so a slash inside the branch never splits the author.
pub open spec fn header_author(h: Seq<char>) -> Seq<char> {
    header_rest(h).subrange(0, find_author_slash(header_rest(h), 1))
}

/// The branch segment: everything after the separating slash, to the end of
/// the line, slashes included.
pub open spec fn header_branch(h: Seq<char>) -> Seq<char> {
    header_rest(h).subrange(find_author_slash(header_rest(h), 1) + 1, header_rest(h).len() as int)
}

/// What extracting from one commit message yields.
pub enum ParseOutcome {
    /// The commit carries no message.
    MissingMessage,
    /// The message is empty: there is no header line.
    EmptyMessage,
    /// The header line does not have the merge form.
    BadHeader { header: Seq<char> },
    /// The pull request number does not fit in 32 bits.
    BadId { digits: Seq<char> },
    /// A complete record: number, author, branch, and title (the trimmed
    /// message body).
    Parsed { id: nat, author: Seq<char>, branch: Seq<char>, name: Seq<char> },
}

/// The view of an optional message.
pub open spec fn message_view(m: Option<&str>) -> Option<Seq<char>> {
    match m {
        Some(s) => Some(s@),
        None => None,
    }
}

/// The meaning of extraction on one commit message: the header line is
/// matched against the merge form, the number is parsed, and the title is the
/// remaining lines joined by newlines and trimmed of whitespace.
pub open spec fn parse_message(msg: Option<Seq<char>>) -> ParseOutcome {
    match msg {
        None => ParseOutcome::MissingMessage,
        Some(m) => {
            let lines = split_lines(m);
            if lines.len() == 0 {
                ParseOutcome::EmptyMessage
            } else {
                let h = lines[0];
                if !header_matches(h) {
                    ParseOutcome::BadHeader { header: h }
                } else if digits_val(header_digits(h)) > u32::MAX {
                    ParseOutcome::BadId { digits: header_digits(h) }
                } else {
                    ParseOutcome::Parsed {
                        id: digits_val(header_digits(h)),
                        author: header_author(h),
                        branch: header_branch(h),
                        name: trim(join_nl(lines.drop_first())),
                    }
                }
            }
        },
    }
}

/// How an extraction result reflects the meaning of the message: each outcome
/// maps to exactly one result shape, errors carry the commit identifier and
/// the offending text, and a success carries every extracted field.
pub open spec fn extraction_reflects(
    r: Result<PullRequestInfo, ExtractionError>,
    o: ParseOutcome,
    cid: Seq<char>,
) -> bool {
    match o {
        ParseOutcome::MissingMessage => r matches Err(e) && e.commit_id@ == cid
            && e.reason is MissingMessage,
        ParseOutcome::EmptyMessage => r matches Err(e) && e.commit_id@ == cid
            && e.reason is EmptyMessage,
        ParseOutcome::BadHeader { header } => ({
            &&& r matches Err(e)
            &&& e.commit_id@ == cid
            &&& e.reason matches ExtractionReason::InvalidHeader(t) && t@ == header
        }),
        ParseOutcome::BadId { digits } => ({
            &&& r matches Err(e)
            &&& e.commit_id@ == cid
            &&& e.reason matches ExtractionReason::InvalidId(t) && t@ == digits
        }),
        ParseOutcome::Parsed { id, author, branch, name } => ({
            &&& r matches Ok(p)
            &&& p.id as nat == id
            &&& p.author@ == author
            &&& p.branch@ == branch
            &&& p.name@ == name
        }),
    }
}

/// What matching one header line yields.
enum HeaderOutcome {
    Match(u32, String, String),
    Overflow(String),
    NoMatch,
}

/// Finds the separating slash in the author/branch portion, which starts at
/// `rstart`: the first `'/'` after at least one author character that leaves
/// at least one branch character. Returns its absolute position.
fn find_slash(h: &str, rstart: usize, n: usize) -> (r: Option<usize>)
    requires
        n == h@.len(),
        rstart <= n,
    ensures
        ({
            let rest = h@.subrange(rstart as int, n as int);
            let f = find_author_slash(rest, 1);
            match r {
                Some(j) => rstart < j < n && j - rstart == f && f < rest.len(),
                None => f == rest.len(),
            }
        }),
{
    let ghost rest = h@.subrange(rstart as int, n as int);
    proof {
        assert(forall|k: int| 0 <= k < rest.len() ==> rest[k] == h@[rstart + k]);
    }
    if rstart >= n {
        proof {
            lemma_slash_unique(rest, 1, rest.len() as int);
        }
        return None;
    }
    let mut j = rstart + 1;
    while j < n
        invariant
            rstart + 1 <= j <= n,
            n == h@.len(),
            rstart < n,
            rest == h@.subrange(rstart as int, n as int),
            forall|k: int| rstart + 1 <= k < j ==> !(h@[k] == '/' && k + 1 < n),
        decreases n - j,
    {
        if h.get_char(j) == '/' && j + 1 < n {
            proof {
                assert(forall|k: int| 0 <= k < rest.len() ==> rest[k] == h@[rstart + k]);
                lemma_slash_unique(rest, 1, j - rstart);
            }
            return Some(j);
        }
        j += 1;
    }
    proof {
        assert(forall|k: int| 0 <= k < rest.len() ==> rest[k] == h@[rstart + k]);
        lemma_slash_unique(rest, 1, rest.len() as int);
    }
    None
}

/// Matches one header line against the merge form and extracts the pieces.
fn parse_header(h: &str) -> (r: HeaderOutcome)
    ensures
        !header_matches(h@) ==> r is NoMatch,
        header_matches(h@) && digits_val(header_digits(h@)) > u32::MAX ==> ({
            &&& r matches HeaderOutcome::Overflow(d)
            &&& d@ == header_digits(h@)
        }),
        header_matches(h@) && digits_val(header_digits(h@)) <= u32::MAX ==> ({
            &&& r matches HeaderOutcome::Match(id, a, b)
            &&& id as nat == digits_val(header_digits(h@))
            &&& a@ == header_author(h@)
            &&& b@ == header_branch(h@)
        }),
{
    let n = h.unicode_len();
    if n < 20 {
        return HeaderOutcome::NoMatch;
    }
    let pre = h.substring_char(0, 20);
    proof {
        lemma_prefix_lit();
    }
    if !str_eq(pre, "Merge pull request #") {
        return HeaderOutcome::NoMatch;
    }
    let mut de: usize = 20;
    while de < n && is_digit(h.get_char(de))
        invariant
            20 <= de <= n,
            n == h@.len(),
            forall|k: int| 20 <= k < de ==> is_digit_char(h@[k]),
        decreases n - de,
    {
        de += 1;
    }
    proof {
        lemma_digit_run_unique(h@, 20, de as int);
    }
    if de == 20 {
        return HeaderOutcome::NoMatch;
    }
    if n - de < 6 {
        return HeaderOutcome::NoMatch;
    }
    let marker = h.substring_char(de, de + 6);
    proof {
        lemma_from_lit();
    }
    if !str_eq(marker, " from ") {
        return HeaderOutcome::NoMatch;
    }
    let rstart = de + 6;
    let ghost rest = h@.subrange(rstart as int, n as int);
    let slash = match find_slash(h, rstart, n) {
        Some(j) => j,
        None => {
            return HeaderOutcome::NoMatch;
        },
    };
    let digits = h.substring_char(20, de);
    proof {
        assert(digits@ =~= header_digits(h@));
        assert(header_rest(h@) =~= rest);
        assert(header_matches(h@));
    }
    let id = match parse_u32_digits(digits) {
        Some(v) => v,
        None => {
            return HeaderOutcome::Overflow(digits.to_owned());
        },
    };
    let author = h.substring_char(rstart, slash);
    let branch = h.substring_char(slash + 1, n);
    proof {
        assert(author@ =~= header_author(h@));
        assert(branch@ =~= header_branch(h@));
    }
    HeaderOutcome::Match(id, author.to_owned(), branch.to_owned())
}

impl PullRequestInfo {
    /// Extracts a pull request record from one merge commit's message. The
    /// identifier only tags a failure; the record is a function of the
    /// message alone. Every failure is reported as a value, never a panic.
    pub fn from_message(commit_id: &str, message: Option<&str>) -> (r: Result<
        PullRequestInfo,
        ExtractionError,
    >)
        ensures
            extraction_reflects(r, parse_message(message_view(message)), commit_id@),
    {
        let msg = match message {
            Some(m) => m,
            None => {
                return Err(
                    ExtractionError {
                        commit_id: commit_id.to_owned(),
                        reason: ExtractionReason::MissingMessage,
                    },
                );
            },
        };
        let lines = split_message_lines(msg);
        if lines.len() == 0 {
            proof {
                assert(split_lines(msg@).len() == 0);
            }
            return Err(
                ExtractionError {
                    commit_id: commit_id.to_owned(),
                    reason: ExtractionReason::EmptyMessage,
                },
            );
        }
        let header = &lines[0];
        proof {
            assert(header@ == lines.deep_view()[0]);
        }
        match parse_header(header.as_str()) {
            HeaderOutcome::NoMatch => Err(
                ExtractionError {
                    commit_id: commit_id.to_owned(),
                    reason: ExtractionReason::InvalidHeader(header.clone()),
                },
            ),
            HeaderOutcome::Overflow(d) => Err(
                ExtractionError {
                    commit_id: commit_id.to_owned(),
                    reason: ExtractionReason::InvalidId(d),
                },
            ),
            HeaderOutcome::Match(id, author, branch) => {
                let body = join_tail(&lines);
                let name = trim_str(body.as_str());
                Ok(PullRequestInfo { id, author, branch, name })
            },
        }
    }
}

} // verus!

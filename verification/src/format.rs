use vstd::prelude::*;

use crate::model::Config;
use crate::model::OutputFormat;
use crate::model::PullRequestInfo;
use crate::num::dec_digits;
use crate::num::u32_to_string;
use vstd::string::StringExecFns;

verus! {

/// The view of an optional repository display name.
pub open spec fn repo_view(r: Option<String>) -> Option<Seq<char>> {
    match r {
        Some(s) => Some(s@),
        None => None,
    }
}

/// The markdown-style list item for one record: ` * `, the repository name if
/// any, `#` and the number, the author in `(by ...)` unless omitted, then
/// `- ` and the title. No trailing newline.
pub open spec fn markdown_line(
    id: nat,
    author: Seq<char>,
    name: Seq<char>,
    repo: Option<Seq<char>>,
    omit_author: bool,
) -> Seq<char> {
    seq![' ', '*', ' '] + (match repo {
        Some(r) => r,
        None => Seq::empty(),
    }) + seq!['#'] + dec_digits(id) + seq![' '] + (if omit_author {
        Seq::<char>::empty()
    } else {
        seq!['(', 'b', 'y', ' '] + author + seq![')', ' ']
    }) + seq!['-', ' '] + name
}

/// What one record renders to, by format selector.
pub open spec fn rendered_line(fmt: OutputFormat, info: PullRequestInfo, config: Config) -> Seq<
    char,
> {
    match fmt {
        OutputFormat::Markdown => markdown_line(
            info.id as nat,
            info.author@,
            info.name@,
            repo_view(config.repo_name),
            config.omit_author,
        ),
    }
}

impl OutputFormat {
    /// Renders one record as a single line of text under the presentation
    /// options. Total: any record and any configuration yield a line, and the
    /// fields are taken verbatim.
    pub fn format(self, info: &PullRequestInfo, config: &Config) -> (r: String)
        ensures
            r@ == rendered_line(self, *info, *config),
    {
        match self {
            OutputFormat::Markdown => {
                proof {
                    reveal_strlit(" * ");
                    reveal_strlit("#");
                    reveal_strlit(" ");
                    reveal_strlit("(by ");
                    reveal_strlit(") ");
                    reveal_strlit("- ");
                }
                let mut r = " * ".to_owned();
                match &config.repo_name {
                    Some(repo) => {
                        r.append(repo.as_str());
                    },
                    None => {},
                }
                r.append("#");
                let ds = u32_to_string(info.id);
                r.append(ds.as_str());
                r.append(" ");
                if !config.omit_author {
                    r.append("(by ");
                    r.append(info.author.as_str());
                    r.append(") ");
                }
                r.append("- ");
                r.append(info.name.as_str());
                proof {
                    assert(" * "@ =~= seq![' ', '*', ' ']);
                    assert("#"@ =~= seq!['#']);
                    assert(" "@ =~= seq![' ']);
                    assert("(by "@ =~= seq!['(', 'b', 'y', ' ']);
                    assert(") "@ =~= seq![')', ' ']);
                    assert("- "@ =~= seq!['-', ' ']);
                    assert(r@ =~= rendered_line(self, *info, *config));
                }
                r
            },
        }
    }
}

} // verus!

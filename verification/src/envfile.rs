//! The token configuration file: checking that a configuration text holds
//! the token entry, and rewriting it with a new token. Reading and writing
//! the file itself is the caller's business.
use crate::text::{
    contains_sub, join_nl, lemma_join_nl_push, lines_spec, split_lines, starts_with, str_contains,
    str_starts_with,
};
use vstd::prelude::*;

verus! {

/// The configuration line carrying the token.
pub open spec fn token_line(token: Seq<char>) -> Seq<char> {
    "GITHUB_PAT="@ + token
}

/// Whether a configuration text provides a token entry, and which error
/// describes what is missing.
pub fn check_env_content(file_content: Option<&str>) -> (r: Result<(), &'static str>)
    ensures
        file_content is None ==> (r matches Err(m) && m@ == "Missing .env file"@),
        (file_content matches Some(c) && !contains_sub(c@, "GITHUB_PAT="@)) ==> (r matches Err(m)
            && m@ == "Missing GITHUB_PAT in .env file"@),
        (file_content matches Some(c) && contains_sub(c@, "GITHUB_PAT="@)) ==> r is Ok,
{
    match file_content {
        None => Err("Missing .env file"),
        Some(content) => {
            if !str_contains(content, "GITHUB_PAT=") {
                Err("Missing GITHUB_PAT in .env file")
            } else {
                Ok(())
            }
        },
    }
}

/// Every line, with each line that sets the token replaced by the new
/// token line.
pub open spec fn replace_token_lines(ls: Seq<Seq<char>>, token: Seq<char>) -> Seq<Seq<char>> {
    Seq::new(
        ls.len(),
        |i: int|
            if starts_with(ls[i], "GITHUB_PAT="@) {
                token_line(token)
            } else {
                ls[i]
            },
    )
}

/// The configuration text after storing a token: when a token entry
/// exists, each token line is replaced in place; otherwise the entry is
/// appended, on a line of its own.
pub open spec fn updated_env_spec(existing: Seq<char>, token: Seq<char>) -> Seq<char> {
    if contains_sub(existing, "GITHUB_PAT="@) {
        join_nl(replace_token_lines(lines_spec(existing), token))
    } else if existing.len() == 0 {
        token_line(token) + seq!['\n']
    } else {
        existing + seq!['\n'] + token_line(token) + seq!['\n']
    }
}

/// Rewrite a configuration text so that it carries the given token.
pub fn updated_env_content(existing: &str, token: &str) -> (r: String)
    ensures
        r@ == updated_env_spec(existing@, token@),
{
    if str_contains(existing, "GITHUB_PAT=") {
        let lines = split_lines(existing);
        let ghost lv = lines.deep_view();
        let ghost mapped = replace_token_lines(lv, token@);
        let mut out = String::new();
        proof {
            assert(mapped.take(0) =~= Seq::<Seq<char>>::empty());
            assert(replace_token_lines(lv.take(0), token@) =~= Seq::<Seq<char>>::empty());
        }
        let n = lines.len();
        let mut i: usize = 0;
        while i < n
            invariant
                i <= n,
                n == lines.len(),
                lv == lines.deep_view(),
                lv.len() == n,
                mapped == replace_token_lines(lv, token@),
                out@ == join_nl(mapped.take(i as int)),
            decreases n - i,
        {
            let line = &lines[i];
            proof {
                assert(lv[i as int] == line@);
                assert(mapped.take(i + 1).drop_last() =~= mapped.take(i as int));
                assert(mapped.take(i + 1).last() == mapped[i as int]);
                lemma_join_nl_push(mapped.take(i as int), mapped[i as int]);
                assert(mapped.take(i as int).push(mapped[i as int]) =~= mapped.take(i + 1));
            }
            if i > 0 {
                out.append("\n");
                proof {
                    reveal_strlit("\n");
                    assert(("\n")@ =~= seq!['\n']);
                }
            }
            if str_starts_with(line.as_str(), "GITHUB_PAT=") {
                out.append("GITHUB_PAT=");
                out.append(token);
            } else {
                out.append(line.as_str());
            }
            i = i + 1;
        }
        proof {
            assert(mapped.take(n as int) =~= mapped);
        }
        out
    } else if existing.unicode_len() == 0 {
        let mut out = "GITHUB_PAT=".to_owned();
        out.append(token);
        out.append("\n");
        proof {
            reveal_strlit("\n");
            assert(("\n")@ =~= seq!['\n']);
        }
        out
    } else {
        let mut out = existing.to_owned();
        out.append("\n");
        out.append("GITHUB_PAT=");
        out.append(token);
        out.append("\n");
        proof {
            reveal_strlit("\n");
            assert(("\n")@ =~= seq!['\n']);
        }
        out
    }
}

} // verus!

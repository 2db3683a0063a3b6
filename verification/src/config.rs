use vstd::prelude::*;
use crate::text::views_of;
use crate::text::spec_split;
use crate::text::split_char;
use crate::text::spec_split_str;
use crate::text::split_str;
use crate::text::is_substring;
use crate::text::contains_str;
use crate::text::spec_trim;
use crate::text::trim;

verus! {

/// The line-search tool's settings: the files to search and the
/// strings to look for in them.
#[derive(Debug)]
pub struct Config {
    pub files: Vec<String>,
    pub search_strings: Vec<String>,
}

/// `l` without a final carriage return, as the line iterator yields it.
pub open spec fn spec_strip_cr(l: Seq<char>) -> Seq<char> {
    if l.len() > 0 && l.last() == '\r' {
        l.drop_last()
    } else {
        l
    }
}

/// The lines of `content`: the pieces between newlines, a carriage
/// return before each newline removed, and no empty final piece after
/// a trailing newline.
pub open spec fn spec_lines(content: Seq<char>) -> Seq<Seq<char>> {
    let parts = spec_split(content, '\n');
    if parts.last() == Seq::<char>::empty() {
        let kept = parts.drop_last();
        Seq::new(kept.len(), |i: int| spec_strip_cr(kept[i]))
    } else {
        Seq::new(
            parts.len(),
            |i: int|
                if i < parts.len() - 1 {
                    spec_strip_cr(parts[i])
                } else {
                    parts[i]
                },
        )
    }
}

/// `l` with a final carriage return removed.
fn strip_cr(l: &str) -> (r: String)
    ensures
        r@ == spec_strip_cr(l@),
{
    let n = l.unicode_len();
    if n > 0 && l.get_char(n - 1) == '\r' {
        proof {
            assert(l@.subrange(0, n as int - 1) =~= l@.drop_last());
        }
        l.substring_char(0, n - 1).to_owned()
    } else {
        l.to_owned()
    }
}

/// Cuts `content` into its lines.
pub fn split_lines(content: &str) -> (r: Vec<String>)
    ensures
        views_of(r@) == spec_lines(content@),
{
    let mut parts = split_char(content, '\n');
    let ghost all_parts = views_of(parts@);
    let last_empty = parts[parts.len() - 1].as_str().is_empty();
    if last_empty {
        parts.pop();
        proof {
            assert(views_of(parts@) =~~= all_parts.drop_last());
        }
    }
    let ghost kept = views_of(parts@);
    let ghost target = spec_lines(content@);
    proof {
        if last_empty {
            assert(all_parts.last() =~= Seq::<char>::empty());
        }
        assert(target.len() == kept.len());
        assert(forall|k: int|
            0 <= k < kept.len() ==> target[k] == (if !last_empty && k == kept.len() - 1 {
                kept[k]
            } else {
                spec_strip_cr(kept[k])
            }));
    }
    let mut out: Vec<String> = Vec::new();
    let mut i: usize = 0;
    proof {
        assert(views_of(out@) =~~= target.take(0));
    }
    while i < parts.len()
        invariant
            0 <= i <= parts.len(),
            kept == views_of(parts@),
            target.len() == kept.len(),
            forall|k: int|
                0 <= k < kept.len() ==> target[k] == (if !last_empty && k == kept.len() - 1 {
                    kept[k]
                } else {
                    spec_strip_cr(kept[k])
                }),
            views_of(out@) == target.take(i as int),
        decreases parts.len() - i,
    {
        let keep_last_raw = !last_empty && i == parts.len() - 1;
        let piece = if keep_last_raw {
            parts[i].clone()
        } else {
            strip_cr(parts[i].as_str())
        };
        let ghost before = out@;
        out.push(piece);
        proof {
            assert(views_of(out@) =~~= views_of(before).push(piece@));
            assert(views_of(out@) =~~= target.take(i as int + 1));
        }
        i = i + 1;
    }
    proof {
        assert(target.take(parts@.len() as int) =~~= target);
    }
    out
}

/// Whether any of the needles stands somewhere in the line.
pub open spec fn spec_line_matches(line: Seq<char>, needles: Seq<Seq<char>>) -> bool {
    exists|i: int| 0 <= i < needles.len() && is_substring(line, needles[i])
}

/// Decides whether a line holds at least one of the search strings.
pub fn line_matches(line: &str, needles: &Vec<String>) -> (r: bool)
    ensures
        r == spec_line_matches(line@, views_of(needles@)),
{
    let mut i: usize = 0;
    while i < needles.len()
        invariant
            0 <= i <= needles.len(),
            forall|k: int| 0 <= k < i ==> !is_substring(line@, views_of(needles@)[k]),
        decreases needles.len() - i,
    {
        if contains_str(line, needles[i].as_str()) {
            proof {
                assert(is_substring(line@, views_of(needles@)[i as int]));
            }
            return true;
        }
        i = i + 1;
    }
    false
}

/// The lines that hold a search string, each trimmed as it is printed,
/// in their order in the input.
pub open spec fn spec_search(lines: Seq<Seq<char>>, needles: Seq<Seq<char>>) -> Seq<Seq<char>>
    decreases lines.len(),
{
    if lines.len() == 0 {
        Seq::empty()
    } else {
        let rest = spec_search(lines.drop_last(), needles);
        if spec_line_matches(lines.last(), needles) {
            rest.push(spec_trim(lines.last()))
        } else {
            rest
        }
    }
}

impl Config {
    /// Builds the settings from the arguments after the program name:
    /// the first argument holds the search strings separated by the
    /// literal `\|`, and every further argument names a file to search.
    /// Only a missing query is an error.
    pub fn new(args: &Vec<String>) -> (r: Result<Config, &'static str>)
        ensures
            match r {
                Ok(c) => args@.len() >= 1 && views_of(c.search_strings@) == spec_split_str(
                    args@[0]@,
                    "\\|"@,
                ) && c.files@ == args@.skip(1),
                Err(e) => args@.len() == 0 && e@ == "Didn't get a query string"@,
            },
    {
        if args.len() == 0 {
            return Err("Didn't get a query string");
        }
        proof {
            reveal_strlit("\\|");
        }
        let search_strings = split_str(args[0].as_str(), "\\|");
        let mut files: Vec<String> = Vec::new();
        let mut i: usize = 1;
        while i < args.len()
            invariant
                1 <= i <= args@.len(),
                files@ == args@.subrange(1, i as int),
            decreases args@.len() - i,
        {
            files.push(args[i].clone());
            proof {
                assert(files@ =~= args@.subrange(1, i as int + 1));
            }
            i = i + 1;
        }
        proof {
            assert(files@ =~= args@.skip(1));
        }
        Ok(Config { files, search_strings })
    }

    /// The lines of `content` that hold any of the search strings,
    /// each trimmed for printing, in their order in the file.
    pub fn search_content(&self, content: &str) -> (r: Vec<String>)
        ensures
            views_of(r@) == spec_search(spec_lines(content@), views_of(self.search_strings@)),
    {
        let ghost needles = views_of(self.search_strings@);
        let lines = split_lines(content);
        let ghost lv = views_of(lines@);
        let mut out: Vec<String> = Vec::new();
        let mut i: usize = 0;
        proof {
            assert(views_of(out@) =~~= spec_search(lv.take(0), needles));
        }
        while i < lines.len()
            invariant
                0 <= i <= lines.len(),
                lv == views_of(lines@),
                needles == views_of(self.search_strings@),
                views_of(out@) == spec_search(lv.take(i as int), needles),
            decreases lines.len() - i,
        {
            proof {
                assert(lv.take(i as int + 1).drop_last() =~~= lv.take(i as int));
                assert(lv.take(i as int + 1).last() == lv[i as int]);
            }
            if line_matches(lines[i].as_str(), &self.search_strings) {
                let t = trim(lines[i].as_str());
                let ghost before = out@;
                out.push(t);
                proof {
                    assert(views_of(out@) =~~= views_of(before).push(t@));
                }
            }
            i = i + 1;
        }
        proof {
            assert(lv.take(lines@.len() as int) =~~= lv);
            assert(lv == spec_lines(content@));
        }
        out
    }
}

} // verus!

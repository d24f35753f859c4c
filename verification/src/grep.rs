//! A line search: the lines of a text that hold a query, whatever the case of
//! their letters, and the configuration that a search is started with.

use vstd::prelude::*;
use vstd::std_specs::iter::IteratorSpec;
use vstd::string::*;
use crate::text::{
    chars_of, contains, contains_within, line_ranges, lines, lines_of, ranges_view, ranges_within,
    string_of,
};

verus! {

/// What `str::to_lowercase` makes of a text: its lowercase equivalent.
pub uninterp spec fn lowercase(text: Seq<char>) -> Seq<char>;

/// Calls `str::to_lowercase`. The contract only gives the result its name:
/// the lowercase form of a text depends on the text alone.
#[verifier::external_body]
fn to_lowercase(text: &str) -> (lower: String)
    ensures
        lower@ == lowercase(text@),
{
    text.to_lowercase()
}

/// Why no configuration could be made.
#[derive(Debug, Clone, PartialEq, Eq)]
pub enum ConfigError {
    /// An argument is missing. The text says which.
    Lack(String),
}

impl ConfigError {
    /// What the error says of itself.
    pub open spec fn message(&self) -> Seq<char> {
        match *self {
            ConfigError::Lack(text) => "LackError: "@ + text@,
        }
    }

    /// What the error says of itself.
    pub fn to_string(&self) -> (text: String)
        ensures
            text@ == self.message(),
    {
        match self {
            ConfigError::Lack(text) => String::from_str("LackError: ").concat(text.as_str()),
        }
    }
}

/// What a search is started with.
#[derive(Debug, Clone, PartialEq, Eq)]
pub struct Config {
    pub query: String,
    pub file_path: String,
}

/// The configuration that a list of arguments gives: the first argument is
/// the program's name, the second the path of the file, the third the query.
pub open spec fn config_of(args: Seq<String>) -> Result<(Seq<char>, Seq<char>), Seq<char>> {
    if args.len() < 2 {
        Err("file_path is empty"@)
    } else if args.len() < 3 {
        Err("query is empty"@)
    } else {
        Ok((args[2]@, args[1]@))
    }
}

impl Config {
    /// Reads the configuration from the arguments of the program. The first
    /// argument is passed over; the path of the file and the query follow it.
    pub fn new<T>(mut args: T) -> (result: Result<Config, ConfigError>)
        where
            T: Iterator<Item = String>,
        ensures
            args.obeys_prophetic_iter_laws() ==> match result {
                Ok(config) => config_of(args.remaining()) == Ok::<
                    (Seq<char>, Seq<char>),
                    Seq<char>,
                >((config.query@, config.file_path@)),
                Err(ConfigError::Lack(text)) => config_of(args.remaining()) == Err::<
                    (Seq<char>, Seq<char>),
                    Seq<char>,
                >(text@),
            },
    {
        args.next();
        let file_path = match args.next() {
            Some(path) => path,
            None => {
                return Err(ConfigError::Lack(String::from_str("file_path is empty")));
            },
        };
        let query = match args.next() {
            Some(query) => query,
            None => {
                return Err(ConfigError::Lack(String::from_str("query is empty")));
            },
        };
        Ok(Config { file_path, query })
    }

    /// The configuration as text.
    pub fn to_string(&self) -> (text: String)
        ensures
            text@ == "query: "@ + self.query@ + ", file_path: "@ + self.file_path@,
    {
        String::from_str("query: ").concat(self.query.as_str()).concat(", file_path: ").concat(
            self.file_path.as_str(),
        )
    }
}

/// Whether a line holds the query, whatever the case of their letters.
pub open spec fn line_matches(query: Seq<char>, line: Seq<char>) -> bool {
    contains(lowercase(line), lowercase(query))
}

/// The test that picks the lines which hold the query.
pub open spec fn holds(query: Seq<char>) -> spec_fn(Seq<char>) -> bool {
    |line: Seq<char>| line_matches(query, line)
}

/// The lines among `lines` that hold the query, in their order.
pub open spec fn matching(query: Seq<char>, lines: Seq<Seq<char>>) -> Seq<Seq<char>> {
    lines.filter(holds(query))
}

/// The characters of each of the given texts.
pub open spec fn line_texts(lines: Seq<&str>) -> Seq<Seq<char>> {
    lines.map_values(|line: &str| line@)
}

/// The lines of `contents` that hold `query`, whatever the case of their letters.
pub fn search_str<'a>(query: &str, contents: &'a str) -> (found: Vec<&'a str>)
    ensures
        line_texts(found@) == matching(query@, lines_of(contents@)),
{
    let needle = chars_of(to_lowercase(query).as_str());
    let chars = chars_of(contents);
    let ranges = lines(chars.as_slice());
    let ghost every = lines_of(contents@);
    let mut found: Vec<&'a str> = Vec::new();
    let mut k: usize = 0;
    proof {
        reveal(Seq::filter);
        assert(every.take(0).len() == 0);
        assert(line_texts(found@) =~= Seq::empty());
    }
    while k < ranges.len()
        invariant
            k <= ranges.len(),
            chars@ == contents@,
            every == lines_of(contents@),
            ranges_view(ranges@) == line_ranges(contents@),
            ranges_within(ranges@, contents@.len()),
            needle@ == lowercase(query@),
            line_texts(found@) == matching(query@, every.take(k as int)),
        decreases ranges.len() - k,
    {
        let (from, to) = ranges[k];
        assert(ranges_view(ranges@)[k as int] == (from as int, to as int));
        proof {
            reveal(Seq::filter);
        }
        assert(ranges@[k as int].0 <= ranges@[k as int].1 <= contents@.len());
        let text = string_of(vstd::slice::slice_subrange(chars.as_slice(), from, to));
        assert(every[k as int] == text@);
        assert(every.take(k + 1).drop_last() =~= every.take(k as int));
        let lower = chars_of(to_lowercase(text.as_str()).as_str());
        assert(lower@.subrange(0, lower@.len() as int) =~= lower@);
        let ghost before = line_texts(found@);
        if contains_within(lower.as_slice(), 0, lower.len(), needle.as_slice()) {
            let line = contents.substring_char(from, to);
            found.push(line);
            assert(line_texts(found@) =~= before.push(line@));
        }
        k += 1;
    }
    assert(every.take(k as int) =~= every);
    found
}

/// Every line that is found is a line of the contents and holds the query.
pub proof fn lemma_matching_lines_match(query: Seq<char>, lines: Seq<Seq<char>>, i: int)
    requires
        0 <= i < matching(query, lines).len(),
    ensures
        line_matches(query, matching(query, lines)[i]),
        lines.contains(matching(query, lines)[i]),
        matching(query, lines).len() <= lines.len(),
    decreases lines.len(),
{
    reveal(Seq::filter);
    let rest = lines.drop_last();
    if line_matches(query, lines.last()) {
        if i < matching(query, rest).len() {
            lemma_matching_lines_match(query, rest, i);
            let j = choose|j: int| 0 <= j < rest.len() && rest[j] == matching(query, rest)[i];
            assert(lines[j] == matching(query, lines)[i]);
        } else {
            assert(lines[lines.len() - 1] == matching(query, lines)[i]);
        }
        if matching(query, rest).len() > 0 {
            lemma_matching_lines_match(query, rest, 0);
        }
    } else {
        lemma_matching_lines_match(query, rest, i);
        let j = choose|j: int| 0 <= j < rest.len() && rest[j] == matching(query, rest)[i];
        assert(lines[j] == matching(query, lines)[i]);
    }
}

} // verus!

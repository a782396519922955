//! Which textures are left alone.
//!
//! A rule file has one rule per line. `#` and `//` begin a comment. A line
//! that begins with a backslash excludes every path that contains the rest
//! of the line; a line with a `*` is a pattern for file names, in which `*`
//! stands for any run of characters; any other line names one file. Rules
//! are held in lower case and compared with paths in lower case.

use vstd::prelude::*;
use crate::text::{
    chars_of, contains, contains_sub, lowercase_of, replace_char, replaced, same_chars,
    slice_of, split, split_on, starts_with, string_of, string_views, to_lowercase, trim,
    trimmed, views,
};

verus! {

/// The rules of a rule file, by kind.
pub struct ExclusionList {
    /// Patterns for file names, such as `*_color.dds`.
    pub filename_patterns: Vec<String>,
    /// Parts of paths, such as `actors/dragon`.
    pub path_exclusions: Vec<String>,
    /// File names, such as `dummy.dds`.
    pub exact_matches: Vec<String>,
}

/// What a line of a rule file says.
pub enum Rule {
    Path(Seq<char>),
    Pattern(Seq<char>),
    Exact(Seq<char>),
}

/// The rule on a trimmed line, if it holds one.
pub open spec fn rule_of(line: Seq<char>) -> Option<Rule> {
    if line.len() == 0 || line[0] == '#' || "//"@.is_prefix_of(line) {
        None
    } else if line[0] == '\\' {
        Some(Rule::Path(lowercase_of(replaced(line.skip(1), '\\', '/'))))
    } else if line.contains('*') {
        Some(Rule::Pattern(lowercase_of(line)))
    } else {
        Some(Rule::Exact(lowercase_of(line)))
    }
}

/// The path rules on the given lines, in order.
pub open spec fn paths_of_lines(lines: Seq<Seq<char>>) -> Seq<Seq<char>>
    decreases lines.len(),
{
    if lines.len() == 0 {
        Seq::empty()
    } else {
        let before = paths_of_lines(lines.drop_last());
        match rule_of(trimmed(lines.last())) {
            Some(Rule::Path(rule)) => before.push(rule),
            _ => before,
        }
    }
}

/// The patterns on the given lines, in order.
pub open spec fn patterns_of_lines(lines: Seq<Seq<char>>) -> Seq<Seq<char>>
    decreases lines.len(),
{
    if lines.len() == 0 {
        Seq::empty()
    } else {
        let before = patterns_of_lines(lines.drop_last());
        match rule_of(trimmed(lines.last())) {
            Some(Rule::Pattern(rule)) => before.push(rule),
            _ => before,
        }
    }
}

/// The file names on the given lines, in order.
pub open spec fn exacts_of_lines(lines: Seq<Seq<char>>) -> Seq<Seq<char>>
    decreases lines.len(),
{
    if lines.len() == 0 {
        Seq::empty()
    } else {
        let before = exacts_of_lines(lines.drop_last());
        match rule_of(trimmed(lines.last())) {
            Some(Rule::Exact(rule)) => before.push(rule),
            _ => before,
        }
    }
}

/// Whether `text` matches `pattern`, in which `*` stands for any run of
/// characters, the empty one too, and every other character for itself.
pub open spec fn glob(text: Seq<char>, pattern: Seq<char>) -> bool
    decreases pattern.len(), text.len(),
{
    if pattern.len() == 0 {
        text.len() == 0
    } else if pattern[0] == '*' {
        glob(text, pattern.skip(1)) || (text.len() > 0 && glob(text.skip(1), pattern))
    } else {
        text.len() > 0 && text[0] == pattern[0] && glob(text.skip(1), pattern.skip(1))
    }
}

/// Whether the text from place `i` on matches the pattern from place `j`
/// on.
pub open spec fn glob_from(text: Seq<char>, pattern: Seq<char>, i: int, j: int) -> bool {
    glob(text.skip(i), pattern.skip(j))
}

/// The part of a path behind its last `/`.
pub open spec fn file_name_of(path: Seq<char>) -> Seq<char> {
    split_on(path, '/').last()
}

/// Whether one of the path rules occurs in `lower`.
pub open spec fn path_excluded(paths: Seq<Seq<char>>, lower: Seq<char>) -> bool {
    exists|i: int| 0 <= i < paths.len() && contains_sub(lower, #[trigger] paths[i])
}

/// Whether one of the patterns matches `name`.
pub open spec fn pattern_excluded(patterns: Seq<Seq<char>>, name: Seq<char>) -> bool {
    exists|i: int| 0 <= i < patterns.len() && glob(name, #[trigger] patterns[i])
}

/// Whether the rules exclude a path given in lower case.
pub open spec fn excluded(
    patterns: Seq<Seq<char>>,
    paths: Seq<Seq<char>>,
    exacts: Seq<Seq<char>>,
    lower: Seq<char>,
) -> bool {
    ||| path_excluded(paths, lower)
    ||| exacts.contains(file_name_of(lower))
    ||| pattern_excluded(patterns, file_name_of(lower))
}

/// How a match from one place follows from the matches one place on.
proof fn lemma_glob_step(text: Seq<char>, pattern: Seq<char>, i: int, j: int)
    requires
        0 <= i <= text.len(),
        0 <= j <= pattern.len(),
    ensures
        glob_from(text, pattern, i, j) == if j == pattern.len() {
            i == text.len()
        } else if pattern[j] == '*' {
            glob_from(text, pattern, i, j + 1) || (i < text.len() && glob_from(
                text,
                pattern,
                i + 1,
                j,
            ))
        } else {
            i < text.len() && text[i] == pattern[j] && glob_from(text, pattern, i + 1, j + 1)
        },
{
    let t = text.skip(i);
    let p = pattern.skip(j);
    if j < pattern.len() {
        assert(p[0] == pattern[j]);
        assert(p.skip(1) == pattern.skip(j + 1));
        if i < text.len() {
            assert(t[0] == text[i]);
            assert(t.skip(1) == text.skip(i + 1));
        }
    }
}

impl ExclusionList {
    /// The patterns, as character sequences.
    pub open spec fn patterns_view(&self) -> Seq<Seq<char>> {
        string_views(self.filename_patterns@)
    }

    /// The path rules, as character sequences.
    pub open spec fn paths_view(&self) -> Seq<Seq<char>> {
        string_views(self.path_exclusions@)
    }

    /// The file names, as character sequences.
    pub open spec fn exacts_view(&self) -> Seq<Seq<char>> {
        string_views(self.exact_matches@)
    }

    /// Reads the rules from the text of a rule file.
    pub fn load(content: &str) -> (list: Self)
        ensures
            list.patterns_view() == patterns_of_lines(split_on(content@, '\n')),
            list.paths_view() == paths_of_lines(split_on(content@, '\n')),
            list.exacts_view() == exacts_of_lines(split_on(content@, '\n')),
    {
        let text = chars_of(content);
        let lines = split(&text, '\n');
        let mut filename_patterns: Vec<String> = Vec::new();
        let mut path_exclusions: Vec<String> = Vec::new();
        let mut exact_matches: Vec<String> = Vec::new();
        let comment = chars_of("//");
        let mut i: usize = 0;
        assert(views(lines@).take(0) == Seq::<Seq<char>>::empty());
        while i < lines.len()
            invariant
                i <= lines.len(),
                comment@ == "//"@,
                string_views(filename_patterns@) == patterns_of_lines(
                    views(lines@).take(i as int),
                ),
                string_views(path_exclusions@) == paths_of_lines(views(lines@).take(i as int)),
                string_views(exact_matches@) == exacts_of_lines(views(lines@).take(i as int)),
            decreases lines.len() - i,
        {
            let line = trim(&lines[i]);
            proof {
                let upto = views(lines@).take(i + 1);
                assert(upto.drop_last() == views(lines@).take(i as int));
                assert(upto.last() == lines@[i as int]@);
            }
            if line.len() == 0 || line[0] == '#' || starts_with(&line, &comment) {
            } else if line[0] == '\\' {
                let rest = slice_of(&line, 1, line.len());
                assert(rest@ == line@.skip(1));
                let slashed = replace_char(&rest, '\\', '/');
                let rule = to_lowercase(string_of(&slashed).as_str());
                let ghost before = path_exclusions@;
                path_exclusions.push(rule);
                assert(string_views(path_exclusions@) == string_views(before).push(rule@));
            } else if Self::has_star(&line) {
                let rule = to_lowercase(string_of(&line).as_str());
                let ghost before = filename_patterns@;
                filename_patterns.push(rule);
                assert(string_views(filename_patterns@) == string_views(before).push(rule@));
            } else {
                let rule = to_lowercase(string_of(&line).as_str());
                let ghost before = exact_matches@;
                exact_matches.push(rule);
                assert(string_views(exact_matches@) == string_views(before).push(rule@));
            }
            i = i + 1;
        }
        assert(views(lines@).take(lines.len() as int) == views(lines@));
        ExclusionList { filename_patterns, path_exclusions, exact_matches }
    }

    fn has_star(line: &Vec<char>) -> (r: bool)
        ensures
            r == line@.contains('*'),
    {
        let mut i: usize = 0;
        while i < line.len()
            invariant
                i <= line.len(),
                forall|k: int| 0 <= k < i ==> line@[k] != '*',
            decreases line.len() - i,
        {
            if line[i] == '*' {
                return true;
            }
            i = i + 1;
        }
        false
    }

    /// Whether the rules exclude a texture path, whatever the case of its
    /// letters.
    pub fn should_exclude(&self, texture_path: &str) -> (r: bool)
        ensures
            r == excluded(
                self.patterns_view(),
                self.paths_view(),
                self.exacts_view(),
                lowercase_of(texture_path@),
            ),
    {
        let lower = to_lowercase(texture_path);
        self.excludes_lowercase(lower.as_str())
    }

    /// Whether the rules exclude a path that is already in lower case.
    pub fn excludes_lowercase(&self, lower_path: &str) -> (r: bool)
        ensures
            r == excluded(
                self.patterns_view(),
                self.paths_view(),
                self.exacts_view(),
                lower_path@,
            ),
    {
        let lower = chars_of(lower_path);
        let mut i: usize = 0;
        while i < self.path_exclusions.len()
            invariant
                i <= self.path_exclusions.len(),
                lower@ == lower_path@,
                forall|k: int| 0 <= k < i ==> !contains_sub(lower@, self.paths_view()[k]),
            decreases self.path_exclusions.len() - i,
        {
            let rule = chars_of(self.path_exclusions[i].as_str());
            if contains(&lower, &rule) {
                assert(contains_sub(lower@, self.paths_view()[i as int]));
                return true;
            }
            i = i + 1;
        }
        assert(!path_excluded(self.paths_view(), lower_path@));

        let pieces = split(&lower, '/');
        let name = &pieces[pieces.len() - 1];
        assert(name@ == file_name_of(lower_path@));

        let mut j: usize = 0;
        while j < self.exact_matches.len()
            invariant
                j <= self.exact_matches.len(),
                name@ == file_name_of(lower_path@),
                forall|k: int| 0 <= k < j ==> self.exacts_view()[k] != name@,
            decreases self.exact_matches.len() - j,
        {
            let rule = chars_of(self.exact_matches[j].as_str());
            if same_chars(&rule, name) {
                assert(self.exacts_view()[j as int] == name@);
                return true;
            }
            j = j + 1;
        }
        assert(!self.exacts_view().contains(name@));

        let mut k: usize = 0;
        while k < self.filename_patterns.len()
            invariant
                k <= self.filename_patterns.len(),
                name@ == file_name_of(lower_path@),
                !path_excluded(self.paths_view(), lower_path@),
                !self.exacts_view().contains(name@),
                forall|m: int| 0 <= m < k ==> !glob(name@, self.patterns_view()[m]),
            decreases self.filename_patterns.len() - k,
        {
            let name_text = string_of(name);
            if Self::matches_wildcard(name_text.as_str(), self.filename_patterns[k].as_str()) {
                assert(glob(name@, self.patterns_view()[k as int]));
                return true;
            }
            k = k + 1;
        }
        assert(!pattern_excluded(self.patterns_view(), name@));
        false
    }

    /// Whether `text` matches `pattern`, in which `*` stands for any run
    /// of characters.
    ///
    /// The pattern is gone through from its end. For each place in it a
    /// row holds, for every place in the text, whether the rest of the text
    /// matches the rest of the pattern.
    pub fn matches_wildcard(text: &str, pattern: &str) -> (r: bool)
        ensures
            r == glob(text@, pattern@),
    {
        let t = chars_of(text);
        let p = chars_of(pattern);
        let n = t.len();
        let mut row: Vec<bool> = Vec::new();
        let mut i: usize = 0;
        while i < n
            invariant
                i <= n,
                n == t.len(),
                row.len() == i,
                forall|k: int| 0 <= k < i ==> !(#[trigger] row@[k]),
            decreases n - i,
        {
            row.push(false);
            i = i + 1;
        }
        row.push(true);
        assert forall|k: int| 0 <= k <= n implies (#[trigger] row@[k]) == glob_from(
            t@,
            p@,
            k,
            p.len() as int,
        ) by {
            lemma_glob_step(t@, p@, k, p.len() as int);
        }
        let mut j: usize = p.len();
        while j > 0
            invariant
                j <= p.len(),
                n == t.len(),
                row.len() == n + 1,
                forall|k: int|
                    0 <= k <= n ==> (#[trigger] row@[k]) == glob_from(t@, p@, k, j as int),
            decreases j,
        {
            j = j - 1;
            let ghost old_row = row@;
            if p[j] == '*' {
                proof {
                    lemma_glob_step(t@, p@, n as int, j as int);
                }
                let mut i: usize = n;
                while i > 0
                    invariant
                        i <= n,
                        j < p.len(),
                        p@[j as int] == '*',
                        n == t.len(),
                        row.len() == n + 1,
                        forall|k: int|
                            i <= k <= n ==> (#[trigger] row@[k]) == glob_from(t@, p@, k, j as int),
                        forall|k: int|
                            0 <= k < i ==> (#[trigger] row@[k]) == glob_from(t@, p@, k, j + 1),
                    decreases i,
                {
                    i = i - 1;
                    proof {
                        lemma_glob_step(t@, p@, i as int, j as int);
                    }
                    let here = row[i] || row[i + 1];
                    row.set(i, here);
                }
            } else {
                let mut i: usize = 0;
                while i < n
                    invariant
                        i <= n,
                        j < p.len(),
                        p@[j as int] != '*',
                        n == t.len(),
                        row.len() == n + 1,
                        forall|k: int|
                            0 <= k < i ==> (#[trigger] row@[k]) == glob_from(t@, p@, k, j as int),
                        forall|k: int|
                            i <= k <= n ==> (#[trigger] row@[k]) == glob_from(t@, p@, k, j + 1),
                    decreases n - i,
                {
                    proof {
                        lemma_glob_step(t@, p@, i as int, j as int);
                    }
                    let here = t[i] == p[j] && row[i + 1];
                    row.set(i, here);
                    i = i + 1;
                }
                proof {
                    lemma_glob_step(t@, p@, n as int, j as int);
                }
                row.set(n, false);
            }
        }
        assert(t@.skip(0) == t@);
        assert(p@.skip(0) == p@);
        row[0]
    }
}

} // verus!

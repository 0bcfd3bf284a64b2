//! The words a scan tries: where they are read from, how a file of them is
//! read, and how repeats are dropped.
use crate::error::PathScanError;
use crate::text::{chars_of, is_ws, push_char, push_str, lemma_split_nonempty, lemma_trim_clean, split_on, string_of, trim, trim_bounds};
use crate::types::{config_leaves, list_leaves, BuiltinSize, WordlistConfig, WordlistLeaf};
use vstd::hash_set::StringHashSet;
use vstd::prelude::*;

verus! {

/// The views of the strings `s`.
pub open spec fn views(s: Seq<String>) -> Seq<Seq<char>> {
    s.map_values(|x: String| x@)
}

/// A trimmed line is a word: it is not empty and not a `#` comment.
pub open spec fn is_word(t: Seq<char>) -> bool {
    t.len() > 0 && t[0] != '#'
}

/// The words among `lines`: each line trimmed, blank lines and comments left out.
pub open spec fn words_of_lines(lines: Seq<Seq<char>>) -> Seq<Seq<char>>
    decreases lines.len(),
{
    if lines.len() == 0 {
        Seq::empty()
    } else {
        let rest = words_of_lines(lines.drop_last());
        let t = trim(lines.last());
        if is_word(t) {
            rest.push(t)
        } else {
            rest
        }
    }
}

/// The words of a wordlist file. Splitting at `\n` and trimming gives the
/// same words as `str::lines` followed by trimming: the `\r` that `lines`
/// strips is whitespace, and the empty last line it leaves out is no word.
pub open spec fn words_of(content: Seq<char>) -> Seq<Seq<char>> {
    words_of_lines(split_on(content, '\n'))
}

/// `s` with every repeat after the first occurrence left out, order kept.
pub open spec fn dedup(s: Seq<Seq<char>>) -> Seq<Seq<char>>
    decreases s.len(),
{
    if s.len() == 0 {
        Seq::empty()
    } else {
        let rest = dedup(s.drop_last());
        if rest.contains(s.last()) {
            rest
        } else {
            rest.push(s.last())
        }
    }
}

/// The file name of a built-in wordlist.
pub open spec fn builtin_file_name(size: BuiltinSize) -> Seq<char> {
    match size {
        BuiltinSize::Small => seq!['s', 'm', 'a', 'l', 'l', '.', 't', 'x', 't'],
        BuiltinSize::Medium => seq!['m', 'e', 'd', 'i', 'u', 'm', '.', 't', 'x', 't'],
        BuiltinSize::Large => seq!['l', 'a', 'r', 'g', 'e', '.', 't', 'x', 't'],
    }
}

/// The directory that built-in wordlists are read from unless another is given.
pub open spec fn default_builtin_dir() -> Seq<char> {
    seq!['w', 'o', 'r', 'd', 'l', 'i', 's', 't', 's']
}

/// A file to read words from: `name` inside `dir`, or the path `name` itself.
#[derive(Debug, Clone)]
pub struct WordlistFile {
    pub dir: Option<String>,
    pub name: String,
}

/// What a wordlist file is, as plain text.
pub struct FileSpec {
    pub dir: Option<Seq<char>>,
    pub name: Seq<char>,
}

/// The plain view of a wordlist file.
pub open spec fn file_spec(f: WordlistFile) -> FileSpec {
    FileSpec {
        dir: match f.dir {
            Some(d) => Some(d@),
            None => None,
        },
        name: f.name@,
    }
}

/// The file that `leaf` names, built-in lists being looked for in `builtin_dir`.
pub open spec fn leaf_file(leaf: WordlistLeaf, builtin_dir: Option<Seq<char>>) -> FileSpec {
    match leaf {
        WordlistLeaf::Builtin(size) => FileSpec {
            dir: Some(
                match builtin_dir {
                    Some(d) => d,
                    None => default_builtin_dir(),
                },
            ),
            name: builtin_file_name(size),
        },
        WordlistLeaf::External(path) => FileSpec { dir: None, name: path },
    }
}

/// The outcome of reading one wordlist file: its text, or, where it could
/// not be read, the path to report.
#[derive(Debug, Clone)]
pub enum FileRead {
    Content(String),
    Missing(String),
}

/// The index of the first unread file of `reads`, if there is one.
pub open spec fn first_missing(reads: Seq<FileRead>) -> Option<int>
    decreases reads.len(),
{
    if reads.len() == 0 {
        None
    } else {
        match first_missing(reads.drop_last()) {
            Some(i) => Some(i),
            None => if reads.last() is Missing {
                Some(reads.len() - 1)
            } else {
                None
            },
        }
    }
}

/// The words of the files `reads`, one file after another.
pub open spec fn words_of_reads(reads: Seq<FileRead>) -> Seq<Seq<char>>
    decreases reads.len(),
{
    if reads.len() == 0 {
        Seq::empty()
    } else {
        words_of_reads(reads.drop_last()) + match reads.last() {
            FileRead::Content(c) => words_of(c@),
            FileRead::Missing(_) => Seq::empty(),
        }
    }
}

/// The path of the file `f` as text: `name` alone where there is no
/// directory or the directory is empty, else the directory and `name` with
/// one `/` between them.
pub open spec fn path_text_spec(f: FileSpec) -> Seq<char> {
    match f.dir {
        None => f.name,
        Some(d) => if d.len() == 0 {
            f.name
        } else if d.last() == '/' {
            d + f.name
        } else {
            d + seq!['/'] + f.name
        },
    }
}

impl WordlistFile {
    /// The path of this file as text, the form in which it is read and in
    /// which it is named when it cannot be.
    pub fn path_text(&self) -> (p: String)
        ensures
            p@ == path_text_spec(file_spec(*self)),
    {
        match &self.dir {
            None => self.name.clone(),
            Some(d) => {
                let dv = chars_of(d.as_str());
                let mut p = String::new();
                if dv.len() == 0 {
                    push_str(&mut p, self.name.as_str());
                    return p;
                }
                push_str(&mut p, d.as_str());
                if dv[dv.len() - 1] != '/' {
                    push_char(&mut p, '/');
                }
                push_str(&mut p, self.name.as_str());
                p
            },
        }
    }
}

/// The built-in file name for `size`.
fn builtin_name(size: BuiltinSize) -> (s: String)
    ensures
        s@ == builtin_file_name(size),
{
    let mut s = String::new();
    match size {
        BuiltinSize::Small => crate::text::push_str(&mut s, "small.txt"),
        BuiltinSize::Medium => crate::text::push_str(&mut s, "medium.txt"),
        BuiltinSize::Large => crate::text::push_str(&mut s, "large.txt"),
    }
    proof {
        reveal_strlit("small.txt");
        reveal_strlit("medium.txt");
        reveal_strlit("large.txt");
    }
    s
}

/// Appends the files that `config` names to `files`.
fn collect_files(config: &WordlistConfig, builtin_dir: &Option<String>, files: &mut Vec<WordlistFile>)
    ensures
        final(files)@.len() == old(files)@.len() + config_leaves(*config).len(),
        final(files)@.take(old(files)@.len() as int) == old(files)@,
        forall|i: int|
            0 <= i < config_leaves(*config).len() ==> file_spec(
                #[trigger] final(files)@[old(files)@.len() + i],
            ) == leaf_file(
                config_leaves(*config)[i],
                match builtin_dir {
                    Some(d) => Some(d@),
                    None => None,
                },
            ),
    decreases config,
{
    let ghost dir_spec = match builtin_dir {
        Some(d) => Some(d@),
        None => None,
    };
    match config {
        WordlistConfig::Builtin(size) => {
            let dir = match builtin_dir {
                Some(d) => d.clone(),
                None => {
                    let mut d = String::new();
                    crate::text::push_str(&mut d, "wordlists");
                    proof {
                        reveal_strlit("wordlists");
                    }
                    d
                },
            };
            let ghost before = files@;
            let name = builtin_name(*size);
            assert(name@ == builtin_file_name(*size));
            assert(dir@ == match dir_spec { Some(d) => d, None => default_builtin_dir() });
            files.push(WordlistFile { dir: Some(dir), name });
            assert(config_leaves(*config)[0] == WordlistLeaf::Builtin(*size));
            assert(file_spec(files@[before.len() as int]) == leaf_file(config_leaves(*config)[0], dir_spec));
            assert(files@[before.len() + 0int] == files@[before.len() as int]);
            assert(files@.take(before.len() as int) == before);
        },
        WordlistConfig::External(path) => {
            let ghost before = files@;
            files.push(WordlistFile { dir: None, name: path.clone() });
            assert(files@[before.len() + 0int] == files@[before.len() as int]);
            assert(files@.take(before.len() as int) == before);
        },
        WordlistConfig::Multiple(parts) => {
            let ghost start = old(files)@;
            let mut i: usize = 0;
            while i < parts.len()
                invariant
                    i <= parts@.len(),
                    *config == WordlistConfig::Multiple(*parts),
                    dir_spec == match builtin_dir {
                        Some(d) => Some(d@),
                        None => None,
                    },
                    files@.len() == start.len() + list_leaves(parts@.take(i as int)).len(),
                    files@.take(start.len() as int) == start,
                    forall|k: int|
                        0 <= k < list_leaves(parts@.take(i as int)).len() ==> file_spec(
                            #[trigger] files@[start.len() + k],
                        ) == leaf_file(list_leaves(parts@.take(i as int))[k], dir_spec),
                decreases parts@.len() - i,
            {
                assert(decreases_to!(*config => (*config)->Multiple_0));
                assert(decreases_to!(*parts => parts[i as int]));
                let ghost mid = files@;
                let ghost before = list_leaves(parts@.take(i as int));
                collect_files(&parts[i], builtin_dir, files);
                assert(parts@.take(i + 1).drop_last() == parts@.take(i as int));
                let ghost added = config_leaves(parts@[i as int]);
                assert(list_leaves(parts@.take(i + 1)) == before + added);
                assert(files@.take(start.len() as int) == start) by {
                    assert(files@.take(mid.len() as int) == mid);
                    assert(mid.take(start.len() as int) == start);
                    assert(files@.take(start.len() as int) == files@.take(mid.len() as int).take(start.len() as int));
                }
                assert forall|k: int|
                    0 <= k < list_leaves(parts@.take(i + 1)).len() implies file_spec(
                        #[trigger] files@[start.len() + k],
                    ) == leaf_file(list_leaves(parts@.take(i + 1))[k], dir_spec) by {
                    if k < before.len() {
                        assert(files@[start.len() + k] == files@.take(mid.len() as int)[start.len() + k]);
                        assert(mid[start.len() + k] == files@[start.len() + k]);
                    } else {
                        let j = k - before.len();
                        assert(files@[mid.len() + j] == files@[start.len() + k]);
                    }
                }
                i = i + 1;
            }
            assert(parts@.take(i as int) == parts@);
        },
    }
}

/// The files that `config` names, in the order they are read; built-in lists
/// are looked for in `builtin_dir`, or in `wordlists` when none is given.
pub fn wordlist_files(config: &WordlistConfig, builtin_dir: &Option<String>) -> (files: Vec<WordlistFile>)
    ensures
        files@.len() == config_leaves(*config).len(),
        forall|i: int|
            0 <= i < files@.len() ==> file_spec(#[trigger] files@[i]) == leaf_file(
                config_leaves(*config)[i],
                match builtin_dir {
                    Some(d) => Some(d@),
                    None => None,
                },
            ),
{
    let mut files: Vec<WordlistFile> = Vec::new();
    collect_files(config, builtin_dir, &mut files);
    assert forall|i: int| 0 <= i < files@.len() implies file_spec(#[trigger] files@[i]) == leaf_file(
        config_leaves(*config)[i],
        match builtin_dir {
            Some(d) => Some(d@),
            None => None,
        },
    ) by {
        assert(files@[0 + i] == files@[i]);
    }
    files
}

/// Appends the words of `content` to `out`.
pub fn push_words(content: &str, out: &mut Vec<String>)
    ensures
        views(final(out)@) == views(old(out)@) + words_of(content@),
{
    let v = chars_of(content);
    let ghost start = views(out@);
    let mut line_start: usize = 0;
    let mut i: usize = 0;
    assert(v@.take(0) =~= Seq::<char>::empty());
    while i < v.len()
        invariant
            line_start <= i <= v@.len(),
            v@ == content@,
            split_on(v@.take(i as int), '\n').len() >= 1,
            split_on(v@.take(i as int), '\n').last() == v@.subrange(line_start as int, i as int),
            views(out@) == start + words_of_lines(split_on(v@.take(i as int), '\n').drop_last()),
        decreases v@.len() - i,
    {
        let ghost prev = split_on(v@.take(i as int), '\n');
        proof {
            lemma_split_nonempty(v@.take(i as int), '\n');
        }
        assert(v@.take(i + 1).drop_last() == v@.take(i as int));
        if v[i] == '\n' {
            let (a, b) = trim_bounds(&v, line_start, i);
            let ghost t = v@.subrange(a as int, b as int);
            if a < b && v[a] != '#' {
                let ghost before = out@;
                out.push(string_of(&v, a, b));
                assert(views(out@) == views(before).push(t));
            }
            assert(split_on(v@.take(i + 1), '\n') == prev.push(Seq::<char>::empty()));
            assert(split_on(v@.take(i + 1), '\n').drop_last() == prev);
            assert(prev.drop_last().push(prev.last()) =~= prev);
            line_start = i + 1;
        } else {
            assert(v@.subrange(line_start as int, i + 1) == v@.subrange(line_start as int, i as int).push(v@[i as int]));
            let ghost next = split_on(v@.take(i + 1), '\n');
            assert(next.drop_last() =~= prev.drop_last());
        }
        i = i + 1;
    }
    let ghost segs = split_on(v@, '\n');
    proof {
        lemma_split_nonempty(v@, '\n');
    }
    assert(v@.take(i as int) == v@);
    let (a, b) = trim_bounds(&v, line_start, i);
    if a < b && v[a] != '#' {
        let ghost before = out@;
        out.push(string_of(&v, a, b));
        assert(views(out@) == views(before).push(v@.subrange(a as int, b as int)));
    }
    assert(segs.drop_last().push(segs.last()) =~= segs);
}

/// The words of one wordlist file, in order.
pub fn parse_wordlist(content: &str) -> (words: Vec<String>)
    ensures
        views(words@) == words_of(content@),
{
    let mut words: Vec<String> = Vec::new();
    push_words(content, &mut words);
    assert(views(Seq::<String>::empty()) == Seq::<Seq<char>>::empty());
    words
}

/// The words to try, in order.
pub struct Wordlist {
    entries: Vec<String>,
}

impl View for Wordlist {
    type V = Seq<Seq<char>>;

    closed spec fn view(&self) -> Seq<Seq<char>> {
        views(self.entries@)
    }
}

impl Wordlist {
    /// The wordlist made of the files `reads`, read in order: the words of each,
    /// one file after another, or, when a file could not be read, the error
    /// that names the first such file.
    pub fn load(reads: Vec<FileRead>) -> (r: Result<Wordlist, PathScanError>)
        ensures
            match first_missing(reads@) {
                Some(i) => r == Err::<Wordlist, PathScanError>(
                    PathScanError::WordlistNotFound(reads@[i]->Missing_0),
                ),
                None => r is Ok && r->Ok_0@ == words_of_reads(reads@),
            },
    {
        let mut entries: Vec<String> = Vec::new();
        let mut i: usize = 0;
        assert(views(Seq::<String>::empty()) == Seq::<Seq<char>>::empty());
        while i < reads.len()
            invariant
                i <= reads@.len(),
                first_missing(reads@.take(i as int)) is None,
                views(entries@) == words_of_reads(reads@.take(i as int)),
            decreases reads@.len() - i,
        {
            assert(reads@.take(i + 1).drop_last() == reads@.take(i as int));
            match &reads[i] {
                FileRead::Content(text) => {
                    push_words(text.as_str(), &mut entries);
                },
                FileRead::Missing(path) => {
                    proof {
                        lemma_first_missing_prefix(reads@, i as int + 1);
                    }
                    return Err(PathScanError::WordlistNotFound(path.clone()));
                },
            }
            i = i + 1;
        }
        assert(reads@.take(i as int) == reads@);
        Ok(Wordlist { entries })
    }

    /// A wordlist of the given words, in order.
    pub fn from_entries(entries: Vec<String>) -> (w: Wordlist)
        ensures
            w@ == views(entries@),
    {
        Wordlist { entries }
    }

    /// The words, in order.
    pub fn entries(&self) -> (e: &[String])
        ensures
            views(e@) == self@,
    {
        self.entries.as_slice()
    }

    /// Drops every word that occurred before, keeping the first occurrence of
    /// each and the order of the words.
    pub fn deduplicate(&mut self)
        ensures
            final(self)@ == dedup(old(self)@),
    {
        let mut seen = StringHashSet::new();
        let mut kept: Vec<String> = Vec::new();
        let mut i: usize = 0;
        assert(views(Seq::<String>::empty()) == Seq::<Seq<char>>::empty());
        while i < self.entries.len()
            invariant
                i <= self.entries@.len(),
                views(kept@) == dedup(views(self.entries@).take(i as int)),
                forall|x: Seq<char>| seen@.contains(x) <==> views(kept@).contains(x),
            decreases self.entries@.len() - i,
        {
            let ghost s = views(self.entries@);
            assert(s.take(i + 1).drop_last() == s.take(i as int));
            let e = &self.entries[i];
            if seen.insert(e.clone()) {
                let ghost before = kept@;
                kept.push(e.clone());
                assert(views(kept@) == views(before).push(e@));
                assert forall|x: Seq<char>| seen@.contains(x) <==> views(kept@).contains(x) by {
                    if x == e@ {
                        assert(views(kept@)[views(kept@).len() - 1] == x);
                    }
                    if views(before).contains(x) {
                        let j = choose|j: int| 0 <= j < views(before).len() && views(before)[j] == x;
                        assert(views(kept@)[j] == x);
                    }
                    if views(kept@).contains(x) && x != e@ {
                        let j = choose|j: int| 0 <= j < views(kept@).len() && views(kept@)[j] == x;
                        assert(views(before)[j] == x);
                    }
                }
            }
            i = i + 1;
        }
        assert(views(self.entries@).take(i as int) == views(self.entries@));
        self.entries = kept;
    }
}

/// Where the first unread file of a list is within a prefix, it is the first
/// of the whole list too; and where a prefix ends at an unread file with none
/// before it, that file is the first.
proof fn lemma_first_missing_prefix(reads: Seq<FileRead>, n: int)
    requires
        0 < n <= reads.len(),
        first_missing(reads.take(n - 1)) is None,
        reads[n - 1] is Missing,
    ensures
        first_missing(reads) == Some(n - 1),
    decreases reads.len(),
{
    if reads.len() == n {
        assert(reads.take(n - 1) == reads.drop_last());
    } else {
        assert(reads.drop_last().take(n - 1) == reads.take(n - 1));
        lemma_first_missing_prefix(reads.drop_last(), n);
    }
}

/// Dropping repeats keeps exactly the words there were: a word is in the
/// result if and only if it is in the input.
pub proof fn lemma_dedup_same_words(s: Seq<Seq<char>>, x: Seq<char>)
    ensures
        dedup(s).contains(x) <==> s.contains(x),
    decreases s.len(),
{
    if s.len() > 0 {
        lemma_dedup_same_words(s.drop_last(), x);
        let rest = dedup(s.drop_last());
        if s.drop_last().contains(x) {
            let i = choose|i: int| 0 <= i < s.drop_last().len() && s.drop_last()[i] == x;
            assert(s[i] == x);
        }
        if s.contains(x) {
            let i = choose|i: int| 0 <= i < s.len() && s[i] == x;
            if i < s.len() - 1 {
                assert(s.drop_last()[i] == x);
            }
        }
        if !rest.contains(s.last()) {
            assert(rest.push(s.last())[rest.len() as int] == s.last());
            if rest.contains(x) {
                let i = choose|i: int| 0 <= i < rest.len() && rest[i] == x;
                assert(rest.push(s.last())[i] == x);
            }
            if rest.push(s.last()).contains(x) && x != s.last() {
                let i = choose|i: int| 0 <= i < rest.len() + 1 && rest.push(s.last())[i] == x;
                assert(rest[i] == x);
            }
        }
    }
}

/// After dropping repeats, no word occurs twice.
pub proof fn lemma_dedup_no_repeats(s: Seq<Seq<char>>)
    ensures
        dedup(s).no_duplicates(),
    decreases s.len(),
{
    if s.len() > 0 {
        lemma_dedup_no_repeats(s.drop_last());
    }
}

/// Words that hold no repeats are left as they are.
pub proof fn lemma_dedup_of_distinct(s: Seq<Seq<char>>)
    requires
        s.no_duplicates(),
    ensures
        dedup(s) == s,
    decreases s.len(),
{
    if s.len() > 0 {
        let t = s.drop_last();
        assert(t.no_duplicates());
        lemma_dedup_of_distinct(t);
        lemma_dedup_same_words(t, s.last());
        assert(!t.contains(s.last()));
        assert(t.push(s.last()) == s);
    }
}

/// Dropping repeats twice is the same as dropping them once.
pub proof fn lemma_dedup_idempotent(s: Seq<Seq<char>>)
    ensures
        dedup(dedup(s)) == dedup(s),
{
    lemma_dedup_no_repeats(s);
    lemma_dedup_of_distinct(dedup(s));
}

/// Every word read from a file is a word: it is not empty and not a comment.
pub proof fn lemma_words_are_words(lines: Seq<Seq<char>>)
    ensures
        forall|i: int| 0 <= i < words_of_lines(lines).len() ==> is_word(#[trigger] words_of_lines(lines)[i]),
    decreases lines.len(),
{
    if lines.len() > 0 {
        lemma_words_are_words(lines.drop_last());
        let rest = words_of_lines(lines.drop_last());
        assert forall|i: int| 0 <= i < words_of_lines(lines).len() implies is_word(#[trigger] words_of_lines(lines)[i]) by {
            if i < rest.len() {
                assert(words_of_lines(lines)[i] == rest[i]);
            }
        }
    }
}

/// The words of a wordlist file are neither empty nor comments, and have no
/// whitespace at either end.
pub proof fn lemma_file_words_are_words(content: Seq<char>)
    ensures
        forall|i: int| 0 <= i < words_of(content).len() ==> is_word(#[trigger] words_of(content)[i]),
        forall|i: int|
            0 <= i < words_of(content).len() ==> !is_ws(#[trigger] words_of(content)[i][0])
                && !is_ws(words_of(content)[i].last()),
{
    lemma_words_are_words(split_on(content, '\n'));
    lemma_words_trimmed(split_on(content, '\n'));
}

/// Words read from lines have no whitespace at either end.
pub proof fn lemma_words_trimmed(lines: Seq<Seq<char>>)
    ensures
        forall|i: int|
            0 <= i < words_of_lines(lines).len() ==> !is_ws(#[trigger] words_of_lines(lines)[i][0])
                && !is_ws(words_of_lines(lines)[i].last()),
    decreases lines.len(),
{
    lemma_words_are_words(lines);
    if lines.len() > 0 {
        lemma_words_trimmed(lines.drop_last());
        lemma_trim_clean(lines.last());
        let rest = words_of_lines(lines.drop_last());
        assert forall|i: int| 0 <= i < words_of_lines(lines).len() implies !is_ws(#[trigger] words_of_lines(lines)[i][0])
            && !is_ws(words_of_lines(lines)[i].last()) by {
            if i < rest.len() {
                assert(words_of_lines(lines)[i] == rest[i]);
            }
        }
    }
}

/// Reading a list of files one after another gives the words of the first
/// part followed by those of the second; the first unread file of the whole
/// list is the first unread file of the first part, or, where that part has
/// none, the first unread file of the second, counted after the first part.
pub proof fn lemma_reads_concat(a: Seq<FileRead>, b: Seq<FileRead>)
    ensures
        first_missing(a) is None ==> words_of_reads(a + b) == words_of_reads(a) + words_of_reads(b),
        first_missing(a + b) == match first_missing(a) {
            Some(i) => Some(i),
            None => match first_missing(b) {
                Some(j) => Some(a.len() + j),
                None => None::<int>,
            },
        },
    decreases b.len(),
{
    if b.len() == 0 {
        assert(a + b == a);
    } else {
        lemma_reads_concat(a, b.drop_last());
        assert((a + b).drop_last() == a + b.drop_last());
        assert((a + b).last() == b.last());
        if first_missing(a) is None {
            assert(words_of_reads(a + b) == words_of_reads(a) + words_of_reads(b.drop_last()) + match b.last() {
                FileRead::Content(c) => words_of(c@),
                FileRead::Missing(_) => Seq::<Seq<char>>::empty(),
            });
            assert(words_of_reads(a) + words_of_reads(b.drop_last()) + match b.last() {
                FileRead::Content(c) => words_of(c@),
                FileRead::Missing(_) => Seq::<Seq<char>>::empty(),
            } == words_of_reads(a) + words_of_reads(b));
        }
    }
}

} // verus!

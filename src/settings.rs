use vstd::prelude::*;

use crate::fix::push_char;
use crate::paths::{extension, extension_of, is_hidden, is_hidden_path};

verus! {

/// All the settings of a run.
#[derive(Debug)]
pub struct Settings {
    /// Settings regarding the input.
    pub input: InputSettings,
    /// Settings regarding the output.
    pub output: OutputSettings,
}

/// How files are looked for and which are taken.
#[derive(Debug)]
pub struct InputSettings {
    /// Files larger than this many bytes are left alone.
    pub max_file_size: u64,
    /// Whether to descend into subdirectories.
    pub recursive: bool,
    /// Whether to leave out entries whose name starts with a dot.
    pub skip_hidden: bool,
    /// Whether to follow symbolic links.
    pub follow_symlinks: bool,
    /// Comma-separated list of the file extensions to take.
    pub extensions: String,
}

/// What is done with the files that are rewritten.
#[derive(Debug)]
pub struct OutputSettings {
    /// Whether to keep the backup of each rewritten file.
    pub keep_backups: bool,
}

/// One entry met while walking a directory tree.
#[derive(Debug)]
pub struct FileEntry {
    pub path: String,
    pub is_file: bool,
    pub size: u64,
}

pub const DEFAULT_MAX_FILE_SIZE: u64 = 32 * 1024 * 1024;

/// The comma-separated pieces of `s`, empty pieces included.
pub open spec fn split_commas(s: Seq<char>) -> Seq<Seq<char>>
    decreases s.len(),
{
    if s.len() == 0 {
        seq![Seq::<char>::empty()]
    } else {
        let r = split_commas(s.drop_last());
        if s.last() == ',' {
            r.push(Seq::<char>::empty())
        } else {
            r.update(r.len() - 1, r.last().push(s.last()))
        }
    }
}

/// The characters with the Unicode White_Space property, which `str::trim`
/// takes away.
pub open spec fn is_white_space(c: char) -> bool {
    ||| c == '\t' || c == '\n' || c == '\u{b}' || c == '\u{c}' || c == '\r' || c == ' '
    ||| c == '\u{85}' || c == '\u{a0}' || c == '\u{1680}'
    ||| c == '\u{2000}' || c == '\u{2001}' || c == '\u{2002}' || c == '\u{2003}'
    ||| c == '\u{2004}' || c == '\u{2005}' || c == '\u{2006}' || c == '\u{2007}'
    ||| c == '\u{2008}' || c == '\u{2009}' || c == '\u{200a}'
    ||| c == '\u{2028}' || c == '\u{2029}' || c == '\u{202f}' || c == '\u{205f}'
    ||| c == '\u{3000}'
}

/// The text without its leading white space.
pub open spec fn trim_start(s: Seq<char>) -> Seq<char>
    decreases s.len(),
{
    if s.len() > 0 && is_white_space(s[0]) {
        trim_start(s.drop_first())
    } else {
        s
    }
}

/// The text without its trailing white space.
pub open spec fn trim_end(s: Seq<char>) -> Seq<char>
    decreases s.len(),
{
    if s.len() > 0 && is_white_space(s.last()) {
        trim_end(s.drop_last())
    } else {
        s
    }
}

/// What `str::trim` leaves of a text.
pub open spec fn trimmed(s: Seq<char>) -> Seq<char> {
    trim_end(trim_start(s))
}

/// The extensions that a comma-separated list names: each piece without the
/// white space around it, empty pieces left out.
pub open spec fn extension_set(s: Seq<char>) -> Set<Seq<char>> {
    Set::new(
        |e: Seq<char>|
            e.len() > 0 && exists|i: int|
                0 <= i < split_commas(s).len() && trimmed(#[trigger] split_commas(s)[i]) == e,
    )
}

/// Whether an entry is taken: a regular file, not over the size limit, with
/// one of the extensions, and not hidden where hidden entries are skipped.
pub open spec fn is_candidate(
    path: Seq<char>,
    is_file: bool,
    size: u64,
    extensions: Set<Seq<char>>,
    max_file_size: u64,
    skip_hidden: bool,
) -> bool {
    &&& is_file
    &&& size <= max_file_size
    &&& extension_of(path) matches Some(e) && extensions.contains(e)
    &&& !(skip_hidden && is_hidden_path(path))
}

/// The paths of the entries that are taken, in the order met.
pub open spec fn selected(
    entries: Seq<FileEntry>,
    extensions: Set<Seq<char>>,
    max_file_size: u64,
    skip_hidden: bool,
) -> Seq<Seq<char>>
    decreases entries.len(),
{
    if entries.len() == 0 {
        Seq::empty()
    } else {
        let rest = selected(entries.drop_last(), extensions, max_file_size, skip_hidden);
        let e = entries.last();
        if is_candidate(e.path@, e.is_file, e.size, extensions, max_file_size, skip_hidden) {
            rest.push(e.path@)
        } else {
            rest
        }
    }
}

/// With no extension to look for, no entry is taken.
pub proof fn law_no_extensions_no_files(
    entries: Seq<FileEntry>,
    max_file_size: u64,
    skip_hidden: bool,
)
    ensures
        selected(entries, Set::empty(), max_file_size, skip_hidden) == Seq::<Seq<char>>::empty(),
    decreases entries.len(),
{
    if entries.len() > 0 {
        law_no_extensions_no_files(entries.drop_last(), max_file_size, skip_hidden);
    }
}

pub open spec fn views(v: Seq<String>) -> Seq<Seq<char>> {
    v.map_values(|t: String| t@)
}

/// Relies on str::trim: white space at both ends is taken away.
#[verifier::external_body]
fn trim_text(s: &String) -> (r: String)
    ensures
        r@ == trimmed(s@),
{
    s.trim().to_owned()
}

proof fn lemma_split_nonempty(s: Seq<char>)
    ensures
        split_commas(s).len() >= 1,
    decreases s.len(),
{
    if s.len() > 0 {
        lemma_split_nonempty(s.drop_last());
    }
}

/// The comma-separated pieces of `s`.
fn split_on_commas(s: &str) -> (r: Vec<String>)
    ensures
        views(r@) == split_commas(s@),
{
    let mut done: Vec<String> = Vec::new();
    let mut current = String::new();
    for c in it: s.chars()
        invariant
            it.seq() == s@,
            views(done@).push(current@) == split_commas(s@.take(it.index() as int)),
    {
        let ghost prefix = s@.take(it.index() as int);
        let ghost next = s@.take(it.index() as int + 1);
        assert(next.drop_last() =~= prefix);
        proof {
            lemma_split_nonempty(prefix);
        }
        if c == ',' {
            let piece = current;
            done.push(piece);
            current = String::new();
            assert(views(done@).push(current@) =~= split_commas(next));
        } else {
            push_char(&mut current, c);
            assert(views(done@).push(current@) =~= split_commas(next));
        }
    }
    assert(s@.take(s@.len() as int) =~= s@);
    done.push(current);
    assert(views(done@) =~= split_commas(s@));
    done
}

/// Whether `v` holds a string equal to `s`.
fn contains_text(v: &Vec<String>, s: &String) -> (r: bool)
    ensures
        r == exists|k: int| 0 <= k < v.len() && (#[trigger] v@[k])@ == s@,
{
    let mut i: usize = 0;
    while i < v.len()
        invariant
            i <= v.len(),
            forall|k: int| 0 <= k < i ==> (#[trigger] v@[k])@ != s@,
        decreases v.len() - i,
    {
        if v[i] == *s {
            return true;
        }
        i = i + 1;
    }
    false
}

impl Settings {
    pub fn default() -> (r: Settings)
        ensures
            r.input.max_file_size == DEFAULT_MAX_FILE_SIZE,
            r.input.recursive,
            !r.input.skip_hidden,
            r.input.follow_symlinks,
            r.input.extensions@ == seq!['s', 'r', 't', ',', 's', 'u', 'b'],
            r.output.keep_backups,
    {
        Settings { input: InputSettings::default(), output: OutputSettings::default() }
    }
}

impl InputSettings {
    pub fn default() -> (r: InputSettings)
        ensures
            r.max_file_size == DEFAULT_MAX_FILE_SIZE,
            r.recursive,
            !r.skip_hidden,
            r.follow_symlinks,
            r.extensions@ == seq!['s', 'r', 't', ',', 's', 'u', 'b'],
    {
        let extensions = "srt,sub".to_owned();
        proof {
            reveal_strlit("srt,sub");
        }
        assert(extensions@ =~= seq!['s', 'r', 't', ',', 's', 'u', 'b']);
        InputSettings {
            max_file_size: DEFAULT_MAX_FILE_SIZE,
            recursive: true,
            skip_hidden: false,
            follow_symlinks: true,
            extensions,
        }
    }

    /// The set of extensions that `extensions` names, each once.
    pub fn extension_list(&self) -> (r: Vec<String>)
        ensures
            forall|e: Seq<char>|
                extension_set(self.extensions@).contains(e) <==> exists|k: int|
                    0 <= k < r.len() && (#[trigger] r@[k])@ == e,
            forall|a: int, b: int| 0 <= a < b < r.len() ==> (#[trigger] r@[a])@ != (#[trigger] r@[b])@,
    {
        let pieces = split_on_commas(self.extensions.as_str());
        let ghost all = split_commas(self.extensions@);
        let mut r: Vec<String> = Vec::new();
        let mut i: usize = 0;
        while i < pieces.len()
            invariant
                i <= pieces.len(),
                views(pieces@) == all,
                forall|e: Seq<char>|
                    (e.len() > 0 && exists|j: int| 0 <= j < i && trimmed(#[trigger] all[j]) == e)
                        <==> exists|k: int| 0 <= k < r.len() && (#[trigger] r@[k])@ == e,
                forall|a: int, b: int|
                    0 <= a < b < r.len() ==> (#[trigger] r@[a])@ != (#[trigger] r@[b])@,
            decreases pieces.len() - i,
        {
            let t = trim_text(&pieces[i]);
            assert(all[i as int] == pieces@[i as int]@);
            if !t.as_str().is_empty() && !contains_text(&r, &t) {
                let ghost old_r = r@;
                r.push(t);
                assert forall|e: Seq<char>|
                    (e.len() > 0 && exists|j: int| 0 <= j < i + 1 && trimmed(#[trigger] all[j]) == e)
                        <==> exists|k: int| 0 <= k < r.len() && (#[trigger] r@[k])@ == e by {
                    if e.len() > 0 && exists|j: int| 0 <= j < i + 1 && trimmed(#[trigger] all[j]) == e {
                        let j = choose|j: int| 0 <= j < i + 1 && trimmed(#[trigger] all[j]) == e;
                        if j == i {
                            assert(r@[old_r.len() as int]@ == e);
                        } else {
                            let k = choose|k: int| 0 <= k < old_r.len() && (#[trigger] old_r[k])@ == e;
                            assert(r@[k]@ == e);
                        }
                    }
                    if exists|k: int| 0 <= k < r.len() && (#[trigger] r@[k])@ == e {
                        let k = choose|k: int| 0 <= k < r.len() && (#[trigger] r@[k])@ == e;
                        if k < old_r.len() {
                            assert(old_r[k]@ == e);
                        } else {
                            assert(trimmed(all[i as int]) == e);
                        }
                    }
                }
            } else {
                assert forall|e: Seq<char>|
                    (e.len() > 0 && exists|j: int| 0 <= j < i + 1 && trimmed(#[trigger] all[j]) == e)
                        <==> exists|k: int| 0 <= k < r.len() && (#[trigger] r@[k])@ == e by {
                    if e.len() > 0 && exists|j: int| 0 <= j < i + 1 && trimmed(#[trigger] all[j]) == e {
                        let j = choose|j: int| 0 <= j < i + 1 && trimmed(#[trigger] all[j]) == e;
                        if j == i {
                            assert(t@ == e);
                        }
                    }
                }
            }
            i = i + 1;
        }
        assert forall|e: Seq<char>|
            extension_set(self.extensions@).contains(e) <==> exists|k: int|
                0 <= k < r.len() && (#[trigger] r@[k])@ == e by {
            assert(all.len() == pieces.len());
            if extension_set(self.extensions@).contains(e) {
                let j = choose|j: int| 0 <= j < all.len() && trimmed(#[trigger] all[j]) == e;
                assert(0 <= j < i && trimmed(all[j]) == e);
            }
            if exists|k: int| 0 <= k < r.len() && (#[trigger] r@[k])@ == e {
                let j = choose|j: int| 0 <= j < i && trimmed(#[trigger] all[j]) == e;
                assert(e.len() > 0 && 0 <= j < all.len() && trimmed(all[j]) == e);
            }
        }
        r
    }

    /// Whether an entry is taken, with `extensions` as the set of extensions.
    pub fn accepts(&self, extensions: &Vec<String>, entry: &FileEntry) -> (r: bool)
        ensures
            r == is_candidate(
                entry.path@,
                entry.is_file,
                entry.size,
                views(extensions@).to_set(),
                self.max_file_size,
                self.skip_hidden,
            ),
    {
        if !entry.is_file || entry.size > self.max_file_size {
            return false;
        }
        if self.skip_hidden && is_hidden(entry.path.as_str()) {
            return false;
        }
        match extension(entry.path.as_str()) {
            Some(e) => {
                let found = contains_text(extensions, &e);
                proof {
                    if found {
                        let k = choose|k: int| 0 <= k < extensions.len() && (#[trigger] extensions@[k])@ == e@;
                        assert(views(extensions@)[k] == e@);
                    }
                    if views(extensions@).to_set().contains(e@) {
                        let k = choose|k: int| 0 <= k < views(extensions@).len() && views(extensions@)[k] == e@;
                        assert(extensions@[k]@ == e@);
                    }
                }
                found
            },
            None => false,
        }
    }

    /// The paths of the entries that are taken, in the order given.
    pub fn select_files(&self, entries: &Vec<FileEntry>) -> (r: Vec<String>)
        ensures
            views(r@) == selected(
                entries@,
                extension_set(self.extensions@),
                self.max_file_size,
                self.skip_hidden,
            ),
    {
        let exts = self.extension_list();
        let ghost set = extension_set(self.extensions@);
        assert(views(exts@).to_set() =~= set) by {
            assert forall|e: Seq<char>| views(exts@).to_set().contains(e) <==> set.contains(e) by {
                if views(exts@).to_set().contains(e) {
                    let k = choose|k: int| 0 <= k < views(exts@).len() && views(exts@)[k] == e;
                    assert(exts@[k]@ == e);
                }
                if set.contains(e) {
                    let k = choose|k: int| 0 <= k < exts.len() && (#[trigger] exts@[k])@ == e;
                    assert(views(exts@)[k] == e);
                }
            }
        }
        let mut r: Vec<String> = Vec::new();
        let mut i: usize = 0;
        while i < entries.len()
            invariant
                i <= entries.len(),
                views(exts@).to_set() == set,
                views(r@) == selected(entries@.take(i as int), set, self.max_file_size, self.skip_hidden),
            decreases entries.len() - i,
        {
            let ghost next = entries@.take(i as int + 1);
            assert(next.drop_last() =~= entries@.take(i as int));
            if self.accepts(&exts, &entries[i]) {
                r.push(entries[i].path.clone());
                assert(views(r@) =~= selected(next, set, self.max_file_size, self.skip_hidden));
            }
            i = i + 1;
        }
        assert(entries@.take(entries.len() as int) =~= entries@);
        r
    }
}

impl OutputSettings {
    pub fn default() -> (r: OutputSettings)
        ensures
            r.keep_backups,
    {
        OutputSettings { keep_backups: true }
    }
}

} // verus!

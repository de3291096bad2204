//! The detection engine: classifies the files of a directory walk and
//! aggregates a coverage report.
//!
//! The walk itself happens outside the library; it hands over what it met, in
//! order, as [`WalkEntry`] values. Every entry is tested against the
//! exclusion rules on its own: nothing is pruned by directory.
use vstd::prelude::*;
use crate::exclude::{
    file_name_of, join_path, path_text, spec_excluded, valid_patterns, views, ExclusionMatcher,
};
use crate::language::{
    lang_index, num_languages, spec_all, spec_config_language, spec_language_of_ext, spec_parse,
    Language,
};
use crate::text::{lower_of, to_lower};

verus! {

/// One item that a directory walk yields.
#[derive(Debug, Clone)]
pub enum WalkEntry {
    /// An entry that was reached: its path relative to the scan root, as
    /// components, and whether it is a regular file once links are followed.
    Visited { components: Vec<String>, is_file: bool },
    /// An entry that could not be read (a broken link, a denied directory).
    Failed,
}

/// The position of the last '.' in `s`, or -1.
pub open spec fn last_dot(s: Seq<char>) -> int
    decreases s.len(),
{
    if s.len() == 0 {
        -1
    } else if s.last() == '.' {
        s.len() - 1
    } else {
        last_dot(s.drop_last())
    }
}

/// The extension of a file name: what follows its last '.', where that dot
/// is not its first character. `..` has none.
pub open spec fn spec_extension(name: Seq<char>) -> Option<Seq<char>> {
    if last_dot(name) <= 0 || name == seq!['.', '.'] {
        None
    } else {
        Some(name.subrange(last_dot(name) + 1, name.len() as int))
    }
}

/// The language that a file with this name counts toward, by its extension.
pub open spec fn spec_file_language(name: Seq<char>) -> Option<Language> {
    match spec_extension(name) {
        Some(e) => spec_language_of_ext(e),
        None => None,
    }
}

/// The key under which a file of no known language is tallied: its extension
/// lower-cased, or empty where it has none.
pub open spec fn spec_unrecognized_key(name: Seq<char>) -> Seq<char> {
    match spec_extension(name) {
        Some(e) => lower_of(e),
        None => seq![],
    }
}

/// Whether a walk entry is a regular file that the rules keep.
pub open spec fn is_counted(ps: Seq<Seq<char>>, e: WalkEntry) -> bool {
    match e {
        WalkEntry::Visited { components, is_file } => is_file && !spec_excluded(
            ps,
            views(components@),
        ),
        WalkEntry::Failed => false,
    }
}

/// Whether a walk entry is a regular file that the rules exclude.
pub open spec fn is_excluded_file(ps: Seq<Seq<char>>, e: WalkEntry) -> bool {
    match e {
        WalkEntry::Visited { components, is_file } => is_file && spec_excluded(
            ps,
            views(components@),
        ),
        WalkEntry::Failed => false,
    }
}

/// The component lists of the counted files, in walk order.
pub open spec fn counted_files(ps: Seq<Seq<char>>, es: Seq<WalkEntry>) -> Seq<Seq<Seq<char>>>
    decreases es.len(),
{
    if es.len() == 0 {
        seq![]
    } else {
        let prev = counted_files(ps, es.drop_last());
        match es.last() {
            WalkEntry::Visited { components, is_file } => if is_counted(ps, es.last()) {
                prev.push(views(components@))
            } else {
                prev
            },
            WalkEntry::Failed => prev,
        }
    }
}

/// How many entries are regular files that the rules exclude.
pub open spec fn excluded_count(ps: Seq<Seq<char>>, es: Seq<WalkEntry>) -> nat
    decreases es.len(),
{
    if es.len() == 0 {
        0
    } else {
        excluded_count(ps, es.drop_last()) + if is_excluded_file(ps, es.last()) {
            1nat
        } else {
            0nat
        }
    }
}

/// How many entries could not be read.
pub open spec fn error_count(es: Seq<WalkEntry>) -> nat
    decreases es.len(),
{
    if es.len() == 0 {
        0
    } else {
        error_count(es.drop_last()) + if es.last() is Failed {
            1nat
        } else {
            0nat
        }
    }
}

/// How many of the files count toward language `l`.
pub open spec fn lang_count(fs: Seq<Seq<Seq<char>>>, l: Language) -> nat
    decreases fs.len(),
{
    if fs.len() == 0 {
        0
    } else {
        lang_count(fs.drop_last(), l) + if spec_file_language(file_name_of(fs.last())) == Some(l) {
            1nat
        } else {
            0nat
        }
    }
}

/// How many of the files count toward some language.
pub open spec fn supported_count(fs: Seq<Seq<Seq<char>>>) -> nat
    decreases fs.len(),
{
    if fs.len() == 0 {
        0
    } else {
        supported_count(fs.drop_last()) + if spec_file_language(file_name_of(fs.last())) is Some {
            1nat
        } else {
            0nat
        }
    }
}

/// How many of the files have no known language and tally under key `k`.
pub open spec fn unrecognized_count(fs: Seq<Seq<Seq<char>>>, k: Seq<char>) -> nat
    decreases fs.len(),
{
    if fs.len() == 0 {
        0
    } else {
        unrecognized_count(fs.drop_last(), k) + if spec_file_language(file_name_of(fs.last()))
            is None && spec_unrecognized_key(file_name_of(fs.last())) == k {
            1nat
        } else {
            0nat
        }
    }
}

/// How many of the files have no known language and a non-empty key.
pub open spec fn named_unrecognized_count(fs: Seq<Seq<Seq<char>>>) -> nat
    decreases fs.len(),
{
    if fs.len() == 0 {
        0
    } else {
        named_unrecognized_count(fs.drop_last()) + if spec_file_language(
            file_name_of(fs.last()),
        ) is None && spec_unrecognized_key(file_name_of(fs.last())).len() > 0 {
            1nat
        } else {
            0nat
        }
    }
}

/// The config-file hits among the files, in walk order: the language and
/// the path text of each file whose name marks a language.
pub open spec fn config_hits(fs: Seq<Seq<Seq<char>>>) -> Seq<(Language, Seq<char>)>
    decreases fs.len(),
{
    if fs.len() == 0 {
        seq![]
    } else {
        let prev = config_hits(fs.drop_last());
        match spec_config_language(file_name_of(fs.last())) {
            Some(l) => prev.push((l, path_text(fs.last()))),
            None => prev,
        }
    }
}

/// The paths of the hits for language `l`, in order.
pub open spec fn paths_for(hits: Seq<(Language, Seq<char>)>, l: Language) -> Seq<Seq<char>>
    decreases hits.len(),
{
    if hits.len() == 0 {
        seq![]
    } else if hits.last().0 == l {
        paths_for(hits.drop_last(), l).push(hits.last().1)
    } else {
        paths_for(hits.drop_last(), l)
    }
}

/// The paths of the config files of language `l` among the files.
pub open spec fn config_paths(fs: Seq<Seq<Seq<char>>>, l: Language) -> Seq<Seq<char>> {
    paths_for(config_hits(fs), l)
}

/// The extension of a file name, as [`spec_extension`] defines it.
pub fn extension_of(name: &str) -> (r: Option<&str>)
    ensures
        match r {
            Some(e) => spec_extension(name@) == Some(e@),
            None => spec_extension(name@) is None,
        },
{
    let n = name.unicode_len();
    let mut i: usize = n;
    assert(name@.subrange(0, n as int) =~= name@);
    while i > 0 && name.get_char(i - 1) != '.'
        invariant
            n == name@.len(),
            i <= n,
            last_dot(name@) == last_dot(name@.subrange(0, i as int)),
        decreases i,
    {
        let ghost pre = name@.subrange(0, i as int);
        assert(pre.drop_last() =~= name@.subrange(0, i - 1));
        i = i - 1;
    }
    if i == 0 {
        assert(name@.subrange(0, 0) =~= Seq::<char>::empty());
        return None;
    }
    assert(name@.subrange(0, i as int).last() == '.');
    assert(last_dot(name@) == i - 1);
    if i == 1 {
        return None;
    }
    if n == 2 && name.get_char(0) == '.' {
        assert(name@ =~= seq!['.', '.']);
        return None;
    }
    assert(name@ != seq!['.', '.']);
    Some(name.substring_char(i, n))
}

/// The sum of a list of counts.
pub open spec fn sum_of(s: Seq<usize>) -> nat
    decreases s.len(),
{
    if s.len() == 0 {
        0
    } else {
        sum_of(s.drop_last()) + s.last() as nat
    }
}

proof fn lemma_sum_update(s: Seq<usize>, j: int, v: usize)
    requires
        0 <= j < s.len(),
    ensures
        sum_of(s.update(j, v)) + s[j] as nat == sum_of(s) + v as nat,
    decreases s.len(),
{
    let t = s.update(j, v);
    if j < s.len() - 1 {
        assert(t.drop_last() =~= s.drop_last().update(j, v));
        lemma_sum_update(s.drop_last(), j, v);
    } else {
        assert(t.drop_last() =~= s.drop_last());
    }
}

/// Where `key` stands among `keys`, if it does.
fn find_key(keys: &Vec<String>, key: &String) -> (r: Option<usize>)
    ensures
        match r {
            Some(j) => j < keys@.len() && keys@[j as int]@ == key@,
            None => forall|m: int| 0 <= m < keys@.len() ==> (#[trigger] keys@[m])@ != key@,
        },
{
    let mut j: usize = 0;
    while j < keys.len()
        invariant
            j <= keys@.len(),
            forall|m: int| 0 <= m < j ==> (#[trigger] keys@[m])@ != key@,
        decreases keys@.len() - j,
    {
        if keys[j] == *key {
            return Some(j);
        }
        j = j + 1;
    }
    None
}

/// Running totals of a walk, over the files counted so far.
struct Tally {
    counts: Vec<usize>,
    hits: Vec<(Language, String)>,
    keys: Vec<String>,
    key_counts: Vec<usize>,
    total: usize,
    supported: usize,
}

/// The views of config hits.
pub open spec fn hit_views(h: Seq<(Language, String)>) -> Seq<(Language, Seq<char>)> {
    h.map_values(|x: (Language, String)| (x.0, x.1@))
}

impl Tally {
    /// The totals are exactly those of the files `fs`.
    spec fn describes(&self, fs: Seq<Seq<Seq<char>>>) -> bool {
        &&& self.counts@.len() == num_languages()
        &&& forall|l: Language| #[trigger] self.counts@[lang_index(l) as int] == lang_count(fs, l)
        &&& forall|i: int| 0 <= i < num_languages() ==> #[trigger] self.counts@[i] <= self.total
        &&& hit_views(self.hits@) == config_hits(fs)
        &&& self.keys@.len() == self.key_counts@.len()
        &&& forall|j: int| 0 <= j < self.keys@.len() ==> {
            &&& (#[trigger] self.keys@[j])@.len() > 0
            &&& self.key_counts@[j] == unrecognized_count(fs, self.keys@[j]@)
            &&& self.key_counts@[j] > 0
            &&& self.key_counts@[j] <= self.total
        }
        &&& forall|j1: int, j2: int|
            0 <= j1 < self.keys@.len() && 0 <= j2 < self.keys@.len() && j1 != j2
                ==> (#[trigger] self.keys@[j1])@ != (#[trigger] self.keys@[j2])@
        &&& forall|k: Seq<char>| k.len() > 0 && #[trigger] unrecognized_count(fs, k) > 0
            ==> exists|j: int| 0 <= j < self.keys@.len() && (#[trigger] self.keys@[j])@ == k
        &&& sum_of(self.key_counts@) == named_unrecognized_count(fs)
        &&& self.total == fs.len()
        &&& self.supported == supported_count(fs)
        &&& self.supported <= self.total
    }

    fn new() -> (r: Tally)
        ensures
            r.describes(seq![]),
    {
        let mut counts: Vec<usize> = Vec::new();
        let mut i: usize = 0;
        while i < 14
            invariant
                i <= 14,
                counts@.len() == i,
                forall|k: int| 0 <= k < i ==> counts@[k] == 0,
            decreases 14 - i,
        {
            counts.push(0);
            i = i + 1;
        }
        let r = Tally {
            counts,
            hits: Vec::new(),
            keys: Vec::new(),
            key_counts: Vec::new(),
            total: 0,
            supported: 0,
        };
        assert(hit_views(r.hits@) =~= config_hits(seq![]));
        assert forall|l: Language| #[trigger] r.counts@[lang_index(l) as int] == lang_count(seq![], l) by {
            assert(lang_index(l) < 14);
        }
        r
    }

    /// Adds one counted file, with these path components.
    fn record(&mut self, components: &Vec<String>, Ghost(fs): Ghost<Seq<Seq<Seq<char>>>>)
        requires
            old(self).describes(fs),
            fs.len() < usize::MAX,
        ensures
            final(self).describes(fs.push(views(components@))),
    {
        let ghost c = views(components@);
        let ghost nfs = fs.push(c);
        assert(nfs.drop_last() =~= fs);
        assert(nfs.last() == c);
        let empty = String::new();
        let name: &String = if components.len() == 0 {
            &empty
        } else {
            &components[components.len() - 1]
        };
        assert(name@ == file_name_of(c));
        let ghost old_counts = self.counts@;
        self.total = self.total + 1;
        match Language::from_config_file(name.as_str()) {
            Some(l) => {
                let p = join_path(components);
                self.hits.push((l, p));
                assert(hit_views(self.hits@) =~= hit_views(old(self).hits@).push((l, p@)));
            },
            None => {},
        }
        let ext = extension_of(name.as_str());
        let lang = match ext {
            Some(e) => Language::from_extension(e),
            None => None,
        };
        assert(lang == spec_file_language(name@));
        match lang {
            Some(l) => {
                let idx = l.index();
                let v = self.counts[idx];
                self.counts.set(idx, v + 1);
                self.supported = self.supported + 1;
                assert forall|m: Language| #[trigger] self.counts@[lang_index(m) as int] == lang_count(nfs, m) by {
                    if m != l {
                        assert(lang_index(m) != lang_index(l));
                    }
                }
                assert(self.keys@ == old(self).keys@);
                assert forall|k: Seq<char>| k.len() > 0 && #[trigger] unrecognized_count(nfs, k) > 0
                    implies exists|j: int| 0 <= j < self.keys@.len() && (#[trigger] self.keys@[j])@ == k by {
                    assert(unrecognized_count(fs, k) > 0);
                    let j = choose|j: int| 0 <= j < old(self).keys@.len() && (#[trigger] old(self).keys@[j])@ == k;
                    assert(self.keys@[j]@ == k);
                }
            },
            None => {
                let key = match ext {
                    Some(e) => to_lower(e),
                    None => String::new(),
                };
                assert(key@ == spec_unrecognized_key(name@));
                assert forall|m: Language| #[trigger] self.counts@[lang_index(m) as int] == lang_count(nfs, m) by {
                }
                if key.unicode_len() > 0 {
                    self.tally_key(key, Ghost(fs), Ghost(c));
                } else {
                    assert forall|k: Seq<char>| k.len() > 0 && #[trigger] unrecognized_count(nfs, k) > 0
                        implies exists|j: int| 0 <= j < self.keys@.len() && (#[trigger] self.keys@[j])@ == k by {
                        assert(unrecognized_count(fs, k) > 0);
                        let j = choose|j: int| 0 <= j < old(self).keys@.len() && (#[trigger] old(self).keys@[j])@ == k;
                        assert(self.keys@[j]@ == k);
                    }
                    assert forall|j: int| 0 <= j < self.keys@.len() implies
                        self.key_counts@[j] == unrecognized_count(nfs, (#[trigger] self.keys@[j])@) by {
                    }
                }
            },
        }
    }

    /// Counts one more file of no known language under the non-empty `key`.
    fn tally_key(&mut self, key: String, Ghost(fs): Ghost<Seq<Seq<Seq<char>>>>, Ghost(c): Ghost<Seq<Seq<char>>>)
        requires
            key@.len() > 0,
            key@ == spec_unrecognized_key(file_name_of(c)),
            spec_file_language(file_name_of(c)) is None,
            old(self).total == fs.len() + 1,
            fs.push(c).drop_last() == fs,
            fs.push(c).last() == c,
            old(self).keys@.len() == old(self).key_counts@.len(),
            forall|j: int| 0 <= j < old(self).keys@.len() ==> {
                &&& (#[trigger] old(self).keys@[j])@.len() > 0
                &&& old(self).key_counts@[j] == unrecognized_count(fs, old(self).keys@[j]@)
                &&& old(self).key_counts@[j] > 0
                &&& old(self).key_counts@[j] < old(self).total
            },
            forall|j1: int, j2: int|
                0 <= j1 < old(self).keys@.len() && 0 <= j2 < old(self).keys@.len() && j1 != j2
                    ==> (#[trigger] old(self).keys@[j1])@ != (#[trigger] old(self).keys@[j2])@,
            forall|k: Seq<char>| k.len() > 0 && #[trigger] unrecognized_count(fs, k) > 0
                ==> exists|j: int| 0 <= j < old(self).keys@.len() && (#[trigger] old(self).keys@[j])@ == k,
            sum_of(old(self).key_counts@) == named_unrecognized_count(fs),
        ensures
            final(self).counts == old(self).counts,
            final(self).hits == old(self).hits,
            final(self).total == old(self).total,
            final(self).supported == old(self).supported,
            final(self).keys@.len() == final(self).key_counts@.len(),
            forall|j: int| 0 <= j < final(self).keys@.len() ==> {
                &&& (#[trigger] final(self).keys@[j])@.len() > 0
                &&& final(self).key_counts@[j] == unrecognized_count(fs.push(c), final(self).keys@[j]@)
                &&& final(self).key_counts@[j] > 0
                &&& final(self).key_counts@[j] <= final(self).total
            },
            forall|j1: int, j2: int|
                0 <= j1 < final(self).keys@.len() && 0 <= j2 < final(self).keys@.len() && j1 != j2
                    ==> (#[trigger] final(self).keys@[j1])@ != (#[trigger] final(self).keys@[j2])@,
            forall|k: Seq<char>| k.len() > 0 && #[trigger] unrecognized_count(fs.push(c), k) > 0
                ==> exists|j: int| 0 <= j < final(self).keys@.len() && (#[trigger] final(self).keys@[j])@ == k,
            sum_of(final(self).key_counts@) == named_unrecognized_count(fs.push(c)),
    {
        let ghost nfs = fs.push(c);
        match find_key(&self.keys, &key) {
            Some(j) => {
                let v = self.key_counts[j];
                self.key_counts.set(j, v + 1);
                proof {
                    lemma_sum_update(old(self).key_counts@, j as int, (v + 1) as usize);
                }
                assert forall|k: Seq<char>| k.len() > 0 && #[trigger] unrecognized_count(nfs, k) > 0
                    implies exists|m: int| 0 <= m < self.keys@.len() && (#[trigger] self.keys@[m])@ == k by {
                    if k != key@ {
                        assert(unrecognized_count(fs, k) > 0);
                        let m = choose|m: int| 0 <= m < old(self).keys@.len() && (#[trigger] old(self).keys@[m])@ == k;
                        assert(self.keys@[m]@ == k);
                    } else {
                        assert(self.keys@[j as int]@ == k);
                    }
                }
                assert forall|m: int| 0 <= m < self.keys@.len() implies
                    self.key_counts@[m] == unrecognized_count(nfs, (#[trigger] self.keys@[m])@) by {
                    if m != j {
                        assert(self.keys@[m]@ != self.keys@[j as int]@);
                    }
                }
                return;
            },
            None => {},
        }
        assert(unrecognized_count(fs, key@) == 0) by {
            if unrecognized_count(fs, key@) > 0 {
                let m = choose|m: int| 0 <= m < self.keys@.len() && (#[trigger] self.keys@[m])@ == key@;
            }
        }
        self.keys.push(key);
        self.key_counts.push(1);
        assert(self.key_counts@.drop_last() =~= old(self).key_counts@);
        assert forall|k: Seq<char>| k.len() > 0 && #[trigger] unrecognized_count(nfs, k) > 0
            implies exists|m: int| 0 <= m < self.keys@.len() && (#[trigger] self.keys@[m])@ == k by {
            if k != key@ {
                assert(unrecognized_count(fs, k) > 0);
                let m = choose|m: int| 0 <= m < old(self).keys@.len() && (#[trigger] old(self).keys@[m])@ == k;
                assert(self.keys@[m] == old(self).keys@[m]);
            } else {
                assert(self.keys@[self.keys@.len() - 1]@ == k);
            }
        }
        assert forall|m: int| 0 <= m < self.keys@.len() implies
            self.key_counts@[m] == unrecognized_count(nfs, (#[trigger] self.keys@[m])@) by {
            if m < old(self).keys@.len() {
                assert(self.keys@[m] == old(self).keys@[m]);
            }
        }
    }
}

/// How many of the files have no known language and an empty key: no
/// extension, or one that lower-cases to nothing.
pub open spec fn unnamed_count(fs: Seq<Seq<Seq<char>>>) -> nat
    decreases fs.len(),
{
    if fs.len() == 0 {
        0
    } else {
        unnamed_count(fs.drop_last()) + if spec_file_language(file_name_of(fs.last())) is None
            && spec_unrecognized_key(file_name_of(fs.last())).len() == 0 {
            1nat
        } else {
            0nat
        }
    }
}

/// Every counted file is supported, tallied under a named extension, or
/// has no named extension.
pub proof fn lemma_files_partition(fs: Seq<Seq<Seq<char>>>)
    ensures
        fs.len() == supported_count(fs) + named_unrecognized_count(fs) + unnamed_count(fs),
    decreases fs.len(),
{
    if fs.len() > 0 {
        lemma_files_partition(fs.drop_last());
    }
}

/// Information about one language found in a walk.
#[derive(Debug, Clone)]
pub struct LanguageInfo {
    pub language: Language,
    pub file_count: usize,
    /// Relative paths (components joined by '/') of the config files that
    /// mark this language, in walk order.
    pub config_files: Vec<String>,
}

/// The number of files with one unrecognized extension.
#[derive(Debug, Clone)]
pub struct ExtensionCount {
    /// The extension, lower-cased and without its dot, e.g. "json".
    pub extension: String,
    pub count: usize,
}

/// The summary of one walk.
#[derive(Debug, Clone)]
pub struct DetectionReport {
    /// The languages found, by descending file count; languages with equal
    /// counts stand in enumeration order.
    pub languages: Vec<LanguageInfo>,
    /// Regular files kept by the exclusion rules.
    pub total_files: usize,
    /// Kept files with a recognized extension.
    pub supported_files: usize,
    /// Regular files that the exclusion rules skipped.
    pub excluded_files: usize,
    /// Unrecognized extensions by descending count; extensions with equal
    /// counts stand in the order in which the walk first met them.
    pub unrecognized_extensions: Vec<ExtensionCount>,
    /// Entries that could not be read.
    pub walk_errors: usize,
}

/// Whether `a` stands before `b` in the language list: more files, or as
/// many and earlier in enumeration order.
pub open spec fn ranks_before(a: LanguageInfo, b: LanguageInfo) -> bool {
    a.file_count > b.file_count || (a.file_count == b.file_count && lang_index(a.language)
        < lang_index(b.language))
}

/// The language list is exact for the files `fs`: one entry for each
/// language with files, with its count and config files, in rank order.
pub open spec fn languages_describe(ls: Seq<LanguageInfo>, fs: Seq<Seq<Seq<char>>>) -> bool {
    &&& forall|j: int| 0 <= j < ls.len() ==> {
        &&& (#[trigger] ls[j]).file_count == lang_count(fs, ls[j].language)
        &&& ls[j].file_count > 0
        &&& views(ls[j].config_files@) == config_paths(fs, ls[j].language)
    }
    &&& forall|l: Language| #[trigger] lang_count(fs, l) > 0 ==> exists|j: int|
        0 <= j < ls.len() && (#[trigger] ls[j]).language == l
    &&& forall|j: int, k: int| 0 <= j < k < ls.len() ==> ranks_before(#[trigger] ls[j], #[trigger] ls[k])
}

/// The unrecognized-extension list is exact for the files `fs`: one entry
/// for each non-empty key with files, with its count, by descending count.
pub open spec fn extensions_describe(us: Seq<ExtensionCount>, fs: Seq<Seq<Seq<char>>>) -> bool {
    &&& forall|j: int| 0 <= j < us.len() ==> {
        &&& (#[trigger] us[j]).extension@.len() > 0
        &&& us[j].count == unrecognized_count(fs, us[j].extension@)
        &&& us[j].count > 0
    }
    &&& forall|k: Seq<char>| k.len() > 0 && #[trigger] unrecognized_count(fs, k) > 0 ==> exists|j: int|
        0 <= j < us.len() && (#[trigger] us[j]).extension@ == k
    &&& forall|j: int, k: int|
        0 <= j < us.len() && 0 <= k < us.len() && j != k ==> (#[trigger] us[j]).extension@
            != (#[trigger] us[k]).extension@
    &&& forall|j: int, k: int| 0 <= j < k < us.len() ==> (#[trigger] us[j]).count >= (#[trigger] us[k]).count
}

/// The sum of the counts of an extension list.
pub open spec fn ext_sum(us: Seq<ExtensionCount>) -> nat
    decreases us.len(),
{
    if us.len() == 0 {
        0
    } else {
        ext_sum(us.drop_last()) + us.last().count as nat
    }
}

proof fn lemma_ext_sum_insert(us: Seq<ExtensionCount>, p: int, x: ExtensionCount)
    requires
        0 <= p <= us.len(),
    ensures
        ext_sum(us.insert(p, x)) == ext_sum(us) + x.count as nat,
    decreases us.len(),
{
    us.insert_ensures(p, x);
    if p == us.len() {
        assert(us.insert(p, x) =~= us.push(x));
        assert(us.push(x).drop_last() =~= us);
    } else {
        assert(us.insert(p, x).drop_last() =~= us.drop_last().insert(p, x));
        lemma_ext_sum_insert(us.drop_last(), p, x);
    }
}

impl DetectionReport {
    /// The report is exact for a walk with entries `es` under rules `ps`.
    pub open spec fn describes(&self, ps: Seq<Seq<char>>, es: Seq<WalkEntry>) -> bool {
        let fs = counted_files(ps, es);
        &&& self.total_files == fs.len()
        &&& self.supported_files == supported_count(fs)
        &&& self.excluded_files == excluded_count(ps, es)
        &&& self.walk_errors == error_count(es)
        &&& languages_describe(self.languages@, fs)
        &&& extensions_describe(self.unrecognized_extensions@, fs)
    }
}

/// The paths recorded for language `l`.
fn paths_of(hits: &Vec<(Language, String)>, l: Language) -> (r: Vec<String>)
    ensures
        views(r@) == paths_for(hit_views(hits@), l),
{
    let mut r: Vec<String> = Vec::new();
    let mut i: usize = 0;
    while i < hits.len()
        invariant
            i <= hits@.len(),
            views(r@) == paths_for(hit_views(hits@).subrange(0, i as int), l),
        decreases hits@.len() - i,
    {
        let ghost pre = hit_views(hits@).subrange(0, i as int);
        let ghost post = hit_views(hits@).subrange(0, i as int + 1);
        assert(post.drop_last() =~= pre);
        assert(post.last() == (hits@[i as int].0, hits@[i as int].1@));
        if hits[i].0 == l {
            r.push(hits[i].1.clone());
            assert(views(r@) =~= views(r@).drop_last().push(hits@[i as int].1@));
        }
        i = i + 1;
    }
    assert(hit_views(hits@).subrange(0, hits@.len() as int) =~= hit_views(hits@));
    r
}

/// Detects languages over the entries of a walk, under fixed exclusion rules.
pub struct LanguageDetector {
    matcher: ExclusionMatcher,
}

impl LanguageDetector {
    /// The exclusion rules in force.
    pub closed spec fn rules(&self) -> Seq<Seq<char>> {
        self.matcher.rules()
    }

    /// A detector with these exclusion patterns; those that do not compile
    /// are dropped.
    pub fn new(exclude_patterns: &[String]) -> (r: LanguageDetector)
        ensures
            r.rules() == valid_patterns(views(exclude_patterns@)),
    {
        LanguageDetector { matcher: ExclusionMatcher::new(exclude_patterns) }
    }

    /// Whether the rules exclude the relative path with these components.
    pub fn should_exclude(&self, components: &Vec<String>) -> (r: bool)
        ensures
            r == spec_excluded(self.rules(), views(components@)),
    {
        self.matcher.is_excluded(components)
    }

    /// The report for a walk that met `entries`, in order.
    pub fn detect(&self, entries: &Vec<WalkEntry>) -> (r: DetectionReport)
        ensures
            r.describes(self.rules(), entries@),
            r.total_files == r.supported_files + ext_sum(r.unrecognized_extensions@)
                + unnamed_count(counted_files(self.rules(), entries@)),
    {
        let ghost ps = self.rules();
        let ghost es = entries@;
        let mut tally = Tally::new();
        let mut excluded: usize = 0;
        let mut errors: usize = 0;
        let mut i: usize = 0;
        assert(es.subrange(0, 0) =~= Seq::<WalkEntry>::empty());
        while i < entries.len()
            invariant
                ps == self.rules(),
                es == entries@,
                i <= es.len(),
                tally.describes(counted_files(ps, es.subrange(0, i as int))),
                excluded == excluded_count(ps, es.subrange(0, i as int)),
                errors == error_count(es.subrange(0, i as int)),
                tally.total + excluded + errors <= i,
            decreases es.len() - i,
        {
            let ghost pre = es.subrange(0, i as int);
            let ghost post = es.subrange(0, i as int + 1);
            assert(post.drop_last() =~= pre);
            assert(post.last() == es[i as int]);
            match &entries[i] {
                WalkEntry::Failed => {
                    errors = errors + 1;
                },
                WalkEntry::Visited { components, is_file } => {
                    if self.matcher.is_excluded(components) {
                        if *is_file {
                            excluded = excluded + 1;
                        }
                    } else if *is_file {
                        tally.record(components, Ghost(counted_files(ps, pre)));
                    }
                },
            }
            i = i + 1;
        }
        assert(es.subrange(0, es.len() as int) =~= es);
        let ghost fs = counted_files(ps, es);
        let languages = rank_languages(&tally, Ghost(fs));
        let unrecognized = rank_extensions(&tally, Ghost(fs));
        proof {
            lemma_files_partition(fs);
        }
        DetectionReport {
            languages,
            total_files: tally.total,
            supported_files: tally.supported,
            excluded_files: excluded,
            unrecognized_extensions: unrecognized,
            walk_errors: errors,
        }
    }
}

/// The language list for the totals of the files `fs`.
fn rank_languages(tally: &Tally, Ghost(fs): Ghost<Seq<Seq<Seq<char>>>>) -> (r: Vec<LanguageInfo>)
    requires
        tally.describes(fs),
    ensures
        languages_describe(r@, fs),
{
    let all = Language::all();
    let mut ls: Vec<LanguageInfo> = Vec::new();
    let mut idx: usize = 0;
    while idx < 14
        invariant
            tally.describes(fs),
            all@ == spec_all(),
            idx <= 14,
            forall|j: int| 0 <= j < ls@.len() ==> {
                &&& (#[trigger] ls@[j]).file_count == lang_count(fs, ls@[j].language)
                &&& ls@[j].file_count > 0
                &&& views(ls@[j].config_files@) == config_paths(fs, ls@[j].language)
                &&& lang_index(ls@[j].language) < idx
            },
            forall|l: Language| lang_index(l) < idx && #[trigger] lang_count(fs, l) > 0 ==> exists|j: int|
                0 <= j < ls@.len() && (#[trigger] ls@[j]).language == l,
            forall|j: int, k: int| 0 <= j < k < ls@.len() ==> ranks_before(#[trigger] ls@[j], #[trigger] ls@[k]),
        decreases 14 - idx,
    {
        let l = all[idx];
        assert(lang_index(l) == idx) by {
            assert(l == spec_all()[idx as int]);
        }
        let c = tally.counts[idx];
        assert(c == lang_count(fs, l));
        if c > 0 {
            let info = LanguageInfo { language: l, file_count: c, config_files: paths_of(&tally.hits, l) };
            let mut p: usize = 0;
            while p < ls.len() && ls[p].file_count >= c
                invariant
                    p <= ls@.len(),
                    forall|q: int| 0 <= q < p ==> (#[trigger] ls@[q]).file_count >= c,
                decreases ls@.len() - p,
            {
                p = p + 1;
            }
            proof {
                // past `p`, every count is below `c`
                assert forall|q: int| p <= q < ls@.len() implies (#[trigger] ls@[q]).file_count < c by {
                    if p < ls@.len() {
                        assert(ls@[p as int].file_count < c);
                        if q > p {
                            assert(ranks_before(ls@[p as int], ls@[q]));
                        }
                    }
                }
            }
            let ghost before = ls@;
            ls.insert(p, info);
            proof {
                before.insert_ensures(p as int, info);
                assert forall|j: int, k: int| 0 <= j < k < ls@.len() implies ranks_before(
                    #[trigger] ls@[j],
                    #[trigger] ls@[k],
                ) by {
                    if k < p {
                        assert(ranks_before(before[j], before[k]));
                    } else if k == p {
                    } else if j < p {
                        assert(ranks_before(before[j], before[k - 1]));
                    } else if j == p {
                    } else {
                        assert(ranks_before(before[j - 1], before[k - 1]));
                    }
                }
                assert forall|m: Language| lang_index(m) < idx + 1 && #[trigger] lang_count(fs, m) > 0
                    implies exists|j: int| 0 <= j < ls@.len() && (#[trigger] ls@[j]).language == m by {
                    if m == l {
                        assert(ls@[p as int].language == m);
                    } else {
                        assert(lang_index(m) != lang_index(l));
                        let j = choose|j: int| 0 <= j < before.len() && (#[trigger] before[j]).language == m;
                        if j < p {
                            assert(ls@[j] == before[j]);
                        } else {
                            assert(ls@[j + 1] == before[j]);
                        }
                    }
                }
                assert forall|j: int| 0 <= j < ls@.len() implies {
                    &&& (#[trigger] ls@[j]).file_count == lang_count(fs, ls@[j].language)
                    &&& ls@[j].file_count > 0
                    &&& views(ls@[j].config_files@) == config_paths(fs, ls@[j].language)
                    &&& lang_index(ls@[j].language) < idx + 1
                } by {
                    if j < p {
                        assert(ls@[j] == before[j]);
                    } else if j > p {
                        assert(ls@[j] == before[j - 1]);
                    }
                }
            }
        } else {
            assert forall|m: Language| lang_index(m) < idx + 1 && #[trigger] lang_count(fs, m) > 0
                implies exists|j: int| 0 <= j < ls@.len() && (#[trigger] ls@[j]).language == m by {
                if m == l {
                } else {
                    assert(lang_index(m) != lang_index(l));
                }
            }
        }
        idx = idx + 1;
    }
    proof {
        assert forall|l: Language| #[trigger] lang_count(fs, l) > 0 implies exists|j: int|
            0 <= j < ls@.len() && (#[trigger] ls@[j]).language == l by {
            assert(lang_index(l) < 14);
        }
    }
    ls
}

/// Inserts `x` after every entry with as many files or more; returns where.
fn insert_by_count(us: &mut Vec<ExtensionCount>, x: ExtensionCount) -> (p: usize)
    requires
        forall|j: int, k: int| 0 <= j < k < old(us)@.len() ==> (#[trigger] old(us)@[j]).count
            >= (#[trigger] old(us)@[k]).count,
    ensures
        p <= old(us)@.len(),
        final(us)@ == old(us)@.insert(p as int, x),
        forall|j: int, k: int| 0 <= j < k < final(us)@.len() ==> (#[trigger] final(us)@[j]).count
            >= (#[trigger] final(us)@[k]).count,
{
    let c = x.count;
    let mut p: usize = 0;
    while p < us.len() && us[p].count >= c
        invariant
            p <= us@.len(),
            forall|q: int| 0 <= q < p ==> (#[trigger] us@[q]).count >= c,
        decreases us@.len() - p,
    {
        p = p + 1;
    }
    proof {
        assert forall|q: int| p <= q < us@.len() implies (#[trigger] us@[q]).count < c by {
            if p < us@.len() {
                assert(us@[p as int].count < c);
            }
        }
    }
    let ghost before = us@;
    us.insert(p, x);
    proof {
        before.insert_ensures(p as int, x);
        assert forall|j: int, k: int| 0 <= j < k < us@.len() implies (#[trigger] us@[j]).count
            >= (#[trigger] us@[k]).count by {
            if k < p {
            } else if k == p {
            } else if j < p {
                assert(us@[k] == before[k - 1]);
            } else if j == p {
                assert(us@[k] == before[k - 1]);
            } else {
                assert(us@[j] == before[j - 1]);
                assert(us@[k] == before[k - 1]);
            }
        }
    }
    p
}

/// The unrecognized-extension list for the totals of the files `fs`.
fn rank_extensions(tally: &Tally, Ghost(fs): Ghost<Seq<Seq<Seq<char>>>>) -> (r: Vec<ExtensionCount>)
    requires
        tally.describes(fs),
    ensures
        extensions_describe(r@, fs),
        ext_sum(r@) == named_unrecognized_count(fs),
{
    let mut us: Vec<ExtensionCount> = Vec::new();
    let mut i: usize = 0;
    while i < tally.keys.len()
        invariant
            tally.describes(fs),
            i <= tally.keys@.len(),
            forall|j: int| 0 <= j < us@.len() ==> {
                &&& (#[trigger] us@[j]).extension@.len() > 0
                &&& us@[j].count == unrecognized_count(fs, us@[j].extension@)
                &&& us@[j].count > 0
                &&& exists|k: int| 0 <= k < i && us@[j].extension@ == (#[trigger] tally.keys@[k])@
            },
            forall|k: int| 0 <= k < i ==> exists|j: int|
                0 <= j < us@.len() && (#[trigger] us@[j]).extension@ == (#[trigger] tally.keys@[k])@,
            forall|j: int, k: int|
                0 <= j < us@.len() && 0 <= k < us@.len() && j != k ==> (#[trigger] us@[j]).extension@
                    != (#[trigger] us@[k]).extension@,
            forall|j: int, k: int| 0 <= j < k < us@.len() ==> (#[trigger] us@[j]).count >= (#[trigger] us@[k]).count,
            ext_sum(us@) == sum_of(tally.key_counts@.subrange(0, i as int)),
        decreases tally.keys@.len() - i,
    {
        let c = tally.key_counts[i];
        let x = ExtensionCount { extension: tally.keys[i].clone(), count: c };
        proof {
            assert forall|j: int| 0 <= j < us@.len() implies (#[trigger] us@[j]).extension@ != x.extension@ by {
                let k = choose|k: int| 0 <= k < i && us@[j].extension@ == (#[trigger] tally.keys@[k])@;
                assert(tally.keys@[k]@ != tally.keys@[i as int]@);
            }
        }
        let ghost before = us@;
        let p = insert_by_count(&mut us, x);
        proof {
            before.insert_ensures(p as int, x);
            lemma_ext_sum_insert(before, p as int, x);
            let ks = tally.key_counts@;
            assert(ks.subrange(0, i as int + 1).drop_last() =~= ks.subrange(0, i as int));
            assert forall|j: int, k: int|
                0 <= j < us@.len() && 0 <= k < us@.len() && j != k implies (#[trigger] us@[j]).extension@
                    != (#[trigger] us@[k]).extension@ by {
                if j != p && k != p {
                    let bj = if j < p { j } else { j - 1 };
                    let bk = if k < p { k } else { k - 1 };
                    assert(us@[j] == before[bj]);
                    assert(us@[k] == before[bk]);
                } else if j == p {
                    let bk = if k < p { k } else { k - 1 };
                    assert(us@[k] == before[bk]);
                } else {
                    let bj = if j < p { j } else { j - 1 };
                    assert(us@[j] == before[bj]);
                }
            }
            assert forall|j: int| 0 <= j < us@.len() implies {
                &&& (#[trigger] us@[j]).extension@.len() > 0
                &&& us@[j].count == unrecognized_count(fs, us@[j].extension@)
                &&& us@[j].count > 0
                &&& exists|k: int| 0 <= k < i + 1 && us@[j].extension@ == (#[trigger] tally.keys@[k])@
            } by {
                if j == p {
                    assert(us@[j].extension@ == tally.keys@[i as int]@);
                } else {
                    let bj = if j < p { j } else { j - 1 };
                    assert(us@[j] == before[bj]);
                    let k = choose|k: int| 0 <= k < i && before[bj].extension@ == (#[trigger] tally.keys@[k])@;
                    assert(us@[j].extension@ == tally.keys@[k]@);
                }
            }
            assert forall|k: int| 0 <= k < i + 1 implies exists|j: int|
                0 <= j < us@.len() && (#[trigger] us@[j]).extension@ == (#[trigger] tally.keys@[k])@ by {
                if k == i {
                    assert(us@[p as int].extension@ == tally.keys@[k]@);
                } else {
                    let j = choose|j: int| 0 <= j < before.len() && (#[trigger] before[j]).extension@ == (#[trigger] tally.keys@[k])@;
                    if j < p {
                        assert(us@[j] == before[j]);
                    } else {
                        assert(us@[j + 1] == before[j]);
                    }
                }
            }
        }
        i = i + 1;
    }
    proof {
        assert(tally.key_counts@.subrange(0, i as int) =~= tally.key_counts@);
        assert forall|k: Seq<char>| k.len() > 0 && #[trigger] unrecognized_count(fs, k) > 0 implies exists|j: int|
            0 <= j < us@.len() && (#[trigger] us@[j]).extension@ == k by {
            let m = choose|m: int| 0 <= m < tally.keys@.len() && (#[trigger] tally.keys@[m])@ == k;
            let j = choose|j: int| 0 <= j < us@.len() && (#[trigger] us@[j]).extension@ == (#[trigger] tally.keys@[m])@;
        }
    }
    us
}

/// Whether some name of `names` stands for language `l`.
pub open spec fn is_requested(names: Seq<Seq<char>>, l: Language) -> bool {
    exists|k: int| 0 <= k < names.len() && spec_parse(#[trigger] names[k]) == Some(l)
}

/// The entries of `ls` whose language some name of `names` stands for, in order.
pub open spec fn requested_only(ls: Seq<LanguageInfo>, names: Seq<Seq<char>>) -> Seq<LanguageInfo>
    decreases ls.len(),
{
    if ls.len() == 0 {
        seq![]
    } else if is_requested(names, ls.last().language) {
        requested_only(ls.drop_last(), names).push(ls.last())
    } else {
        requested_only(ls.drop_last(), names)
    }
}

/// The languages that the names stand for.
fn requested_languages(filter: &[String]) -> (r: Vec<Language>)
    ensures
        forall|l: Language| r@.contains(l) <==> is_requested(views(filter@), l),
{
    let ghost names = views(filter@);
    let mut r: Vec<Language> = Vec::new();
    let mut i: usize = 0;
    while i < filter.len()
        invariant
            names == views(filter@),
            i <= filter@.len(),
            forall|l: Language| r@.contains(l) <==> is_requested(names.subrange(0, i as int), l),
        decreases filter@.len() - i,
    {
        let ghost pre = names.subrange(0, i as int);
        let ghost post = names.subrange(0, i as int + 1);
        let parsed = Language::parse(filter[i].as_str());
        let ghost old_r = r@;
        match parsed {
            Some(l) => {
                r.push(l);
            },
            None => {},
        }
        assert forall|l: Language| r@.contains(l) <==> is_requested(post, l) by {
            if r@.contains(l) {
                let j = choose|j: int| 0 <= j < r@.len() && r@[j] == l;
                if j < old_r.len() {
                    assert(old_r.contains(l));
                    let k = choose|k: int| 0 <= k < pre.len() && spec_parse(#[trigger] pre[k]) == Some(l);
                    assert(post[k] == pre[k]);
                } else {
                    assert(post[i as int] == filter@[i as int]@);
                }
            }
            if is_requested(post, l) {
                let k = choose|k: int| 0 <= k < post.len() && spec_parse(#[trigger] post[k]) == Some(l);
                if k < i {
                    assert(pre[k] == post[k]);
                    assert(old_r.contains(l));
                    let j = choose|j: int| 0 <= j < old_r.len() && old_r[j] == l;
                    assert(r@[j] == l);
                } else {
                    assert(post[k] == filter@[i as int]@);
                    assert(r@[r@.len() - 1] == l);
                }
            }
        }
        i = i + 1;
    }
    assert(names.subrange(0, filter@.len() as int) =~= names);
    r
}

/// Whether `l` is among `ls`.
fn holds_language(ls: &Vec<Language>, l: Language) -> (r: bool)
    ensures
        r == ls@.contains(l),
{
    let mut i: usize = 0;
    while i < ls.len()
        invariant
            i <= ls@.len(),
            forall|k: int| 0 <= k < i ==> ls@[k] != l,
        decreases ls@.len() - i,
    {
        if ls[i] == l {
            return true;
        }
        i = i + 1;
    }
    false
}

impl LanguageDetector {
    /// Keeps the detected languages that the filter names (aliases, any
    /// case), in order; names that stand for no language are ignored. An
    /// empty filter keeps everything.
    pub fn filter_languages(detected: Vec<LanguageInfo>, filter: &[String]) -> (r: Vec<LanguageInfo>)
        ensures
            filter@.len() == 0 ==> r@ == detected@,
            filter@.len() > 0 ==> r@ == requested_only(detected@, views(filter@)),
    {
        if filter.len() == 0 {
            return detected;
        }
        let ghost names = views(filter@);
        let ghost all = detected@;
        let wanted = requested_languages(filter);
        let mut rest = detected;
        let mut r: Vec<LanguageInfo> = Vec::new();
        let ghost mut i: int = 0;
        while rest.len() > 0
            invariant
                0 <= i <= all.len(),
                rest@ == all.subrange(i, all.len() as int),
                r@ == requested_only(all.subrange(0, i), names),
                forall|l: Language| wanted@.contains(l) <==> is_requested(names, l),
            decreases rest@.len(),
        {
            let info = rest.remove(0);
            proof {
                let post = all.subrange(0, i + 1);
                assert(post.drop_last() =~= all.subrange(0, i));
                assert(post.last() == info);
                assert(rest@ =~= all.subrange(i + 1, all.len() as int));
                i = i + 1;
            }
            if holds_language(&wanted, info.language) {
                r.push(info);
            }
        }
        assert(all.subrange(0, i) =~= all);
        r
    }
}


} // verus!

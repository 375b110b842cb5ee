//! Planning the extraction of the bundled archive into a game directory.
//!
//! Only entries under the payload prefix `YACC` are extracted, with the
//! prefix removed; any other entry is left out. The plan lists, in archive
//! order, the directories to create and the files to write. Entries
//! outside the payload are only looked up for their names; only payload
//! files are opened and read.
use vstd::prelude::*;
use std::io::Cursor;
use std::io::Read;
use zip::result::{InvalidPassword, ZipError};
use zip::read::ZipFile;
use zip::ZipArchive;
use crate::text::occurs_at;

verus! {

#[verifier::external_type_specification]
#[verifier::external_body]
#[verifier::reject_recursive_types(T)]
pub struct ExCursor<T>(Cursor<T>);

#[verifier::external_type_specification]
#[verifier::external_body]
#[verifier::reject_recursive_types(R)]
pub struct ExZipArchive<R>(ZipArchive<R>);

#[verifier::external_type_specification]
#[verifier::external_body]
pub struct ExZipError(ZipError);

#[verifier::external_type_specification]
#[verifier::external_body]
pub struct ExZipFile<'a>(ZipFile<'a>);

#[verifier::external_type_specification]
#[verifier::external_body]
pub struct ExIoError(std::io::Error);

#[verifier::external_type_specification]
#[verifier::external_body]
pub struct ExInvalidPassword(InvalidPassword);

/// One archive entry as the library sees it: its stored name, whether zip
/// can find it in the archive, whether zip can open it for reading (with
/// the empty password), and its decompressed bytes (`None` where they
/// cannot be read).
pub type EntryModel = (Seq<char>, bool, bool, Option<Seq<u8>>);

/// The entries of an archive, in index order.
pub uninterp spec fn archive_entries(a: ZipArchive<Cursor<Vec<u8>>>) -> Seq<EntryModel>;

/// The name of an entry handed out by the archive, as stored.
pub uninterp spec fn stored_name(f: ZipFile<'_>) -> Seq<char>;

/// The decompressed bytes of an opened entry, or `None` where reading fails.
pub uninterp spec fn file_bytes(f: ZipFile<'_>) -> Option<Seq<u8>>;

/// Whether zip deems a stored name a safe relative path.
pub uninterp spec fn enclosed_ok(name: Seq<char>) -> bool;

/// Relies on zip's `ZipArchive::len`: the number of entries.
#[verifier::external_body]
fn archive_len(a: &ZipArchive<Cursor<Vec<u8>>>) -> (r: usize)
    ensures
        r == archive_entries(*a).len(),
{
    a.len()
}

/// Relies on zip's `ZipArchive::by_index_raw`: entry `i` as stored, found
/// without decrypting or decompressing it, so that its name can be read.
/// Finding an entry leaves the entries as they are.
#[verifier::external_body]
fn find_entry<'a>(a: &'a mut ZipArchive<Cursor<Vec<u8>>>, i: usize) -> (r: Result<ZipFile<'a>, ZipError>)
    requires
        i < archive_entries(*old(a)).len(),
    ensures
        archive_entries(*final(a)) == archive_entries(*old(a)),
        r is Ok == archive_entries(*old(a))[i as int].1,
        r matches Ok(f) ==> stored_name(f) == archive_entries(*old(a))[i as int].0,
{
    a.by_index_raw(i)
}

/// Relies on zip's `ZipArchive::by_index_decrypt`, given the empty
/// password: entry `i`, ready to be read. Unlike `by_index` it reports an
/// entry that asks for a password as `InvalidPassword` instead of
/// panicking. Opening an entry leaves the entries as they are.
#[verifier::external_body]
fn open_entry<'a>(a: &'a mut ZipArchive<Cursor<Vec<u8>>>, i: usize) -> (r: Result<Result<ZipFile<'a>, InvalidPassword>, ZipError>)
    requires
        i < archive_entries(*old(a)).len(),
    ensures
        archive_entries(*final(a)) == archive_entries(*old(a)),
        (r matches Ok(Ok(_))) == archive_entries(*old(a))[i as int].2,
        r matches Ok(Ok(f)) ==> file_bytes(f) == archive_entries(*old(a))[i as int].3,
{
    a.by_index_decrypt(i, &[])
}

/// Relies on zip's `ZipFile::enclosed_name`: the entry's name, or `None`
/// where it is not safe to use as a path (holding a NUL character,
/// absolute, or leaving its root through `..`). The name, where given, is
/// the name as stored.
#[verifier::external_body]
fn enclosed_name(f: &ZipFile) -> (r: Option<String>)
    ensures
        r is Some == enclosed_ok(stored_name(*f)),
        r matches Some(n) ==> n@ == stored_name(*f),
{
    f.enclosed_name().map(|p| p.to_string_lossy().into_owned())
}

/// Relies on `Read::read_to_end` of zip's `ZipFile`: the entry's
/// decompressed bytes.
#[verifier::external_body]
fn read_contents(f: &mut ZipFile) -> (r: Result<Vec<u8>, std::io::Error>)
    ensures
        r is Ok == file_bytes(*old(f)) is Some,
        r matches Ok(b) ==> b@ == file_bytes(*old(f))->Some_0,
{
    let mut buf = Vec::new();
    f.read_to_end(&mut buf)?;
    Ok(buf)
}

/// What extraction does for one archive entry.
pub enum ExtractStep {
    /// Create the directory `path` of the target, with its parents.
    CreateDir { path: String },
    /// Write `contents` to the file `path` of the target, creating its
    /// parent directories and replacing what was there.
    WriteFile { path: String, contents: Vec<u8> },
}

/// Why extraction stopped, with the index of the entry at fault.
pub enum ExtractError {
    /// The name of the entry is not a safe relative path.
    UndecodableName { index: usize },
    /// The payload path of the entry would leave the target.
    Escapes { index: usize },
    /// The archive could not find or open the entry.
    Archive { index: usize, cause: ZipError },
    /// The entry asks for a password.
    Locked { index: usize },
    /// The bytes of the entry could not be read.
    Read { index: usize, cause: std::io::Error },
}

impl ExtractError {
    pub open spec fn spec_index(&self) -> int {
        match self {
            ExtractError::UndecodableName { index } => *index as int,
            ExtractError::Escapes { index } => *index as int,
            ExtractError::Archive { index, .. } => *index as int,
            ExtractError::Locked { index } => *index as int,
            ExtractError::Read { index, .. } => *index as int,
        }
    }
}

/// A path separator: `/`, or `\` as Windows reads it.
pub open spec fn is_sep(c: char) -> bool {
    c == '/' || c == '\\'
}

/// Leading separators removed.
pub open spec fn trim_seps(s: Seq<char>) -> Seq<char>
    decreases s.len(),
{
    if s.len() > 0 && is_sep(s[0]) {
        trim_seps(s.subrange(1, s.len() as int))
    } else {
        s
    }
}

/// The state of a left-to-right walk over a relative path: the depth below
/// its start, the length of the component being read, whether that
/// component holds dots only, and whether the walk has stayed inside.
pub type Walk = (int, nat, bool, bool);

/// The walk once the component being read ends: `..` goes up a level, and
/// going above the start leaves; `.` and an empty component stay; any
/// other goes down a level.
pub open spec fn close_component(w: Walk) -> Walk {
    if w.2 && w.1 == 2 {
        (w.0 - 1, 0, true, w.3 && w.0 - 1 >= 0)
    } else if w.1 == 0 || (w.2 && w.1 == 1) {
        (w.0, 0, true, w.3)
    } else {
        (w.0 + 1, 0, true, w.3)
    }
}

/// The walk after one more character. A `:` leaves too: on Windows it can
/// make a path absolute.
pub open spec fn walk_step(w: Walk, c: char) -> Walk {
    if is_sep(c) {
        close_component(w)
    } else {
        (w.0, w.1 + 1, w.2 && c == '.', w.3 && c != ':')
    }
}

/// The walk over all of `s`, before its last component ends.
pub open spec fn walk(s: Seq<char>) -> Walk
    decreases s.len(),
{
    if s.len() == 0 {
        (0, 0, true, true)
    } else {
        walk_step(walk(s.drop_last()), s.last())
    }
}

/// Whether the relative path `s`, joined to a directory, stays inside it.
pub open spec fn stays_inside(s: Seq<char>) -> bool {
    close_component(walk(s)).3
}

/// The path, relative to the target, of an entry under the payload prefix:
/// the name without its first component `YACC` and the separators after
/// it. `None` for an entry outside the payload.
pub open spec fn payload_path(name: Seq<char>) -> Option<Seq<char>> {
    if name == "YACC"@ {
        Some(Seq::empty())
    } else if name.len() >= 5 && name.subrange(0, 4) == "YACC"@ && is_sep(name[4]) {
        Some(trim_seps(name.subrange(5, name.len() as int)))
    } else {
        None
    }
}

/// An entry whose name ends in `/` stands for a directory.
pub open spec fn is_dir_name(name: Seq<char>) -> bool {
    name.len() > 0 && name.last() == '/'
}

/// Whether a payload entry is a file, which has to be opened and read.
pub open spec fn is_payload_file(e: EntryModel) -> bool {
    payload_path(e.0) is Some && !is_dir_name(e.0)
}

/// Whether an entry stops extraction: it cannot be found or its name is not
/// safe; or it is under the payload prefix and its path would leave the
/// target; or it is a payload file that cannot be opened or read. Any other
/// entry outside the payload is ignored.
pub open spec fn entry_fault(e: EntryModel) -> bool {
    ||| !e.1
    ||| !enclosed_ok(e.0)
    ||| (payload_path(e.0) is Some && !stays_inside(payload_path(e.0)->Some_0))
    ||| (is_payload_file(e) && (!e.2 || e.3 is None))
}

/// A step as a triple: whether it creates a directory, its path, and the
/// bytes written (none for a directory).
pub open spec fn step_view(s: ExtractStep) -> (bool, Seq<char>, Seq<u8>) {
    match s {
        ExtractStep::CreateDir { path } => (true, path@, Seq::empty()),
        ExtractStep::WriteFile { path, contents } => (false, path@, contents@),
    }
}

/// The steps that the entries call for, in order.
pub open spec fn planned(entries: Seq<EntryModel>) -> Seq<(bool, Seq<char>, Seq<u8>)>
    decreases entries.len(),
{
    if entries.len() == 0 {
        Seq::empty()
    } else {
        let before = planned(entries.drop_last());
        let e = entries.last();
        match payload_path(e.0) {
            Some(rel) => if is_dir_name(e.0) {
                before.push((true, rel, Seq::empty()))
            } else {
                before.push((false, rel, e.3.unwrap_or(Seq::empty())))
            },
            None => before,
        }
    }
}

proof fn lemma_trim_seps(s: Seq<char>)
    ensures
        trim_seps(s).len() == 0 || !is_sep(trim_seps(s)[0]),
    decreases s.len(),
{
    if s.len() > 0 && is_sep(s[0]) {
        lemma_trim_seps(s.subrange(1, s.len() as int));
    }
}

/// Every step of a plan without faults stays inside the target: its path
/// does not start with a separator, and walking it never climbs above it.
pub proof fn lemma_planned_paths_stay_inside(entries: Seq<EntryModel>)
    requires
        forall|i: int| 0 <= i < entries.len() ==> !#[trigger] entry_fault(entries[i]),
    ensures
        forall|k: int|
            0 <= k < planned(entries).len() ==> stays_inside(#[trigger] planned(entries)[k].1) && (
            planned(entries)[k].1.len() == 0 || !is_sep(planned(entries)[k].1[0])),
    decreases entries.len(),
{
    if entries.len() > 0 {
        let init = entries.drop_last();
        assert forall|i: int| 0 <= i < init.len() implies !#[trigger] entry_fault(init[i]) by {
            assert(init[i] == entries[i]);
        }
        lemma_planned_paths_stay_inside(init);
        let e = entries.last();
        assert(!entry_fault(entries[entries.len() - 1]));
        if e.0.len() >= 5 {
            lemma_trim_seps(e.0.subrange(5, e.0.len() as int));
        }
        let p = planned(entries);
        let q = planned(init);
        assert forall|k: int| 0 <= k < p.len() implies stays_inside(#[trigger] p[k].1) && (p[k].1.len()
            == 0 || !is_sep(p[k].1[0])) by {
            if k < q.len() {
                assert(p[k] == q[k]);
            } else {
                assert(payload_path(e.0) is Some);
                assert(p[k].1 == payload_path(e.0)->Some_0);
            }
        }
    }
}

proof fn lemma_walk_left(s: Seq<char>, k: int)
    requires
        0 <= k <= s.len(),
        !walk(s.take(k)).3,
    ensures
        !stays_inside(s),
    decreases s.len() - k,
{
    if k < s.len() {
        assert(s.take(k + 1).drop_last() =~= s.take(k));
        lemma_walk_left(s, k + 1);
    } else {
        assert(s.take(k) =~= s);
    }
}

/// Whether the relative path `s`, joined to a directory, stays inside it.
pub fn path_stays_inside(s: &str) -> (r: bool)
    ensures
        r == stays_inside(s@),
{
    let n = s.unicode_len();
    let mut i: usize = 0;
    let mut depth: usize = 0;
    let mut run: usize = 0;
    let mut dots = true;
    assert(s@.take(0) =~= Seq::<char>::empty());
    while i < n
        invariant
            n == s@.len(),
            i <= n,
            depth <= i,
            run <= i,
            walk(s@.take(i as int)) == (depth as int, run as nat, dots, true),
        decreases n - i,
    {
        let c = s.get_char(i);
        assert(s@.take(i + 1).drop_last() =~= s@.take(i as int));
        assert(s@.take(i + 1).last() == c);
        if c == '/' || c == '\\' {
            if dots && run == 2 {
                if depth == 0 {
                    proof {
                        lemma_walk_left(s@, i + 1);
                    }
                    return false;
                }
                depth = depth - 1;
            } else if run == 0 || (dots && run == 1) {
            } else {
                depth = depth + 1;
            }
            run = 0;
            dots = true;
        } else if c == ':' {
            proof {
                lemma_walk_left(s@, i + 1);
            }
            return false;
        } else {
            run = run + 1;
            dots = dots && c == '.';
        }
        i = i + 1;
    }
    assert(s@.take(n as int) =~= s@);
    !(dots && run == 2 && depth == 0)
}

/// The payload path of an entry name, computed.
pub fn entry_payload_path(name: &str) -> (r: Option<String>)
    ensures
        r is Some == payload_path(name@) is Some,
        r is Some ==> r->Some_0@ == payload_path(name@)->Some_0,
{
    let n = name.unicode_len();
    proof {
        reveal_strlit("YACC");
    }
    if n == 4 && occurs_at(name, 0, "YACC") {
        assert(name@.subrange(0, 4) =~= name@);
        return Some(String::new());
    }
    proof {
        if name@ == "YACC"@ {
            assert(name@.subrange(0, 4) =~= name@);
        }
    }
    if n >= 5 && occurs_at(name, 0, "YACC") {
        let sep = name.get_char(4);
        if sep == '/' || sep == '\\' {
            let mut k: usize = 5;
            while k < n && (name.get_char(k) == '/' || name.get_char(k) == '\\')
                invariant
                    n == name@.len(),
                    5 <= k <= n,
                    trim_seps(name@.subrange(k as int, n as int)) == trim_seps(
                        name@.subrange(5, n as int),
                    ),
                decreases n - k,
            {
                assert(name@.subrange(k as int, n as int).subrange(1, (n - k) as int)
                    =~= name@.subrange(k + 1, n as int));
                k = k + 1;
            }
            return Some(String::from_str(name.substring_char(k, n)));
        }
    }
    None
}

/// Whether an entry name ends in `/`.
pub fn entry_is_dir(name: &str) -> (r: bool)
    ensures
        r == is_dir_name(name@),
{
    let n = name.unicode_len();
    n > 0 && name.get_char(n - 1) == '/'
}

/// Walks the archive and lists what extracting it does, in entry order.
/// The first entry at fault (see `entry_fault`) stops the walk with an
/// error that names it; without one, the plan holds a step for each
/// payload entry, with its bytes. Entries outside the payload are only
/// found, to read their names, and never opened.
pub fn plan_extraction(archive: &mut ZipArchive<Cursor<Vec<u8>>>) -> (r: Result<Vec<ExtractStep>, ExtractError>)
    ensures
        archive_entries(*final(archive)) == archive_entries(*old(archive)),
        r is Ok <==> forall|i: int|
            0 <= i < archive_entries(*old(archive)).len() ==> !#[trigger] entry_fault(
                archive_entries(*old(archive))[i],
            ),
        r is Ok ==> r->Ok_0@.map_values(|s: ExtractStep| step_view(s)) == planned(
            archive_entries(*old(archive)),
        ),
        r matches Err(e) ==> {
            let entries = archive_entries(*old(archive));
            let k = e.spec_index();
            &&& 0 <= k < entries.len()
            &&& entry_fault(entries[k])
            &&& forall|j: int| 0 <= j < k ==> !#[trigger] entry_fault(entries[j])
            &&& e is Archive ==> !entries[k].1 || (is_payload_file(entries[k]) && !entries[k].2)
            &&& e is Locked ==> is_payload_file(entries[k]) && !entries[k].2
            &&& e is UndecodableName ==> entries[k].1 && !enclosed_ok(entries[k].0)
            &&& e is Escapes ==> (payload_path(entries[k].0) matches Some(rel) && !stays_inside(rel))
            &&& e is Read ==> is_payload_file(entries[k]) && entries[k].2 && entries[k].3 is None
        },
{
    let ghost entries = archive_entries(*archive);
    let n = archive_len(archive);
    let mut steps: Vec<ExtractStep> = Vec::new();
    let mut i: usize = 0;
    assert(entries.take(0) =~= Seq::<EntryModel>::empty());
    assert(steps@.map_values(|s: ExtractStep| step_view(s)) =~= planned(entries.take(0)));
    while i < n
        invariant
            n == entries.len(),
            i <= n,
            archive_entries(*archive) == entries,
            entries == archive_entries(*old(archive)),
            forall|j: int| 0 <= j < i ==> !#[trigger] entry_fault(entries[j]),
            steps@.map_values(|s: ExtractStep| step_view(s)) == planned(entries.take(i as int)),
        decreases n - i,
    {
        let name = {
            let found = match find_entry(archive, i) {
                Ok(f) => f,
                Err(cause) => {
                    assert(entry_fault(entries[i as int]));
                    return Err(ExtractError::Archive { index: i, cause });
                },
            };
            match enclosed_name(&found) {
                Some(name) => name,
                None => {
                    assert(entry_fault(entries[i as int]));
                    return Err(ExtractError::UndecodableName { index: i });
                },
            }
        };
        let ghost prev = steps@;
        assert(entries.take(i + 1).drop_last() =~= entries.take(i as int));
        assert(entries.take(i + 1).last() == entries[i as int]);
        match entry_payload_path(name.as_str()) {
            None => {},
            Some(path) => {
                if !path_stays_inside(path.as_str()) {
                    assert(entry_fault(entries[i as int]));
                    return Err(ExtractError::Escapes { index: i });
                }
                if entry_is_dir(name.as_str()) {
                    steps.push(ExtractStep::CreateDir { path });
                } else {
                    let mut entry = match open_entry(archive, i) {
                        Ok(Ok(f)) => f,
                        Ok(Err(_)) => {
                            assert(entry_fault(entries[i as int]));
                            return Err(ExtractError::Locked { index: i });
                        },
                        Err(cause) => {
                            assert(entry_fault(entries[i as int]));
                            return Err(ExtractError::Archive { index: i, cause });
                        },
                    };
                    let contents = match read_contents(&mut entry) {
                        Ok(c) => c,
                        Err(cause) => {
                            assert(entry_fault(entries[i as int]));
                            return Err(ExtractError::Read { index: i, cause });
                        },
                    };
                    steps.push(ExtractStep::WriteFile { path, contents });
                }
                assert(steps@.map_values(|s: ExtractStep| step_view(s)) =~= prev.map_values(
                    |s: ExtractStep| step_view(s),
                ).push(step_view(steps@.last())));
            },
        }
        i = i + 1;
    }
    assert(entries.take(n as int) =~= entries);
    Ok(steps)
}

/// What a step leaves at its path of the target: a directory (`None`) or a
/// file with the given bytes.
pub open spec fn step_effect(s: ExtractStep) -> (Seq<char>, Option<Seq<u8>>) {
    match s {
        ExtractStep::CreateDir { path } => (path@, None),
        ExtractStep::WriteFile { path, contents } => (path@, Some(contents@)),
    }
}

/// The target directory, modelled as a map from relative path to what is
/// there, after carrying out `steps` in order.
pub open spec fn apply_steps(
    tree: Map<Seq<char>, Option<Seq<u8>>>,
    steps: Seq<ExtractStep>,
) -> Map<Seq<char>, Option<Seq<u8>>>
    decreases steps.len(),
{
    if steps.len() == 0 {
        tree
    } else {
        let (p, v) = step_effect(steps.last());
        apply_steps(tree, steps.drop_last()).insert(p, v)
    }
}

proof fn lemma_apply_overrides(tree: Map<Seq<char>, Option<Seq<u8>>>, steps: Seq<ExtractStep>)
    ensures
        apply_steps(tree, steps) == tree.union_prefer_right(apply_steps(Map::empty(), steps)),
    decreases steps.len(),
{
    if steps.len() == 0 {
        assert(tree =~= tree.union_prefer_right(Map::empty()));
    } else {
        lemma_apply_overrides(tree, steps.drop_last());
        assert(apply_steps(tree, steps) =~= tree.union_prefer_right(
            apply_steps(Map::empty(), steps),
        ));
    }
}

/// Extraction is idempotent: carrying out the same steps a second time
/// leaves the target exactly as the first time did, with the same files,
/// the same contents and no further entries.
pub proof fn lemma_extraction_idempotent(
    tree: Map<Seq<char>, Option<Seq<u8>>>,
    steps: Seq<ExtractStep>,
)
    ensures
        apply_steps(apply_steps(tree, steps), steps) == apply_steps(tree, steps),
{
    lemma_apply_overrides(tree, steps);
    lemma_apply_overrides(apply_steps(tree, steps), steps);
    assert(apply_steps(apply_steps(tree, steps), steps) =~= apply_steps(tree, steps));
}

proof fn lemma_apply_same_views(
    tree: Map<Seq<char>, Option<Seq<u8>>>,
    s1: Seq<ExtractStep>,
    s2: Seq<ExtractStep>,
)
    requires
        s1.map_values(|s: ExtractStep| step_view(s)) == s2.map_values(|s: ExtractStep| step_view(s)),
    ensures
        apply_steps(tree, s1) == apply_steps(tree, s2),
    decreases s1.len(),
{
    let v1 = s1.map_values(|s: ExtractStep| step_view(s));
    let v2 = s2.map_values(|s: ExtractStep| step_view(s));
    assert(s1.len() == v1.len() && s2.len() == v2.len());
    if s1.len() > 0 {
        let n = s1.len() - 1;
        assert(s1.drop_last().map_values(|s: ExtractStep| step_view(s)) =~= v1.drop_last());
        assert(s2.drop_last().map_values(|s: ExtractStep| step_view(s)) =~= v2.drop_last());
        lemma_apply_same_views(tree, s1.drop_last(), s2.drop_last());
        assert(v1[n] == v2[n]);
        assert(step_effect(s1.last()) == step_effect(s2.last()));
    }
}

/// Extracting the same archive again leaves the target as the first run
/// did: a second successful plan of an archive with the same entries,
/// carried out over the first one's result, rewrites the same files with
/// the same bytes and adds nothing.
pub proof fn lemma_extraction_repeatable(
    tree: Map<Seq<char>, Option<Seq<u8>>>,
    entries: Seq<EntryModel>,
    first: Seq<ExtractStep>,
    second: Seq<ExtractStep>,
)
    requires
        first.map_values(|s: ExtractStep| step_view(s)) == planned(entries),
        second.map_values(|s: ExtractStep| step_view(s)) == planned(entries),
    ensures
        apply_steps(apply_steps(tree, first), second) == apply_steps(tree, first),
{
    lemma_apply_same_views(apply_steps(tree, first), second, first);
    lemma_extraction_idempotent(tree, first);
}

} // verus!

//! The file-browser pane: a normalized current directory, its listing
//! (hidden entries dropped, directories first, names compared without case,
//! `..` on top) and the selection. Listing a directory is the caller's: it
//! hands the raw entries to `refresh`.
use vstd::prelude::*;
use vstd::string::*;
use vstd::multiset::Multiset;
use crate::service::join_path;
use crate::text::{chars_of, concat, is_prefix, push_char, str_eq, string_of, strs_view, to_string};

verus! {

/// `..` as a path component.
pub open spec fn dot_dot() -> Seq<char> {
    seq!['.', '.']
}

/// A finished component: dropped where empty or `.`.
pub open spec fn part_of(cur: Seq<char>) -> Seq<Seq<char>> {
    if cur.len() == 0 || cur == seq!['.'] {
        seq![]
    } else {
        seq![cur]
    }
}

/// The components of a Unix path after the partial component `cur`: the
/// texts between slashes, without empty ones and without `.`.
pub open spec fn parts_from(s: Seq<char>, cur: Seq<char>) -> Seq<Seq<char>>
    decreases s.len(),
{
    if s.len() == 0 {
        part_of(cur)
    } else if s[0] == '/' {
        part_of(cur) + parts_from(s.drop_first(), seq![])
    } else {
        parts_from(s.drop_first(), cur.push(s[0]))
    }
}

pub open spec fn path_parts(s: Seq<char>) -> Seq<Seq<char>> {
    parts_from(s, seq![])
}

pub open spec fn is_absolute(s: Seq<char>) -> bool {
    s.len() > 0 && s[0] == '/'
}

/// One step of normalization: `..` removes the last component kept so far
/// (whatever it is), is dropped at the root of an absolute path, and is
/// kept at the start of a relative one; any other component is appended.
pub open spec fn step_part(stack: Seq<Seq<char>>, p: Seq<char>, abs: bool) -> Seq<Seq<char>> {
    if p == dot_dot() {
        if stack.len() > 0 {
            stack.drop_last()
        } else if abs {
            stack
        } else {
            stack.push(p)
        }
    } else {
        stack.push(p)
    }
}

pub open spec fn push_parts(stack: Seq<Seq<char>>, parts: Seq<Seq<char>>, abs: bool) -> Seq<Seq<char>>
    decreases parts.len(),
{
    if parts.len() == 0 {
        stack
    } else {
        push_parts(step_part(stack, parts[0], abs), parts.drop_first(), abs)
    }
}

/// Components joined by `/`.
pub open spec fn join_parts(parts: Seq<Seq<char>>) -> Seq<char>
    decreases parts.len(),
{
    if parts.len() == 0 {
        seq![]
    } else if parts.len() == 1 {
        parts[0]
    } else {
        join_parts(parts.drop_last()) + seq!['/'] + parts.last()
    }
}

/// A path written from its components, with a leading `/` where absolute.
pub open spec fn render_path(abs: bool, parts: Seq<Seq<char>>) -> Seq<char> {
    if abs {
        seq!['/'] + join_parts(parts)
    } else {
        join_parts(parts)
    }
}

/// A path with `.` and empty components removed and `..` resolved
/// lexically, as `PathBuf` components make it on Unix.
pub open spec fn normalize_spec(s: Seq<char>) -> Seq<char> {
    render_path(is_absolute(s), push_parts(seq![], path_parts(s), is_absolute(s)))
}

/// The components of a path (see `path_parts`).
pub fn parts_of(s: &str) -> (r: Vec<String>)
    ensures
        strs_view(r@) == path_parts(s@),
{
    let v = chars_of(s);
    let n: usize = v.len();
    let mut out: Vec<String> = Vec::new();
    let mut cur: Vec<char> = Vec::new();
    let mut i: usize = 0;
    assert(v@.skip(0) =~= v@);
    assert(strs_view(out@) =~= Seq::<Seq<char>>::empty());
    assert(cur@ =~= Seq::<char>::empty());
    while i < n
        invariant
            i <= n,
            n == v@.len(),
            strs_view(out@) + parts_from(v@.skip(i as int), cur@) == path_parts(v@),
        decreases n - i,
    {
        assert(v@.skip(i as int).drop_first() =~= v@.skip(i + 1));
        assert(v@.skip(i as int)[0] == v@[i as int]);
        if v[i] == '/' {
            let ghost before = strs_view(out@);
            if cur.len() > 0 && !(cur.len() == 1 && cur[0] == '.') {
                let p = string_of(&cur);
                out.push(p);
                assert(strs_view(out@) =~= before + part_of(cur@));
            } else {
                assert(cur@.len() == 1 ==> cur@ =~= seq!['.']);
                assert(strs_view(out@) =~= before + part_of(cur@));
            }
            assert(before + (part_of(cur@) + parts_from(v@.skip(i + 1), seq![])) =~= strs_view(out@)
                + parts_from(v@.skip(i + 1), seq![]));
            cur = Vec::new();
        } else {
            cur.push(v[i]);
        }
        i += 1;
    }
    assert(v@.skip(n as int) =~= Seq::<char>::empty());
    let ghost before = strs_view(out@);
    if cur.len() > 0 && !(cur.len() == 1 && cur[0] == '.') {
        let p = string_of(&cur);
        out.push(p);
        assert(strs_view(out@) =~= before + part_of(cur@));
    } else {
        assert(cur@.len() == 1 ==> cur@ =~= seq!['.']);
        assert(strs_view(out@) =~= before + part_of(cur@));
    }
    out
}

fn is_dot_dot(s: &str) -> (r: bool)
    ensures
        r == (s@ == dot_dot()),
{
    let v = chars_of(s);
    let r = v.len() == 2 && v[0] == '.' && v[1] == '.';
    assert(r ==> v@ =~= dot_dot());
    r
}

/// Writes a path from its components.
pub fn render(abs: bool, parts: &Vec<String>) -> (r: String)
    ensures
        r@ == render_path(abs, strs_view(parts@)),
{
    let mut joined = String::new();
    let mut i: usize = 0;
    while i < parts.len()
        invariant
            i <= parts.len(),
            joined@ == join_parts(strs_view(parts@).take(i as int)),
        decreases parts.len() - i,
    {
        let ghost t = strs_view(parts@).take(i + 1);
        assert(t.drop_last() =~= strs_view(parts@).take(i as int));
        if i == 0 {
            joined.append(parts[0].as_str());
            assert(t.len() == 1);
            assert(joined@ =~= t[0]);
        } else {
            push_char(&mut joined, '/');
            joined.append(parts[i].as_str());
        }
        i += 1;
    }
    assert(strs_view(parts@).take(parts.len() as int) =~= strs_view(parts@));
    if abs {
        let mut s = String::new();
        push_char(&mut s, '/');
        s.append(joined.as_str());
        assert(s@ =~= seq!['/'] + joined@);
        s
    } else {
        joined
    }
}

fn normalize_parts(abs: bool, parts: &Vec<String>) -> (r: Vec<String>)
    ensures
        strs_view(r@) == push_parts(seq![], strs_view(parts@), abs),
{
    let ghost ps = strs_view(parts@);
    let mut stack: Vec<String> = Vec::new();
    let mut i: usize = 0;
    assert(ps.skip(0) =~= ps);
    assert(strs_view(stack@) =~= Seq::<Seq<char>>::empty());
    while i < parts.len()
        invariant
            i <= parts.len(),
            ps == strs_view(parts@),
            push_parts(seq![], ps, abs) == push_parts(strs_view(stack@), ps.skip(i as int), abs),
        decreases parts.len() - i,
    {
        assert(ps.skip(i as int)[0] == parts@[i as int]@);
        assert(ps.skip(i as int).drop_first() =~= ps.skip(i + 1));
        let ghost before = strs_view(stack@);
        let p = parts[i].clone();
        if is_dot_dot(p.as_str()) {
            if stack.len() > 0 {
                let _ = stack.pop();
                assert(strs_view(stack@) =~= before.drop_last());
            } else if !abs {
                stack.push(p);
                assert(strs_view(stack@) =~= before.push(dot_dot()));
            }
        } else {
            stack.push(p);
            assert(strs_view(stack@) =~= before.push(ps[i as int]));
        }
        assert(strs_view(stack@) == step_part(before, ps[i as int], abs));
        i += 1;
    }
    assert(ps.skip(i as int) =~= Seq::<Seq<char>>::empty());
    stack
}

fn starts_with_slash(s: &str) -> (r: bool)
    ensures
        r == is_absolute(s@),
{
    let v = chars_of(s);
    v.len() > 0 && v[0] == '/'
}

/// Normalizes a path (see `normalize_spec`).
pub fn normalize(path: &str) -> (r: String)
    ensures
        r@ == normalize_spec(path@),
{
    let abs = starts_with_slash(path);
    let parts = parts_of(path);
    let stack = normalize_parts(abs, &parts);
    render(abs, &stack)
}

/// The parent's components: the last one dropped, where there is one.
pub open spec fn parent_parts(parts: Seq<Seq<char>>) -> Seq<Seq<char>> {
    if parts.len() > 0 {
        parts.drop_last()
    } else {
        parts
    }
}

/// The path has a parent (`Path::parent` is `Some`): its last component is
/// a name, `..` or a leading `.`.
pub open spec fn has_parent(s: Seq<char>) -> bool {
    path_parts(s).len() > 0 || (!is_absolute(s) && (s == seq!['.'] || is_prefix(seq!['.', '/'], s)))
}

/// The last component where it is a name (`Path::file_name`).
pub open spec fn file_name_spec(s: Seq<char>) -> Option<Seq<char>> {
    let parts = path_parts(s);
    if parts.len() > 0 && parts.last() != dot_dot() {
        Some(parts.last())
    } else {
        None
    }
}

fn path_has_parent(s: &str) -> (r: bool)
    ensures
        r == has_parent(s@),
{
    let parts = parts_of(s);
    if parts.len() > 0 {
        return true;
    }
    if starts_with_slash(s) {
        return false;
    }
    let v = chars_of(s);
    let r = (v.len() == 1 && v[0] == '.') || (v.len() >= 2 && v[0] == '.' && v[1] == '/');
    assert((v.len() == 1 && v[0] == '.') ==> v@ =~= seq!['.']);
    assert((v.len() >= 2 && v[0] == '.' && v[1] == '/') ==> v@.subrange(0, 2) =~= seq!['.', '/']);
    assert(is_prefix(seq!['.', '/'], v@) ==> v@.subrange(0, 2)[0] == '.' && v@.subrange(0, 2)[1] == '/');
    r
}

/// An entry of a directory listing.
#[derive(Clone)]
pub struct FsEntry {
    pub name: String,
    pub is_dir: bool,
}

/// Why a directory could not be listed.
pub enum ListError {
    PermissionDenied,
    NotFound,
    Other(String),
}

/// What `str::to_lowercase` returns for a text.
pub uninterp spec fn str_lowercase(s: Seq<char>) -> Seq<char>;

/// `str::to_lowercase`. The contract names the result.
#[verifier::external_body]
fn lowercase(s: &str) -> (r: String)
    ensures
        r@ == str_lowercase(s@),
{
    s.to_lowercase()
}

/// `a` comes before `b` in the order of `str` (character by character,
/// by code point; a proper prefix first).
pub open spec fn text_lt(a: Seq<char>, b: Seq<char>) -> bool
    decreases a.len(),
{
    if a.len() == 0 {
        b.len() > 0
    } else if b.len() == 0 {
        false
    } else if (a[0] as u32) < (b[0] as u32) {
        true
    } else if a[0] == b[0] {
        text_lt(a.drop_first(), b.drop_first())
    } else {
        false
    }
}

fn text_lt_exec(a: &Vec<char>, b: &Vec<char>) -> (r: bool)
    ensures
        r == text_lt(a@, b@),
{
    let mut i: usize = 0;
    assert(a@.skip(0) =~= a@);
    assert(b@.skip(0) =~= b@);
    while i < a.len() && i < b.len() && a[i] == b[i]
        invariant
            i <= a.len(),
            i <= b.len(),
            text_lt(a@, b@) == text_lt(a@.skip(i as int), b@.skip(i as int)),
        decreases a.len() - i,
    {
        assert(a@.skip(i as int).drop_first() =~= a@.skip(i + 1));
        assert(b@.skip(i as int).drop_first() =~= b@.skip(i + 1));
        i += 1;
    }
    if i == a.len() {
        return i < b.len();
    }
    if i == b.len() {
        return false;
    }
    assert(a@.skip(i as int)[0] == a@[i as int]);
    assert(b@.skip(i as int)[0] == b@[i as int]);
    (a[i] as u32) < (b[i] as u32)
}

/// `a` sorts after `b` in the listing: a file after a directory, and
/// within each kind by lowercased name.
pub open spec fn sorts_after(a: FsEntry, b: FsEntry) -> bool {
    (!a.is_dir && b.is_dir) || (a.is_dir == b.is_dir && text_lt(
        str_lowercase(b.name@),
        str_lowercase(a.name@),
    ))
}

/// `e` inserted before the first entry that sorts after it.
pub open spec fn insert_sorted(s: Seq<FsEntry>, e: FsEntry) -> Seq<FsEntry>
    decreases s.len(),
{
    if s.len() == 0 {
        seq![e]
    } else if sorts_after(s[0], e) {
        seq![e] + s
    } else {
        seq![s[0]] + insert_sorted(s.drop_first(), e)
    }
}

/// The entries in listing order; entries that compare equal keep their
/// order (`sort_by` is stable).
pub open spec fn sort_entries(s: Seq<FsEntry>) -> Seq<FsEntry>
    decreases s.len(),
{
    if s.len() == 0 {
        seq![]
    } else {
        insert_sorted(sort_entries(s.drop_last()), s.last())
    }
}

proof fn lemma_insert_at(s: Seq<FsEntry>, e: FsEntry, j: int)
    requires
        0 <= j <= s.len(),
        forall|k: int| 0 <= k < j ==> !sorts_after(#[trigger] s[k], e),
        j < s.len() ==> sorts_after(s[j], e),
    ensures
        insert_sorted(s, e) == s.take(j).push(e) + s.skip(j),
    decreases s.len(),
{
    if s.len() == 0 {
        assert(s.take(j).push(e) + s.skip(j) =~= seq![e]);
    } else if j == 0 {
        assert(s.take(0).push(e) + s.skip(0) =~= seq![e] + s);
    } else {
        let t = s.drop_first();
        assert forall|k: int| 0 <= k < j - 1 implies !sorts_after(#[trigger] t[k], e) by {
            assert(t[k] == s[k + 1]);
        }
        lemma_insert_at(t, e, j - 1);
        assert(seq![s[0]] + (t.take(j - 1).push(e) + t.skip(j - 1)) =~= s.take(j).push(e) + s.skip(j));
    }
}

fn entry_sorts_after(a: &FsEntry, a_low: &String, b: &FsEntry, b_low: &String) -> (r: bool)
    requires
        a_low@ == str_lowercase(a.name@),
        b_low@ == str_lowercase(b.name@),
    ensures
        r == sorts_after(*a, *b),
{
    if !a.is_dir && b.is_dir {
        return true;
    }
    if a.is_dir != b.is_dir {
        return false;
    }
    let av = chars_of(a_low.as_str());
    let bv = chars_of(b_low.as_str());
    text_lt_exec(&bv, &av)
}

fn copy_entry(e: &FsEntry) -> (r: FsEntry)
    ensures
        r == *e,
{
    FsEntry { name: e.name.clone(), is_dir: e.is_dir }
}

/// Sorts a listing: directories first, then by lowercased name, stably.
pub fn sort_listing(entries: &Vec<FsEntry>) -> (r: Vec<FsEntry>)
    ensures
        r@ == sort_entries(entries@),
{
    let mut sorted: Vec<FsEntry> = Vec::new();
    let mut lows: Vec<String> = Vec::new();
    let mut i: usize = 0;
    assert(entries@.take(0) =~= Seq::<FsEntry>::empty());
    while i < entries.len()
        invariant
            i <= entries.len(),
            sorted@ == sort_entries(entries@.take(i as int)),
            lows.len() == sorted.len(),
            forall|k: int| 0 <= k < sorted.len() ==> #[trigger] lows@[k]@ == str_lowercase(sorted@[k].name@),
        decreases entries.len() - i,
    {
        let e = copy_entry(&entries[i]);
        let el = lowercase(e.name.as_str());
        let mut j: usize = 0;
        while j < sorted.len() && !entry_sorts_after(&sorted[j], &lows[j], &e, &el)
            invariant
                j <= sorted.len(),
                lows.len() == sorted.len(),
                forall|k: int| 0 <= k < sorted.len() ==> #[trigger] lows@[k]@ == str_lowercase(sorted@[k].name@),
                el@ == str_lowercase(e.name@),
                forall|k: int| 0 <= k < j ==> !sorts_after(#[trigger] sorted@[k], e),
            decreases sorted.len() - j,
        {
            j += 1;
        }
        proof {
            lemma_insert_at(sorted@, e, j as int);
            assert(entries@.take(i + 1).drop_last() =~= entries@.take(i as int));
            assert(entries@.take(i + 1).last() == e);
        }
        let ghost before = sorted@;
        let ghost lows_before = lows@;
        sorted.insert(j, e);
        lows.insert(j, el);
        assert(sorted@ =~= before.take(j as int).push(e) + before.skip(j as int));
        assert forall|k: int| 0 <= k < sorted.len() implies #[trigger] lows@[k]@ == str_lowercase(
            sorted@[k].name@,
        ) by {
            if k < j {
                assert(lows@[k] == lows_before[k]);
                assert(sorted@[k] == before[k]);
            } else if k > j {
                assert(lows@[k] == lows_before[k - 1]);
                assert(sorted@[k] == before[k - 1]);
            }
        }
        i += 1;
    }
    assert(entries@.take(entries.len() as int) =~= entries@);
    sorted
}

/// A listing entry that shows: its name does not start with `.`.
pub open spec fn shown(e: FsEntry) -> bool {
    !(e.name@.len() > 0 && e.name@[0] == '.')
}

/// The entries of a listing that show, in order.
pub open spec fn shown_entries(s: Seq<FsEntry>) -> Seq<FsEntry>
    decreases s.len(),
{
    if s.len() == 0 {
        seq![]
    } else if shown(s.last()) {
        shown_entries(s.drop_last()).push(s.last())
    } else {
        shown_entries(s.drop_last())
    }
}

/// The message shown where a directory cannot be listed.
pub open spec fn list_error_message(path: Seq<char>, e: ListError) -> Seq<char> {
    match e {
        ListError::PermissionDenied => "Permission denied: "@ + path,
        ListError::NotFound => "Path does not exist: "@ + path,
        ListError::Other(d) => "Failed to read directory: "@ + path + " ("@ + d@ + ")"@,
    }
}

/// `entries` is what the browser shows of the directory `path` listed as
/// `raw`: the shown entries in listing order, below a `..` entry where the
/// directory has a parent.
pub open spec fn listed(path: Seq<char>, raw: Seq<FsEntry>, entries: Seq<FsEntry>) -> bool {
    let sorted = sort_entries(shown_entries(raw));
    if has_parent(path) {
        &&& entries.len() == sorted.len() + 1
        &&& entries[0].name@ == ".."@
        &&& entries[0].is_dir
        &&& entries.skip(1) == sorted
    } else {
        entries == sorted
    }
}

fn filter_shown(raw: &Vec<FsEntry>) -> (r: Vec<FsEntry>)
    ensures
        r@ == shown_entries(raw@),
{
    let mut out: Vec<FsEntry> = Vec::new();
    let mut i: usize = 0;
    assert(raw@.take(0) =~= Seq::<FsEntry>::empty());
    while i < raw.len()
        invariant
            i <= raw.len(),
            out@ == shown_entries(raw@.take(i as int)),
        decreases raw.len() - i,
    {
        assert(raw@.take(i + 1).drop_last() =~= raw@.take(i as int));
        assert(raw@.take(i + 1).last() == raw@[i as int]);
        let v = chars_of(raw[i].name.as_str());
        if !(v.len() > 0 && v[0] == '.') {
            out.push(copy_entry(&raw[i]));
        }
        i += 1;
    }
    assert(raw@.take(raw.len() as int) =~= raw@);
    out
}

/// What the browser shows of the directory `path`: its entries and the
/// error message, where it could not be listed.
pub fn read_dir_entries(path: &str, listing: &Result<Vec<FsEntry>, ListError>) -> (r: (Vec<FsEntry>, Option<String>))
    ensures
        match listing {
            Ok(raw) => r.1 is None && listed(path@, raw@, r.0@),
            Err(e) => r.0@.len() == 0 && (r.1 matches Some(m) && m@ == list_error_message(path@, *e)),
        },
{
    match listing {
        Err(e) => {
            let msg = match e {
                ListError::PermissionDenied => concat("Permission denied: ", path),
                ListError::NotFound => concat("Path does not exist: ", path),
                ListError::Other(d) => {
                    let mut m = "Failed to read directory: ".to_owned();
                    m.append(path);
                    m.append(" (");
                    m.append(d.as_str());
                    m.append(")");
                    m
                },
            };
            (Vec::new(), Some(msg))
        },
        Ok(raw) => {
            let shown = filter_shown(raw);
            let sorted = sort_listing(&shown);
            if path_has_parent(path) {
                let mut entries: Vec<FsEntry> = Vec::new();
                entries.push(FsEntry { name: "..".to_owned(), is_dir: true });
                let mut i: usize = 0;
                while i < sorted.len()
                    invariant
                        i <= sorted.len(),
                        entries@.len() == i + 1,
                        entries@[0].name@ == ".."@,
                        entries@[0].is_dir,
                        entries@.skip(1) == sorted@.take(i as int),
                    decreases sorted.len() - i,
                {
                    let ghost before = entries@;
                    entries.push(copy_entry(&sorted[i]));
                    assert(entries@.skip(1) =~= before.skip(1).push(sorted@[i as int]));
                    assert(sorted@.take(i + 1) =~= sorted@.take(i as int).push(sorted@[i as int]));
                    i += 1;
                }
                assert(sorted@.take(sorted.len() as int) =~= sorted@);
                (entries, None)
            } else {
                (sorted, None)
            }
        },
    }
}

/// The index of the first directory entry named `name`, or the length
/// where there is none.
pub open spec fn first_dir_named(entries: Seq<FsEntry>, name: Seq<char>) -> int
    decreases entries.len(),
{
    if entries.len() == 0 {
        0
    } else if entries[0].is_dir && entries[0].name@ == name {
        0
    } else {
        1 + first_dir_named(entries.drop_first(), name)
    }
}

/// The normalized parent of a path.
pub open spec fn parent_dir_spec(s: Seq<char>) -> Seq<char> {
    render_path(is_absolute(s), push_parts(seq![], parent_parts(path_parts(s)), is_absolute(s)))
}

/// The file-browser pane.
pub struct FileBrowser {
    /// The directory shown, normalized.
    pub current_dir: String,
    pub entries: Vec<FsEntry>,
    pub selected: usize,
    /// Why the directory could not be listed.
    pub error: Option<String>,
    /// After moving up: the name of the directory left, to select once the
    /// parent is listed.
    pub reselect: Option<String>,
}

/// The selection after a refresh lists `entries`: kept where it still
/// points at an entry, else moved to the last one; then, where a directory
/// is to be selected again and is listed, that directory.
pub open spec fn selection_after(entries: Seq<FsEntry>, selected: usize, reselect: Option<String>) -> usize {
    let clamped = if entries.len() > 0 && selected >= entries.len() {
        (entries.len() - 1) as usize
    } else {
        selected
    };
    match reselect {
        Some(n) => if first_dir_named(entries, n@) < entries.len() {
            first_dir_named(entries, n@) as usize
        } else {
            clamped
        },
        None => clamped,
    }
}

proof fn lemma_first_dir_named(entries: Seq<FsEntry>, name: Seq<char>)
    ensures
        0 <= first_dir_named(entries, name) <= entries.len(),
        first_dir_named(entries, name) < entries.len() ==> entries[first_dir_named(entries, name)].is_dir
            && entries[first_dir_named(entries, name)].name@ == name,
        forall|k: int| 0 <= k < first_dir_named(entries, name) ==> !(#[trigger] entries[k].is_dir
            && entries[k].name@ == name),
    decreases entries.len(),
{
    if entries.len() > 0 && !(entries[0].is_dir && entries[0].name@ == name) {
        lemma_first_dir_named(entries.drop_first(), name);
        assert forall|k: int| 0 <= k < first_dir_named(entries, name) implies !(#[trigger] entries[k].is_dir
            && entries[k].name@ == name) by {
            if k > 0 {
                assert(entries[k] == entries.drop_first()[k - 1]);
            }
        }
    }
}

proof fn lemma_first_dir_named_at(entries: Seq<FsEntry>, name: Seq<char>, j: int)
    requires
        0 <= j <= entries.len(),
        forall|k: int| 0 <= k < j ==> !(#[trigger] entries[k].is_dir && entries[k].name@ == name),
        j < entries.len() ==> entries[j].is_dir && entries[j].name@ == name,
    ensures
        first_dir_named(entries, name) == j,
    decreases entries.len(),
{
    if entries.len() > 0 && j > 0 {
        let t = entries.drop_first();
        assert forall|k: int| 0 <= k < j - 1 implies !(#[trigger] t[k].is_dir && t[k].name@ == name) by {
            assert(t[k] == entries[k + 1]);
        }
        assert(!(entries[0].is_dir && entries[0].name@ == name));
        lemma_first_dir_named_at(t, name, j - 1);
    }
}

impl FileBrowser {
    /// A browser on `cwd`, not listed yet (see `refresh`).
    pub fn new(cwd: &str) -> (b: FileBrowser)
        ensures
            b.current_dir@ == normalize_spec(cwd@),
            b.entries@.len() == 0,
            b.selected == 0,
            b.error is None,
            b.reselect is None,
    {
        FileBrowser { current_dir: normalize(cwd), entries: Vec::new(), selected: 0, error: None, reselect: None }
    }

    /// Shows the listing of the current directory (see `read_dir_entries`)
    /// and adjusts the selection (see `selection_after`).
    pub fn refresh(&mut self, listing: Result<Vec<FsEntry>, ListError>)
        ensures
            final(self).current_dir == old(self).current_dir,
            match listing {
                Ok(raw) => final(self).error is None && listed(old(self).current_dir@, raw@, final(self).entries@),
                Err(e) => final(self).entries@.len() == 0 && (final(self).error matches Some(m) && m@
                    == list_error_message(old(self).current_dir@, e)),
            },
            final(self).selected == selection_after(final(self).entries@, old(self).selected, old(self).reselect),
            final(self).reselect is None,
    {
        let (entries, err) = read_dir_entries(self.current_dir.as_str(), &listing);
        self.entries = entries;
        self.error = err;
        if self.entries.len() > 0 && self.selected >= self.entries.len() {
            self.selected = self.entries.len() - 1;
        }
        let pending = self.reselect.take();
        match pending {
            Some(name) => {
                let mut j: usize = 0;
                while j < self.entries.len() && !(self.entries[j].is_dir && str_eq(
                    self.entries[j].name.as_str(),
                    name.as_str(),
                ))
                    invariant
                        j <= self.entries.len(),
                        forall|k: int| 0 <= k < j ==> !(#[trigger] self.entries@[k].is_dir
                            && self.entries@[k].name@ == name@),
                    decreases self.entries.len() - j,
                {
                    j += 1;
                }
                proof {
                    lemma_first_dir_named_at(self.entries@, name@, j as int);
                }
                if j < self.entries.len() {
                    self.selected = j;
                }
            },
            None => {},
        }
    }

    /// Moves to the parent directory where there is one; the directory left
    /// is selected once the parent is listed. True where it moved: the
    /// caller then lists the new directory (see `refresh`).
    pub fn go_to_parent(&mut self) -> (r: bool)
        ensures
            went_up(*old(self), *final(self), r),
    {
        if !path_has_parent(self.current_dir.as_str()) {
            return false;
        }
        let mut parts = parts_of(self.current_dir.as_str());
        let ghost ps = strs_view(parts@);
        let name = if parts.len() > 0 {
            let last = parts.pop().unwrap();
            assert(strs_view(parts@) =~= ps.drop_last());
            if is_dot_dot(last.as_str()) {
                None
            } else {
                Some(last)
            }
        } else {
            None
        };
        let abs = starts_with_slash(self.current_dir.as_str());
        let stack = normalize_parts(abs, &parts);
        self.current_dir = render(abs, &stack);
        self.selected = 0;
        self.reselect = name;
        true
    }

    /// Enters the selected entry where it is a directory (`..` moves up).
    /// True where it moved: the caller then lists the new directory.
    pub fn enter_selected(&mut self) -> (r: bool)
        ensures
            entered(*old(self), *final(self), r),
    {
        if self.selected >= self.entries.len() {
            return false;
        }
        if !self.entries[self.selected].is_dir {
            return false;
        }
        let name = self.entries[self.selected].name.clone();
        if is_dot_dot(name.as_str()) {
            self.go_to_parent()
        } else {
            let joined = crate::service::join(self.current_dir.as_str(), name.as_str());
            self.current_dir = normalize(joined.as_str());
            self.selected = 0;
            true
        }
    }

    /// Moves to `path`, where `is_dir` says it is an existing directory.
    /// True where it moved: the caller then lists the new directory.
    pub fn change_dir(&mut self, path: &str, is_dir: bool) -> (r: bool)
        ensures
            changed_to(*old(self), *final(self), path@, is_dir, r),
    {
        if is_dir {
            self.current_dir = normalize(path);
            self.selected = 0;
            true
        } else {
            false
        }
    }

    /// Selects the entry above, where there is one.
    pub fn previous(&mut self)
        ensures
            *final(self) == (FileBrowser {
                selected: if old(self).selected > 0 {
                    (old(self).selected - 1) as usize
                } else {
                    old(self).selected
                },
                ..*old(self)
            }),
    {
        if self.selected > 0 {
            self.selected -= 1;
        }
    }

    /// Selects the entry below, where there is one.
    pub fn next(&mut self)
        ensures
            *final(self) == (FileBrowser {
                selected: if old(self).selected + 1 < old(self).entries@.len() {
                    (old(self).selected + 1) as usize
                } else {
                    old(self).selected
                },
                ..*old(self)
            }),
    {
        if self.entries.len() > 0 && self.selected < self.entries.len() - 1 {
            self.selected += 1;
        }
    }
}

/// `post` is `pre` after moving to the parent directory, which happens
/// (`r`) where there is one: the selection goes to the top and the
/// directory left is to be selected again once listed.
pub open spec fn went_up(pre: FileBrowser, post: FileBrowser, r: bool) -> bool {
    &&& r == has_parent(pre.current_dir@)
    &&& !r ==> post == pre
    &&& r ==> {
        &&& post.current_dir@ == parent_dir_spec(pre.current_dir@)
        &&& post.selected == 0
        &&& post.entries == pre.entries
        &&& post.error == pre.error
        &&& opt_chars(post.reselect) == file_name_spec(pre.current_dir@)
    }
}

/// `post` is `pre` after entering the selected entry where it is a
/// directory: `..` goes up (see `went_up`), any other directory is joined
/// to the current one and the result normalized.
pub open spec fn entered(pre: FileBrowser, post: FileBrowser, r: bool) -> bool {
    let ok = pre.selected < pre.entries@.len() && pre.entries@[pre.selected as int].is_dir;
    let name = pre.entries@[pre.selected as int].name@;
    &&& !ok ==> !r && post == pre
    &&& ok && name == dot_dot() ==> went_up(pre, post, r)
    &&& ok && name != dot_dot() ==> {
        &&& r
        &&& post.current_dir@ == normalize_spec(join_path(pre.current_dir@, name))
        &&& post.selected == 0
        &&& post.entries == pre.entries
        &&& post.error == pre.error
        &&& post.reselect == pre.reselect
    }
}

/// `post` is `pre` after moving to `path` where it is a directory.
pub open spec fn changed_to(pre: FileBrowser, post: FileBrowser, path: Seq<char>, is_dir: bool, r: bool) -> bool {
    &&& r == is_dir
    &&& !r ==> post == pre
    &&& r ==> {
        &&& post.current_dir@ == normalize_spec(path)
        &&& post.selected == 0
        &&& post.entries == pre.entries
        &&& post.error == pre.error
        &&& post.reselect == pre.reselect
    }
}

pub open spec fn opt_chars(o: Option<String>) -> Option<Seq<char>> {
    match o {
        Some(s) => Some(s@),
        None => None,
    }
}

} // verus!

verus! {

proof fn lemma_text_lt_asymmetric(a: Seq<char>, b: Seq<char>)
    ensures
        !(text_lt(a, b) && text_lt(b, a)),
    decreases a.len(),
{
    if a.len() > 0 && b.len() > 0 && a[0] == b[0] {
        lemma_text_lt_asymmetric(a.drop_first(), b.drop_first());
    }
}

proof fn lemma_text_lt_transitive(a: Seq<char>, b: Seq<char>, c: Seq<char>)
    requires
        text_lt(a, b),
        text_lt(b, c),
    ensures
        text_lt(a, c),
    decreases a.len(),
{
    if a.len() > 0 && b.len() > 0 && c.len() > 0 && a[0] == b[0] && b[0] == c[0] {
        lemma_text_lt_transitive(a.drop_first(), b.drop_first(), c.drop_first());
    }
}

proof fn lemma_sorts_after_order(a: FsEntry, b: FsEntry, c: FsEntry)
    ensures
        !(sorts_after(a, b) && sorts_after(b, a)),
        sorts_after(a, b) && sorts_after(b, c) ==> sorts_after(a, c),
{
    lemma_text_lt_asymmetric(str_lowercase(a.name@), str_lowercase(b.name@));
    if sorts_after(a, b) && sorts_after(b, c) && a.is_dir == b.is_dir && b.is_dir == c.is_dir {
        lemma_text_lt_transitive(str_lowercase(c.name@), str_lowercase(b.name@), str_lowercase(a.name@));
    }
}

/// No entry comes before one that it sorts after.
pub open spec fn in_listing_order(s: Seq<FsEntry>) -> bool {
    forall|i: int, j: int| 0 <= i < j < s.len() ==> !sorts_after(#[trigger] s[i], #[trigger] s[j])
}

proof fn lemma_singleton_multiset(x: FsEntry)
    ensures
        seq![x].to_multiset() =~= Multiset::<FsEntry>::empty().insert(x),
{
    broadcast use vstd::seq_lib::group_to_multiset_ensures;

    assert(seq![x] =~= Seq::<FsEntry>::empty().push(x));
    assert(Seq::<FsEntry>::empty().to_multiset() =~= Multiset::<FsEntry>::empty());
}

proof fn lemma_insert_sorted(s: Seq<FsEntry>, e: FsEntry)
    requires
        in_listing_order(s),
    ensures
        in_listing_order(insert_sorted(s, e)),
        insert_sorted(s, e).to_multiset() =~= s.to_multiset().insert(e),
    decreases s.len(),
{
    broadcast use vstd::seq_lib::group_to_multiset_ensures;
    broadcast use vstd::multiset::group_multiset_axioms;

    if s.len() == 0 {
        lemma_singleton_multiset(e);
        assert(s.to_multiset() =~= Multiset::<FsEntry>::empty());
    } else if sorts_after(s[0], e) {
        let r = seq![e] + s;
        assert forall|i: int, j: int| 0 <= i < j < r.len() implies !sorts_after(#[trigger] r[i], #[trigger] r[j]) by {
            if i == 0 {
                assert(r[j] == s[j - 1]);
                lemma_sorts_after_order(s[0], e, s[j - 1]);
                lemma_sorts_after_order(e, s[0], s[0]);
            } else {
                assert(r[i] == s[i - 1] && r[j] == s[j - 1]);
            }
        }
        vstd::seq_lib::lemma_multiset_commutative(seq![e], s);
        lemma_singleton_multiset(e);
    } else {
        let t = s.drop_first();
        assert(in_listing_order(t)) by {
            assert forall|i: int, j: int| 0 <= i < j < t.len() implies !sorts_after(#[trigger] t[i], #[trigger] t[j]) by {
                assert(t[i] == s[i + 1] && t[j] == s[j + 1]);
            }
        }
        lemma_insert_sorted(t, e);
        let it = insert_sorted(t, e);
        let r = seq![s[0]] + it;
        assert(r == insert_sorted(s, e));
        assert forall|i: int, j: int| 0 <= i < j < r.len() implies !sorts_after(#[trigger] r[i], #[trigger] r[j]) by {
            if i == 0 {
                let x = it[j - 1];
                assert(r[j] == x);
                assert(it.contains(x));
                assert(it.to_multiset().count(x) > 0);
                if x != e {
                    assert(t.to_multiset().count(x) > 0);
                    assert(t.contains(x));
                    let k = choose|k: int| 0 <= k < t.len() && t[k] == x;
                    assert(s[k + 1] == x);
                }
            } else {
                assert(r[i] == it[i - 1] && r[j] == it[j - 1]);
            }
        }
        vstd::seq_lib::lemma_multiset_commutative(seq![s[0]], it);
        vstd::seq_lib::lemma_multiset_commutative(seq![s[0]], t);
        lemma_singleton_multiset(s[0]);
        assert(s =~= seq![s[0]] + t);
    }
}

/// Sorting a listing keeps every entry, as often as it occurs, and puts it
/// in listing order: directories before files, and within each kind names
/// ascending without regard to case.
pub proof fn lemma_sorted_listing(s: Seq<FsEntry>)
    ensures
        sort_entries(s).to_multiset() =~= s.to_multiset(),
        in_listing_order(sort_entries(s)),
        forall|i: int, j: int|
            0 <= i < j < sort_entries(s).len() && (#[trigger] sort_entries(s)[j]).is_dir ==> (
            #[trigger] sort_entries(s)[i]).is_dir,
    decreases s.len(),
{
    broadcast use vstd::seq_lib::group_to_multiset_ensures;

    if s.len() == 0 {
        assert(s.to_multiset() =~= Multiset::<FsEntry>::empty());
        assert(sort_entries(s).to_multiset() =~= Multiset::<FsEntry>::empty());
    } else {
        lemma_sorted_listing(s.drop_last());
        lemma_insert_sorted(sort_entries(s.drop_last()), s.last());
        assert(s.drop_last().push(s.last()) =~= s);
    }
    let r = sort_entries(s);
    assert forall|i: int, j: int| 0 <= i < j < r.len() && (#[trigger] r[j]).is_dir implies (#[trigger] r[i]).is_dir by {
        assert(!sorts_after(r[i], r[j]));
    }
}

} // verus!

verus! {

/// A path component as splitting yields it: not empty, not `.`, no `/`.
pub open spec fn clean_part(p: Seq<char>) -> bool {
    p.len() > 0 && p != seq!['.'] && forall|i: int| 0 <= i < p.len() ==> p[i] != '/'
}

pub open spec fn all_clean(parts: Seq<Seq<char>>) -> bool {
    forall|i: int| 0 <= i < parts.len() ==> clean_part(#[trigger] parts[i])
}

/// A stack of components as normalizing leaves it: clean components, with
/// `..` only first and only in a relative path.
pub open spec fn reduced(stack: Seq<Seq<char>>, abs: bool) -> bool {
    &&& all_clean(stack)
    &&& forall|i: int| 0 <= i < stack.len() && #[trigger] stack[i] == dot_dot() ==> i == 0 && !abs
}

/// A path that normalizing leaves as it is.
pub open spec fn is_normal(s: Seq<char>) -> bool {
    normalize_spec(s) == s
}

proof fn lemma_parts_no_slash(x: Seq<char>, y: Seq<char>, cur: Seq<char>)
    requires
        forall|i: int| 0 <= i < x.len() ==> x[i] != '/',
    ensures
        parts_from(x + y, cur) == parts_from(y, cur + x),
    decreases x.len(),
{
    if x.len() == 0 {
        assert(x + y =~= y);
        assert(cur + x =~= cur);
    } else {
        assert((x + y)[0] == x[0]);
        assert((x + y).drop_first() =~= x.drop_first() + y);
        assert(cur.push(x[0]) + x.drop_first() =~= cur + x);
        lemma_parts_no_slash(x.drop_first(), y, cur.push(x[0]));
    }
}

proof fn lemma_parts_clean(s: Seq<char>, cur: Seq<char>)
    requires
        forall|i: int| 0 <= i < cur.len() ==> cur[i] != '/',
    ensures
        all_clean(parts_from(s, cur)),
    decreases s.len(),
{
    if s.len() == 0 {
    } else if s[0] == '/' {
        lemma_parts_clean(s.drop_first(), seq![]);
        let a = part_of(cur);
        let b = parts_from(s.drop_first(), seq![]);
        assert forall|i: int| 0 <= i < (a + b).len() implies clean_part(#[trigger] (a + b)[i]) by {
            if i >= a.len() {
                assert((a + b)[i] == b[i - a.len()]);
            }
        }
    } else {
        lemma_parts_clean(s.drop_first(), cur.push(s[0]));
    }
}

proof fn lemma_join_front(parts: Seq<Seq<char>>)
    requires
        parts.len() >= 2,
    ensures
        join_parts(parts) == parts[0] + seq!['/'] + join_parts(parts.drop_first()),
    decreases parts.len(),
{
    let t = parts.drop_first();
    if parts.len() == 2 {
        assert(parts.drop_last() =~= seq![parts[0]]);
        assert(t =~= seq![parts[1]]);
        assert(join_parts(parts.drop_last()) == parts[0]);
        assert(join_parts(t) == parts[1]);
        assert(parts.last() == parts[1]);
        assert(join_parts(parts) =~= parts[0] + seq!['/'] + join_parts(t));
    } else {
        let p = parts.drop_last();
        lemma_join_front(p);
        assert(p.drop_first() =~= t.drop_last());
        assert(t.last() == parts.last());
        assert(join_parts(parts) =~= parts[0] + seq!['/'] + join_parts(t));
    }
}

proof fn lemma_parts_of_join(parts: Seq<Seq<char>>)
    requires
        all_clean(parts),
    ensures
        path_parts(join_parts(parts)) == parts,
        parts.len() > 0 ==> join_parts(parts).len() > 0 && join_parts(parts)[0] == parts[0][0],
    decreases parts.len(),
{
    if parts.len() == 0 {
        assert(part_of(seq![]) =~= Seq::<Seq<char>>::empty());
    } else if parts.len() == 1 {
        let a = parts[0];
        lemma_parts_no_slash(a, seq![], seq![]);
        assert(a + Seq::<char>::empty() =~= a);
        assert(Seq::<char>::empty() + a =~= a);
        assert(parts =~= seq![a]);
    } else {
        let a = parts[0];
        let t = parts.drop_first();
        assert forall|i: int| 0 <= i < t.len() implies clean_part(#[trigger] t[i]) by {
            assert(t[i] == parts[i + 1]);
        }
        lemma_parts_of_join(t);
        lemma_join_front(parts);
        let rest = seq!['/'] + join_parts(t);
        assert(a + seq!['/'] + join_parts(t) =~= a + rest);
        lemma_parts_no_slash(a, rest, seq![]);
        assert(Seq::<char>::empty() + a =~= a);
        assert(rest[0] == '/');
        assert(rest.drop_first() =~= join_parts(t));
        assert(parts_from(rest, a) == part_of(a) + parts_from(join_parts(t), seq![]));
        assert(part_of(a) =~= seq![a]);
        assert(parts =~= seq![a] + t);
        assert((a + rest)[0] == a[0]);
    }
}

proof fn lemma_parts_of_render(abs: bool, parts: Seq<Seq<char>>)
    requires
        all_clean(parts),
    ensures
        path_parts(render_path(abs, parts)) == parts,
        is_absolute(render_path(abs, parts)) == abs,
{
    lemma_parts_of_join(parts);
    if abs {
        let j = join_parts(parts);
        assert((seq!['/'] + j)[0] == '/');
        assert((seq!['/'] + j).drop_first() =~= j);
        assert(part_of(seq![]) =~= Seq::<Seq<char>>::empty());
        assert(parts_from(seq!['/'] + j, seq![]) =~= parts_from(j, seq![]));
    }
}

proof fn lemma_push_reduced(acc: Seq<Seq<char>>, parts: Seq<Seq<char>>, abs: bool)
    requires
        reduced(acc, abs),
        all_clean(parts),
    ensures
        reduced(push_parts(acc, parts, abs), abs),
    decreases parts.len(),
{
    if parts.len() > 0 {
        let next = step_part(acc, parts[0], abs);
        assert(clean_part(parts[0]));
        assert(reduced(next, abs)) by {
            if parts[0] == dot_dot() {
                if acc.len() > 0 {
                    assert forall|i: int| 0 <= i < next.len() implies clean_part(#[trigger] next[i]) by {
                        assert(next[i] == acc[i]);
                    }
                    assert forall|i: int| 0 <= i < next.len() && #[trigger] next[i] == dot_dot() implies i == 0
                        && !abs by {
                        assert(next[i] == acc[i]);
                    }
                }
            } else {
                assert forall|i: int| 0 <= i < next.len() implies clean_part(#[trigger] next[i]) by {
                    if i < acc.len() {
                        assert(next[i] == acc[i]);
                    }
                }
                assert forall|i: int| 0 <= i < next.len() && #[trigger] next[i] == dot_dot() implies i == 0
                    && !abs by {
                    if i < acc.len() {
                        assert(next[i] == acc[i]);
                    }
                }
            }
        }
        let t = parts.drop_first();
        assert forall|i: int| 0 <= i < t.len() implies clean_part(#[trigger] t[i]) by {
            assert(t[i] == parts[i + 1]);
        }
        lemma_push_reduced(next, t, abs);
    }
}

proof fn lemma_push_reduced_fixed(s: Seq<Seq<char>>, k: int, abs: bool)
    requires
        reduced(s, abs),
        0 <= k <= s.len(),
    ensures
        push_parts(s.take(k), s.skip(k), abs) == s,
    decreases s.len() - k,
{
    if k == s.len() {
        assert(s.take(k) =~= s);
    } else {
        let rest = s.skip(k);
        assert(rest[0] == s[k]);
        assert(rest.drop_first() =~= s.skip(k + 1));
        if s[k] == dot_dot() {
            assert(k == 0 && !abs);
            assert(s.take(0) =~= Seq::<Seq<char>>::empty());
            assert(step_part(s.take(0), s[0], abs) =~= s.take(1));
        } else {
            assert(step_part(s.take(k), s[k], abs) =~= s.take(k + 1));
        }
        lemma_push_reduced_fixed(s, k + 1, abs);
    }
}

/// Writing a path from components and resolving them again gives a path
/// that normalizing leaves as it is.
proof fn lemma_rendered_normal(abs: bool, parts: Seq<Seq<char>>)
    requires
        all_clean(parts),
    ensures
        is_normal(render_path(abs, push_parts(seq![], parts, abs))),
{
    let e = Seq::<Seq<char>>::empty();
    assert(reduced(e, abs));
    lemma_push_reduced(e, parts, abs);
    let st = push_parts(e, parts, abs);
    lemma_parts_of_render(abs, st);
    lemma_push_reduced_fixed(st, 0, abs);
    assert(st.take(0) =~= e);
    assert(st.skip(0) =~= st);
}

/// Normalizing is idempotent: a normalized path is its own normal form.
pub proof fn lemma_normalize_idempotent(s: Seq<char>)
    ensures
        is_normal(normalize_spec(s)),
{
    lemma_parts_clean(s, seq![]);
    lemma_rendered_normal(is_absolute(s), path_parts(s));
}

/// The browser's directory stays normalized: entering a directory, moving
/// to the parent and changing directory each leave a normalized path.
pub proof fn lemma_moves_stay_normal(
    pre: FileBrowser,
    post: FileBrowser,
    r: bool,
    path: Seq<char>,
    is_dir: bool,
)
    requires
        is_normal(pre.current_dir@),
    ensures
        entered(pre, post, r) ==> is_normal(post.current_dir@),
        went_up(pre, post, r) ==> is_normal(post.current_dir@),
        changed_to(pre, post, path, is_dir, r) ==> is_normal(post.current_dir@),
{
    let s = pre.current_dir@;
    let ps = path_parts(s);
    lemma_parts_clean(s, seq![]);
    assert forall|i: int| 0 <= i < parent_parts(ps).len() implies clean_part(#[trigger] parent_parts(ps)[i]) by {
        assert(parent_parts(ps)[i] == ps[i]);
    }
    lemma_rendered_normal(is_absolute(s), parent_parts(ps));
    if pre.selected < pre.entries@.len() {
        lemma_normalize_idempotent(join_path(s, pre.entries@[pre.selected as int].name@));
    }
    lemma_normalize_idempotent(path);
}

/// The normal form of a path: it is absolute where the path is; its
/// components are those of the path with `..` resolved, none empty, none
/// `.`, none holding `/`; `..` stands only first and only in a relative
/// path, so an absolute path normalizes to one without `.` or `..`.
pub proof fn lemma_normal_form(s: Seq<char>)
    ensures
        is_absolute(normalize_spec(s)) == is_absolute(s),
        path_parts(normalize_spec(s)) == push_parts(seq![], path_parts(s), is_absolute(s)),
        reduced(path_parts(normalize_spec(s)), is_absolute(s)),
        is_absolute(s) ==> forall|i: int|
            0 <= i < path_parts(normalize_spec(s)).len() ==> #[trigger] path_parts(normalize_spec(s))[i]
                != dot_dot() && path_parts(normalize_spec(s))[i] != seq!['.'],
{
    let abs = is_absolute(s);
    lemma_parts_clean(s, seq![]);
    let e = Seq::<Seq<char>>::empty();
    assert(reduced(e, abs));
    lemma_push_reduced(e, path_parts(s), abs);
    lemma_parts_of_render(abs, push_parts(e, path_parts(s), abs));
    let ps = path_parts(normalize_spec(s));
    assert forall|i: int| 0 <= i < ps.len() && abs implies #[trigger] ps[i] != dot_dot() && ps[i] != seq!['.'] by {
        assert(clean_part(ps[i]));
    }
}

proof fn lemma_push_parts_snoc(acc: Seq<Seq<char>>, ps: Seq<Seq<char>>, x: Seq<char>, abs: bool)
    ensures
        push_parts(acc, ps.push(x), abs) == step_part(push_parts(acc, ps, abs), x, abs),
    decreases ps.len(),
{
    if ps.len() == 0 {
        assert(ps.push(x) =~= seq![x]);
        assert(seq![x].drop_first() =~= Seq::<Seq<char>>::empty());
        assert(seq![x][0] == x);
        assert(push_parts(step_part(acc, x, abs), Seq::<Seq<char>>::empty(), abs) == step_part(acc, x, abs));
        assert(push_parts(acc, ps, abs) == acc);
        assert(push_parts(acc, seq![x], abs) == push_parts(step_part(acc, x, abs), seq![x].drop_first(), abs));
    } else {
        assert(ps.push(x)[0] == ps[0]);
        assert(ps.push(x).drop_first() =~= ps.drop_first().push(x));
        lemma_push_parts_snoc(step_part(acc, ps[0], abs), ps.drop_first(), x, abs);
    }
}

proof fn lemma_join_render(abs: bool, st: Seq<Seq<char>>, n: Seq<char>)
    requires
        all_clean(st),
        clean_part(n),
    ensures
        join_path(render_path(abs, st), n) == render_path(abs, st.push(n)),
{
    reveal_strlit("/");
    assert("/"@ =~= seq!['/']);
    let base = render_path(abs, st);
    assert(n[0] != '/');
    if st.len() == 0 {
        assert(st.push(n) =~= seq![n]);
        assert(join_parts(seq![n]) == n);
        if abs {
            assert(base =~= seq!['/']);
        } else {
            assert(base =~= Seq::<char>::empty());
            assert(base + n =~= n);
        }
    } else {
        let j = join_parts(st);
        let l = st.last();
        assert(clean_part(st[st.len() - 1]));
        assert(l.len() > 0 && l[l.len() - 1] != '/');
        if st.len() == 1 {
            assert(j == st[0]);
        } else {
            assert(j == join_parts(st.drop_last()) + seq!['/'] + l);
        }
        assert(j.len() > 0 && j.last() == l.last());
        assert(st.push(n).drop_last() =~= st);
        assert(join_parts(st.push(n)) == j + seq!['/'] + n);
        if abs {
            assert(base == seq!['/'] + j);
            assert(base.last() == j.last());
            assert(seq!['/'] + j + "/"@ + n =~= seq!['/'] + (j + seq!['/'] + n));
        } else {
            assert(base == j);
            assert(j + "/"@ + n =~= j + seq!['/'] + n);
        }
    }
}

/// Entering a listed directory and then going up comes back to the same
/// directory, with that directory to be selected again; once the same
/// listing comes back, the cursor is where it was, unless an earlier
/// directory entry has the same name.
pub proof fn lemma_enter_then_up(pre: FileBrowser, mid: FileBrowser, post: FileBrowser, r1: bool, r2: bool)
    requires
        is_normal(pre.current_dir@),
        pre.selected < pre.entries@.len(),
        pre.entries@[pre.selected as int].is_dir,
        clean_part(pre.entries@[pre.selected as int].name@),
        pre.entries@[pre.selected as int].name@ != dot_dot(),
        entered(pre, mid, r1),
        went_up(mid, post, r2),
    ensures
        r1,
        r2,
        post.current_dir@ == pre.current_dir@,
        post.entries == pre.entries,
        opt_chars(post.reselect) == Some(pre.entries@[pre.selected as int].name@),
        (forall|k: int|
            0 <= k < pre.selected ==> !(#[trigger] pre.entries@[k].is_dir && pre.entries@[k].name@
                == pre.entries@[pre.selected as int].name@)) ==> selection_after(
            pre.entries@,
            post.selected,
            post.reselect,
        ) == pre.selected,
{
    let s = pre.current_dir@;
    let n = pre.entries@[pre.selected as int].name@;
    let abs = is_absolute(s);
    lemma_normal_form(s);
    let st = path_parts(s);
    assert(reduced(st, abs));
    assert(normalize_spec(s) == render_path(abs, st)) by {
        lemma_push_reduced_fixed(st, 0, abs);
        assert(st.take(0) =~= Seq::<Seq<char>>::empty());
        assert(st.skip(0) =~= st);
    }
    lemma_join_render(abs, st, n);
    let stn = st.push(n);
    assert(all_clean(stn)) by {
        assert forall|i: int| 0 <= i < stn.len() implies clean_part(#[trigger] stn[i]) by {
            if i < st.len() {
                assert(stn[i] == st[i]);
            }
        }
    }
    let m = render_path(abs, stn);
    lemma_parts_of_render(abs, stn);
    lemma_push_parts_snoc(seq![], st, n, abs);
    lemma_push_reduced_fixed(st, 0, abs);
    assert(st.take(0) =~= Seq::<Seq<char>>::empty());
    assert(st.skip(0) =~= st);
    assert(normalize_spec(m) == m);
    assert(mid.current_dir@ == m);
    assert(parent_parts(stn) =~= st);
    assert(file_name_spec(m) == Some(n));
    if forall|k: int|
        0 <= k < pre.selected ==> !(#[trigger] pre.entries@[k].is_dir && pre.entries@[k].name@ == n) {
        lemma_first_dir_named_at(pre.entries@, n, pre.selected as int);
    }
}

/// Listing a directory leaves the selection on one of its entries, where it
/// has any.
pub proof fn lemma_selection_in_listing(entries: Seq<FsEntry>, selected: usize, reselect: Option<String>)
    ensures
        entries.len() > 0 ==> selection_after(entries, selected, reselect) < entries.len(),
{
    match reselect {
        Some(n) => lemma_first_dir_named(entries, n@),
        None => {},
    }
}

} // verus!

verus! {

/// No two entries share a name.
pub open spec fn distinct_names(s: Seq<FsEntry>) -> bool {
    forall|i: int, j: int| 0 <= i < j < s.len() ==> (#[trigger] s[i]).name@ != (#[trigger] s[j]).name@
}

/// Every entry's name is one a directory can hold: a clean path part, not `..`.
pub open spec fn entry_names(s: Seq<FsEntry>) -> bool {
    forall|i: int| 0 <= i < s.len() ==> clean_part((#[trigger] s[i]).name@) && s[i].name@ != dot_dot()
}

proof fn lemma_shown_names(s: Seq<FsEntry>)
    requires
        distinct_names(s),
        entry_names(s),
    ensures
        distinct_names(shown_entries(s)),
        entry_names(shown_entries(s)),
        forall|i: int| 0 <= i < shown_entries(s).len() ==> s.contains(#[trigger] shown_entries(s)[i]),
    decreases s.len(),
{
    if s.len() > 0 {
        let t = s.drop_last();
        assert(distinct_names(t)) by {
            assert forall|i: int, j: int| 0 <= i < j < t.len() implies (#[trigger] t[i]).name@ != (#[trigger] t[j]).name@ by {
                assert(t[i] == s[i] && t[j] == s[j]);
            }
        }
        assert(entry_names(t)) by {
            assert forall|i: int| 0 <= i < t.len() implies clean_part((#[trigger] t[i]).name@) && t[i].name@ != dot_dot() by {
                assert(t[i] == s[i]);
            }
        }
        lemma_shown_names(t);
        let r = shown_entries(t);
        let f = shown_entries(s);
        assert forall|i: int| 0 <= i < r.len() implies (#[trigger] r[i]).name@ != s.last().name@ by {
            assert(t.contains(r[i]));
            let k = choose|k: int| 0 <= k < t.len() && t[k] == r[i];
            assert(s[k] == t[k]);
            assert(s[s.len() - 1] == s.last());
        }
        assert forall|i: int| 0 <= i < f.len() implies s.contains(#[trigger] f[i]) by {
            if i < r.len() {
                assert(f[i] == r[i]);
                let k = choose|k: int| 0 <= k < t.len() && t[k] == r[i];
                assert(s[k] == t[k]);
            } else {
                assert(s[s.len() - 1] == s.last());
            }
        }
        assert forall|i: int| 0 <= i < f.len() implies clean_part((#[trigger] f[i]).name@) && f[i].name@ != dot_dot() by {
            if i < r.len() {
                assert(f[i] == r[i]);
            } else {
                assert(s[s.len() - 1] == s.last());
            }
        }
        assert forall|i: int, j: int| 0 <= i < j < f.len() implies (#[trigger] f[i]).name@ != (#[trigger] f[j]).name@ by {
            if j < r.len() {
                assert(f[i] == r[i] && f[j] == r[j]);
            } else {
                assert(f[i] == r[i]);
            }
        }
    }
}

proof fn lemma_insert_names(s: Seq<FsEntry>, e: FsEntry)
    requires
        distinct_names(s),
        entry_names(s),
        clean_part(e.name@),
        e.name@ != dot_dot(),
        forall|k: int| 0 <= k < s.len() ==> (#[trigger] s[k]).name@ != e.name@,
    ensures
        distinct_names(insert_sorted(s, e)),
        entry_names(insert_sorted(s, e)),
        forall|i: int|
            0 <= i < insert_sorted(s, e).len() ==> #[trigger] insert_sorted(s, e)[i] == e || s.contains(
                insert_sorted(s, e)[i],
            ),
    decreases s.len(),
{
    if s.len() == 0 {
    } else if sorts_after(s[0], e) {
        let r = seq![e] + s;
        assert forall|i: int| 0 <= i < r.len() implies #[trigger] r[i] == e || s.contains(r[i]) by {
            if i > 0 {
                assert(r[i] == s[i - 1]);
            }
        }
        assert forall|i: int| 0 <= i < r.len() implies clean_part((#[trigger] r[i]).name@) && r[i].name@ != dot_dot() by {
            if i > 0 {
                assert(r[i] == s[i - 1]);
            }
        }
        assert forall|i: int, j: int| 0 <= i < j < r.len() implies (#[trigger] r[i]).name@ != (#[trigger] r[j]).name@ by {
            assert(r[j] == s[j - 1]);
            if i > 0 {
                assert(r[i] == s[i - 1]);
            }
        }
    } else {
        let t = s.drop_first();
        assert(distinct_names(t)) by {
            assert forall|i: int, j: int| 0 <= i < j < t.len() implies (#[trigger] t[i]).name@ != (#[trigger] t[j]).name@ by {
                assert(t[i] == s[i + 1] && t[j] == s[j + 1]);
            }
        }
        assert(entry_names(t)) by {
            assert forall|i: int| 0 <= i < t.len() implies clean_part((#[trigger] t[i]).name@) && t[i].name@ != dot_dot() by {
                assert(t[i] == s[i + 1]);
            }
        }
        assert forall|k: int| 0 <= k < t.len() implies (#[trigger] t[k]).name@ != e.name@ by {
            assert(t[k] == s[k + 1]);
        }
        lemma_insert_names(t, e);
        let it = insert_sorted(t, e);
        let r = seq![s[0]] + it;
        assert(r == insert_sorted(s, e));
        assert forall|i: int| 0 <= i < r.len() implies #[trigger] r[i] == e || s.contains(r[i]) by {
            if i > 0 {
                assert(r[i] == it[i - 1]);
                if it[i - 1] != e {
                    let k = choose|k: int| 0 <= k < t.len() && t[k] == it[i - 1];
                    assert(s[k + 1] == t[k]);
                }
            } else {
                assert(s[0] == r[0]);
            }
        }
        assert forall|i: int| 0 <= i < r.len() implies clean_part((#[trigger] r[i]).name@) && r[i].name@ != dot_dot() by {
            if i > 0 {
                assert(r[i] == it[i - 1]);
            }
        }
        assert forall|i: int, j: int| 0 <= i < j < r.len() implies (#[trigger] r[i]).name@ != (#[trigger] r[j]).name@ by {
            assert(r[j] == it[j - 1]);
            if i > 0 {
                assert(r[i] == it[i - 1]);
            } else if it[j - 1] != e {
                let k = choose|k: int| 0 <= k < t.len() && t[k] == it[j - 1];
                assert(s[k + 1] == t[k]);
            }
        }
    }
}

proof fn lemma_sort_names(s: Seq<FsEntry>)
    requires
        distinct_names(s),
        entry_names(s),
    ensures
        distinct_names(sort_entries(s)),
        entry_names(sort_entries(s)),
        forall|i: int| 0 <= i < sort_entries(s).len() ==> s.contains(#[trigger] sort_entries(s)[i]),
    decreases s.len(),
{
    if s.len() > 0 {
        let t = s.drop_last();
        assert(distinct_names(t)) by {
            assert forall|i: int, j: int| 0 <= i < j < t.len() implies (#[trigger] t[i]).name@ != (#[trigger] t[j]).name@ by {
                assert(t[i] == s[i] && t[j] == s[j]);
            }
        }
        assert(entry_names(t)) by {
            assert forall|i: int| 0 <= i < t.len() implies clean_part((#[trigger] t[i]).name@) && t[i].name@ != dot_dot() by {
                assert(t[i] == s[i]);
            }
        }
        lemma_sort_names(t);
        let st = sort_entries(t);
        let e = s.last();
        assert(s[s.len() - 1] == e);
        assert forall|k: int| 0 <= k < st.len() implies (#[trigger] st[k]).name@ != e.name@ by {
            assert(t.contains(st[k]));
            let m = choose|m: int| 0 <= m < t.len() && t[m] == st[k];
            assert(s[m] == t[m]);
        }
        lemma_insert_names(st, e);
        let f = sort_entries(s);
        assert forall|i: int| 0 <= i < f.len() implies s.contains(#[trigger] f[i]) by {
            if f[i] != e {
                assert(st.contains(f[i]));
                let k = choose|k: int| 0 <= k < st.len() && st[k] == f[i];
                assert(t.contains(st[k]));
                let m = choose|m: int| 0 <= m < t.len() && t[m] == st[k];
                assert(s[m] == t[m]);
            }
        }
    }
}

/// A listing of a directory whose entries have names a directory can hold,
/// each once, shows each name once (besides `..`), and never `..` but as
/// the first entry.
pub proof fn lemma_listing_names(path: Seq<char>, raw: Seq<FsEntry>, entries: Seq<FsEntry>)
    requires
        listed(path, raw, entries),
        distinct_names(raw),
        entry_names(raw),
    ensures
        distinct_names(entries),
        forall|i: int|
            0 <= i < entries.len() && (#[trigger] entries[i]).name@ != dot_dot() ==> clean_part(entries[i].name@),
{
    lemma_shown_names(raw);
    lemma_sort_names(shown_entries(raw));
    let sorted = sort_entries(shown_entries(raw));
    if has_parent(path) {
        reveal_strlit("..");
        assert(".."@ =~= dot_dot());
        assert forall|i: int| 1 <= i < entries.len() implies #[trigger] entries[i] == sorted[i - 1] by {
            assert(entries.skip(1)[i - 1] == entries[i]);
        }
        assert forall|i: int, j: int| 0 <= i < j < entries.len() implies (#[trigger] entries[i]).name@
            != (#[trigger] entries[j]).name@ by {
            assert(entries[j] == sorted[j - 1]);
            if i > 0 {
                assert(entries[i] == sorted[i - 1]);
            }
        }
        assert forall|i: int| 0 <= i < entries.len() && (#[trigger] entries[i]).name@ != dot_dot() implies clean_part(
            entries[i].name@,
        ) by {
            if i > 0 {
                assert(entries[i] == sorted[i - 1]);
            }
        }
    }
}

/// Browsing a listed directory: entering a directory it shows and going
/// back up returns to the same directory, and once it is listed again the
/// same way the cursor is back on that directory.
pub proof fn lemma_listed_enter_then_up(
    pre: FileBrowser,
    raw: Seq<FsEntry>,
    mid: FileBrowser,
    post: FileBrowser,
    r1: bool,
    r2: bool,
)
    requires
        is_normal(pre.current_dir@),
        listed(pre.current_dir@, raw, pre.entries@),
        distinct_names(raw),
        entry_names(raw),
        pre.selected < pre.entries@.len(),
        pre.entries@[pre.selected as int].is_dir,
        pre.entries@[pre.selected as int].name@ != dot_dot(),
        entered(pre, mid, r1),
        went_up(mid, post, r2),
    ensures
        r1,
        r2,
        post.current_dir@ == pre.current_dir@,
        selection_after(pre.entries@, post.selected, post.reselect) == pre.selected,
{
    lemma_listing_names(pre.current_dir@, raw, pre.entries@);
    let n = pre.entries@[pre.selected as int].name@;
    assert forall|k: int| 0 <= k < pre.selected implies !(#[trigger] pre.entries@[k].is_dir && pre.entries@[k].name@
        == n) by {
        assert(pre.entries@[k].name@ != pre.entries@[pre.selected as int].name@);
    }
    lemma_enter_then_up(pre, mid, post, r1, r2);
}

} // verus!

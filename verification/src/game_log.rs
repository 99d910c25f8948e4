//! Where the game log is: candidate paths from the environment, a manual
//! setting, Steam library folders and a scan of drive letters.
//!
//! Paths are Windows paths held as text.

use vstd::prelude::*;
use crate::text::{
    all_digits, chars_eq, chars_of, concat, is_ascii_digit_exec, opt_str, spec_lines,
    split_lines, str_views, string_from, trim, trim_exec,
};

verus! {

/// The log path used when no candidate exists.
pub open spec fn spec_default_log_path() -> Seq<char> {
    "D:\\SteamLibrary\\steamapps\\common\\Torchlight Infinite\\UE_game\\TorchLight\\Saved\\Logs\\UE_game.log"@
}

/// The default Steam location of the game log.
pub fn default_log_path() -> (r: String)
    ensures
        r@ == spec_default_log_path(),
{
    "D:\\SteamLibrary\\steamapps\\common\\Torchlight Infinite\\UE_game\\TorchLight\\Saved\\Logs\\UE_game.log".to_owned()
}

// ---------------------------------------------------------------------------
// Case-insensitive path comparison
// ---------------------------------------------------------------------------

/// `u8::to_ascii_lowercase` lifted to characters.
pub open spec fn ascii_lower(c: char) -> char {
    if 'A' <= c && c <= 'Z' {
        ((c as u32) + 32) as char
    } else {
        c
    }
}

/// `str::eq_ignore_ascii_case`.
pub open spec fn eq_ignore_ascii_case(a: Seq<char>, b: Seq<char>) -> bool {
    a.len() == b.len() && forall|i: int| 0 <= i < a.len() ==> ascii_lower(#[trigger] a[i]) == ascii_lower(b[i])
}

fn ascii_lower_exec(c: char) -> (r: char)
    ensures
        r == ascii_lower(c),
{
    if 'A' <= c && c <= 'Z' {
        let n = (c as u32 + 32) as u8;
        n as char
    } else {
        c
    }
}

fn eq_ignore_ascii_case_chars(a: &[char], b: &[char]) -> (r: bool)
    ensures
        r == eq_ignore_ascii_case(a@, b@),
{
    if a.len() != b.len() {
        return false;
    }
    let mut i: usize = 0;
    while i < a.len()
        invariant
            a@.len() == b@.len(),
            i <= a@.len(),
            forall|k: int| 0 <= k < i ==> ascii_lower(#[trigger] a@[k]) == ascii_lower(b@[k]),
        decreases a@.len() - i,
    {
        if ascii_lower_exec(a[i]) != ascii_lower_exec(b[i]) {
            return false;
        }
        i += 1;
    }
    true
}

/// Whether two paths are the same text up to ASCII case.
pub fn path_eq_ignore_ascii_case(left: &str, right: &str) -> (r: bool)
    ensures
        r == eq_ignore_ascii_case(left@, right@),
{
    let a = chars_of(left);
    let b = chars_of(right);
    eq_ignore_ascii_case_chars(a.as_slice(), b.as_slice())
}

/// `path` joins `paths` unless an equal path (up to ASCII case) is there.
pub open spec fn push_unique(paths: Seq<Seq<char>>, path: Seq<char>) -> Seq<Seq<char>> {
    if exists|i: int| 0 <= i < paths.len() && eq_ignore_ascii_case(#[trigger] paths[i], path) {
        paths
    } else {
        paths.push(path)
    }
}

/// Adds `path` unless an equal path (up to ASCII case) is already listed.
pub fn push_unique_path(paths: &mut Vec<String>, path: String)
    ensures
        str_views(final(paths)@) == push_unique(str_views(old(paths)@), path@),
{
    let pc = chars_of(path.as_str());
    let mut i: usize = 0;
    while i < paths.len()
        invariant
            i <= paths@.len(),
            pc@ == path@,
            forall|k: int| 0 <= k < i ==> !eq_ignore_ascii_case(#[trigger] str_views(paths@)[k], path@),
        decreases paths@.len() - i,
    {
        let e = chars_of(paths[i].as_str());
        if eq_ignore_ascii_case_chars(e.as_slice(), pc.as_slice()) {
            assert(str_views(paths@)[i as int] == paths@[i as int]@);
            return;
        }
        i += 1;
    }
    let ghost before = str_views(paths@);
    paths.push(path);
    assert(str_views(paths@) =~= before.push(path@));
}

// ---------------------------------------------------------------------------
// Windows paths
// ---------------------------------------------------------------------------

/// A drive prefix and nothing else, such as `C:`.
pub open spec fn is_bare_drive(base: Seq<char>) -> bool {
    base.len() == 2 && base[1] == ':' && (('A' <= base[0] && base[0] <= 'Z') || ('a' <= base[0]
        && base[0] <= 'z'))
}

/// `PathBuf::join` for a relative component on Windows: a `\` is inserted
/// unless `base` is empty, is a bare drive such as `C:`, or already ends
/// with a separator.
pub open spec fn join_path(base: Seq<char>, component: Seq<char>) -> Seq<char> {
    if base.len() == 0 {
        component
    } else if base.last() == '\\' || base.last() == '/' || is_bare_drive(base) {
        base + component
    } else {
        base + seq!['\\'] + component
    }
}

pub fn join_path_exec(base: &str, component: &str) -> (r: String)
    ensures
        r@ == join_path(base@, component@),
{
    let b = chars_of(base);
    let c = chars_of(component);
    let n = b.len();
    if n == 0 {
        return string_from(c.as_slice());
    }
    let bare_drive = n == 2 && b[1] == ':' && (('A' <= b[0] && b[0] <= 'Z') || ('a' <= b[0]
        && b[0] <= 'z'));
    if b[n - 1] == '\\' || b[n - 1] == '/' || bare_drive {
        let all = concat(b.as_slice(), c.as_slice());
        return string_from(all.as_slice());
    }
    let sep = vec!['\\'];
    let b1 = concat(b.as_slice(), sep.as_slice());
    let all = concat(b1.as_slice(), c.as_slice());
    string_from(all.as_slice())
}

/// The game log under a Steam library root.
pub open spec fn log_under(root: Seq<char>) -> Seq<char> {
    let a = join_path(root, "steamapps"@);
    let b = join_path(a, "common"@);
    let c = join_path(b, "Torchlight Infinite"@);
    let d = join_path(c, "UE_game"@);
    let e = join_path(d, "TorchLight"@);
    let f = join_path(e, "Saved"@);
    let g = join_path(f, "Logs"@);
    join_path(g, "UE_game.log"@)
}

/// The game log path under a Steam library root.
pub fn log_under_root(root: &str) -> (r: String)
    ensures
        r@ == log_under(root@),
{
    let a = join_path_exec(root, "steamapps");
    let b = join_path_exec(a.as_str(), "common");
    let c = join_path_exec(b.as_str(), "Torchlight Infinite");
    let d = join_path_exec(c.as_str(), "UE_game");
    let e = join_path_exec(d.as_str(), "TorchLight");
    let f = join_path_exec(e.as_str(), "Saved");
    let g = join_path_exec(f.as_str(), "Logs");
    join_path_exec(g.as_str(), "UE_game.log")
}

/// The `libraryfolders.vdf` of a Steam installation.
pub open spec fn library_file_of(root: Seq<char>) -> Seq<char> {
    join_path(join_path(root, "steamapps"@), "libraryfolders.vdf"@)
}

/// The path of the Steam library list under a Steam installation.
pub fn library_file_path(root: &str) -> (r: String)
    ensures
        r@ == library_file_of(root@),
{
    let a = join_path_exec(root, "steamapps");
    join_path_exec(a.as_str(), "libraryfolders.vdf")
}

/// `X:\` for the `k`-th drive letter from `C`.
pub open spec fn drive_prefix(k: int) -> Seq<char> {
    seq![(('C' as u32) + k) as char, ':', '\\']
}

fn drive_prefix_exec(k: u8) -> (r: Vec<char>)
    requires
        k < 24,
    ensures
        r@ == drive_prefix(k as int),
{
    let c = (67u8 + k) as char;
    let mut v: Vec<char> = Vec::new();
    v.push(c);
    v.push(':');
    v.push('\\');
    assert(v@ =~= drive_prefix(k as int));
    v
}

/// Keeps the first of paths equal up to ASCII case, in order.
pub open spec fn unique_fold(acc: Seq<Seq<char>>, props: Seq<Seq<char>>) -> Seq<Seq<char>>
    decreases props.len(),
{
    if props.len() == 0 {
        acc
    } else {
        unique_fold(push_unique(acc, props[0]), props.drop_first())
    }
}

fn push_all_unique(paths: &mut Vec<String>, props: Vec<String>)
    ensures
        str_views(final(paths)@) == unique_fold(str_views(old(paths)@), str_views(props@)),
{
    let mut i: usize = 0;
    assert(str_views(props@).skip(0) =~= str_views(props@));
    while i < props.len()
        invariant
            i <= props@.len(),
            unique_fold(str_views(old(paths)@), str_views(props@)) == unique_fold(
                str_views(paths@),
                str_views(props@).skip(i as int),
            ),
        decreases props@.len() - i,
    {
        assert(str_views(props@).skip(i as int).drop_first() =~= str_views(props@).skip(i + 1));
        assert(str_views(props@).skip(i as int)[0] == props@[i as int]@);
        push_unique_path(paths, props[i].clone());
        i += 1;
    }
}

// ---------------------------------------------------------------------------
// Steam installations and libraries
// ---------------------------------------------------------------------------

/// Steam installations to look in: under the two Program Files folders, then
/// `Steam`, `Program Files (x86)\Steam` and `Program Files\Steam` on drives
/// `C` to `Z`.
pub open spec fn install_root_proposals(program_files_x86: Option<Seq<char>>, program_files: Option<
    Seq<char>,
>) -> Seq<Seq<char>> {
    let env = match program_files_x86 {
        Some(p) => seq![join_path(p, "Steam"@)],
        None => seq![],
    } + match program_files {
        Some(p) => seq![join_path(p, "Steam"@)],
        None => seq![],
    };
    env + Seq::new(
        72,
        |k: int|
            drive_prefix(k / 3) + if k % 3 == 0 {
                "Steam"@
            } else if k % 3 == 1 {
                "Program Files (x86)\\Steam"@
            } else {
                "Program Files\\Steam"@
            },
    )
}

/// The Steam installations to look in, without repeats; the two arguments
/// are the `ProgramFiles(x86)` and `ProgramFiles` variables.
pub fn steam_install_roots(program_files_x86: Option<String>, program_files: Option<String>) -> (r:
    Vec<String>)
    ensures
        str_views(r@) == unique_fold(
            seq![],
            install_root_proposals(opt_str(program_files_x86), opt_str(program_files)),
        ),
{
    let mut props: Vec<String> = Vec::new();
    if let Some(p) = &program_files_x86 {
        props.push(join_path_exec(p.as_str(), "Steam"));
    }
    if let Some(p) = &program_files {
        props.push(join_path_exec(p.as_str(), "Steam"));
    }
    let ghost env = str_views(props@);
    let tails = [chars_of("Steam"), chars_of("Program Files (x86)\\Steam"), chars_of("Program Files\\Steam")];
    let mut k: u8 = 0;
    while k < 24
        invariant
            k <= 24,
            tails@.len() == 3,
            tails@[0]@ == "Steam"@,
            tails@[1]@ == "Program Files (x86)\\Steam"@,
            tails@[2]@ == "Program Files\\Steam"@,
            str_views(props@) == env + install_root_proposals(
                opt_str(program_files_x86),
                opt_str(program_files),
            ).skip(env.len() as int).take(3 * k),
            env.len() == match program_files_x86 {
                Some(_) => 1int,
                None => 0int,
            } + match program_files {
                Some(_) => 1int,
                None => 0int,
            },
        decreases 24 - k,
    {
        let prefix = drive_prefix_exec(k);
        let mut t: usize = 0;
        while t < 3
            invariant
                t <= 3,
                k < 24,
                tails@.len() == 3,
                tails@[0]@ == "Steam"@,
                tails@[1]@ == "Program Files (x86)\\Steam"@,
                tails@[2]@ == "Program Files\\Steam"@,
                prefix@ == drive_prefix(k as int),
                str_views(props@) == env + install_root_proposals(
                    opt_str(program_files_x86),
                    opt_str(program_files),
                ).skip(env.len() as int).take(3 * k + t),
                env.len() == match program_files_x86 {
                    Some(_) => 1int,
                    None => 0int,
                } + match program_files {
                    Some(_) => 1int,
                    None => 0int,
                },
            decreases 3 - t,
        {
            let full = concat(prefix.as_slice(), tails[t].as_slice());
            let ghost before = str_views(props@);
            props.push(string_from(full.as_slice()));
            proof {
                let all = install_root_proposals(opt_str(program_files_x86), opt_str(program_files));
                let idx = 3 * k + t;
                assert(idx / 3 == k as int);
                assert(idx % 3 == t as int);
                assert(all.skip(env.len() as int)[idx] == full@);
                assert(str_views(props@) =~= before.push(full@));
                assert(env + all.skip(env.len() as int).take(idx + 1) =~= (env + all.skip(
                    env.len() as int,
                ).take(idx)).push(full@));
            }
            t += 1;
        }
        k += 1;
    }
    proof {
        let all = install_root_proposals(opt_str(program_files_x86), opt_str(program_files));
        assert(env + all.skip(env.len() as int).take(72) =~= all);
    }
    let mut roots: Vec<String> = Vec::new();
    assert(str_views(roots@) =~= seq![]);
    push_all_unique(&mut roots, props);
    roots
}


// ---------------------------------------------------------------------------
// libraryfolders.vdf
// ---------------------------------------------------------------------------

/// The state of a scan for quoted values.
pub struct QuoteScan {
    pub values: Seq<Seq<char>>,
    pub current: Seq<char>,
    pub in_quote: bool,
    pub escaped: bool,
}

/// One character: inside quotes a backslash takes the next character
/// literally, and a closing quote ends a value.
pub open spec fn quote_step(st: QuoteScan, c: char) -> QuoteScan {
    if st.escaped {
        QuoteScan { current: st.current.push(c), escaped: false, ..st }
    } else if st.in_quote && c == '\\' {
        QuoteScan { escaped: true, ..st }
    } else if c == '"' {
        if st.in_quote {
            QuoteScan { values: st.values.push(st.current), current: seq![], in_quote: false, ..st }
        } else {
            QuoteScan { in_quote: true, ..st }
        }
    } else if st.in_quote {
        QuoteScan { current: st.current.push(c), ..st }
    } else {
        st
    }
}

pub open spec fn quote_scan(s: Seq<char>) -> QuoteScan
    decreases s.len(),
{
    if s.len() == 0 {
        QuoteScan { values: seq![], current: seq![], in_quote: false, escaped: false }
    } else {
        quote_step(quote_scan(s.drop_last()), s.last())
    }
}

/// The complete quoted values of a line.
pub fn quoted_values(line: &str) -> (r: Vec<String>)
    ensures
        str_views(r@) == quote_scan(line@).values,
{
    let cs = chars_of(line);
    let mut values: Vec<String> = Vec::new();
    let mut current: Vec<char> = Vec::new();
    let mut in_quote = false;
    let mut escaped = false;
    let mut i: usize = 0;
    while i < cs.len()
        invariant
            i <= cs@.len(),
            cs@ == line@,
            ({
                let st = quote_scan(cs@.take(i as int));
                &&& str_views(values@) == st.values
                &&& current@ == st.current
                &&& in_quote == st.in_quote
                &&& escaped == st.escaped
            }),
        decreases cs@.len() - i,
    {
        assert(cs@.take(i + 1).drop_last() =~= cs@.take(i as int));
        assert(cs@.take(i + 1).last() == cs@[i as int]);
        let c = cs[i];
        if escaped {
            current.push(c);
            escaped = false;
        } else if in_quote && c == '\\' {
            escaped = true;
        } else if c == '"' {
            if in_quote {
                let ghost before = str_views(values@);
                values.push(string_from(current.as_slice()));
                assert(str_views(values@) =~= before.push(current@));
                current = Vec::new();
            }
            in_quote = !in_quote;
        } else if in_quote {
            current.push(c);
        }
        i += 1;
    }
    assert(cs@.take(cs@.len() as int) =~= cs@);
    values
}

/// `str::replace("\\\\", "\\")`: each pair of backslashes, scanning from the
/// left, becomes one.
pub open spec fn collapse_backslashes(s: Seq<char>) -> Seq<char>
    decreases s.len(),
{
    if s.len() == 0 {
        seq![]
    } else if s.len() >= 2 && s[0] == '\\' && s[1] == '\\' {
        seq!['\\'] + collapse_backslashes(s.skip(2))
    } else {
        seq![s[0]] + collapse_backslashes(s.skip(1))
    }
}

fn collapse_backslashes_exec(s: &[char]) -> (r: Vec<char>)
    ensures
        r@ == collapse_backslashes(s@),
{
    let mut out: Vec<char> = Vec::new();
    let n = s.len();
    let mut i: usize = 0;
    assert(s@.skip(0) =~= s@);
    while i < n
        invariant
            n == s@.len(),
            i <= n,
            out@ + collapse_backslashes(s@.skip(i as int)) == collapse_backslashes(s@),
        decreases n - i,
    {
        let ghost rest = s@.skip(i as int);
        if i + 1 < n && s[i] == '\\' && s[i + 1] == '\\' {
            assert(rest.skip(2) =~= s@.skip(i + 2));
            out.push('\\');
            assert(out@ + collapse_backslashes(s@.skip(i + 2)) =~= out@.drop_last() + collapse_backslashes(rest));
            i += 2;
        } else {
            assert(rest.skip(1) =~= s@.skip(i + 1));
            out.push(s[i]);
            assert(out@ + collapse_backslashes(s@.skip(i + 1)) =~= out@.drop_last() + collapse_backslashes(rest));
            i += 1;
        }
    }
    assert(collapse_backslashes(s@.skip(n as int)) =~= seq![]);
    assert(out@ + seq![] =~= out@);
    out
}

/// The library path that a line of `libraryfolders.vdf` names, if any:
/// `"path" "X"` or `"N" "X"` with `N` all digits.
pub open spec fn library_line_path(line: Seq<char>) -> Option<Seq<char>> {
    let values = quote_scan(line).values;
    if values.len() >= 2 && values[0] == "path"@ {
        Some(collapse_backslashes(values[1]))
    } else if values.len() == 2 && all_digits(values[0]) {
        Some(collapse_backslashes(values[1]))
    } else {
        None
    }
}

/// The library paths named by `lines`, in order.
pub open spec fn library_paths_named(lines: Seq<Seq<char>>) -> Seq<Seq<char>>
    decreases lines.len(),
{
    if lines.len() == 0 {
        seq![]
    } else {
        library_paths_named(lines.drop_last()) + match library_line_path(lines.last()) {
            Some(p) => seq![p],
            None => seq![],
        }
    }
}

fn library_line_path_exec(line: &str) -> (r: Option<String>)
    ensures
        opt_str(r) == library_line_path(line@),
{
    let values = quoted_values(line);
    let n = values.len();
    let path = chars_of("path");
    if n >= 2 {
        let v0 = chars_of(values[0].as_str());
        assert(v0@ == str_views(values@)[0]);
        assert(str_views(values@)[1] == values@[1]@);
        let v1 = chars_of(values[1].as_str());
        if chars_eq(v0.as_slice(), path.as_slice()) {
            let c = collapse_backslashes_exec(v1.as_slice());
            return Some(string_from(c.as_slice()));
        }
        if n == 2 {
            let mut all = true;
            let mut k: usize = 0;
            while k < v0.len()
                invariant
                    k <= v0@.len(),
                    all == (forall|m: int| 0 <= m < k ==> crate::text::is_ascii_digit(#[trigger] v0@[m])),
                decreases v0@.len() - k,
            {
                if !is_ascii_digit_exec(v0[k]) {
                    all = false;
                }
                k += 1;
            }
            if all {
                let c = collapse_backslashes_exec(v1.as_slice());
                return Some(string_from(c.as_slice()));
            }
        }
    }
    None
}

/// The library folders listed in a `libraryfolders.vdf`, without repeats.
pub fn parse_steam_library_paths(raw: &str) -> (r: Vec<String>)
    ensures
        str_views(r@) == unique_fold(seq![], library_paths_named(spec_lines(raw@))),
{
    let cs = chars_of(raw);
    let lines = split_lines(cs.as_slice());
    let mut named: Vec<String> = Vec::new();
    let mut i: usize = 0;
    while i < lines.len()
        invariant
            i <= lines@.len(),
            str_views(lines@) == spec_lines(raw@),
            str_views(named@) == library_paths_named(str_views(lines@).take(i as int)),
        decreases lines@.len() - i,
    {
        assert(str_views(lines@).take(i + 1).drop_last() =~= str_views(lines@).take(i as int));
        assert(str_views(lines@).take(i + 1).last() == lines@[i as int]@);
        let ghost before = str_views(named@);
        match library_line_path_exec(lines[i].as_str()) {
            Some(p) => {
                named.push(p);
                assert(str_views(named@) =~= library_paths_named(str_views(lines@).take(i + 1)));
            },
            None => {
                assert(before + seq![] =~= before);
            },
        }
        i += 1;
    }
    assert(str_views(lines@).take(lines@.len() as int) =~= str_views(lines@));
    let mut paths: Vec<String> = Vec::new();
    assert(str_views(paths@) =~= seq![]);
    push_all_unique(&mut paths, named);
    paths
}


pub open spec fn opt_strs(v: Seq<Option<String>>) -> Seq<Option<Seq<char>>> {
    v.map_values(|o: Option<String>| opt_str(o))
}

/// What `steam_library_roots` looks at, in order: each installation, then
/// the libraries its `libraryfolders.vdf` lists (when it could be read).
pub open spec fn library_root_proposals(roots: Seq<Seq<char>>, files: Seq<Option<Seq<char>>>) -> Seq<
    Seq<char>,
>
    decreases roots.len(),
{
    if roots.len() == 0 {
        seq![]
    } else {
        library_root_proposals(roots.drop_last(), files) + seq![roots.last()] + match files[roots.len()
            - 1] {
            Some(raw) => unique_fold(seq![], library_paths_named(spec_lines(raw))),
            None => seq![],
        }
    }
}

fn append_strings(out: &mut Vec<String>, more: Vec<String>)
    ensures
        str_views(final(out)@) == str_views(old(out)@) + str_views(more@),
{
    let mut i: usize = 0;
    while i < more.len()
        invariant
            i <= more@.len(),
            str_views(out@) == str_views(old(out)@) + str_views(more@).take(i as int),
        decreases more@.len() - i,
    {
        let ghost before = str_views(out@);
        out.push(more[i].clone());
        assert(str_views(out@) =~= before.push(more@[i as int]@));
        assert(str_views(old(out)@) + str_views(more@).take(i + 1) =~= before.push(more@[i as int]@));
        i += 1;
    }
    assert(str_views(more@).take(more@.len() as int) =~= str_views(more@));
}

/// Steam library folders, without repeats: each installation followed by
/// the libraries listed in its `libraryfolders.vdf`, whose text
/// `library_files[i]` holds for installation `i` when it could be read.
/// Some path of `paths` is `path` up to ASCII case.
pub open spec fn has_path(paths: Seq<Seq<char>>, path: Seq<char>) -> bool {
    exists|k: int| 0 <= k < paths.len() && eq_ignore_ascii_case(#[trigger] paths[k], path)
}

proof fn lemma_unique_fold_covers(acc: Seq<Seq<char>>, props: Seq<Seq<char>>)
    ensures
        acc.len() <= unique_fold(acc, props).len(),
        forall|i: int| 0 <= i < acc.len() ==> #[trigger] unique_fold(acc, props)[i] == acc[i],
        forall|j: int| 0 <= j < props.len() ==> has_path(unique_fold(acc, props), #[trigger] props[j]),
    decreases props.len(),
{
    if props.len() > 0 {
        let p0 = props[0];
        let next = push_unique(acc, p0);
        lemma_unique_fold_covers(next, props.drop_first());
        let out = unique_fold(acc, props);
        assert(out == unique_fold(next, props.drop_first()));
        assert(next.len() >= acc.len());
        assert forall|i: int| 0 <= i < acc.len() implies #[trigger] out[i] == acc[i] by {
            assert(next[i] == acc[i]);
            assert(out[i] == next[i]);
        }
        // the first proposal has a match in `next`, kept in place in `out`
        let k0: int = if exists|i: int| 0 <= i < acc.len() && eq_ignore_ascii_case(#[trigger] acc[i], p0) {
            choose|i: int| 0 <= i < acc.len() && eq_ignore_ascii_case(#[trigger] acc[i], p0)
        } else {
            acc.len() as int
        };
        assert(0 <= k0 < next.len());
        assert(eq_ignore_ascii_case(next[k0], p0)) by {
            if k0 == acc.len() {
                assert(next[k0] == p0);
            }
        }
        assert(out[k0] == next[k0]);
        assert(has_path(out, p0));
        assert forall|j: int| 0 <= j < props.len() implies has_path(out, #[trigger] props[j]) by {
            if j > 0 {
                assert(props[j] == props.drop_first()[j - 1]);
            }
        }
    }
}

proof fn lemma_proposals_hold_roots(roots: Seq<Seq<char>>, files: Seq<Option<Seq<char>>>)
    ensures
        roots.len() <= library_root_proposals(roots, files).len(),
        forall|i: int|
            0 <= i < roots.len() ==> library_root_proposals(roots, files).contains(#[trigger] roots[i]),
    decreases roots.len(),
{
    if roots.len() > 0 {
        let prev_roots = roots.drop_last();
        lemma_proposals_hold_roots(prev_roots, files);
        let prev = library_root_proposals(prev_roots, files);
        let all = library_root_proposals(roots, files);
        let tail = match files[roots.len() - 1] {
            Some(raw) => unique_fold(seq![], library_paths_named(spec_lines(raw))),
            None => seq![],
        };
        assert(all == prev + seq![roots.last()] + tail);
        assert forall|i: int| 0 <= i < roots.len() implies all.contains(#[trigger] roots[i]) by {
            if i == roots.len() - 1 {
                assert(all[prev.len() as int] == roots[i]);
            } else {
                assert(roots[i] == prev_roots[i]);
                assert(prev.contains(prev_roots[i]));
                let k = choose|k: int| 0 <= k < prev.len() && prev[k] == prev_roots[i];
                assert(all[k] == prev[k]);
            }
        }
    }
}

pub fn steam_library_roots(install_roots: &Vec<String>, library_files: &Vec<Option<String>>) -> (r:
    Vec<String>)
    requires
        library_files@.len() == install_roots@.len(),
    ensures
        str_views(r@) == unique_fold(
            seq![],
            library_root_proposals(str_views(install_roots@), opt_strs(library_files@)),
        ),
        forall|i: int|
            0 <= i < install_roots@.len() ==> has_path(str_views(r@), #[trigger] install_roots@[i]@),
{
    let mut props: Vec<String> = Vec::new();
    let mut i: usize = 0;
    while i < install_roots.len()
        invariant
            i <= install_roots@.len(),
            library_files@.len() == install_roots@.len(),
            str_views(props@) == library_root_proposals(
                str_views(install_roots@).take(i as int),
                opt_strs(library_files@),
            ),
        decreases install_roots@.len() - i,
    {
        let ghost roots_i = str_views(install_roots@).take(i + 1);
        assert(roots_i.drop_last() =~= str_views(install_roots@).take(i as int));
        assert(roots_i.last() == install_roots@[i as int]@);
        assert(opt_strs(library_files@)[i as int] == opt_str(library_files@[i as int]));
        let ghost before = str_views(props@);
        props.push(install_roots[i].clone());
        assert(str_views(props@) =~= before + seq![install_roots@[i as int]@]);
        match &library_files[i] {
            Some(raw) => {
                let found = parse_steam_library_paths(raw.as_str());
                append_strings(&mut props, found);
            },
            None => {
                assert(str_views(props@) + seq![] =~= str_views(props@));
            },
        }
        i += 1;
    }
    assert(str_views(install_roots@).take(install_roots@.len() as int) =~= str_views(install_roots@));
    let mut roots: Vec<String> = Vec::new();
    assert(str_views(roots@) =~= seq![]);
    push_all_unique(&mut roots, props);
    proof {
        let rv = str_views(install_roots@);
        let all = library_root_proposals(rv, opt_strs(library_files@));
        lemma_proposals_hold_roots(rv, opt_strs(library_files@));
        lemma_unique_fold_covers(seq![], all);
        assert forall|i: int| 0 <= i < install_roots@.len() implies has_path(
            str_views(roots@),
            #[trigger] install_roots@[i]@,
        ) by {
            assert(rv[i] == install_roots@[i]@);
            assert(all.contains(rv[i]));
            let k = choose|k: int| 0 <= k < all.len() && all[k] == rv[i];
            assert(has_path(unique_fold(seq![], all), all[k]));
        }
    }
    roots
}

// ---------------------------------------------------------------------------
// Candidates
// ---------------------------------------------------------------------------

/// A place the game log may be, and why it is considered.
pub struct GameLogCandidate {
    pub source: String,
    pub path: String,
}

pub open spec fn candidate_views(v: Seq<GameLogCandidate>) -> Seq<(Seq<char>, Seq<char>)> {
    v.map_values(|c: GameLogCandidate| (c.source@, c.path@))
}

proof fn lemma_candidate_views_push(v: Seq<GameLogCandidate>, c: GameLogCandidate)
    ensures
        candidate_views(v.push(c)) =~= candidate_views(v).push((c.source@, c.path@)),
{
}

proof fn lemma_take_push<A>(s: Seq<A>, n: int)
    requires
        0 <= n < s.len(),
    ensures
        s.take(n + 1) =~= s.take(n).push(s[n]),
{
}

/// Adds a candidate unless its path is already listed (up to ASCII case).
pub open spec fn push_candidate(cs: Seq<(Seq<char>, Seq<char>)>, c: (Seq<char>, Seq<char>)) -> Seq<
    (Seq<char>, Seq<char>),
> {
    if exists|i: int| 0 <= i < cs.len() && eq_ignore_ascii_case(#[trigger] cs[i].1, c.1) {
        cs
    } else {
        cs.push(c)
    }
}

pub open spec fn candidate_fold(acc: Seq<(Seq<char>, Seq<char>)>, props: Seq<(Seq<char>, Seq<char>)>) -> Seq<
    (Seq<char>, Seq<char>),
>
    decreases props.len(),
{
    if props.len() == 0 {
        acc
    } else {
        candidate_fold(push_candidate(acc, props[0]), props.drop_first())
    }
}

/// Adds a candidate unless its path is already listed (up to ASCII case).
pub fn push_log_candidate(candidates: &mut Vec<GameLogCandidate>, source: &str, path: String)
    ensures
        candidate_views(final(candidates)@) == push_candidate(
            candidate_views(old(candidates)@),
            (source@, path@),
        ),
{
    let pc = chars_of(path.as_str());
    let mut i: usize = 0;
    while i < candidates.len()
        invariant
            i <= candidates@.len(),
            pc@ == path@,
            forall|k: int|
                0 <= k < i ==> !eq_ignore_ascii_case(#[trigger] candidate_views(candidates@)[k].1, path@),
        decreases candidates@.len() - i,
    {
        let e = chars_of(candidates[i].path.as_str());
        if eq_ignore_ascii_case_chars(e.as_slice(), pc.as_slice()) {
            assert(candidate_views(candidates@)[i as int].1 == candidates@[i as int].path@);
            return;
        }
        i += 1;
    }
    let ghost before = candidate_views(candidates@);
    candidates.push(GameLogCandidate { source: source.to_owned(), path });
    assert(candidate_views(candidates@) =~= before.push((source@, path@)));
}

/// The drive-scan Steam roots: `SteamLibrary`, `Steam`,
/// `Program Files (x86)\Steam` and `Program Files\Steam` on drives `C` to `Z`.
pub open spec fn scan_root(k: int) -> Seq<char> {
    drive_prefix(k / 4) + if k % 4 == 0 {
        "SteamLibrary"@
    } else if k % 4 == 1 {
        "Steam"@
    } else if k % 4 == 2 {
        "Program Files (x86)\\Steam"@
    } else {
        "Program Files\\Steam"@
    }
}

/// The Steam-library candidates, one per root.
pub open spec fn library_candidates(steam_roots: Seq<Seq<char>>) -> Seq<(Seq<char>, Seq<char>)> {
    Seq::new(steam_roots.len(), |i: int| ("steam-libraryfolders"@, log_under(steam_roots[i])))
}

/// The drive-scan candidates.
pub open spec fn drive_scan_candidates() -> Seq<(Seq<char>, Seq<char>)> {
    Seq::new(96, |k: int| ("drive-scan"@, log_under(scan_root(k))))
}

fn push_library_candidates(props: &mut Vec<GameLogCandidate>, steam_roots: &Vec<String>)
    ensures
        candidate_views(final(props)@) == candidate_views(old(props)@) + library_candidates(
            str_views(steam_roots@),
        ),
{
    let ghost head = candidate_views(props@);
    let ghost all = head + library_candidates(str_views(steam_roots@));
    let mut i: usize = 0;
    while i < steam_roots.len()
        invariant
            i <= steam_roots@.len(),
            all == head + library_candidates(str_views(steam_roots@)),
            candidate_views(props@) == all.take(head.len() + i),
        decreases steam_roots@.len() - i,
    {
        let path = log_under_root(steam_roots[i].as_str());
        let c = GameLogCandidate { source: "steam-libraryfolders".to_owned(), path };
        proof {
            lemma_candidate_views_push(props@, c);
            lemma_take_push(all, head.len() + i);
        }
        props.push(c);
        proof {
            assert(all[head.len() + i] == ("steam-libraryfolders"@, log_under(str_views(steam_roots@)[i as int])));
            assert(candidate_views(props@) =~= all.take(head.len() + i + 1));
        }
        i += 1;
    }
    assert(all.take(all.len() as int) =~= all);
}

fn push_drive_scan_candidates(props: &mut Vec<GameLogCandidate>)
    ensures
        candidate_views(final(props)@) == candidate_views(old(props)@) + drive_scan_candidates(),
{
    let ghost head = candidate_views(props@);
    let ghost all = head + drive_scan_candidates();
    let tails = [
        chars_of("SteamLibrary"),
        chars_of("Steam"),
        chars_of("Program Files (x86)\\Steam"),
        chars_of("Program Files\\Steam"),
    ];
    let mut k: u8 = 0;
    while k < 24
        invariant
            k <= 24,
            tails@.len() == 4,
            tails@[0]@ == "SteamLibrary"@,
            tails@[1]@ == "Steam"@,
            tails@[2]@ == "Program Files (x86)\\Steam"@,
            tails@[3]@ == "Program Files\\Steam"@,
            all == head + drive_scan_candidates(),
            candidate_views(props@) == all.take(head.len() + 4 * k),
        decreases 24 - k,
    {
        let prefix = drive_prefix_exec(k);
        let mut t: usize = 0;
        while t < 4
            invariant
                t <= 4,
                k < 24,
                tails@.len() == 4,
                tails@[0]@ == "SteamLibrary"@,
                tails@[1]@ == "Steam"@,
                tails@[2]@ == "Program Files (x86)\\Steam"@,
                tails@[3]@ == "Program Files\\Steam"@,
                prefix@ == drive_prefix(k as int),
                all == head + drive_scan_candidates(),
                candidate_views(props@) == all.take(head.len() + 4 * k + t),
            decreases 4 - t,
        {
            let root = concat(prefix.as_slice(), tails[t].as_slice());
            let root_s = string_from(root.as_slice());
            let path = log_under_root(root_s.as_str());
            let c = GameLogCandidate { source: "drive-scan".to_owned(), path };
            proof {
                lemma_candidate_views_push(props@, c);
                lemma_take_push(all, head.len() + 4 * k + t);
            }
            props.push(c);
            proof {
                let idx = 4 * k + t;
                assert(idx / 4 == k as int);
                assert(idx % 4 == t as int);
                assert(root@ == scan_root(idx));
                assert(all[head.len() + idx] == ("drive-scan"@, log_under(scan_root(idx))));
                assert(candidate_views(props@) =~= all.take(head.len() + idx + 1));
            }
            t += 1;
        }
        k += 1;
    }
    assert(all.take(all.len() as int) =~= all);
}

/// Every place considered, in order of preference.
pub open spec fn candidate_proposals(
    env_path: Option<Seq<char>>,
    manual_path: Option<Seq<char>>,
    steam_roots: Seq<Seq<char>>,
) -> Seq<(Seq<char>, Seq<char>)> {
    let env = match env_path {
        Some(p) => seq![("env:TORCH_OVERLAY_GAME_LOG"@, p)],
        None => seq![],
    };
    let manual = match manual_path {
        Some(p) => seq![("manual-setting"@, p)],
        None => seq![],
    };
    env + manual + library_candidates(steam_roots) + seq![("default"@, spec_default_log_path())]
        + drive_scan_candidates()
}

/// The candidate game-log paths, without repeats: the
/// `TORCH_OVERLAY_GAME_LOG` variable, the manual setting, each Steam
/// library, the default path, then a scan of drives `C` to `Z`.
pub fn game_log_candidates(
    env_path: Option<String>,
    manual_path: Option<String>,
    steam_roots: &Vec<String>,
) -> (r: Vec<GameLogCandidate>)
    ensures
        candidate_views(r@) == candidate_fold(
            seq![],
            candidate_proposals(opt_str(env_path), opt_str(manual_path), str_views(steam_roots@)),
        ),
{
    let ghost all = candidate_proposals(opt_str(env_path), opt_str(manual_path), str_views(steam_roots@));
    let ghost env_v = opt_str(env_path);
    let ghost manual_v = opt_str(manual_path);
    let mut props: Vec<GameLogCandidate> = Vec::new();
    if let Some(p) = env_path {
        props.push(GameLogCandidate { source: "env:TORCH_OVERLAY_GAME_LOG".to_owned(), path: p });
    }
    if let Some(p) = manual_path {
        props.push(GameLogCandidate { source: "manual-setting".to_owned(), path: p });
    }
    proof {
        let env = match env_v {
            Some(p) => seq![("env:TORCH_OVERLAY_GAME_LOG"@, p)],
            None => Seq::<(Seq<char>, Seq<char>)>::empty(),
        };
        let manual = match manual_v {
            Some(p) => seq![("manual-setting"@, p)],
            None => Seq::<(Seq<char>, Seq<char>)>::empty(),
        };
        assert(candidate_views(props@) =~= env + manual);
    }
    push_library_candidates(&mut props, steam_roots);
    let d = GameLogCandidate { source: "default".to_owned(), path: default_log_path() };
    proof {
        lemma_candidate_views_push(props@, d);
    }
    props.push(d);
    push_drive_scan_candidates(&mut props);
    assert(candidate_views(props@) =~= all);
    let mut out: Vec<GameLogCandidate> = Vec::new();
    let mut j: usize = 0;
    assert(candidate_views(props@).skip(0) =~= candidate_views(props@));
    assert(candidate_views(out@) =~= seq![]);
    while j < props.len()
        invariant
            j <= props@.len(),
            candidate_views(props@) == all,
            candidate_fold(seq![], all) == candidate_fold(
                candidate_views(out@),
                all.skip(j as int),
            ),
        decreases props@.len() - j,
    {
        assert(all.skip(j as int).drop_first() =~= all.skip(j + 1));
        assert(all.skip(j as int)[0] == (props@[j as int].source@, props@[j as int].path@));
        push_log_candidate(&mut out, props[j].source.as_str(), props[j].path.clone());
        j += 1;
    }
    out
}

/// The first candidate that exists (`exists[i]` says whether candidate `i`
/// is a file), else the default path.
pub open spec fn spec_resolve(cs: Seq<(Seq<char>, Seq<char>)>, exists: Seq<bool>) -> Seq<char>
    decreases cs.len(),
{
    if cs.len() == 0 {
        spec_default_log_path()
    } else if exists[0] {
        cs[0].1
    } else {
        spec_resolve(cs.drop_first(), exists.drop_first())
    }
}

/// The game log to read: the first candidate that is a file, else the
/// default path.
pub fn resolve_game_log_path(candidates: &Vec<GameLogCandidate>, exists: &Vec<bool>) -> (r: String)
    requires
        exists@.len() == candidates@.len(),
    ensures
        r@ == spec_resolve(candidate_views(candidates@), exists@),
        forall|i: int|
            0 <= i < candidates@.len() && exists@[i] && (forall|j: int| 0 <= j < i ==> !exists@[j])
                ==> r@ == #[trigger] candidates@[i].path@,
        (forall|j: int| 0 <= j < candidates@.len() ==> !exists@[j]) ==> r@ == spec_default_log_path(),
{
    proof {
        let cs = candidate_views(candidates@);
        crate::laws::law_first_existing_candidate(cs, exists@);
        assert forall|i: int|
            0 <= i < candidates@.len() && exists@[i] && (forall|j: int| 0 <= j < i ==> !exists@[j])
                implies spec_resolve(cs, exists@) == #[trigger] candidates@[i].path@ by {
            assert(cs[i].1 == candidates@[i].path@);
        }
    }
    let mut i: usize = 0;
    assert(candidate_views(candidates@).skip(0) =~= candidate_views(candidates@));
    assert(exists@.skip(0) =~= exists@);
    while i < candidates.len()
        invariant
            i <= candidates@.len(),
            exists@.len() == candidates@.len(),
            spec_resolve(candidate_views(candidates@), exists@) == spec_resolve(
                candidate_views(candidates@).skip(i as int),
                exists@.skip(i as int),
            ),
            forall|k: int|
                0 <= k < candidates@.len() && exists@[k] && (forall|j: int| 0 <= j < k ==> !exists@[j])
                    ==> spec_resolve(candidate_views(candidates@), exists@)
                    == #[trigger] candidates@[k].path@,
            (forall|j: int| 0 <= j < candidates@.len() ==> !exists@[j]) ==> spec_resolve(
                candidate_views(candidates@),
                exists@,
            ) == spec_default_log_path(),
        decreases candidates@.len() - i,
    {
        assert(candidate_views(candidates@).skip(i as int).drop_first() =~= candidate_views(
            candidates@,
        ).skip(i + 1));
        assert(exists@.skip(i as int).drop_first() =~= exists@.skip(i + 1));
        if exists[i] {
            return candidates[i].path.clone();
        }
        i += 1;
    }
    default_log_path()
}

/// The manual log path stored in a settings file: its trimmed text, unless
/// that is empty.
pub open spec fn spec_manual_path(raw: Seq<char>) -> Option<Seq<char>> {
    if trim(raw).len() == 0 {
        None
    } else {
        Some(trim(raw))
    }
}

/// Reads the manual game-log setting from the text of its file.
pub fn manual_game_log_path(raw: &str) -> (r: Option<String>)
    ensures
        opt_str(r) == spec_manual_path(raw@),
{
    let cs = chars_of(raw);
    let t = trim_exec(cs.as_slice());
    if t.len() == 0 {
        None
    } else {
        Some(string_from(t.as_slice()))
    }
}

} // verus!

//! The settings file: a few lines of the form `key = value`.
//!
//! The file is read and written by the caller; the functions here say what
//! a text holds and what it becomes when a setting is saved.

use vstd::prelude::*;
use crate::text::{chars_of, same_text, string_of};

verus! {

/// `line` without one carriage return at its end.
pub open spec fn without_return(line: Seq<char>) -> Seq<char> {
    if line.len() > 0 && line.last() == '\r' {
        line.drop_last()
    } else {
        line
    }
}

/// The lines that are closed by a line feed in `text`, and what follows
/// the last line feed.
pub open spec fn split(text: Seq<char>) -> (Seq<Seq<char>>, Seq<char>)
    decreases text.len(),
{
    if text.len() == 0 {
        (Seq::empty(), Seq::empty())
    } else {
        let (closed, open) = split(text.drop_last());
        if text.last() == '\n' {
            (closed.push(without_return(open)), Seq::empty())
        } else {
            (closed, open.push(text.last()))
        }
    }
}

/// The lines of `text`. A line ends at a line feed, or at a carriage
/// return followed by one; the last line need not be closed, and an empty
/// rest after the last line feed is no line.
pub open spec fn lines(text: Seq<char>) -> Seq<Seq<char>> {
    let (closed, open) = split(text);
    if open.len() > 0 {
        closed.push(open)
    } else {
        closed
    }
}

/// `line` begins with `prefix`.
pub open spec fn has_prefix(line: Seq<char>, prefix: Seq<char>) -> bool {
    line.len() >= prefix.len() && line.take(prefix.len() as int) == prefix
}

/// `line` after every leading repetition of `prefix` is taken off.
pub open spec fn strip_all(line: Seq<char>, prefix: Seq<char>) -> Seq<char>
    decreases line.len(),
{
    if prefix.len() > 0 && has_prefix(line, prefix) {
        strip_all(line.skip(prefix.len() as int), prefix)
    } else {
        line
    }
}

/// The line at `at` is the first that begins with `prefix`.
pub open spec fn first_with_prefix(all: Seq<Seq<char>>, prefix: Seq<char>, at: int) -> bool {
    &&& 0 <= at < all.len()
    &&& has_prefix(all[at], prefix)
    &&& forall|k: int| 0 <= k < at ==> !has_prefix(#[trigger] all[k], prefix)
}

/// No line begins with `prefix`.
pub open spec fn none_with_prefix(all: Seq<Seq<char>>, prefix: Seq<char>) -> bool {
    forall|k: int| 0 <= k < all.len() ==> !has_prefix(#[trigger] all[k], prefix)
}

/// The value of the setting `prefix` in `text`: what follows the prefix in
/// the first line that begins with it.
pub open spec fn setting(text: Seq<char>, prefix: Seq<char>) -> Option<Seq<char>> {
    if exists|at: int| first_with_prefix(lines(text), prefix, at) {
        let at = choose|at: int| first_with_prefix(lines(text), prefix, at);
        Some(strip_all(lines(text)[at], prefix))
    } else {
        None
    }
}

/// The lines put together, a line feed between each two.
pub open spec fn joined(all: Seq<Seq<char>>) -> Seq<char>
    decreases all.len(),
{
    if all.len() == 0 {
        Seq::empty()
    } else if all.len() == 1 {
        all[0]
    } else {
        joined(all.drop_last()) + seq!['\n'] + all.last()
    }
}

/// The lines of a text in which the setting `prefix` has the value
/// `value`: the first line that begins with the prefix is replaced, or a
/// new line is added at the end.
pub open spec fn lines_with_setting(
    all: Seq<Seq<char>>,
    prefix: Seq<char>,
    value: Seq<char>,
) -> Seq<Seq<char>> {
    if exists|at: int| first_with_prefix(all, prefix, at) {
        all.update(choose|at: int| first_with_prefix(all, prefix, at), prefix + value)
    } else {
        all.push(prefix + value)
    }
}

/// The text after the setting `prefix` was saved as `value`: its lines,
/// with the setting's line replaced or added, each closed by a line feed
/// but for a carriage return before it, which is not written back.
pub open spec fn with_setting(text: Seq<char>, prefix: Seq<char>, value: Seq<char>) -> Seq<char> {
    joined(lines_with_setting(lines(text), prefix, value)) + seq!['\n']
}

/// The views of a list of lines.
pub open spec fn line_views(all: Seq<Vec<char>>) -> Seq<Seq<char>> {
    all.map_values(|l: Vec<char>| l@)
}

/// At most one line begins first with a prefix.
pub proof fn lemma_first_unique(all: Seq<Seq<char>>, prefix: Seq<char>, at: int)
    requires
        first_with_prefix(all, prefix, at),
    ensures
        (choose|k: int| first_with_prefix(all, prefix, k)) == at,
        !none_with_prefix(all, prefix),
{
    let k = choose|k: int| first_with_prefix(all, prefix, k);
    if k < at {
        assert(!has_prefix(all[k], prefix));
    } else if at < k {
        assert(!has_prefix(all[at], prefix));
    }
}

fn copy_range(chars: &Vec<char>, from: usize, to: usize) -> (part: Vec<char>)
    requires
        from <= to <= chars@.len(),
    ensures
        part@ == chars@.subrange(from as int, to as int),
{
    let mut part: Vec<char> = Vec::new();
    let mut i: usize = from;
    while i < to
        invariant
            from <= i <= to,
            to <= chars@.len(),
            part@ == chars@.subrange(from as int, i as int),
        decreases to - i,
    {
        part.push(chars[i]);
        assert(chars@.subrange(from as int, i + 1) =~= chars@.subrange(from as int, i as int).push(
            chars@[i as int],
        ));
        i += 1;
    }
    part
}

fn append(to: &mut Vec<char>, chars: &Vec<char>)
    ensures
        final(to)@ == old(to)@ + chars@,
{
    let mut i: usize = 0;
    while i < chars.len()
        invariant
            i <= chars@.len(),
            to@ == old(to)@ + chars@.take(i as int),
        decreases chars@.len() - i,
    {
        to.push(chars[i]);
        assert(chars@.take(i + 1) =~= chars@.take(i as int).push(chars@[i as int]));
        i += 1;
    }
    assert(chars@.take(i as int) =~= chars@);
}

/// The lines of `chars`.
fn split_lines(chars: &Vec<char>) -> (all: Vec<Vec<char>>)
    ensures
        line_views(all@) == lines(chars@),
{
    let mut all: Vec<Vec<char>> = Vec::new();
    let mut start: usize = 0;
    let mut i: usize = 0;
    assert(chars@.take(0) =~= Seq::<char>::empty());
    assert(line_views(all@) =~= split(chars@.take(0)).0);
    assert(chars@.subrange(0, 0) =~= split(chars@.take(0)).1);
    while i < chars.len()
        invariant
            start <= i <= chars@.len(),
            line_views(all@) == split(chars@.take(i as int)).0,
            chars@.subrange(start as int, i as int) == split(chars@.take(i as int)).1,
        decreases chars@.len() - i,
    {
        let ghost seen = chars@.take(i as int);
        assert(chars@.take(i + 1).drop_last() =~= seen);
        if chars[i] == '\n' {
            let end = if i > start && chars[i - 1] == '\r' {
                i - 1
            } else {
                i
            };
            let line = copy_range(chars, start, end);
            proof {
                let open = chars@.subrange(start as int, i as int);
                assert(line@ =~= without_return(open));
                assert(line_views(all@.push(line)) =~= line_views(all@).push(line@));
            }
            all.push(line);
            start = i + 1;
            assert(chars@.subrange(start as int, i + 1) =~= Seq::<char>::empty());
        } else {
            assert(chars@.subrange(start as int, i + 1) =~= chars@.subrange(
                start as int,
                i as int,
            ).push(chars@[i as int]));
        }
        i += 1;
    }
    assert(chars@.take(i as int) =~= chars@);
    if start < chars.len() {
        let line = copy_range(chars, start, chars.len());
        proof {
            assert(line_views(all@.push(line)) =~= line_views(all@).push(line@));
        }
        all.push(line);
    }
    all
}

/// Whether `line` holds `prefix` from `from` on.
fn starts_with_at(line: &Vec<char>, from: usize, prefix: &Vec<char>) -> (yes: bool)
    requires
        from <= line@.len(),
    ensures
        yes == has_prefix(line@.skip(from as int), prefix@),
{
    if line.len() - from < prefix.len() {
        return false;
    }
    let mut i: usize = 0;
    while i < prefix.len()
        invariant
            i <= prefix@.len(),
            from + prefix@.len() <= line@.len() <= usize::MAX,
            forall|k: int| 0 <= k < i ==> line@[from + k] == prefix@[k],
        decreases prefix@.len() - i,
    {
        if line[from + i] != prefix[i] {
            assert(line@.skip(from as int).take(prefix@.len() as int)[i as int] != prefix@[i as int]);
            return false;
        }
        i += 1;
    }
    assert(line@.skip(from as int).take(prefix@.len() as int) =~= prefix@);
    true
}

fn starts_with(line: &Vec<char>, prefix: &Vec<char>) -> (yes: bool)
    ensures
        yes == has_prefix(line@, prefix@),
{
    assert(line@.skip(0) =~= line@);
    starts_with_at(line, 0, prefix)
}

fn find_line(all: &Vec<Vec<char>>, prefix: &Vec<char>) -> (found: Option<usize>)
    ensures
        match found {
            Some(at) => first_with_prefix(line_views(all@), prefix@, at as int),
            None => none_with_prefix(line_views(all@), prefix@),
        },
{
    let mut i: usize = 0;
    while i < all.len()
        invariant
            i <= all@.len(),
            forall|k: int| 0 <= k < i ==> !has_prefix(#[trigger] line_views(all@)[k], prefix@),
        decreases all@.len() - i,
    {
        if starts_with(&all[i], prefix) {
            return Some(i);
        }
        i += 1;
    }
    None
}

fn strip_prefixes(line: &Vec<char>, prefix: &Vec<char>) -> (rest: Vec<char>)
    ensures
        rest@ == strip_all(line@, prefix@),
{
    let mut from: usize = 0;
    assert(line@.skip(0) =~= line@);
    if prefix.len() > 0 && line.len() > 0 {
        while starts_with_at(line, from, prefix)
            invariant
                from <= line@.len() <= usize::MAX,
                prefix@.len() > 0,
                strip_all(line@, prefix@) == strip_all(line@.skip(from as int), prefix@),
            decreases line@.len() - from,
        {
            assert(line@.skip(from as int).skip(prefix@.len() as int) =~= line@.skip(
                from + prefix@.len(),
            ));
            from = from + prefix.len();
        }
    }
    let rest = copy_range(line, from, line.len());
    assert(line@.subrange(from as int, line@.len() as int) =~= line@.skip(from as int));
    rest
}

fn join_lines(all: &Vec<Vec<char>>) -> (text: Vec<char>)
    ensures
        text@ == joined(line_views(all@)),
{
    let mut text: Vec<char> = Vec::new();
    let mut i: usize = 0;
    assert(line_views(all@).take(0) =~= Seq::<Seq<char>>::empty());
    while i < all.len()
        invariant
            i <= all@.len(),
            text@ == joined(line_views(all@).take(i as int)),
        decreases all@.len() - i,
    {
        let ghost upto = line_views(all@).take(i + 1);
        assert(upto.drop_last() =~= line_views(all@).take(i as int));
        assert(upto.last() == all@[i as int]@);
        if i > 0 {
            text.push('\n');
        }
        append(&mut text, &all[i]);
        proof {
            if i == 0 {
                assert(text@ =~= all@[0]@);
                assert(upto[0] == all@[0]@);
            } else {
                assert(text@ =~= joined(upto.drop_last()) + seq!['\n'] + upto.last());
            }
        }
        i += 1;
    }
    assert(line_views(all@).take(i as int) =~= line_views(all@));
    text
}

/// The value of the setting `prefix` in `contents`, if the text has one.
pub fn read_setting(contents: &str, prefix: &str) -> (value: Option<String>)
    ensures
        match value {
            Some(v) => setting(contents@, prefix@) == Some(v@),
            None => setting(contents@, prefix@) is None,
        },
{
    let all = split_lines(&chars_of(contents));
    let key = chars_of(prefix);
    match find_line(&all, &key) {
        Some(at) => {
            proof {
                lemma_first_unique(line_views(all@), key@, at as int);
            }
            let rest = strip_prefixes(&all[at], &key);
            Some(string_of(&rest))
        },
        None => None,
    }
}

/// `contents` after the setting `prefix` was saved as `value`.
pub fn write_setting(contents: &str, prefix: &str, value: &str) -> (text: String)
    ensures
        text@ == with_setting(contents@, prefix@, value@),
{
    let mut all = split_lines(&chars_of(contents));
    let key = chars_of(prefix);
    let mut line = chars_of(prefix);
    append(&mut line, &chars_of(value));
    let ghost before = line_views(all@);
    match find_line(&all, &key) {
        Some(at) => {
            proof {
                lemma_first_unique(before, key@, at as int);
                assert(line_views(all@.update(at as int, line)) =~= before.update(
                    at as int,
                    line@,
                ));
            }
            all.set(at, line);
        },
        None => {
            proof {
                assert(line_views(all@.push(line)) =~= before.push(line@));
            }
            all.push(line);
        },
    }
    let mut text = join_lines(&all);
    text.push('\n');
    string_of(&text)
}

/// `needle` stands in `text` at `at`.
pub open spec fn occurs_at(text: Seq<char>, needle: Seq<char>, at: int) -> bool {
    &&& 0 <= at
    &&& at + needle.len() <= text.len()
    &&& text.subrange(at, at + needle.len()) == needle
}

/// `at` is the first place where `needle` stands in `text`.
pub open spec fn first_occurrence(text: Seq<char>, needle: Seq<char>, at: int) -> bool {
    &&& occurs_at(text, needle, at)
    &&& forall|k: int| 0 <= k < at ==> !occurs_at(text, needle, k)
}

/// The place of the first line feed at or after `from`, or the end of the text.
pub open spec fn line_end(text: Seq<char>, from: int) -> int
    decreases text.len() - from,
{
    if from < 0 || from >= text.len() {
        text.len() as int
    } else if text[from] == '\n' {
        from
    } else {
        line_end(text, from + 1)
    }
}

/// The key of the folder setting.
pub open spec fn folder_key() -> Seq<char> {
    "folder = "@
}

/// The key of the wallpaper setting.
pub open spec fn wallpaper_key() -> Seq<char> {
    "last_wallpaper = "@
}

/// The key of the backend setting.
pub open spec fn backend_key() -> Seq<char> {
    "backend = "@
}

/// The text after the folder was saved as `path`. Where the folder key
/// stands in the text, wherever in a line, the text from there to the end
/// of that line becomes the key and the path; the rest stays as it is.
/// Where it does not stand, a line with the key and the path is added.
pub open spec fn with_folder(text: Seq<char>, path: Seq<char>) -> Seq<char> {
    if exists|at: int| first_occurrence(text, folder_key(), at) {
        let at = choose|at: int| first_occurrence(text, folder_key(), at);
        text.take(at) + folder_key() + path + text.skip(line_end(text, at))
    } else {
        text + folder_key() + path + seq!['\n']
    }
}

proof fn lemma_first_occurrence_unique(text: Seq<char>, needle: Seq<char>, at: int)
    requires
        first_occurrence(text, needle, at),
    ensures
        (choose|k: int| first_occurrence(text, needle, k)) == at,
{
    let k = choose|k: int| first_occurrence(text, needle, k);
    if k < at {
        assert(!occurs_at(text, needle, k));
    } else if at < k {
        assert(!occurs_at(text, needle, at));
    }
}

fn find_first(text: &Vec<char>, needle: &Vec<char>) -> (found: Option<usize>)
    ensures
        match found {
            Some(at) => first_occurrence(text@, needle@, at as int),
            None => forall|k: int| !occurs_at(text@, needle@, k),
        },
{
    if text.len() < needle.len() {
        return None;
    }
    if needle.len() == 0 {
        assert(text@.subrange(0, 0) =~= needle@);
        return Some(0);
    }
    let last = text.len() - needle.len();
    let mut at: usize = 0;
    while at <= last
        invariant
            at <= last + 1,
            last < usize::MAX,
            last + needle@.len() == text@.len(),
            forall|k: int| 0 <= k < at ==> !occurs_at(text@, needle@, k),
        decreases last + 1 - at,
    {
        let here = starts_with_at(text, at, needle);
        proof {
            let rest = text@.skip(at as int);
            assert(rest.take(needle@.len() as int) =~= text@.subrange(
                at as int,
                at + needle@.len(),
            ));
        }
        if here {
            return Some(at);
        }
        at += 1;
    }
    None
}

fn find_line_end(text: &Vec<char>, from: usize) -> (end: usize)
    requires
        from <= text@.len(),
    ensures
        end == line_end(text@, from as int),
        from <= end <= text@.len(),
{
    let mut end: usize = from;
    while end < text.len() && text[end] != '\n'
        invariant
            from <= end <= text@.len(),
            line_end(text@, from as int) == line_end(text@, end as int),
        decreases text@.len() - end,
    {
        end += 1;
    }
    end
}

/// The wallpaper backends that a setting can name.
#[derive(Debug, Clone, Copy, PartialEq, Eq, Structural)]
pub enum WallpaperBackend {
    Disabled,
    Hyprpaper,
    Swaybg,
    Swww,
    Wallutils,
    Feh,
}

/// The name under which a backend is saved.
pub open spec fn backend_name(backend: WallpaperBackend) -> Seq<char> {
    match backend {
        WallpaperBackend::Hyprpaper => "hyprpaper"@,
        WallpaperBackend::Swaybg => "swaybg"@,
        WallpaperBackend::Swww => "swww"@,
        WallpaperBackend::Wallutils => "wallutils"@,
        WallpaperBackend::Feh => "feh"@,
        WallpaperBackend::Disabled => "none"@,
    }
}

/// The backend that a saved name stands for. `none` and every unknown name
/// stand for no backend.
pub open spec fn backend_named(name: Seq<char>) -> Option<WallpaperBackend> {
    if name == "hyprpaper"@ {
        Some(WallpaperBackend::Hyprpaper)
    } else if name == "swaybg"@ {
        Some(WallpaperBackend::Swaybg)
    } else if name == "swww"@ {
        Some(WallpaperBackend::Swww)
    } else if name == "wallutils"@ {
        Some(WallpaperBackend::Wallutils)
    } else if name == "feh"@ {
        Some(WallpaperBackend::Feh)
    } else {
        None
    }
}

/// The name under which `backend` is saved.
pub fn backend_str(backend: &WallpaperBackend) -> (name: &'static str)
    ensures
        name@ == backend_name(*backend),
{
    match backend {
        WallpaperBackend::Hyprpaper => "hyprpaper",
        WallpaperBackend::Swaybg => "swaybg",
        WallpaperBackend::Swww => "swww",
        WallpaperBackend::Wallutils => "wallutils",
        WallpaperBackend::Feh => "feh",
        WallpaperBackend::Disabled => "none",
    }
}

/// The backend that `name` stands for.
pub fn parse_backend(name: &str) -> (backend: Option<WallpaperBackend>)
    ensures
        backend == backend_named(name@),
{
    if same_text(name, "hyprpaper") {
        Some(WallpaperBackend::Hyprpaper)
    } else if same_text(name, "swaybg") {
        Some(WallpaperBackend::Swaybg)
    } else if same_text(name, "swww") {
        Some(WallpaperBackend::Swww)
    } else if same_text(name, "wallutils") {
        Some(WallpaperBackend::Wallutils)
    } else if same_text(name, "feh") {
        Some(WallpaperBackend::Feh)
    } else {
        None
    }
}

/// The backend that a name picked in the backend selector stands for. The
/// selector offers every backend by the name it is saved under, `none`
/// for the disabled one; an unknown name stands for nothing.
pub open spec fn backend_picked(name: Seq<char>) -> Option<WallpaperBackend> {
    if name == "none"@ {
        Some(WallpaperBackend::Disabled)
    } else {
        backend_named(name)
    }
}

/// The backend that `name`, picked in the backend selector, stands for.
pub fn pick_backend(name: &str) -> (backend: Option<WallpaperBackend>)
    ensures
        backend == backend_picked(name@),
{
    if same_text(name, "none") {
        Some(WallpaperBackend::Disabled)
    } else {
        parse_backend(name)
    }
}

/// What tilde expansion can make of `path`. A path that is `~` alone or
/// begins with `~` and a separator becomes the home directory followed by
/// the rest, or stays as it is where no home directory is known; every
/// other path stays as it is.
pub open spec fn tilde_outcome(path: Seq<char>, expanded: Seq<char>) -> bool {
    if path.len() > 0 && path[0] == '~' && (path.len() == 1 || path[1] == '/' || path[1]
        == '\\') {
        ||| expanded == path
        ||| expanded.len() >= path.len() - 1 && expanded.skip(expanded.len() - (path.len() - 1))
            == path.skip(1)
    } else {
        expanded == path
    }
}

/// `shellexpand::tilde` replaces a leading `~` by the user's home
/// directory when the `~` stands alone or before a path separator and a
/// home directory is known, and returns every other input unchanged. Which
/// directory that is depends on the environment.
#[verifier::external_body]
fn expand_tilde(path: &str) -> (expanded: String)
    ensures
        tilde_outcome(path@, expanded@),
{
    shellexpand::tilde(path).into_owned()
}

/// The folder that `contents` names as the last one shown, with a leading
/// `~` expanded to the home directory.
pub fn load_last_path(contents: &str) -> (folder: Option<String>)
    ensures
        match setting(contents@, folder_key()) {
            Some(value) => folder matches Some(path) && tilde_outcome(value, path@),
            None => folder is None,
        },
{
    match read_setting(contents, "folder = ") {
        Some(value) => Some(expand_tilde(value.as_str())),
        None => None,
    }
}

/// `contents` after `path` was saved as the last folder shown.
pub fn save_last_path(contents: &str, path: &str) -> (text: String)
    ensures
        text@ == with_folder(contents@, path@),
{
    let old = chars_of(contents);
    let key = chars_of("folder = ");
    let value = chars_of(path);
    let mut text: Vec<char> = Vec::new();
    match find_first(&old, &key) {
        Some(at) => {
            proof {
                lemma_first_occurrence_unique(old@, key@, at as int);
            }
            let end = find_line_end(&old, at);
            append(&mut text, &copy_range(&old, 0, at));
            append(&mut text, &key);
            append(&mut text, &value);
            append(&mut text, &copy_range(&old, end, old.len()));
            assert(old@.subrange(0, at as int) =~= old@.take(at as int));
            assert(old@.subrange(end as int, old@.len() as int) =~= old@.skip(end as int));
            assert(text@ =~= with_folder(contents@, path@));
        },
        None => {
            append(&mut text, &old);
            append(&mut text, &key);
            append(&mut text, &value);
            text.push('\n');
            assert(text@ =~= with_folder(contents@, path@));
        },
    }
    string_of(&text)
}

/// The wallpaper that `contents` names as the last one set.
pub fn load_last_wallpaper(contents: &str) -> (wallpaper: Option<String>)
    ensures
        match wallpaper {
            Some(path) => setting(contents@, wallpaper_key()) == Some(path@),
            None => setting(contents@, wallpaper_key()) is None,
        },
{
    read_setting(contents, "last_wallpaper = ")
}

/// `contents` after `path` was saved as the last wallpaper set.
pub fn save_last_wallpaper(contents: &str, path: &str) -> (text: String)
    ensures
        text@ == with_setting(contents@, wallpaper_key(), path@),
{
    write_setting(contents, "last_wallpaper = ", path)
}

/// `contents` after `backend` was saved as the backend to use.
pub fn save_wallpaper_backend(contents: &str, backend: &WallpaperBackend) -> (text: String)
    ensures
        text@ == with_setting(contents@, backend_key(), backend_name(*backend)),
{
    write_setting(contents, "backend = ", backend_str(backend))
}

/// The backend that `contents` names. A text without the setting names
/// none, and so does one whose setting is `none` or an unknown name.
pub fn load_wallpaper_backend(contents: &str) -> (backend: Option<WallpaperBackend>)
    ensures
        backend == match setting(contents@, backend_key()) {
            Some(name) => backend_named(name),
            None => None,
        },
{
    match read_setting(contents, "backend = ") {
        Some(name) => parse_backend(name.as_str()),
        None => None,
    }
}

} // verus!

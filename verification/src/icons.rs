//! Where the web front end looks for an application's icon: which icon names
//! stand for a program, which files may hold them, and which icon a desktop
//! entry names.

use vstd::prelude::*;
use vstd::string::StringExecFns;
use crate::text::{
    chars_eq, chars_of, has_prefix, lowercase, push_char, push_str, string_of, to_lowercase,
    trim_chars, trimmed, starts_with, slice_chars,
};

verus! {

/// The part of `s` after the last `c` (all of `s` if it holds no `c`).
pub open spec fn after_last(s: Seq<char>, c: char) -> Seq<char>
    decreases s.len(),
{
    if s.len() == 0 {
        s
    } else if s.last() == c {
        Seq::empty()
    } else {
        after_last(s.drop_last(), c).push(s.last())
    }
}

/// The part of `s` before the first `c` (all of `s` if it holds no `c`).
pub open spec fn before_first(s: Seq<char>, c: char) -> Seq<char>
    decreases s.len(),
{
    if s.len() == 0 {
        s
    } else if s[0] == c {
        Seq::empty()
    } else {
        seq![s[0]] + before_first(s.drop_first(), c)
    }
}

fn after_last_exec(s: &Vec<char>, c: char) -> (r: Vec<char>)
    ensures
        r@ == after_last(s@, c),
{
    let mut i = s.len();
    assert(s@.subrange(0, i as int) =~= s@);
    assert(after_last(s@, c) + s@.subrange(i as int, s@.len() as int) =~= after_last(s@, c));
    while i > 0 && s[i - 1] != c
        invariant
            i <= s@.len(),
            after_last(s@, c) == after_last(s@.subrange(0, i as int), c) + s@.subrange(
                i as int,
                s@.len() as int,
            ),
        decreases i,
    {
        let ghost p = s@.subrange(0, i as int);
        assert(p.drop_last() =~= s@.subrange(0, i - 1));
        assert(s@.subrange(i - 1, s@.len() as int) =~= seq![p.last()] + s@.subrange(
            i as int,
            s@.len() as int,
        ));
        assert(after_last(p, c) == after_last(p.drop_last(), c).push(p.last()));
        assert(after_last(p.drop_last(), c).push(p.last()) + s@.subrange(i as int, s@.len() as int)
            =~= after_last(p.drop_last(), c) + s@.subrange(i - 1, s@.len() as int));
        i = i - 1;
    }
    assert(after_last(s@.subrange(0, i as int), c) =~= Seq::<char>::empty());
    assert(after_last(s@, c) =~= s@.subrange(i as int, s@.len() as int));
    slice_chars(s, i, s.len())
}

fn before_first_exec(s: &Vec<char>, c: char) -> (r: Vec<char>)
    ensures
        r@ == before_first(s@, c),
{
    let mut i: usize = 0;
    assert(s@.subrange(0, s@.len() as int) =~= s@);
    assert(s@.subrange(0, 0) + before_first(s@, c) =~= before_first(s@, c));
    while i < s.len() && s[i] != c
        invariant
            i <= s@.len(),
            before_first(s@, c) == s@.subrange(0, i as int) + before_first(
                s@.subrange(i as int, s@.len() as int),
                c,
            ),
        decreases s@.len() - i,
    {
        let ghost q = s@.subrange(i as int, s@.len() as int);
        assert(q.drop_first() =~= s@.subrange(i + 1, s@.len() as int));
        assert(s@.subrange(0, i + 1) =~= s@.subrange(0, i as int) + seq![q[0]]);
        i = i + 1;
    }
    assert(before_first(s@.subrange(i as int, s@.len() as int), c) =~= Seq::<char>::empty());
    assert(before_first(s@, c) =~= s@.subrange(0, i as int));
    slice_chars(s, 0, i)
}

/// The name that an icon request looks up: the requested name without
/// surrounding white space, in lowercase.
pub fn icon_lookup_name(requested: &str) -> (r: String)
    ensures
        r@ == lowercase(trimmed(requested@)),
{
    let t = string_of(&trim_chars(&chars_of(requested)));
    to_lowercase(t.as_str())
}

/// The stem of a program name: its last path component, in lowercase, up to
/// the first dot.
pub open spec fn program_stem(app_name: Seq<char>) -> Seq<char> {
    before_first(lowercase(after_last(app_name, '/')), '.')
}

/// Icon names to try for a program stem, most specific first.
pub open spec fn icon_names_for(stem: Seq<char>) -> Seq<Seq<char>> {
    if stem == "ssh"@ || stem == "bash"@ || stem == "zsh"@ || stem == "sh"@ || stem == "konsole"@
        || stem == "gnome-terminal"@ || stem == "alacritty"@ || stem == "kitty"@ {
        seq![stem, "utilities-terminal"@, "terminal"@, "org.gnome.Terminal"@, "bash"@]
    } else if stem == "python"@ || stem == "python3"@ {
        seq![stem, "python"@, "python3"@, "applications-other"@]
    } else if stem == "curl"@ || stem == "wget"@ {
        seq![stem, "network-transmit-receive"@, "utilities-terminal"@, "network-workgroup"@]
    } else if stem == "systemd"@ || stem == "systemd-resolve"@ || stem == "systemd-journal"@ {
        seq![stem, "system-run"@, "applications-system"@, "system-software-update"@]
    } else {
        seq![stem]
    }
}

fn is(s: &Vec<char>, lit: &str) -> (b: bool)
    ensures
        b == (s@ == lit@),
{
    chars_eq(s, &chars_of(lit))
}

fn strings_of(names: &[&str]) -> (r: Vec<String>)
    ensures
        r@.len() == names@.len(),
        forall|i: int| 0 <= i < names@.len() ==> #[trigger] r@[i]@ == names@[i]@,
{
    let mut r: Vec<String> = Vec::new();
    let mut i: usize = 0;
    while i < names.len()
        invariant
            i <= names@.len(),
            r@.len() == i,
            forall|k: int| 0 <= k < i ==> #[trigger] r@[k]@ == names@[k]@,
        decreases names@.len() - i,
    {
        r.push(String::from_str(names[i]));
        i = i + 1;
    }
    r
}

/// The icon names to try for a program, or `None` for an empty name or the
/// no-process placeholder.
pub fn icon_candidate_names(app_name: &str) -> (r: Option<Vec<String>>)
    ensures
        match r {
            None => app_name@.len() == 0 || app_name@ == seq!['—'],
            Some(v) => app_name@.len() != 0 && app_name@ != seq!['—'] && v@.len()
                == icon_names_for(program_stem(app_name@)).len() && forall|i: int|
                0 <= i < v@.len() ==> #[trigger] v@[i]@ == icon_names_for(
                    program_stem(app_name@),
                )[i],
        },
{
    let chars = chars_of(app_name);
    if chars.len() == 0 || (chars.len() == 1 && chars[0] == '—') {
        assert(chars.len() == 1 ==> chars@ =~= seq!['—']);
        return None;
    }
    assert(chars@ != seq!['—']) by {
        if chars@ == seq!['—'] {
            assert(chars@.len() == 1);
        }
    }
    let last = string_of(&after_last_exec(&chars, '/'));
    let lower = to_lowercase(last.as_str());
    let stem = before_first_exec(&chars_of(lower.as_str()), '.');
    let stem_s = string_of(&stem);
    let ghost want = icon_names_for(stem@);
    let mut v: Vec<String>;
    if is(&stem, "ssh") || is(&stem, "bash") || is(&stem, "zsh") || is(&stem, "sh") || is(
        &stem,
        "konsole",
    ) || is(&stem, "gnome-terminal") || is(&stem, "alacritty") || is(&stem, "kitty") {
        v = strings_of(&["utilities-terminal", "terminal", "org.gnome.Terminal", "bash"]);
    } else if is(&stem, "python") || is(&stem, "python3") {
        v = strings_of(&["python", "python3", "applications-other"]);
    } else if is(&stem, "curl") || is(&stem, "wget") {
        v = strings_of(&["network-transmit-receive", "utilities-terminal", "network-workgroup"]);
    } else if is(&stem, "systemd") || is(&stem, "systemd-resolve") || is(&stem, "systemd-journal") {
        v = strings_of(&["system-run", "applications-system", "system-software-update"]);
    } else {
        v = Vec::new();
    }
    let ghost rest = v@;
    v.insert(0, stem_s);
    assert(v@.len() == want.len());
    assert(forall|i: int| 0 <= i < v@.len() ==> #[trigger] v@[i]@ == want[i]);
    Some(v)
}

/// A file that may hold an icon, with the media type of its format.
pub struct IconFile {
    pub path: String,
    pub mime: &'static str,
}

/// The icon theme directories searched, in order.
pub open spec fn icon_dir(d: int) -> Seq<char> {
    if d == 0 {
        "/usr/share/icons/hicolor/scalable/apps"@
    } else if d == 1 {
        "/usr/share/icons/hicolor/48x48/apps"@
    } else if d == 2 {
        "/usr/share/icons/hicolor/128x128/apps"@
    } else if d == 3 {
        "/usr/share/icons/hicolor/256x256/apps"@
    } else if d == 4 {
        "/usr/share/icons/Yaru/scalable/apps"@
    } else if d == 5 {
        "/usr/share/icons/Yaru/48x48/apps"@
    } else if d == 6 {
        "/usr/share/icons/Adwaita/scalable/apps"@
    } else {
        "/usr/share/pixmaps"@
    }
}

/// The icon file formats tried, in order: their extensions.
pub open spec fn icon_ext(e: int) -> Seq<char> {
    if e == 0 {
        "svg"@
    } else if e == 1 {
        "png"@
    } else {
        "xpm"@
    }
}

/// The media types of the icon file formats.
pub open spec fn icon_mime(e: int) -> Seq<char> {
    if e == 0 {
        "image/svg+xml"@
    } else if e == 1 {
        "image/png"@
    } else {
        "image/x-xpixmap"@
    }
}

/// `<dir>/<name>[-symbolic].<ext>`.
pub open spec fn icon_file_path(dir: Seq<char>, name: Seq<char>, symbolic: bool, ext: Seq<char>) -> Seq<char> {
    dir + seq!['/'] + name + (if symbolic { "-symbolic"@ } else { Seq::empty() }) + seq!['.'] + ext
}

fn dir_at(d: usize) -> (r: &'static str)
    requires
        d < 8,
    ensures
        r@ == icon_dir(d as int),
{
    match d {
        0 => "/usr/share/icons/hicolor/scalable/apps",
        1 => "/usr/share/icons/hicolor/48x48/apps",
        2 => "/usr/share/icons/hicolor/128x128/apps",
        3 => "/usr/share/icons/hicolor/256x256/apps",
        4 => "/usr/share/icons/Yaru/scalable/apps",
        5 => "/usr/share/icons/Yaru/48x48/apps",
        6 => "/usr/share/icons/Adwaita/scalable/apps",
        _ => "/usr/share/pixmaps",
    }
}

fn ext_at(e: usize) -> (r: (&'static str, &'static str))
    requires
        e < 3,
    ensures
        r.0@ == icon_ext(e as int),
        r.1@ == icon_mime(e as int),
{
    match e {
        0 => ("svg", "image/svg+xml"),
        1 => ("png", "image/png"),
        _ => ("xpm", "image/x-xpixmap"),
    }
}

fn file_path(dir: &str, name: &str, symbolic: bool, ext: &str) -> (r: String)
    ensures
        r@ == icon_file_path(dir@, name@, symbolic, ext@),
{
    let mut r = String::new();
    push_str(&mut r, dir);
    push_char(&mut r, '/');
    push_str(&mut r, name);
    if symbolic {
        push_str(&mut r, "-symbolic");
    }
    push_char(&mut r, '.');
    push_str(&mut r, ext);
    assert(r@ =~= icon_file_path(dir@, name@, symbolic, ext@));
    r
}

/// Whether `files` lists, for each directory and then each format, the plain
/// file of `name` and, if `with_symbolic`, its symbolic variant after it.
pub open spec fn icon_files_for(files: Seq<IconFile>, name: Seq<char>, with_symbolic: bool) -> bool {
    let per = if with_symbolic { 2int } else { 1int };
    &&& files.len() == 24 * per
    &&& forall|i: int|
        0 <= i < files.len() ==> {
            let slot = i / per;
            &&& #[trigger] files[i].path@ == icon_file_path(
                icon_dir(slot / 3),
                name,
                with_symbolic && i % 2 == 1,
                icon_ext(slot % 3),
            )
            &&& files[i].mime@ == icon_mime(slot % 3)
        }
}

/// The files that may hold the icon `name`, in the order they are tried.
pub fn icon_files(name: &str, with_symbolic: bool) -> (r: Vec<IconFile>)
    ensures
        icon_files_for(r@, name@, with_symbolic),
{
    let ghost per = if with_symbolic { 2int } else { 1int };
    let mut r: Vec<IconFile> = Vec::new();
    let mut slot: usize = 0;
    while slot < 24
        invariant
            slot <= 24,
            per == (if with_symbolic { 2int } else { 1int }),
            r@.len() == slot * per,
            forall|i: int|
                0 <= i < r@.len() ==> {
                    let s = i / per;
                    &&& #[trigger] r@[i].path@ == icon_file_path(
                        icon_dir(s / 3),
                        name@,
                        with_symbolic && i % 2 == 1,
                        icon_ext(s % 3),
                    )
                    &&& r@[i].mime@ == icon_mime(s % 3)
                },
        decreases 24 - slot,
    {
        let dir = dir_at(slot / 3);
        let (ext, mime) = ext_at(slot % 3);
        r.push(IconFile { path: file_path(dir, name, false, ext), mime });
        if with_symbolic {
            r.push(IconFile { path: file_path(dir, name, true, ext), mime });
        }
        slot = slot + 1;
    }
    r
}

/// The desktop entry of an application.
pub fn desktop_entry_path(name: &str) -> (r: String)
    ensures
        r@ == "/usr/share/applications/"@ + name@ + ".desktop"@,
{
    let mut r = String::new();
    push_str(&mut r, "/usr/share/applications/");
    push_str(&mut r, name);
    push_str(&mut r, ".desktop");
    r
}

/// First position at or after `i` that holds a line feed (or the length).
pub open spec fn line_end(s: Seq<char>, i: int) -> int
    decreases s.len() - i,
{
    if i < 0 || i >= s.len() {
        i
    } else if s[i] == '\n' {
        i
    } else {
        line_end(s, i + 1)
    }
}

/// The lines of `s` from position `i` on (`str::lines`): split at line
/// feeds, a carriage return just before a line feed dropped, and no empty
/// line after a final line feed.
pub open spec fn lines_from(s: Seq<char>, i: int) -> Seq<Seq<char>>
    decreases s.len() - i,
{
    if i < 0 || i >= s.len() {
        Seq::empty()
    } else {
        let j = line_end(s, i);
        proof {
            lemma_line_end_bounds(s, i);
        }
        let line = if j < s.len() && j > i && s[j - 1] == '\r' {
            s.subrange(i, j - 1)
        } else {
            s.subrange(i, j)
        };
        if j >= s.len() {
            seq![line]
        } else {
            seq![line] + lines_from(s, j + 1)
        }
    }
}

pub proof fn lemma_line_end_bounds(s: Seq<char>, i: int)
    requires
        0 <= i <= s.len(),
    ensures
        i <= line_end(s, i) <= s.len(),
        line_end(s, i) < s.len() ==> s[line_end(s, i)] == '\n',
    decreases s.len() - i,
{
    if i < s.len() && s[i] != '\n' {
        lemma_line_end_bounds(s, i + 1);
    }
}

/// The icon names that the `Icon=` lines of a desktop entry give, without
/// surrounding white space, leaving out the name being looked up.
pub open spec fn named_icons(lines: Seq<Seq<char>>, name: Seq<char>) -> Seq<Seq<char>>
    decreases lines.len(),
{
    if lines.len() == 0 {
        Seq::empty()
    } else {
        let l = lines[0];
        let rest = named_icons(lines.drop_first(), name);
        if has_prefix(l, "Icon="@) && trimmed(l.skip(5)) != name {
            seq![trimmed(l.skip(5))] + rest
        } else {
            rest
        }
    }
}

/// The icon names that the desktop entry `content` gives for `name`, in
/// order.
pub fn desktop_icon_names(content: &str, name: &str) -> (r: Vec<String>)
    ensures
        r@.len() == named_icons(lines_from(content@, 0), name@).len(),
        forall|k: int| 0 <= k < r@.len() ==> #[trigger] r@[k]@ == named_icons(
            lines_from(content@, 0),
            name@,
        )[k],
{
    let s = chars_of(content);
    let n = chars_of(name);
    let prefix = chars_of("Icon=");
    let mut out: Vec<String> = Vec::new();
    let ghost found: Seq<Seq<char>> = Seq::empty();
    proof {
        reveal_strlit("Icon=");
    }
    let mut i: usize = 0;
    while i < s.len()
        invariant_except_break
            found + named_icons(lines_from(s@, i as int), n@) == named_icons(
                lines_from(s@, 0),
                n@,
            ),
        invariant
            i <= s@.len(),
            s@ == content@,
            n@ == name@,
            prefix@ == "Icon="@,
            prefix@.len() == 5,
            out@.len() == found.len(),
            forall|k: int| 0 <= k < out@.len() ==> #[trigger] out@[k]@ == found[k],
        ensures
            out@.len() == found.len(),
            forall|k: int| 0 <= k < out@.len() ==> #[trigger] out@[k]@ == found[k],
            found == named_icons(lines_from(s@, 0), n@),
        decreases s@.len() - i,
    {
        let mut j = i;
        while j < s.len() && s[j] != '\n'
            invariant
                i <= j <= s@.len(),
                line_end(s@, i as int) == line_end(s@, j as int),
            decreases s@.len() - j,
        {
            j = j + 1;
        }
        proof {
            lemma_line_end_bounds(s@, i as int);
        }
        let end = if j < s.len() && j > i && s[j - 1] == '\r' { j - 1 } else { j };
        let line = slice_chars(&s, i, end);
        let ghost ls = lines_from(s@, i as int);
        let ghost tail = if j >= s@.len() { Seq::<Seq<char>>::empty() } else { lines_from(s@, j + 1) };
        assert(ls == seq![line@] + tail);
        assert(ls.drop_first() =~= tail);
        let ghost before = found;
        if starts_with(&line, &prefix) {
            let rest = slice_chars(&line, 5, line.len());
            assert(rest@ =~= line@.skip(5));
            let icon = trim_chars(&rest);
            if !chars_eq(&icon, &n) {
                out.push(string_of(&icon));
                proof {
                    found = found.push(icon@);
                }
            }
        }
        assert(before + named_icons(ls, n@) =~= found + named_icons(tail, n@));
        if j >= s.len() {
            assert(found + named_icons(tail, n@) =~= found);
            break;
        }
        i = j + 1;
    }
    proof {
        if i >= s@.len() {
            assert(named_icons(Seq::<Seq<char>>::empty(), n@) =~= Seq::<Seq<char>>::empty());
        }
    }
    out
}

} // verus!

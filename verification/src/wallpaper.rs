//! The desktop's wallpaper configuration files: the bracketed lists of
//! displays and images, and the `source:` entry of a background config.
use vstd::prelude::*;
use crate::config::WallpaperBehavior;
use crate::chars::{chars_of, push_all, push_str, string_from_chars};
use crate::strings::{
    chars_end_with, chars_start_with, ends_with_char, find_char, lemma_find_from, lines_from,
    lines_of, split_from, split_on, starts_with, strip_cr, sub_chars, trim, trim_double_quotes,
    trim_quotes, trim_white, is_white, is_white_char, strip_ansi, strip_ansi_codes, find_from,
    lead_by, trail_by, trim_by,
};

verus! {

/// A list entry after removing surrounding white space, then surrounding quotes.
pub open spec fn clean_item(p: Seq<char>) -> Seq<char> {
    trim_quotes(trim(p))
}

/// The non-empty cleaned entries of `pieces`, in order.
pub open spec fn clean_list(pieces: Seq<Seq<char>>) -> Seq<Seq<char>>
    decreases pieces.len(),
{
    if pieces.len() == 0 {
        Seq::empty()
    } else {
        let head: Seq<Seq<char>> = if clean_item(pieces[0]).len() > 0 {
            seq![clean_item(pieces[0])]
        } else {
            Seq::empty()
        };
        head + clean_list(pieces.drop_first())
    }
}

/// The entries of a list written `[ "a", "b", ]`: `None` unless the trimmed
/// content is enclosed in square brackets; otherwise the comma-separated
/// entries between them, each without white space and quotes around it,
/// empty entries left out.
pub open spec fn parse_list(content: Seq<char>) -> Option<Seq<Seq<char>>> {
    let t = trim(content);
    if t.len() >= 2 && t[0] == '[' && t.last() == ']' {
        Some(clean_list(split_on(t.subrange(1, t.len() - 1), ',')))
    } else {
        None
    }
}

/// The views of a vector of strings.
pub open spec fn views(v: Seq<String>) -> Seq<Seq<char>> {
    v.map_values(|s: String| s@)
}

/// Parses a bracketed list of quoted entries.
pub fn parse_quoted_list(content: &str) -> (r: Option<Vec<String>>)
    ensures
        match r {
            Some(v) => parse_list(content@) == Some(views(v@)),
            None => parse_list(content@) is None,
        },
{
    let all = chars_of(content);
    let t = trim_white(&all);
    if !(t.len() >= 2 && t[0] == '[' && t[t.len() - 1] == ']') {
        return None;
    }
    let inner = sub_chars(&t, 1, t.len() - 1);
    let ghost whole = split_on(inner@, ',');
    let n = inner.len();
    let mut out: Vec<String> = Vec::new();
    let mut start: usize = 0;
    let mut done = false;
    while !done
        invariant
            n == inner.len(),
            start <= n,
            whole == split_on(inner@, ','),
            !done ==> clean_list(whole) == views(out@) + clean_list(
                split_from(inner@, ',', start as int),
            ),
            done ==> clean_list(whole) == views(out@),
        decreases (if done {
            0
        } else {
            n + 1 - start
        }),
    {
        let k = find_char(&inner, ',', start);
        proof {
            lemma_find_from(inner@, ',', start as int);
        }
        let piece = sub_chars(&inner, start, k);
        let tw = trim_white(&piece);
        let item = trim_double_quotes(&tw);
        let ghost rest = if k < n {
            split_from(inner@, ',', k + 1)
        } else {
            Seq::<Seq<char>>::empty()
        };
        proof {
            let ps = split_from(inner@, ',', start as int);
            assert(ps == seq![piece@] + rest);
            assert(ps[0] == piece@);
            assert(ps.drop_first() =~= rest);
        }
        if item.len() > 0 {
            out.push(string_from_chars(&item));
        }
        assert(views(out@) + clean_list(rest) =~= clean_list(whole));
        if k < n {
            start = k + 1;
        } else {
            done = true;
            assert(views(out@) + clean_list(rest) =~= views(out@));
        }
    }
    Some(out)
}

/// The image paths listed in the settings' custom-images file.
pub fn parse_path_list(content: &str) -> (r: Option<Vec<String>>)
    ensures
        match r {
            Some(v) => parse_list(content@) == Some(views(v@)),
            None => parse_list(content@) is None,
        },
{
    parse_quoted_list(content)
}

/// The display names listed in the background service's `backgrounds` file.
pub fn parse_backgrounds_list(content: &str) -> (r: Option<Vec<String>>)
    ensures
        match r {
            Some(v) => parse_list(content@) == Some(views(v@)),
            None => parse_list(content@) is None,
        },
{
    parse_quoted_list(content)
}


/// The line that names the new wallpaper image in a background config.
pub open spec fn source_line(path: Seq<char>) -> Seq<char> {
    "    source: Path(\""@ + path + "\"),"@ + seq!['\n']
}

/// Whether an entry's value goes on past the line that starts it
/// (its trimmed text ends neither with `,` nor with `)`).
pub open spec fn continues(t: Seq<char>) -> bool {
    !(ends_with_char(t, ',') || ends_with_char(t, ')'))
}

/// The config text rebuilt line by line: while `skip` holds, lines belong to
/// the old `source:` value and are dropped until one ends with `,` or `)`; a
/// line whose trimmed text starts with `source:` is replaced by the new source
/// line; every other line is kept, followed by a line feed.
pub open spec fn rewrite_lines(lines: Seq<Seq<char>>, skip: bool, path: Seq<char>) -> Seq<char>
    decreases lines.len(),
{
    if lines.len() == 0 {
        Seq::empty()
    } else {
        let line = lines[0];
        let t = trim(line);
        let rest = lines.drop_first();
        if skip {
            rewrite_lines(rest, continues(t), path)
        } else if starts_with(t, "source:"@) {
            source_line(path) + rewrite_lines(rest, continues(t), path)
        } else {
            line + seq!['\n'] + rewrite_lines(rest, false, path)
        }
    }
}

/// The background config `existing` with its `source:` entry pointing at `path`;
/// the result ends with a line feed only when `existing` does (or when it is empty
/// of lines).
pub open spec fn updated_source(existing: Seq<char>, path: Seq<char>) -> Seq<char> {
    let r = rewrite_lines(lines_of(existing), false, path);
    if !ends_with_char(existing, '\n') && ends_with_char(r, '\n') {
        r.drop_last()
    } else {
        r
    }
}

/// Replaces the `source:` entry of a background config with `new_path`.
pub fn update_source_in_config(existing: &str, new_path: &str) -> (r: String)
    ensures
        r@ == updated_source(existing@, new_path@),
{
    let s = chars_of(existing);
    let n = s.len();
    let mut out: Vec<char> = Vec::new();
    let mut skip = false;
    let mut start: usize = 0;
    let ghost all = rewrite_lines(lines_of(existing@), false, new_path@);
    while start < n
        invariant
            s@ == existing@,
            n == s.len(),
            start <= n,
            all == rewrite_lines(lines_of(existing@), false, new_path@),
            all == out@ + rewrite_lines(lines_from(s@, start as int), skip, new_path@),
        decreases n - start,
    {
        let k = find_char(&s, '\n', start);
        proof {
            lemma_find_from(s@, '\n', start as int);
        }
        let raw = sub_chars(&s, start, k);
        let line = if k < n && raw.len() > 0 && raw[raw.len() - 1] == '\r' {
            sub_chars(&raw, 0, raw.len() - 1)
        } else {
            raw
        };
        let ghost rest = if k < n {
            lines_from(s@, k + 1)
        } else {
            Seq::<Seq<char>>::empty()
        };
        proof {
            let ls = lines_from(s@, start as int);
            assert(line@ == (if k < n {
                strip_cr(s@.subrange(start as int, k as int))
            } else {
                s@.subrange(start as int, n as int)
            }));
            assert(ls == seq![line@] + rest);
            assert(ls[0] == line@);
            assert(ls.drop_first() =~= rest);
        }
        let t = trim_white(&line);
        let ghost before = out@;
        if skip {
            if chars_end_with(&t, ',') || chars_end_with(&t, ')') {
                skip = false;
            }
        } else if chars_start_with(&t, "source:") {
            push_str(&mut out, "    source: Path(\"");
            push_str(&mut out, new_path);
            push_str(&mut out, "\"),");
            out.push('\n');
            assert(out@ =~= before + source_line(new_path@));
            if !chars_end_with(&t, ',') && !chars_end_with(&t, ')') {
                skip = true;
            }
        } else {
            push_all(&mut out, &line);
            out.push('\n');
        }
        assert(all =~= out@ + rewrite_lines(rest, skip, new_path@));
        if k < n {
            start = k + 1;
        } else {
            start = n;
            assert(lines_from(s@, n as int) =~= Seq::<Seq<char>>::empty());
        }
    }
    proof {
        assert(lines_from(s@, start as int) =~= Seq::<Seq<char>>::empty());
        assert(out@ =~= all);
    }
    let ends_nl = n > 0 && s[n - 1] == '\n';
    if !ends_nl && out.len() > 0 && out[out.len() - 1] == '\n' {
        out.pop();
    }
    string_from_chars(&out)
}


/// An entry in double quotes.
pub open spec fn quoted(x: Seq<char>) -> Seq<char> {
    seq!['"'] + x + seq!['"']
}

/// The quoted entries separated by a comma, a line feed and four spaces.
pub open spec fn join_quoted(items: Seq<Seq<char>>) -> Seq<char>
    decreases items.len(),
{
    if items.len() == 0 {
        Seq::empty()
    } else if items.len() == 1 {
        quoted(items[0])
    } else {
        join_quoted(items.drop_last()) + ",\n    "@ + quoted(items.last())
    }
}

/// A list file as the desktop settings write it: one quoted entry per line
/// inside square brackets.
pub open spec fn list_text(items: Seq<Seq<char>>) -> Seq<char> {
    "[\n    "@ + join_quoted(items) + ",\n]"@
}

/// Writes entries in the bracketed list format.
pub fn serialize_list(items: &Vec<Vec<char>>) -> (r: String)
    ensures
        r@ == list_text(items@.map_values(|x: Vec<char>| x@)),
{
    let ghost xs = items@.map_values(|x: Vec<char>| x@);
    let mut out: Vec<char> = Vec::new();
    push_str(&mut out, "[\n    ");
    let ghost head = out@;
    let mut i: usize = 0;
    while i < items.len()
        invariant
            i <= items.len(),
            xs == items@.map_values(|x: Vec<char>| x@),
            head == "[\n    "@,
            out@ == head + join_quoted(xs.take(i as int)),
        decreases items.len() - i,
    {
        let ghost before = out@;
        if i > 0 {
            push_str(&mut out, ",\n    ");
        }
        out.push('"');
        push_all(&mut out, &items[i]);
        out.push('"');
        proof {
            let t = xs.take(i + 1);
            assert(t.drop_last() =~= xs.take(i as int));
            assert(t.last() == items@[i as int]@);
            if i == 0 {
                assert(join_quoted(xs.take(0)) =~= Seq::<char>::empty());
            }
            assert(out@ =~= head + join_quoted(t));
        }
        i += 1;
    }
    assert(xs.take(items.len() as int) =~= xs);
    push_str(&mut out, ",\n]");
    assert(out@ =~= list_text(xs));
    string_from_chars(&out)
}

fn string_chars(v: &Vec<String>) -> (r: Vec<Vec<char>>)
    ensures
        r@.map_values(|x: Vec<char>| x@) == views(v@),
{
    let mut r: Vec<Vec<char>> = Vec::new();
    let mut i: usize = 0;
    while i < v.len()
        invariant
            i <= v.len(),
            r@.len() == i,
            r@.map_values(|x: Vec<char>| x@) == views(v@).take(i as int),
        decreases v.len() - i,
    {
        let c = chars_of(v[i].as_str());
        assert(c@ == v@[i as int]@);
        r.push(c);
        assert(r@[i as int]@ == views(v@)[i as int]);
        assert(r@.map_values(|x: Vec<char>| x@) =~= views(v@).take(i + 1));
        i += 1;
    }
    assert(views(v@).take(v.len() as int) =~= views(v@));
    r
}

fn contains_chars(v: &Vec<Vec<char>>, x: &Vec<char>) -> (r: bool)
    ensures
        r == v@.map_values(|y: Vec<char>| y@).contains(x@),
{
    let ghost ys = v@.map_values(|y: Vec<char>| y@);
    let mut i: usize = 0;
    while i < v.len()
        invariant
            i <= v.len(),
            ys == v@.map_values(|y: Vec<char>| y@),
            forall|j: int| 0 <= j < i ==> ys[j] != x@,
        decreases v.len() - i,
    {
        if crate::strings::chars_eq(&v[i], x) {
            assert(ys[i as int] == x@);
            return true;
        }
        i += 1;
    }
    false
}

/// The new content of the `backgrounds` list after adding `output`, or `None`
/// when the list already names it (the file is then left as it is).
pub fn backgrounds_with_output(list: &Vec<String>, output: &str) -> (r: Option<String>)
    ensures
        views(list@).contains(output@) ==> r is None,
        !views(list@).contains(output@) ==> (r matches Some(t) && t@ == list_text(
            views(list@).push(output@),
        )),
{
    let mut items = string_chars(list);
    let o = chars_of(output);
    if contains_chars(&items, &o) {
        return None;
    }
    items.push(o);
    assert(items@.map_values(|x: Vec<char>| x@) =~= views(list@).push(output@));
    Some(serialize_list(&items))
}

/// The file name of the background config for a display and the value of its
/// `output` field: `all` for every display, else `output.<name>` and `<name>`.
pub fn background_config_target(output: Option<&str>) -> (r: (String, String))
    ensures
        match output {
            None => r.0@ == "all"@ && r.1@ == "all"@,
            Some(name) => r.0@ == "output."@ + name@ && r.1@ == name@,
        },
{
    match output {
        None => (string_from_chars(&chars_of("all")), string_from_chars(&chars_of("all"))),
        Some(name) => {
            let mut f = chars_of("output.");
            push_str(&mut f, name);
            (string_from_chars(&f), string_from_chars(&chars_of(name)))
        },
    }
}

/// The content of the `same-on-all` flag file: `true` unless one display is targeted.
pub fn same_on_all_text(output: Option<&str>) -> (r: &'static str)
    ensures
        output is None ==> r@ == "true\n"@,
        output is Some ==> r@ == "false\n"@,
{
    match output {
        None => "true\n",
        Some(_) => "false\n",
    }
}

/// A fresh background config for `output` showing the image at `path`.
pub open spec fn new_background_text(output: Seq<char>, path: Seq<char>) -> Seq<char> {
    "(\n    output: \""@ + output + "\",\n    source: Path(\""@ + path
        + "\"),\n    filter_by_theme: false,\n    rotation_frequency: 300,\n    filter_method: Lanczos,\n    scaling_mode: Zoom,\n    sampling_method: Alphanumeric,\n)\n"@
}

/// Writes a fresh background config.
pub fn new_background_config(output: &str, path: &str) -> (r: String)
    ensures
        r@ == new_background_text(output@, path@),
{
    let mut out = chars_of("(\n    output: \"");
    push_str(&mut out, output);
    push_str(&mut out, "\",\n    source: Path(\"");
    push_str(&mut out, path);
    push_str(
        &mut out,
        "\"),\n    filter_by_theme: false,\n    rotation_frequency: 300,\n    filter_method: Lanczos,\n    scaling_mode: Zoom,\n    sampling_method: Alphanumeric,\n)\n",
    );
    assert(out@ =~= new_background_text(output@, path@));
    string_from_chars(&out)
}


/// The path pieces that name directories or files: the pieces between slashes
/// other than empty ones and `.`.
pub open spec fn named_parts(pieces: Seq<Seq<char>>) -> Seq<Seq<char>>
    decreases pieces.len(),
{
    if pieces.len() == 0 {
        Seq::empty()
    } else {
        let head: Seq<Seq<char>> = if pieces[0].len() > 0 && pieces[0] != "."@ {
            seq![pieces[0]]
        } else {
            Seq::empty()
        };
        head + named_parts(pieces.drop_first())
    }
}

/// What a Unix path compares by (the components `Path::components` yields):
/// whether it starts at the root, whether it starts with `.` as its own
/// component, and its named pieces.
pub open spec fn path_key(p: Seq<char>) -> (bool, bool, Seq<Seq<char>>) {
    let root = p.len() > 0 && p[0] == '/';
    let cur = !root && p.len() > 0 && p[0] == '.' && (p.len() == 1 || p[1] == '/');
    (root, cur, named_parts(split_on(p, '/')))
}

/// Two paths are equal as `PathBuf`s are: component by component.
pub open spec fn same_path(a: Seq<char>, b: Seq<char>) -> bool {
    path_key(a) == path_key(b)
}

/// `paths` with each path that equals an earlier one left out.
pub open spec fn dedup_paths(paths: Seq<Seq<char>>) -> Seq<Seq<char>>
    decreases paths.len(),
{
    if paths.len() == 0 {
        Seq::empty()
    } else {
        let d = dedup_paths(paths.drop_last());
        if exists|j: int| 0 <= j < d.len() && same_path(#[trigger] d[j], paths.last()) {
            d
        } else {
            d.push(paths.last())
        }
    }
}

/// The custom-images list after adding `path`: the path is appended unless an
/// equal path is listed, and later duplicates are removed.
pub open spec fn custom_images_after(list: Seq<Seq<char>>, path: Seq<char>) -> Seq<Seq<char>> {
    dedup_paths(list.push(path))
}

struct PathKey {
    root: bool,
    cur: bool,
    parts: Vec<Vec<char>>,
}

impl PathKey {
    spec fn key(&self) -> (bool, bool, Seq<Seq<char>>) {
        (self.root, self.cur, self.parts@.map_values(|x: Vec<char>| x@))
    }
}

fn is_dot(x: &Vec<char>) -> (r: bool)
    ensures
        r == (x@ == "."@),
{
    let d = chars_of(".");
    crate::strings::chars_eq(x, &d)
}

fn path_key_of(p: &Vec<char>) -> (k: PathKey)
    ensures
        k.key() == path_key(p@),
{
    let n = p.len();
    let root = n > 0 && p[0] == '/';
    let cur = !root && n > 0 && p[0] == '.' && (n == 1 || p[1] == '/');
    let ghost whole = split_on(p@, '/');
    let mut parts: Vec<Vec<char>> = Vec::new();
    let mut start: usize = 0;
    let mut done = false;
    while !done
        invariant
            n == p.len(),
            start <= n,
            whole == split_on(p@, '/'),
            !done ==> named_parts(whole) == parts@.map_values(|x: Vec<char>| x@) + named_parts(
                split_from(p@, '/', start as int),
            ),
            done ==> named_parts(whole) == parts@.map_values(|x: Vec<char>| x@),
        decreases (if done {
            0
        } else {
            n + 1 - start
        }),
    {
        let k = find_char(p, '/', start);
        proof {
            lemma_find_from(p@, '/', start as int);
        }
        let piece = sub_chars(p, start, k);
        let ghost rest = if k < n {
            split_from(p@, '/', k + 1)
        } else {
            Seq::<Seq<char>>::empty()
        };
        proof {
            let ps = split_from(p@, '/', start as int);
            assert(ps == seq![piece@] + rest);
            assert(ps[0] == piece@);
            assert(ps.drop_first() =~= rest);
        }
        if piece.len() > 0 && !is_dot(&piece) {
            parts.push(piece);
        }
        assert(parts@.map_values(|x: Vec<char>| x@) + named_parts(rest) =~= named_parts(whole));
        if k < n {
            start = k + 1;
        } else {
            done = true;
            assert(named_parts(rest) =~= Seq::<Seq<char>>::empty());
            assert(parts@.map_values(|x: Vec<char>| x@) + named_parts(rest) =~= parts@.map_values(
                |x: Vec<char>| x@,
            ));
        }
    }
    PathKey { root, cur, parts }
}

fn keys_equal(a: &PathKey, b: &PathKey) -> (r: bool)
    ensures
        r == (a.key() == b.key()),
{
    if a.root != b.root || a.cur != b.cur {
        return false;
    }
    if a.parts.len() != b.parts.len() {
        assert(a.key().2.len() != b.key().2.len());
        return false;
    }
    let ghost xa = a.parts@.map_values(|x: Vec<char>| x@);
    let ghost xb = b.parts@.map_values(|x: Vec<char>| x@);
    let mut i: usize = 0;
    while i < a.parts.len()
        invariant
            i <= a.parts.len() == b.parts.len(),
            xa == a.parts@.map_values(|x: Vec<char>| x@),
            xb == b.parts@.map_values(|x: Vec<char>| x@),
            forall|j: int| 0 <= j < i ==> xa[j] == xb[j],
        decreases a.parts.len() - i,
    {
        if !crate::strings::chars_eq(&a.parts[i], &b.parts[i]) {
            assert(xa[i as int] != xb[i as int]);
            return false;
        }
        i += 1;
    }
    assert(xa =~= xb);
    true
}

/// The custom-images list with `path` added and duplicate paths removed.
pub fn add_custom_image(list: &Vec<String>, path: &str) -> (r: Vec<String>)
    ensures
        views(r@) == custom_images_after(views(list@), path@),
{
    let mut all = string_chars(list);
    all.push(chars_of(path));
    let ghost xs = all@.map_values(|x: Vec<char>| x@);
    assert(xs =~= views(list@).push(path@));
    let mut kept: Vec<String> = Vec::new();
    let mut kept_keys: Vec<PathKey> = Vec::new();
    let mut i: usize = 0;
    while i < all.len()
        invariant
            i <= all.len(),
            xs == all@.map_values(|x: Vec<char>| x@),
            kept@.len() == kept_keys@.len(),
            views(kept@) == dedup_paths(xs.take(i as int)),
            forall|j: int| 0 <= j < kept_keys@.len() ==> #[trigger] kept_keys@[j].key() == path_key(
                views(kept@)[j],
            ),
        decreases all.len() - i,
    {
        let key = path_key_of(&all[i]);
        let mut found = false;
        let mut j: usize = 0;
        while j < kept_keys.len()
            invariant
                j <= kept_keys.len(),
                key.key() == path_key(xs[i as int]),
                !found ==> forall|m: int| 0 <= m < j ==> !same_path(
                    #[trigger] views(kept@)[m],
                    xs[i as int],
                ),
                found ==> exists|m: int| 0 <= m < kept@.len() && same_path(
                    #[trigger] views(kept@)[m],
                    xs[i as int],
                ),
                kept@.len() == kept_keys@.len(),
                forall|m: int| 0 <= m < kept_keys@.len() ==> #[trigger] kept_keys@[m].key()
                    == path_key(views(kept@)[m]),
            decreases kept_keys.len() - j,
        {
            if keys_equal(&kept_keys[j], &key) {
                assert(kept_keys@[j as int].key() == path_key(views(kept@)[j as int]));
                found = true;
            }
            j += 1;
        }
        proof {
            let t = xs.take(i + 1);
            assert(t.drop_last() =~= xs.take(i as int));
            assert(t.last() == xs[i as int]);
        }
        if !found {
            let ghost before = views(kept@);
            kept.push(string_from_chars(&all[i]));
            kept_keys.push(key);
            assert(views(kept@) =~= before.push(xs[i as int]));
        }
        i += 1;
    }
    assert(xs.take(all.len() as int) =~= xs);
    kept
}

/// The custom-images file content after adding `path`.
pub fn custom_images_text(list: &Vec<String>, path: &str) -> (r: String)
    ensures
        r@ == list_text(custom_images_after(views(list@), path@)),
{
    let kept = add_custom_image(list, path);
    let items = string_chars(&kept);
    serialize_list(&items)
}


/// Whether `sub` occurs in `t`.
pub open spec fn contains_text(t: Seq<char>, sub: Seq<char>) -> bool {
    exists|i: int| 0 <= i && i + sub.len() <= t.len() && #[trigger] t.subrange(i, i + sub.len()) == sub
}

/// The index of the first white-space character of `t` at or after `i`, or its length.
pub open spec fn white_from(t: Seq<char>, i: int) -> int
    decreases t.len() - i,
{
    if i >= t.len() {
        t.len() as int
    } else if is_white(t[i]) {
        i
    } else {
        white_from(t, i + 1)
    }
}

/// The first word of a line that does not start with white space.
pub open spec fn first_word(t: Seq<char>) -> Seq<char> {
    t.take(white_from(t, 0))
}

/// The display names on the lines that mark a display `(enabled)` or `(disabled)`:
/// the first word of each such line.
pub open spec fn output_names_of(lines: Seq<Seq<char>>) -> Seq<Seq<char>>
    decreases lines.len(),
{
    if lines.len() == 0 {
        Seq::empty()
    } else {
        let t = trim(lines[0]);
        let head: Seq<Seq<char>> = if contains_text(t, "(enabled)"@) || contains_text(
            t,
            "(disabled)"@,
        ) {
            seq![first_word(t)]
        } else {
            Seq::empty()
        };
        head + output_names_of(lines.drop_first())
    }
}

/// The display names in the output of the display-listing command.
pub open spec fn output_names(stdout: Seq<char>) -> Seq<Seq<char>> {
    output_names_of(lines_of(strip_ansi(stdout)))
}

fn contains_str(t: &Vec<char>, sub: &str) -> (r: bool)
    ensures
        r == contains_text(t@, sub@),
{
    let m = chars_of(sub);
    if m.len() > t.len() {
        return false;
    }
    if m.len() == 0 {
        assert(t@.subrange(0int, 0int + sub@.len()) =~= sub@);
        return true;
    }
    let last = t.len() - m.len();
    let mut i: usize = 0;
    while i <= last
        invariant
            m@ == sub@,
            0 < m.len() <= t.len(),
            last == t.len() - m.len(),
            i <= last + 1,
            forall|k: int| 0 <= k < i ==> #[trigger] t@.subrange(k, k + m@.len()) != m@,
        decreases last + 1 - i,
    {
        let piece = sub_chars(t, i, i + m.len());
        if crate::strings::chars_eq(&piece, &m) {
            assert(t@.subrange(i as int, i + sub@.len()) == sub@);
            return true;
        }
        i += 1;
    }
    proof {
        assert forall|k: int| 0 <= k && k + sub@.len() <= t@.len() implies #[trigger] t@.subrange(
            k,
            k + sub@.len(),
        ) != sub@ by {
            assert(k < i);
        }
    }
    false
}

fn first_word_of(t: &Vec<char>) -> (r: Vec<char>)
    ensures
        r@ == first_word(t@),
{
    let mut j: usize = 0;
    while j < t.len() && !is_white_char(t[j])
        invariant
            j <= t.len(),
            white_from(t@, 0) == white_from(t@, j as int),
        decreases t.len() - j,
    {
        j += 1;
    }
    sub_chars(t, 0, j)
}

/// The names of the displays listed in the output of the display-listing command
/// (terminal colour codes removed first).
pub fn parse_output_names(stdout: &str) -> (r: Vec<String>)
    ensures
        views(r@) == output_names(stdout@),
{
    let stripped = strip_ansi_codes(stdout);
    let s = chars_of(stripped.as_str());
    let n = s.len();
    let mut out: Vec<String> = Vec::new();
    let mut start: usize = 0;
    let ghost all = output_names(stdout@);
    while start < n
        invariant
            s@ == strip_ansi(stdout@),
            n == s.len(),
            start <= n,
            all == output_names(stdout@),
            all == views(out@) + output_names_of(lines_from(s@, start as int)),
        decreases n - start,
    {
        let k = find_char(&s, '\n', start);
        proof {
            lemma_find_from(s@, '\n', start as int);
        }
        let raw = sub_chars(&s, start, k);
        let line = if k < n && raw.len() > 0 && raw[raw.len() - 1] == '\r' {
            sub_chars(&raw, 0, raw.len() - 1)
        } else {
            raw
        };
        let ghost rest = if k < n {
            lines_from(s@, k + 1)
        } else {
            Seq::<Seq<char>>::empty()
        };
        proof {
            let ls = lines_from(s@, start as int);
            assert(ls == seq![line@] + rest);
            assert(ls[0] == line@);
            assert(ls.drop_first() =~= rest);
        }
        let t = trim_white(&line);
        if contains_str(&t, "(enabled)") || contains_str(&t, "(disabled)") {
            let w = first_word_of(&t);
            out.push(string_from_chars(&w));
        }
        assert(all =~= views(out@) + output_names_of(rest));
        if k < n {
            start = k + 1;
        } else {
            start = n;
            assert(lines_from(s@, n as int) =~= Seq::<Seq<char>>::empty());
        }
    }
    assert(lines_from(s@, start as int) =~= Seq::<Seq<char>>::empty());
    assert(views(out@) =~= all);
    out
}

/// What "set as wallpaper" does.
#[derive(Debug, Clone, PartialEq, Eq)]
pub enum WallpaperPlan {
    /// Set the wallpaper on the named display, or on every display.
    Apply(Option<String>),
    /// Ask which display to use.
    AskUser,
}

/// The plan for "set as wallpaper" under `behavior`, given whether the
/// desktop is COSMIC and (where the behaviour needs them) its displays'
/// names: outside COSMIC, and when asked to use every display, all
/// displays; when asked to ask, a question only if there are several
/// displays; when asked to use the current display, the first one listed.
pub open spec fn wallpaper_plan_of(cosmic: bool, behavior: WallpaperBehavior, outputs: Seq<Seq<char>>) -> (
    bool,
    Option<Seq<char>>,
) {
    if !cosmic {
        (false, None)
    } else {
        match behavior {
            WallpaperBehavior::Ask => if outputs.len() <= 1 {
                (false, None)
            } else {
                (true, None)
            },
            WallpaperBehavior::AllDisplays => (false, None),
            WallpaperBehavior::CurrentDisplay => if outputs.len() > 0 {
                (false, Some(outputs[0]))
            } else {
                (false, None)
            },
        }
    }
}

/// Decides what "set as wallpaper" does.
pub fn wallpaper_plan(cosmic: bool, behavior: WallpaperBehavior, outputs: &Vec<String>) -> (r: WallpaperPlan)
    ensures
        match r {
            WallpaperPlan::AskUser => wallpaper_plan_of(cosmic, behavior, views(outputs@)).0,
            WallpaperPlan::Apply(o) => {
                &&& !wallpaper_plan_of(cosmic, behavior, views(outputs@)).0
                &&& match (o, wallpaper_plan_of(cosmic, behavior, views(outputs@)).1) {
                    (None, None) => true,
                    (Some(name), Some(t)) => name@ == t,
                    _ => false,
                }
            },
        },
{
    if !cosmic {
        return WallpaperPlan::Apply(None);
    }
    match behavior {
        WallpaperBehavior::Ask => if outputs.len() <= 1 {
            WallpaperPlan::Apply(None)
        } else {
            WallpaperPlan::AskUser
        },
        WallpaperBehavior::AllDisplays => WallpaperPlan::Apply(None),
        WallpaperBehavior::CurrentDisplay => if outputs.len() > 0 {
            WallpaperPlan::Apply(Some(outputs[0].clone()))
        } else {
            WallpaperPlan::Apply(None)
        },
    }
}

/// An entry that a list file holds unchanged: not empty, without commas,
/// and neither starting nor ending with a double quote.
pub open spec fn plain_entry(x: Seq<char>) -> bool {
    &&& x.len() > 0
    &&& !x.contains(',')
    &&& x[0] != '"'
    &&& x.last() != '"'
}

proof fn lemma_find_shift(p: Seq<char>, b: Seq<char>, c: char, j: int)
    requires
        0 <= j <= b.len(),
    ensures
        find_from(p + b, c, p.len() + j) == p.len() + find_from(b, c, j),
    decreases b.len() - j,
{
    if j < b.len() {
        assert((p + b)[p.len() + j] == b[j]);
        if b[j] != c {
            lemma_find_shift(p, b, c, j + 1);
        }
    }
}

proof fn lemma_split_shift(p: Seq<char>, b: Seq<char>, sep: char, j: int)
    requires
        0 <= j <= b.len(),
    ensures
        split_from(p + b, sep, p.len() + j) == split_from(b, sep, j),
    decreases b.len() - j,
{
    let s = p + b;
    lemma_find_shift(p, b, sep, j);
    lemma_find_from(b, sep, j);
    let k = find_from(b, sep, j);
    if k < b.len() {
        lemma_split_shift(p, b, sep, k + 1);
        assert(s.subrange(p.len() + j, p.len() + k) =~= b.subrange(j, k));
    } else {
        assert(s.subrange(p.len() + j, s.len() as int) =~= b.subrange(j, b.len() as int));
    }
}

proof fn lemma_find_first(s: Seq<char>, c: char, k: int)
    requires
        0 <= k < s.len(),
        s[k] == c,
        forall|j: int| 0 <= j < k ==> s[j] != c,
    ensures
        find_from(s, c, 0) == k,
{
    lemma_find_from(s, c, 0);
    let f = find_from(s, c, 0);
    if f > k {
        assert(s[k] != c);
    }
}

/// Splitting `a`, a separator and `b` gives the pieces of `a` followed by
/// those of `b`.
proof fn lemma_split_concat(a: Seq<char>, b: Seq<char>, sep: char)
    ensures
        split_on(a + seq![sep] + b, sep) == split_on(a, sep) + split_on(b, sep),
    decreases a.len(),
{
    let s = a + seq![sep] + b;
    lemma_find_from(a, sep, 0);
    let f = find_from(a, sep, 0);
    let p = a + seq![sep];
    assert(s == p + b);
    if f == a.len() {
        assert(s[a.len() as int] == sep);
        assert forall|j: int| 0 <= j < a.len() implies s[j] != sep by {
            assert(s[j] == a[j]);
        }
        lemma_find_first(s, sep, a.len() as int);
        lemma_split_shift(p, b, sep, 0);
        assert(s.subrange(0, a.len() as int) =~= a);
        assert(a.subrange(0, a.len() as int) =~= a);
    } else {
        let a1 = a.subrange(0, f);
        let a2 = a.subrange(f + 1, a.len() as int);
        assert(a =~= a1 + seq![sep] + a2);
        lemma_split_concat(a2, b, sep);
        assert(s =~= a1 + seq![sep] + (a2 + seq![sep] + b));
        assert forall|j: int| 0 <= j < f implies s[j] != sep by {
            assert(s[j] == a[j]);
        }
        assert(s[f] == sep);
        lemma_find_first(s, sep, f);
        lemma_split_shift(a1 + seq![sep], a2 + seq![sep] + b, sep, 0);
        assert(s.subrange(0, f) =~= a1);
        lemma_split_shift(a1 + seq![sep], a2, sep, 0);
        assert(a.subrange(0, f) =~= a1);
        assert(split_on(a, sep) == seq![a1] + split_on(a2, sep));
        assert(split_on(s, sep) == seq![a1] + split_on(a2 + seq![sep] + b, sep));
        assert(split_on(s, sep) =~= split_on(a, sep) + split_on(b, sep));
    }
}

proof fn lemma_split_single(a: Seq<char>, sep: char)
    requires
        !a.contains(sep),
    ensures
        split_on(a, sep) == seq![a],
{
    lemma_find_from(a, sep, 0);
    let f = find_from(a, sep, 0);
    if f < a.len() {
        assert(a.contains(sep));
    }
    assert(a.subrange(0, a.len() as int) =~= a);
}

/// How the entries sit between the brackets: each on its own line, quoted.
pub open spec fn entry_lines(xs: Seq<Seq<char>>) -> Seq<Seq<char>> {
    xs.map_values(|x: Seq<char>| "\n    "@ + quoted(x))
}

proof fn lemma_split_entries(xs: Seq<Seq<char>>)
    requires
        xs.len() >= 1,
        forall|i: int| 0 <= i < xs.len() ==> !(#[trigger] xs[i]).contains(','),
    ensures
        split_on("\n    "@ + join_quoted(xs), ',') == entry_lines(xs),
    decreases xs.len(),
{
    let t = "\n    "@ + join_quoted(xs);
    if xs.len() == 1 {
        assert(t =~= "\n    "@ + quoted(xs[0]));
        assert(!t.contains(',')) by {
            if t.contains(',') {
                let j = choose|j: int| 0 <= j < t.len() && t[j] == ',';
                reveal_strlit("\n    ");
                assert(xs[0][j - 6] == ',');
                assert(xs[0].contains(','));
            }
        }
        lemma_split_single(t, ',');
        assert(entry_lines(xs) =~= seq![t]);
    } else {
        let init = xs.drop_last();
        let last = "\n    "@ + quoted(xs.last());
        assert(forall|i: int| 0 <= i < init.len() ==> init[i] == xs[i]);
        lemma_split_entries(init);
        assert(t =~= ("\n    "@ + join_quoted(init)) + seq![','] + last) by {
            reveal_strlit(",\n    ");
            reveal_strlit("\n    ");
        }
        lemma_split_concat("\n    "@ + join_quoted(init), last, ',');
        assert(!last.contains(',')) by {
            if last.contains(',') {
                let j = choose|j: int| 0 <= j < last.len() && last[j] == ',';
                reveal_strlit("\n    ");
                assert(xs.last()[j - 6] == ',');
                assert(xs[xs.len() - 1].contains(','));
            }
        }
        lemma_split_single(last, ',');
        assert(entry_lines(xs) =~= entry_lines(init) + seq![last]);
    }
}

proof fn lemma_lead_prefix(pre: Seq<char>, rest: Seq<char>, p: spec_fn(char) -> bool)
    requires
        forall|i: int| 0 <= i < pre.len() ==> p(#[trigger] pre[i]),
        rest.len() > 0,
        !p(rest[0]),
    ensures
        lead_by(pre + rest, p) == pre.len(),
    decreases pre.len(),
{
    if pre.len() > 0 {
        assert((pre + rest).drop_first() =~= pre.drop_first() + rest);
        assert forall|i: int| 0 <= i < pre.drop_first().len() implies p(#[trigger] pre.drop_first()[i]) by {
            assert(pre.drop_first()[i] == pre[i + 1]);
        }
        lemma_lead_prefix(pre.drop_first(), rest, p);
    } else {
        assert(pre + rest =~= rest);
    }
}

proof fn lemma_trail_suffix(rest: Seq<char>, suf: Seq<char>, p: spec_fn(char) -> bool)
    requires
        forall|i: int| 0 <= i < suf.len() ==> p(#[trigger] suf[i]),
        rest.len() > 0,
        !p(rest.last()),
    ensures
        trail_by(rest + suf, p) == suf.len(),
    decreases suf.len(),
{
    if suf.len() > 0 {
        assert((rest + suf).drop_last() =~= rest + suf.drop_last());
        assert forall|i: int| 0 <= i < suf.drop_last().len() implies p(#[trigger] suf.drop_last()[i]) by {
            assert(suf.drop_last()[i] == suf[i]);
        }
        lemma_trail_suffix(rest, suf.drop_last(), p);
    } else {
        assert(rest + suf =~= rest);
    }
}

proof fn lemma_clean_entry(x: Seq<char>)
    requires
        plain_entry(x),
    ensures
        clean_item("\n    "@ + quoted(x)) == x,
{
    let q = quoted(x);
    let line = "\n    "@ + q;
    let white = |c: char| is_white(c);
    let dq = |c: char| c == '"';
    reveal_strlit("\n    ");
    assert(!is_white('"'));
    assert(is_white('\n'));
    assert(is_white(' '));
    lemma_lead_prefix("\n    "@, q, white);
    let u = line.skip(5);
    assert(u =~= q);
    lemma_trail_suffix(q, Seq::<char>::empty(), white);
    assert(q + Seq::<char>::empty() =~= q);
    assert(trim(line) =~= q);
    lemma_lead_prefix(seq!['"'], x + seq!['"'], dq);
    assert(seq!['"'] + (x + seq!['"']) =~= q);
    let v = q.skip(1);
    assert(v =~= x + seq!['"']);
    lemma_trail_suffix(x, seq!['"'], dq);
    assert(trim_quotes(q) =~= x);
}

proof fn lemma_clean_blank(x: Seq<char>)
    requires
        forall|i: int| 0 <= i < x.len() ==> is_white(#[trigger] x[i]),
    ensures
        clean_item(x).len() == 0,
    decreases x.len(),
{
    let white = |c: char| is_white(c);
    if x.len() > 0 {
        assert forall|i: int| 0 <= i < x.drop_first().len() implies is_white(#[trigger] x.drop_first()[i]) by {
            assert(x.drop_first()[i] == x[i + 1]);
        }
        lemma_clean_blank(x.drop_first());
        lemma_lead_all(x, white);
    }
}

proof fn lemma_lead_all(x: Seq<char>, p: spec_fn(char) -> bool)
    requires
        forall|i: int| 0 <= i < x.len() ==> p(#[trigger] x[i]),
    ensures
        lead_by(x, p) == x.len(),
        trim_by(x, p).len() == 0,
    decreases x.len(),
{
    if x.len() > 0 {
        assert forall|i: int| 0 <= i < x.drop_first().len() implies p(#[trigger] x.drop_first()[i]) by {
            assert(x.drop_first()[i] == x[i + 1]);
        }
        lemma_lead_all(x.drop_first(), p);
    }
}

proof fn lemma_clean_single_blank(x: Seq<char>)
    requires
        clean_item(x).len() == 0,
    ensures
        clean_list(seq![x]) == Seq::<Seq<char>>::empty(),
{
    assert(seq![x].drop_first() =~= Seq::<Seq<char>>::empty());
    assert(clean_list(Seq::<Seq<char>>::empty()) == Seq::<Seq<char>>::empty());
    assert(seq![x][0] == x);
    assert(clean_list(seq![x]) =~= Seq::<Seq<char>>::empty());
}

proof fn lemma_clean_list_concat(a: Seq<Seq<char>>, b: Seq<Seq<char>>)
    ensures
        clean_list(a + b) == clean_list(a) + clean_list(b),
    decreases a.len(),
{
    if a.len() > 0 {
        assert((a + b).drop_first() =~= a.drop_first() + b);
        lemma_clean_list_concat(a.drop_first(), b);
        assert((a + b)[0] == a[0]);
    } else {
        assert(a + b =~= b);
    }
}

proof fn lemma_clean_entries(xs: Seq<Seq<char>>)
    requires
        forall|i: int| 0 <= i < xs.len() ==> plain_entry(#[trigger] xs[i]),
    ensures
        clean_list(entry_lines(xs)) == xs,
    decreases xs.len(),
{
    if xs.len() > 0 {
        let rest = xs.drop_first();
        assert forall|i: int| 0 <= i < rest.len() implies plain_entry(#[trigger] rest[i]) by {
            assert(rest[i] == xs[i + 1]);
        }
        lemma_clean_entries(rest);
        lemma_clean_entry(xs[0]);
        assert(entry_lines(xs).drop_first() =~= entry_lines(rest));
        assert(seq![xs[0]] + rest =~= xs);
    } else {
        assert(entry_lines(xs) =~= Seq::<Seq<char>>::empty());
    }
}

/// A list file written from plain entries reads back as those entries.
pub proof fn lemma_list_round_trip(xs: Seq<Seq<char>>)
    requires
        forall|i: int| 0 <= i < xs.len() ==> plain_entry(#[trigger] xs[i]),
    ensures
        parse_list(list_text(xs)) == Some(xs),
{
    let t = list_text(xs);
    let white = |c: char| is_white(c);
    reveal_strlit("[\n    ");
    reveal_strlit(",\n]");
    assert(!is_white('['));
    assert(!is_white(']'));
    assert(is_white('\n'));
    lemma_lead_prefix(Seq::<char>::empty(), t, white);
    assert(Seq::<char>::empty() + t =~= t);
    lemma_trail_suffix(t, Seq::<char>::empty(), white);
    assert(t + Seq::<char>::empty() =~= t);
    assert(trim(t) =~= t);
    let inner = t.subrange(1, t.len() - 1);
    let tail = seq!['\n'];
    assert forall|i: int| 0 <= i < tail.len() implies is_white(#[trigger] tail[i]) by {}
    lemma_clean_blank(tail);
    lemma_split_single(tail, ',');
    if xs.len() == 0 {
        let head = "\n    "@;
        reveal_strlit("\n    ");
        assert(inner =~= head + seq![','] + tail);
        lemma_split_concat(head, tail, ',');
        assert(!head.contains(',')) by {
            if head.contains(',') {
                let j = choose|j: int| 0 <= j < head.len() && head[j] == ',';
            }
        }
        lemma_split_single(head, ',');
        assert(forall|i: int| 0 <= i < head.len() ==> is_white(#[trigger] head[i])) by {
            assert(is_white(' '));
        }
        lemma_clean_blank(head);
        assert(clean_list(seq![head] + seq![tail]) =~= Seq::<Seq<char>>::empty()) by {
            lemma_clean_list_concat(seq![head], seq![tail]);
            lemma_clean_single_blank(head);
            lemma_clean_single_blank(tail);
        }
        assert(split_on(inner, ',') =~= seq![head] + seq![tail]);
    } else {
        let body = "\n    "@ + join_quoted(xs);
        reveal_strlit("\n    ");
        assert(inner =~= body + seq![','] + tail);
        lemma_split_concat(body, tail, ',');
        assert(forall|i: int| 0 <= i < xs.len() ==> !(#[trigger] xs[i]).contains(','));
        lemma_split_entries(xs);
        lemma_clean_entries(xs);
        lemma_clean_list_concat(entry_lines(xs), seq![tail]);
        lemma_clean_single_blank(tail);
        assert(entry_lines(xs) + seq![tail] == split_on(inner, ','));
        assert(clean_list(entry_lines(xs) + seq![tail]) =~= xs);
    }
}

/// After deduplication no two entries are the same path, and every path of
/// the input equals one that is kept.
pub proof fn lemma_dedup_paths(paths: Seq<Seq<char>>)
    ensures
        forall|i: int, j: int|
            0 <= i < j < dedup_paths(paths).len() ==> !same_path(
                #[trigger] dedup_paths(paths)[i],
                #[trigger] dedup_paths(paths)[j],
            ),
        forall|k: int|
            #![trigger paths[k]]
            0 <= k < paths.len() ==> exists|j: int|
                0 <= j < dedup_paths(paths).len() && same_path(
                    #[trigger] dedup_paths(paths)[j],
                    paths[k],
                ),
    decreases paths.len(),
{
    if paths.len() > 0 {
        let init = paths.drop_last();
        lemma_dedup_paths(init);
        let d = dedup_paths(init);
        let last = paths.last();
        let r = dedup_paths(paths);
        assert forall|k: int| #![trigger paths[k]] 0 <= k < paths.len() implies exists|j: int|
            0 <= j < r.len() && same_path(#[trigger] r[j], paths[k]) by {
            if k < paths.len() - 1 {
                assert(paths[k] == init[k]);
                let j = choose|j: int| 0 <= j < d.len() && same_path(#[trigger] d[j], init[k]);
                assert(r[j] == d[j]);
            } else {
                if exists|j: int| 0 <= j < d.len() && same_path(#[trigger] d[j], last) {
                    let j = choose|j: int| 0 <= j < d.len() && same_path(#[trigger] d[j], last);
                    assert(r[j] == d[j]);
                } else {
                    assert(r[d.len() as int] == last);
                }
            }
        }
    }
}

/// The custom-images list after adding a path holds that path (as an equal
/// path) and no path twice.
pub proof fn lemma_custom_images_after(list: Seq<Seq<char>>, path: Seq<char>)
    ensures
        exists|j: int|
            0 <= j < custom_images_after(list, path).len() && same_path(
                #[trigger] custom_images_after(list, path)[j],
                path,
            ),
        forall|i: int, j: int|
            0 <= i < j < custom_images_after(list, path).len() ==> !same_path(
                #[trigger] custom_images_after(list, path)[i],
                #[trigger] custom_images_after(list, path)[j],
            ),
{
    let all = list.push(path);
    lemma_dedup_paths(all);
    assert(all[list.len() as int] == path);
    let r = dedup_paths(all);
    let j = choose|j: int| 0 <= j < r.len() && same_path(#[trigger] r[j], all[list.len() as int]);
    assert(custom_images_after(list, path) == r);
    assert(same_path(custom_images_after(list, path)[j], path));
}

/// Whether a config line is the start of a `source:` entry.
pub open spec fn is_source_start(line: Seq<char>) -> bool {
    starts_with(trim(line), "source:"@)
}

/// Whether a config line closes an entry's value: its trimmed text ends
/// with `,` or `)`.
pub open spec fn closes_value(line: Seq<char>) -> bool {
    ends_with_char(trim(line), ',') || ends_with_char(trim(line), ')')
}

/// Lines written back unchanged, each followed by a line feed.
pub open spec fn kept_lines(ls: Seq<Seq<char>>) -> Seq<char>
    decreases ls.len(),
{
    if ls.len() == 0 {
        Seq::empty()
    } else {
        ls[0] + seq!['\n'] + kept_lines(ls.drop_first())
    }
}

proof fn lemma_rewrite_kept_prefix(pre: Seq<Seq<char>>, rest: Seq<Seq<char>>, path: Seq<char>)
    requires
        forall|j: int| 0 <= j < pre.len() ==> !is_source_start(#[trigger] pre[j]),
    ensures
        rewrite_lines(pre + rest, false, path) == kept_lines(pre) + rewrite_lines(rest, false, path),
    decreases pre.len(),
{
    if pre.len() > 0 {
        let tail = pre.drop_first();
        assert forall|j: int| 0 <= j < tail.len() implies !is_source_start(#[trigger] tail[j]) by {
            assert(tail[j] == pre[j + 1]);
        }
        lemma_rewrite_kept_prefix(tail, rest, path);
        assert((pre + rest)[0] == pre[0]);
        assert((pre + rest).drop_first() =~= tail + rest);
        assert(!is_source_start(pre[0]));
        assert(kept_lines(pre) == pre[0] + seq!['\n'] + kept_lines(tail));
    } else {
        assert(pre + rest =~= rest);
    }
}

proof fn lemma_rewrite_skips_value(val: Seq<Seq<char>>, post: Seq<Seq<char>>, path: Seq<char>)
    requires
        val.len() > 0,
        closes_value(val.last()),
        forall|j: int| 0 <= j < val.len() - 1 ==> !closes_value(#[trigger] val[j]),
    ensures
        rewrite_lines(val + post, true, path) == rewrite_lines(post, false, path),
    decreases val.len(),
{
    assert((val + post)[0] == val[0]);
    assert((val + post).drop_first() =~= val.drop_first() + post);
    if val.len() == 1 {
        assert(val[0] == val.last());
        assert(val.drop_first() + post =~= post);
    } else {
        assert(!closes_value(val[0]));
        let tail = val.drop_first();
        assert(tail.last() == val.last());
        assert forall|j: int| 0 <= j < tail.len() - 1 implies !closes_value(#[trigger] tail[j]) by {
            assert(tail[j] == val[j + 1]);
        }
        lemma_rewrite_skips_value(tail, post, path);
    }
}

proof fn lemma_rewrite_keeps_rest(post: Seq<Seq<char>>, path: Seq<char>)
    requires
        forall|j: int| 0 <= j < post.len() ==> !is_source_start(#[trigger] post[j]),
    ensures
        rewrite_lines(post, false, path) == kept_lines(post),
{
    lemma_rewrite_kept_prefix(post, Seq::empty(), path);
    assert(post + Seq::<Seq<char>>::empty() =~= post);
    assert(kept_lines(post) + Seq::<char>::empty() =~= kept_lines(post));
}

/// Rewriting the source of a background config replaces only the old
/// `source:` entry: the lines before it and after it come back unchanged,
/// and the entry (its first line, and the lines of its value up to the one
/// that closes it with `,` or `)`) becomes the new source line.
pub proof fn lemma_only_source_entry_replaced(
    pre: Seq<Seq<char>>,
    src: Seq<char>,
    val: Seq<Seq<char>>,
    post: Seq<Seq<char>>,
    path: Seq<char>,
)
    requires
        forall|j: int| 0 <= j < pre.len() ==> !is_source_start(#[trigger] pre[j]),
        is_source_start(src),
        closes_value(src) ==> val.len() == 0,
        !closes_value(src) ==> val.len() > 0 && closes_value(val.last()),
        forall|j: int| 0 <= j < val.len() - 1 ==> !closes_value(#[trigger] val[j]),
        forall|j: int| 0 <= j < post.len() ==> !is_source_start(#[trigger] post[j]),
    ensures
        rewrite_lines(pre + seq![src] + val + post, false, path) == kept_lines(pre) + source_line(path)
            + kept_lines(post),
{
    let rest = seq![src] + val + post;
    assert(pre + seq![src] + val + post =~= pre + rest);
    lemma_rewrite_kept_prefix(pre, rest, path);
    assert(rest[0] == src);
    assert(rest.drop_first() =~= val + post);
    assert(continues(trim(src)) == !closes_value(src));
    lemma_rewrite_keeps_rest(post, path);
    if closes_value(src) {
        assert(val + post =~= post);
    } else {
        lemma_rewrite_skips_value(val, post, path);
    }
    assert(kept_lines(pre) + (source_line(path) + kept_lines(post)) =~= kept_lines(pre) + source_line(path)
        + kept_lines(post));
}

proof fn lemma_kept_lines_end(ls: Seq<Seq<char>>)
    requires
        ls.len() > 0,
    ensures
        ends_with_char(kept_lines(ls), '\n'),
    decreases ls.len(),
{
    let tail = ls.drop_first();
    let k = kept_lines(ls);
    assert(k == ls[0] + seq!['\n'] + kept_lines(tail));
    if tail.len() > 0 {
        lemma_kept_lines_end(tail);
        assert(k.last() == kept_lines(tail).last());
    } else {
        assert(kept_lines(tail) =~= Seq::<char>::empty());
        assert(k.last() == '\n');
    }
}

/// The same for the text of a whole config: rewriting its source gives the
/// lines before and after the old `source:` entry unchanged around the new
/// source line, ending with a line feed only when the config did.
pub proof fn lemma_only_source_replaced_in_text(
    existing: Seq<char>,
    pre: Seq<Seq<char>>,
    src: Seq<char>,
    val: Seq<Seq<char>>,
    post: Seq<Seq<char>>,
    path: Seq<char>,
)
    requires
        lines_of(existing) == pre + seq![src] + val + post,
        forall|j: int| 0 <= j < pre.len() ==> !is_source_start(#[trigger] pre[j]),
        is_source_start(src),
        closes_value(src) ==> val.len() == 0,
        !closes_value(src) ==> val.len() > 0 && closes_value(val.last()),
        forall|j: int| 0 <= j < val.len() - 1 ==> !closes_value(#[trigger] val[j]),
        forall|j: int| 0 <= j < post.len() ==> !is_source_start(#[trigger] post[j]),
    ensures
        updated_source(existing, path) + (if ends_with_char(existing, '\n') {
            Seq::<char>::empty()
        } else {
            seq!['\n']
        }) == kept_lines(pre) + source_line(path) + kept_lines(post),
{
    lemma_only_source_entry_replaced(pre, src, val, post, path);
    let r = kept_lines(pre) + source_line(path) + kept_lines(post);
    if post.len() > 0 {
        lemma_kept_lines_end(post);
        assert(r.last() == kept_lines(post).last());
    } else {
        assert(kept_lines(post) =~= Seq::<char>::empty());
        assert(r.last() == source_line(path).last());
    }
    assert(ends_with_char(r, '\n'));
    if !ends_with_char(existing, '\n') {
        assert(r.drop_last() + seq!['\n'] =~= r);
    } else {
        assert(r + Seq::<char>::empty() =~= r);
    }
}

} // verus!

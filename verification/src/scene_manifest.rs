//! The scene manifest: a list of scenes, each with a name and a path, of which the first
//! one that exists is loaded.

use vstd::prelude::*;
use vstd::string::*;

use crate::text::chars_of;

verus! {

/// Where the manifest lies.
pub fn scene_manifest() -> (r: &'static str)
    ensures
        r@ == "assets/scenes.toml"@,
{
    "assets/scenes.toml"
}

/// One scene of the manifest.
pub struct SceneEntry {
    pub name: String,
    pub path: String,
}

/// Characters that trimming removes: those with the Unicode property White_Space.
pub open spec fn is_space(c: char) -> bool {
    let n = c as u32;
    ||| 0x09 <= n <= 0x0d
    ||| n == 0x20
    ||| n == 0x85
    ||| n == 0xa0
    ||| n == 0x1680
    ||| 0x2000 <= n <= 0x200a
    ||| n == 0x2028
    ||| n == 0x2029
    ||| n == 0x202f
    ||| n == 0x205f
    ||| n == 0x3000
}

/// `s` without white space at its start.
pub open spec fn trim_start(s: Seq<char>) -> Seq<char>
    decreases s.len(),
{
    if s.len() > 0 && is_space(s[0]) {
        trim_start(s.skip(1))
    } else {
        s
    }
}

/// `s` without white space at its end.
pub open spec fn trim_end(s: Seq<char>) -> Seq<char>
    decreases s.len(),
{
    if s.len() > 0 && is_space(s.last()) {
        trim_end(s.drop_last())
    } else {
        s
    }
}

/// `s` without white space at either end.
pub open spec fn trim(s: Seq<char>) -> Seq<char> {
    trim_end(trim_start(s))
}

/// What stands behind `prefix` in `s`.
pub open spec fn behind(s: Seq<char>, prefix: Seq<char>) -> Option<Seq<char>> {
    if s.len() >= prefix.len() && s.take(prefix.len() as int) == prefix {
        Some(s.skip(prefix.len() as int))
    } else {
        None
    }
}

/// A quotation mark of either kind.
pub open spec fn is_quote(c: char) -> bool {
    c == '"' || c == '\''
}

/// The string of an assignment `= "..."`, trimmed; nothing where `rest` is no such
/// assignment. Either kind of quotation mark can stand on either side.
pub open spec fn assigned_string(rest: Seq<char>) -> Option<Seq<char>> {
    let s = trim(rest);
    if s.len() == 0 || s[0] != '=' {
        None
    } else {
        let value = trim(s.skip(1));
        if value.len() < 2 || !is_quote(value[0]) || !is_quote(value.last()) {
            None
        } else {
            Some(trim(value.subrange(1, value.len() - 1)))
        }
    }
}

/// The lines of a text, without their line feeds.
pub open spec fn lines(text: Seq<char>) -> Seq<Seq<char>>
    decreases text.len(),
{
    if text.len() == 0 {
        seq![Seq::empty()]
    } else {
        let before = lines(text.drop_last());
        if text.last() == '\n' {
            before.push(Seq::empty())
        } else {
            before.drop_last().push(before.last().push(text.last()))
        }
    }
}

/// What reading a manifest has found so far.
pub ghost struct Reading {
    pub name: Option<Seq<char>>,
    pub scenes: Seq<(Seq<char>, Seq<char>)>,
}

/// What one line adds.
pub open spec fn read_line(st: Reading, raw: Seq<char>) -> Reading {
    let line = trim(raw);
    if behind(line, "[[scenes]]"@) is Some {
        Reading { name: None, ..st }
    } else {
        match behind(line, "name"@) {
            Some(rest) => match assigned_string(rest) {
                Some(v) => Reading { name: Some(v), ..st },
                None => st,
            },
            None => match behind(line, "path"@) {
                Some(rest) => match assigned_string(rest) {
                    Some(v) => Reading {
                        scenes: st.scenes.push(
                            (
                                match st.name {
                                    Some(n) => n,
                                    None => "unnamed"@,
                                },
                                v,
                            ),
                        ),
                        ..st
                    },
                    None => st,
                },
                None => st,
            },
        }
    }
}

/// What a list of lines adds up to.
pub open spec fn read_lines(list: Seq<Seq<char>>) -> Reading
    decreases list.len(),
{
    if list.len() == 0 {
        Reading { name: None, scenes: Seq::empty() }
    } else {
        read_line(read_lines(list.drop_last()), list.last())
    }
}

/// The scenes of a manifest, in order: names and paths.
pub open spec fn scenes_of(text: Seq<char>) -> Seq<(Seq<char>, Seq<char>)> {
    read_lines(lines(text)).scenes
}

/// Names and paths of a list of scenes.
pub open spec fn entries(list: Seq<SceneEntry>) -> Seq<(Seq<char>, Seq<char>)> {
    list.map_values(|e: SceneEntry| (e.name@, e.path@))
}

fn space(c: char) -> (r: bool)
    ensures
        r == is_space(c),
{
    let n: u32 = c as u32;
    (0x09 <= n && n <= 0x0d) || n == 0x20 || n == 0x85 || n == 0xa0 || n == 0x1680 || (0x2000 <= n
        && n <= 0x200a) || n == 0x2028 || n == 0x2029 || n == 0x202f || n == 0x205f || n == 0x3000
}

proof fn lemma_trim_start_step(s: Seq<char>, k: int)
    requires
        0 <= k <= s.len(),
        forall|i: int| 0 <= i < k ==> is_space(#[trigger] s[i]),
        k == s.len() || !is_space(s[k]),
    ensures
        trim_start(s) == s.skip(k),
    decreases k,
{
    if k == 0 {
        assert(s.skip(0) =~= s);
    } else {
        lemma_trim_start_step(s.skip(1), k - 1);
        assert(s.skip(1).skip(k - 1) =~= s.skip(k));
    }
}

proof fn lemma_trim_end_step(s: Seq<char>, k: int)
    requires
        0 <= k <= s.len(),
        forall|i: int| k <= i < s.len() ==> is_space(#[trigger] s[i]),
        k == 0 || !is_space(s[k - 1]),
    ensures
        trim_end(s) == s.take(k),
    decreases s.len() - k,
{
    if k == s.len() {
        assert(s.take(k) =~= s);
    } else {
        lemma_trim_end_step(s.drop_last(), k);
        assert(s.drop_last().take(k) =~= s.take(k));
    }
}

/// Trims the characters from `a` to `b`.
fn trim_bounds(c: &Vec<char>, a: usize, b: usize) -> (r: (usize, usize))
    requires
        a <= b <= c.len(),
    ensures
        a <= r.0 <= r.1 <= b,
        trim(c@.subrange(a as int, b as int)) == c@.subrange(r.0 as int, r.1 as int),
{
    let mut start: usize = a;
    while start < b && space(c[start])
        invariant
            a <= start <= b <= c.len(),
            forall|i: int| a <= i < start ==> is_space(#[trigger] c@[i]),
        decreases b - start,
    {
        start = start + 1;
    }
    let mut end: usize = b;
    while end > start && space(c[end - 1])
        invariant
            a <= start <= end <= b <= c.len(),
            forall|i: int| end <= i < b ==> is_space(#[trigger] c@[i]),
        decreases end,
    {
        end = end - 1;
    }
    proof {
        let s = c@.subrange(a as int, b as int);
        assert forall|i: int| 0 <= i < start - a implies is_space(#[trigger] s[i]) by {
            assert(is_space(c@[a + i]));
        }
        lemma_trim_start_step(s, start - a);
        let t = s.skip(start - a);
        assert forall|i: int| end - start <= i < t.len() implies is_space(#[trigger] t[i]) by {
            assert(is_space(c@[start + i]));
        }
        lemma_trim_end_step(t, end - start);
        assert(t.take(end - start) =~= c@.subrange(start as int, end as int));
    }
    (start, end)
}

/// Where the characters from `a` to `b` begin with `prefix`, what stands behind it.
fn strip_prefix(c: &Vec<char>, a: usize, b: usize, prefix: &str) -> (r: Option<usize>)
    requires
        a <= b <= c.len(),
    ensures
        match r {
            Some(p) => {
                &&& a <= p <= b
                &&& behind(c@.subrange(a as int, b as int), prefix@) == Some(
                    c@.subrange(p as int, b as int),
                )
            },
            None => behind(c@.subrange(a as int, b as int), prefix@) is None,
        },
{
    let p: Vec<char> = chars_of(prefix);
    let ghost s = c@.subrange(a as int, b as int);
    if b - a < p.len() {
        return None;
    }
    let mut i: usize = 0;
    while i < p.len()
        invariant
            i <= p.len(),
            p@ == prefix@,
            p.len() <= b - a,
            a <= b <= c.len(),
            s == c@.subrange(a as int, b as int),
            forall|k: int| 0 <= k < i ==> s[k] == p@[k],
        decreases p.len() - i,
    {
        if c[a + i] != p[i] {
            proof {
                if s.take(p@.len() as int) == p@ {
                    assert(s.take(p@.len() as int)[i as int] == p@[i as int]);
                }
            }
            return None;
        }
        i = i + 1;
    }
    assert(s.take(p@.len() as int) =~= p@);
    assert(s.skip(p@.len() as int) =~= c@.subrange(a + p.len(), b as int));
    Some(a + p.len())
}

/// The bounds of the string that the characters from `a` to `b` assign.
fn assigned_bounds(c: &Vec<char>, a: usize, b: usize) -> (r: Option<(usize, usize)>)
    requires
        a <= b <= c.len(),
    ensures
        match r {
            Some((x, y)) => {
                &&& a <= x <= y <= b
                &&& assigned_string(c@.subrange(a as int, b as int)) == Some(
                    c@.subrange(x as int, y as int),
                )
            },
            None => assigned_string(c@.subrange(a as int, b as int)) is None,
        },
{
    let (s, e): (usize, usize) = trim_bounds(c, a, b);
    let ghost t = c@.subrange(s as int, e as int);
    if s == e || c[s] != '=' {
        return None;
    }
    assert(t.skip(1) =~= c@.subrange(s + 1, e as int));
    let (vs, ve): (usize, usize) = trim_bounds(c, s + 1, e);
    let ghost v = c@.subrange(vs as int, ve as int);
    if ve - vs < 2 {
        return None;
    }
    let first: char = c[vs];
    let last: char = c[ve - 1];
    if !(first == '"' || first == '\'') || !(last == '"' || last == '\'') {
        return None;
    }
    assert(v.subrange(1, v.len() - 1) =~= c@.subrange(vs + 1, ve - 1));
    let (x, y): (usize, usize) = trim_bounds(c, vs + 1, ve - 1);
    Some((x, y))
}

/// The string of an assignment `= "..."`, trimmed.
pub fn split_toml_string(rest: &str) -> (r: Option<String>)
    ensures
        match r {
            Some(v) => assigned_string(rest@) == Some(v@),
            None => assigned_string(rest@) is None,
        },
{
    let c: Vec<char> = chars_of(rest);
    assert(c@.subrange(0, c@.len() as int) =~= rest@);
    match assigned_bounds(&c, 0, c.len()) {
        Some((x, y)) => {
            assert(rest@.subrange(x as int, y as int) =~= c@.subrange(x as int, y as int));
            Some(rest.substring_char(x, y).to_owned())
        },
        None => None,
    }
}

/// The text of an optional string.
pub open spec fn opt_text(s: Option<String>) -> Option<Seq<char>> {
    match s {
        Some(v) => Some(v@),
        None => None,
    }
}

/// Takes in the line of `text` from `a` to `b`.
fn take_line(
    text: &str,
    c: &Vec<char>,
    a: usize,
    b: usize,
    name: &mut Option<String>,
    scenes: &mut Vec<SceneEntry>,
    Ghost(st): Ghost<Reading>,
)
    requires
        c@ == text@,
        a <= b <= c.len(),
        st == (Reading { name: opt_text(*old(name)), scenes: entries(old(scenes)@) }),
    ensures
        read_line(st, text@.subrange(a as int, b as int)) == (Reading {
            name: opt_text(*final(name)),
            scenes: entries(final(scenes)@),
        }),
{
    let (s, e): (usize, usize) = trim_bounds(c, a, b);
    if strip_prefix(c, s, e, "[[scenes]]").is_some() {
        *name = None;
        return;
    }
    match strip_prefix(c, s, e, "name") {
        Some(p) => {
            if let Some((x, y)) = assigned_bounds(c, p, e) {
                *name = Some(text.substring_char(x, y).to_owned());
            }
        },
        None => {
            if let Some(p) = strip_prefix(c, s, e, "path") {
                if let Some((x, y)) = assigned_bounds(c, p, e) {
                    let title: String = match &*name {
                        Some(n) => n.clone(),
                        None => "unnamed".to_owned(),
                    };
                    let ghost before = scenes@;
                    let ghost pair = (title@, text@.subrange(x as int, y as int));
                    scenes.push(
                        SceneEntry { name: title, path: text.substring_char(x, y).to_owned() },
                    );
                    assert(entries(scenes@) =~= entries(before).push(pair));
                }
            }
        },
    }
}

/// Reads the scenes of a manifest. A path without a name before it, since the last
/// `[[scenes]]`, is an unnamed scene.
pub fn manifest_scenes(text: &str) -> (r: Vec<SceneEntry>)
    ensures
        entries(r@) == scenes_of(text@),
{
    let c: Vec<char> = chars_of(text);
    let mut name: Option<String> = None;
    let mut scenes: Vec<SceneEntry> = Vec::new();
    let mut start: usize = 0;
    let mut i: usize = 0;
    let ghost mut done: Seq<Seq<char>> = Seq::empty();
    assert(entries(scenes@) =~= Seq::empty());
    assert(text@.take(0) =~= Seq::<char>::empty());
    assert(lines(text@.take(0)) =~= done.push(text@.subrange(0, 0)));
    while i < c.len()
        invariant
            c@ == text@,
            start <= i <= c.len(),
            lines(text@.take(i as int)) == done.push(text@.subrange(start as int, i as int)),
            read_lines(done) == (Reading { name: opt_text(name), scenes: entries(scenes@) }),
        decreases c.len() - i,
    {
        let ghost line = text@.subrange(start as int, i as int);
        proof {
            let next = text@.take(i + 1);
            assert(next.drop_last() =~= text@.take(i as int));
            assert(next.last() == c@[i as int]);
            assert(done.push(line).drop_last() =~= done);
        }
        if c[i] == '\n' {
            take_line(text, &c, start, i, &mut name, &mut scenes, Ghost(read_lines(done)));
            proof {
                let all = done.push(line);
                assert(all.drop_last() =~= done);
                done = all;
                assert(text@.subrange(i + 1, i + 1) =~= Seq::<char>::empty());
            }
            start = i + 1;
        } else {
            assert(line.push(c@[i as int]) =~= text@.subrange(start as int, i + 1));
        }
        i = i + 1;
    }
    take_line(text, &c, start, i, &mut name, &mut scenes, Ghost(read_lines(done)));
    proof {
        let line = text@.subrange(start as int, i as int);
        assert(text@.take(i as int) =~= text@);
        assert(done.push(line).drop_last() =~= done);
    }
    scenes
}

/// The first scene that exists, given for each of them whether it does.
pub fn first_existing(exists_on_disk: &Vec<bool>) -> (r: Option<usize>)
    ensures
        match r {
            Some(i) => {
                &&& i < exists_on_disk.len()
                &&& exists_on_disk@[i as int]
                &&& forall|k: int| 0 <= k < i ==> !exists_on_disk@[k]
            },
            None => forall|k: int| 0 <= k < exists_on_disk.len() ==> !exists_on_disk@[k],
        },
{
    let mut i: usize = 0;
    while i < exists_on_disk.len()
        invariant
            i <= exists_on_disk.len(),
            forall|k: int| 0 <= k < i ==> !exists_on_disk@[k],
        decreases exists_on_disk.len() - i,
    {
        if exists_on_disk[i] {
            return Some(i);
        }
        i = i + 1;
    }
    None
}

/// Why there is no scene to load.
#[derive(Clone, Copy, Debug, PartialEq, Eq, Structural)]
pub enum SceneMissing {
    /// The given path does not exist.
    GivenPath,
    /// No scene of the manifest exists.
    AnyListed,
}

/// The name of a scene whose path is given: that of its file without the extension,
/// where it has such a name.
pub fn resolve_given(exists_on_disk: bool, stem: Option<&str>) -> (r: Result<String, SceneMissing>)
    ensures
        match r {
            Ok(name) => {
                &&& exists_on_disk
                &&& name@ == (match stem {
                    Some(s) => s@,
                    None => "unnamed"@,
                })
            },
            Err(e) => !exists_on_disk && e == SceneMissing::GivenPath,
        },
{
    if !exists_on_disk {
        return Err(SceneMissing::GivenPath);
    }
    match stem {
        Some(s) => Ok(s.to_owned()),
        None => Ok("unnamed".to_owned()),
    }
}

/// The scene of the manifest that is loaded: the first one that exists.
pub fn resolve_listed(scenes: &Vec<SceneEntry>, exists_on_disk: &Vec<bool>) -> (r: Result<
    usize,
    SceneMissing,
>)
    requires
        exists_on_disk.len() == scenes.len(),
    ensures
        match r {
            Ok(i) => {
                &&& i < scenes.len()
                &&& exists_on_disk@[i as int]
                &&& forall|k: int| 0 <= k < i ==> !exists_on_disk@[k]
            },
            Err(e) => {
                &&& e == SceneMissing::AnyListed
                &&& forall|k: int| 0 <= k < scenes.len() ==> !exists_on_disk@[k]
            },
        },
{
    match first_existing(exists_on_disk) {
        Some(i) => Ok(i),
        None => Err(SceneMissing::AnyListed),
    }
}

/// A scene is known by the name given last before its path, as long as no new scene was
/// begun in between.
pub proof fn name_before_path_names_the_scene(
    st: Reading,
    name_line: Seq<char>,
    path_line: Seq<char>,
    name: Seq<char>,
    path: Seq<char>,
)
    requires
        behind(trim(name_line), "[[scenes]]"@) is None,
        behind(trim(name_line), "name"@) matches Some(rest) && assigned_string(rest) == Some(name),
        behind(trim(path_line), "[[scenes]]"@) is None,
        behind(trim(path_line), "name"@) is None,
        behind(trim(path_line), "path"@) matches Some(rest) && assigned_string(rest) == Some(path),
    ensures
        read_line(read_line(st, name_line), path_line).scenes == st.scenes.push((name, path)),
{
}

/// An assignment of a quoted string.
pub open spec fn assignment(key: Seq<char>, value: Seq<char>) -> Seq<char> {
    key + seq![' ', '=', ' ', '"'] + value + seq!['"']
}

/// A name or path that a manifest can hold: it has no white space at its ends and no line
/// feed in it.
pub open spec fn is_plain(s: Seq<char>) -> bool {
    &&& !s.contains('\n')
    &&& s.len() > 0 ==> !is_space(s[0]) && !is_space(s.last())
}

/// A manifest of these scenes.
pub open spec fn manifest_text(scenes: Seq<(Seq<char>, Seq<char>)>) -> Seq<char>
    decreases scenes.len(),
{
    if scenes.len() == 0 {
        Seq::empty()
    } else {
        manifest_text(scenes.drop_last()) + "[[scenes]]"@ + seq!['\n'] + assignment(
            "name"@,
            scenes.last().0,
        ) + seq!['\n'] + assignment("path"@, scenes.last().1) + seq!['\n']
    }
}

proof fn lemma_lines_grow(text: Seq<char>, line: Seq<char>)
    requires
        !line.contains('\n'),
    ensures
        lines(text).len() > 0,
        lines(text + line) == lines(text).drop_last().push(lines(text).last() + line),
    decreases line.len(),
{
    lemma_lines_some(text);
    if line.len() == 0 {
        assert(text + line =~= text);
        assert(lines(text).last() + line =~= lines(text).last());
        assert(lines(text).drop_last().push(lines(text).last()) =~= lines(text));
    } else {
        let rest = line.drop_last();
        assert(line.contains(line.last()));
        assert(!rest.contains('\n')) by {
            if rest.contains('\n') {
                let k = choose|k: int| 0 <= k < rest.len() && rest[k] == '\n';
                assert(line[k] == '\n');
            }
        }
        lemma_lines_grow(text, rest);
        assert((text + line).drop_last() =~= text + rest);
        let before = lines(text + rest);
        assert(before.last() == lines(text).last() + rest);
        assert(before.last().push(line.last()) =~= lines(text).last() + line);
        assert(before.drop_last() =~= lines(text).drop_last());
    }
}

proof fn lemma_lines_some(text: Seq<char>)
    ensures
        lines(text).len() > 0,
    decreases text.len(),
{
    if text.len() > 0 {
        lemma_lines_some(text.drop_last());
    }
}

/// One more line, where the text ended with a line feed.
proof fn lemma_next_line(text: Seq<char>, line: Seq<char>)
    requires
        !line.contains('\n'),
        lines(text).last() == Seq::<char>::empty(),
    ensures
        ({
            let after = lines(text + line + seq!['\n']);
            &&& after.last() == Seq::<char>::empty()
            &&& read_lines(after) == read_line(read_lines(lines(text)), line)
        }),
{
    lemma_lines_grow(text, line);
    let all = text + line + seq!['\n'];
    assert(all.drop_last() =~= text + line);
    let before = lines(text).drop_last();
    assert(lines(text).last() + line =~= line);
    assert(lines(all) == before.push(line).push(Seq::empty()));
    assert(lines(all).drop_last() =~= before.push(line));
    assert(before.push(line).drop_last() =~= before);
    lemma_empty_line(read_lines(before));
    lemma_empty_line(read_lines(before.push(line)));
    assert(read_lines(lines(text)) == read_lines(before));
}

proof fn lemma_empty_line(st: Reading)
    ensures
        read_line(st, Seq::empty()) == st,
{
    reveal_strlit("[[scenes]]");
    reveal_strlit("name");
    reveal_strlit("path");
    assert(trim(Seq::<char>::empty()) =~= Seq::empty());
}

proof fn lemma_trim_plain(s: Seq<char>)
    requires
        s.len() > 0 ==> !is_space(s[0]) && !is_space(s.last()),
    ensures
        trim(s) == s,
{
}

proof fn lemma_assigned(value: Seq<char>)
    requires
        is_plain(value),
    ensures
        assigned_string(seq![' ', '=', ' ', '"'] + value + seq!['"']) == Some(value),
{
    let rest = seq![' ', '=', ' ', '"'] + value + seq!['"'];
    assert(rest[0] == ' ' && rest[1] == '=' && rest[2] == ' ' && rest[3] == '"');
    let s = rest.skip(1);
    assert(trim_start(rest) == s) by {
        reveal_with_fuel(trim_start, 2);
        assert(is_space(rest[0]));
        assert(!is_space(s[0]));
    }
    assert(s.last() == '"');
    assert(trim(rest) == s);
    let v = s.skip(1);
    let quoted = v.skip(1);
    assert(v[0] == ' ');
    assert(quoted[0] == '"' && quoted.last() == '"');
    assert(trim_start(v) == quoted) by {
        reveal_with_fuel(trim_start, 2);
        assert(is_space(v[0]));
        assert(!is_space(quoted[0]));
    }
    assert(trim(v) == quoted);
    assert(quoted.subrange(1, quoted.len() - 1) =~= value);
    lemma_trim_plain(value);
}

proof fn lemma_assignment_line(key: Seq<char>, value: Seq<char>)
    requires
        is_plain(value),
        key.len() == 4,
        !key.contains('\n'),
        !is_space(key[0]),
    ensures
        trim(assignment(key, value)) == assignment(key, value),
        behind(assignment(key, value), key) matches Some(rest) && assigned_string(rest) == Some(
            value,
        ),
        !assignment(key, value).contains('\n'),
        assignment(key, value).take(4) == key,
{
    let line = assignment(key, value);
    assert(line[0] == key[0]);
    assert(line.last() == '"');
    lemma_trim_plain(line);
    assert(line.take(4) =~= key);
    assert(line.skip(4) =~= seq![' ', '=', ' ', '"'] + value + seq!['"']);
    lemma_assigned(value);
    assert(!line.contains('\n')) by {
        if line.contains('\n') {
            let k = choose|k: int| 0 <= k < line.len() && line[k] == '\n';
            if k < 4 {
                assert(key[k] == '\n');
            } else if 8 <= k < 8 + value.len() {
                assert(value[k - 8] == '\n');
            }
        }
    }
}

/// A manifest is read as it is written: the scenes that it lists, in their order, each with
/// its own name and path.
pub proof fn written_manifest_is_read_back(scenes: Seq<(Seq<char>, Seq<char>)>)
    requires
        forall|i: int|
            0 <= i < scenes.len() ==> is_plain((#[trigger] scenes[i]).0) && is_plain(scenes[i].1),
    ensures
        scenes_of(manifest_text(scenes)) == scenes,
        lines(manifest_text(scenes)).last() == Seq::<char>::empty(),
    decreases scenes.len(),
{
    if scenes.len() == 0 {
        assert(lines(Seq::<char>::empty()) == seq![Seq::<char>::empty()]);
        let list = seq![Seq::<char>::empty()];
        assert(list.drop_last() =~= Seq::empty());
        lemma_empty_line(read_lines(Seq::empty()));
        assert(read_lines(list).scenes =~= scenes);
    } else {
        let before = scenes.drop_last();
        assert forall|i: int| 0 <= i < before.len() implies is_plain((#[trigger] before[i]).0)
            && is_plain(before[i].1) by {
            assert(before[i] == scenes[i]);
        }
        written_manifest_is_read_back(before);
        let (name, path) = scenes.last();
        assert(is_plain(scenes[scenes.len() - 1].0));
        reveal_strlit("[[scenes]]");
        reveal_strlit("name");
        reveal_strlit("path");
        let text = manifest_text(before);
        let header = "[[scenes]]"@;
        let name_line = assignment("name"@, name);
        let path_line = assignment("path"@, path);
        let st = read_lines(lines(text));
        assert(!header.contains('\n'));
        lemma_trim_plain(header);
        assert(header.take(10) =~= header);
        lemma_next_line(text, header);
        let t1 = text + header + seq!['\n'];
        assert(read_line(st, header) == Reading { name: None, ..st });
        assert(!("name"@).contains('\n') && !("path"@).contains('\n'));
        lemma_assignment_line("name"@, name);
        lemma_assignment_line("path"@, path);
        assert(name_line[0] == 'n' && path_line[0] == 'p');
        assert(behind(name_line, "[[scenes]]"@) is None) by {
            if name_line.len() >= 10 {
                assert(name_line.take(10)[0] != "[[scenes]]"@[0]);
            }
        }
        assert(behind(path_line, "[[scenes]]"@) is None) by {
            if path_line.len() >= 10 {
                assert(path_line.take(10)[0] != "[[scenes]]"@[0]);
            }
        }
        assert(behind(path_line, "name"@) is None) by {
            assert(path_line.take(4)[0] != "name"@[0]);
        }
        lemma_next_line(t1, name_line);
        let t2 = t1 + name_line + seq!['\n'];
        lemma_next_line(t2, path_line);
        let t3 = t2 + path_line + seq!['\n'];
        assert(t3 =~= manifest_text(scenes));
        name_before_path_names_the_scene(read_line(st, header), name_line, path_line, name, path);
        assert(before.push(scenes.last()) =~= scenes);
    }
}

/// Of the characters of ASCII the blank and the five that move the position are spaces;
/// beyond, those that leave a gap are, and nothing behind the ideographic one.
pub proof fn spaces_are_the_gaps(c: char)
    ensures
        (c as u32) < 0x80 ==> (is_space(c) <==> c == ' ' || c == '\t' || c == '\n' || c == '\r'
            || c as u32 == 0x0b || c as u32 == 0x0c),
        0x2000 <= c as u32 <= 0x200a ==> is_space(c),
        c as u32 == 0x85 || c as u32 == 0xa0 || c as u32 == 0x1680 ==> is_space(c),
        c as u32 == 0x2028 || c as u32 == 0x2029 || c as u32 == 0x202f ==> is_space(c),
        c as u32 == 0x205f || c as u32 == 0x3000 ==> is_space(c),
        c as u32 > 0x3000 ==> !is_space(c),
        0xa0 < c as u32 && (c as u32) < 0x1680 ==> !is_space(c),
        0x205f < c as u32 && (c as u32) < 0x3000 ==> !is_space(c),
{
}

} // verus!

//! Paths as text, read the way the host reads them: how a relative name
//! splits into components, whether it stays below the directory it is
//! joined to, and how paths are joined.
//!
//! Hosts differ in what separates the components of a path. Every
//! judgement here is made for the `PathStyle` it is given, and holds of
//! that reading: a caller hands in the style of the host that will open
//! the paths.

use vstd::prelude::*;
use vstd::string::*;
use crate::text::chars_of;

verus! {

/// How a host reads a path.
#[derive(Debug, Clone, Copy, PartialEq, Eq)]
pub enum PathStyle {
    /// Only `/` separates components, and a path that begins with `/` is
    /// absolute.
    Unix,
    /// Both `/` and `\` separate components, and a path that begins with a
    /// separator or with a drive letter and a colon does not start from
    /// the directory it is joined to.
    Windows,
}

impl PathStyle {
    /// The style of a host, told by whether `\` separates components
    /// there.
    pub fn of_host(backslash_separates: bool) -> (style: PathStyle)
        ensures
            style == if backslash_separates {
                PathStyle::Windows
            } else {
                PathStyle::Unix
            },
    {
        if backslash_separates {
            PathStyle::Windows
        } else {
            PathStyle::Unix
        }
    }
}

/// Whether `c` separates the components of a path.
pub open spec fn is_separator(c: char, style: PathStyle) -> bool {
    c == '/' || (style is Windows && c == '\\')
}

/// The separator that a join puts between two paths.
pub open spec fn joiner(style: PathStyle) -> char {
    if style is Windows {
        '\\'
    } else {
        '/'
    }
}

/// Whether `c` separates the components of a path.
pub fn separates(c: char, style: PathStyle) -> (r: bool)
    ensures
        r == is_separator(c, style),
{
    match style {
        PathStyle::Unix => c == '/',
        PathStyle::Windows => c == '/' || c == '\\',
    }
}

/// The components of a path: the runs of characters between separators.
/// A separator opens a new, empty component; any other character extends
/// the last one. `"a//b/"` has the components `a`, ``, `b`, ``.
pub open spec fn components(s: Seq<char>, style: PathStyle) -> Seq<Seq<char>>
    decreases s.len(),
{
    if s.len() == 0 {
        seq![Seq::<char>::empty()]
    } else if is_separator(s.last(), style) {
        components(s.drop_last(), style).push(Seq::<char>::empty())
    } else {
        let before = components(s.drop_last(), style);
        before.drop_last().push(before.last().push(s.last()))
    }
}

/// The component `.`, which names the directory it stands in.
pub open spec fn is_current_dir(c: Seq<char>) -> bool {
    c.len() == 1 && c[0] == '.'
}

/// The component `..`, which names the directory above.
pub open spec fn is_parent_dir(c: Seq<char>) -> bool {
    c.len() == 2 && c[0] == '.' && c[1] == '.'
}

/// A component that names a file or directory.
pub open spec fn is_named(c: Seq<char>) -> bool {
    c.len() > 0 && !is_current_dir(c) && !is_parent_dir(c)
}

/// How many levels a component descends: one for a name, minus one for
/// `..`, none for `.` and for an empty component.
pub open spec fn descent(c: Seq<char>) -> int {
    if is_parent_dir(c) {
        -1
    } else if is_named(c) {
        1
    } else {
        0
    }
}

/// How far below its starting directory a walk along `comps` ends.
pub open spec fn depth(comps: Seq<Seq<char>>) -> int
    decreases comps.len(),
{
    if comps.len() == 0 {
        0
    } else {
        depth(comps.drop_last()) + descent(comps.last())
    }
}

/// A walk along `comps` never stands above its starting directory.
pub open spec fn stays_inside(comps: Seq<Seq<char>>) -> bool {
    forall|k: int| 0 <= k <= comps.len() ==> depth(#[trigger] comps.take(k)) >= 0
}

/// Whether `c` is an ASCII letter.
pub open spec fn is_ascii_letter(c: char) -> bool {
    ('a' <= c && c <= 'z') || ('A' <= c && c <= 'Z')
}

/// A path that does not start from the directory it is joined to: it
/// begins with a separator or, on Windows, with a drive letter and a
/// colon.
pub open spec fn is_rooted(s: Seq<char>, style: PathStyle) -> bool {
    ||| s.len() >= 1 && is_separator(s[0], style)
    ||| style is Windows && s.len() >= 2 && is_ascii_letter(s[0]) && s[1] == ':'
}

/// Whether `s` holds a NUL character.
pub open spec fn has_nul(s: Seq<char>) -> bool {
    exists|i: int| 0 <= i < s.len() && s[i] == '\0'
}

/// A relative name that cannot lead out of the directory it is joined to,
/// as a host of the given style reads it: it holds no NUL, is not rooted,
/// and no prefix of it climbs higher than it has descended.
pub open spec fn is_enclosed(name: Seq<char>, style: PathStyle) -> bool {
    &&& !has_nul(name)
    &&& !is_rooted(name, style)
    &&& stays_inside(components(name, style))
}

/// The components that move a walk: names and `..`, in order.
pub open spec fn significant(comps: Seq<Seq<char>>) -> Seq<Seq<char>>
    decreases comps.len(),
{
    if comps.len() == 0 {
        Seq::<Seq<char>>::empty()
    } else if is_named(comps.last()) || is_parent_dir(comps.last()) {
        significant(comps.drop_last()).push(comps.last())
    } else {
        significant(comps.drop_last())
    }
}

/// An enclosed name with no parent directory: one single name, with no
/// `.` before it. `amax`, `amax/` and `amax/.` are top-level; `./amax`,
/// `amax/version` and `.` are not.
pub open spec fn is_top_level(name: Seq<char>, style: PathStyle) -> bool {
    &&& is_enclosed(name, style)
    &&& significant(components(name, style)).len() == 1
    &&& !is_current_dir(components(name, style)[0])
}

/// The single name of a top-level path.
pub open spec fn top_level_component(name: Seq<char>, style: PathStyle) -> Seq<char> {
    significant(components(name, style))[0]
}

/// Adding a component to a walk that stays inside keeps it inside exactly
/// when the longer walk does not end above the start.
pub proof fn lemma_stays_inside_push(comps: Seq<Seq<char>>, c: Seq<char>)
    ensures
        stays_inside(comps.push(c)) <==> stays_inside(comps) && depth(comps.push(c)) >= 0,
        depth(comps.push(c)) == depth(comps) + descent(c),
        significant(comps.push(c)) == if is_named(c) || is_parent_dir(c) {
            significant(comps).push(c)
        } else {
            significant(comps)
        },
{
    let longer = comps.push(c);
    assert(longer.drop_last() == comps);
    assert(longer.take(longer.len() as int) == longer);
    assert forall|k: int| 0 <= k <= comps.len() implies #[trigger] longer.take(k) == comps.take(
        k,
    ) by {}
    if stays_inside(longer) {
        assert forall|k: int| 0 <= k <= comps.len() implies depth(#[trigger] comps.take(k))
            >= 0 by {
            assert(longer.take(k) == comps.take(k));
        }
    }
    if stays_inside(comps) && depth(longer) >= 0 {
        assert forall|k: int| 0 <= k <= longer.len() implies depth(#[trigger] longer.take(k))
            >= 0 by {
            if k <= comps.len() {
                assert(longer.take(k) == comps.take(k));
            }
        }
    }
}

/// What one pass over a path finds.
struct Walk {
    /// No prefix of the path climbs above its start.
    inside: bool,
    /// No character of it is NUL.
    clean: bool,
    /// Its first component is `.`.
    led_by_current: bool,
    /// The number of its significant components.
    moves: usize,
    /// Where the first significant component starts and ends.
    first_start: usize,
    first_end: usize,
}

/// Walks along the components of `chars` once.
fn walk(chars: &Vec<char>, style: PathStyle) -> (w: Walk)
    ensures
        w.inside == stays_inside(components(chars@, style)),
        w.clean == !has_nul(chars@),
        components(chars@, style).len() >= 1,
        w.led_by_current == is_current_dir(components(chars@, style)[0]),
        w.moves == significant(components(chars@, style)).len(),
        w.moves > 0 ==> w.first_start <= w.first_end <= chars@.len() && chars@.subrange(
            w.first_start as int,
            w.first_end as int,
        ) == significant(components(chars@, style))[0],
{
    let n: usize = chars.len();
    let ghost s = chars@;
    let ghost mut closed: Seq<Seq<char>> = Seq::empty();
    let mut inside: bool = true;
    let mut clean: bool = true;
    let mut first: bool = true;
    let mut led_by_current: bool = false;
    let mut level: usize = 0;
    let mut moves: usize = 0;
    let mut first_start: usize = 0;
    let mut first_end: usize = 0;
    let mut start: usize = 0;
    let mut i: usize = 0;
    let mut finished: bool = false;
    proof {
        assert(s.take(0) =~= Seq::<char>::empty());
        assert(components(s.take(0), style) =~= closed.push(s.subrange(0, 0)));
        assert(closed.take(0) =~= closed);
    }
    while !finished
        invariant
            s == chars@,
            n == s.len(),
            start <= i <= n,
            !finished ==> components(s.take(i as int), style) == closed.push(
                s.subrange(start as int, i as int),
            ),
            finished ==> closed == components(s, style) && i == n && !first,
            !finished ==> moves <= start && level <= start,
            first == (closed.len() == 0),
            !first ==> led_by_current == is_current_dir(closed[0]),
            inside == stays_inside(closed),
            inside ==> level == depth(closed),
            moves == significant(closed).len(),
            clean == (forall|j: int| 0 <= j < i ==> s[j] != '\0'),
            moves > 0 ==> first_start <= first_end <= n && s.subrange(
                first_start as int,
                first_end as int,
            ) == significant(closed)[0],
        decreases n - i + (if finished { 0int } else { 1int }),
    {
        if i == n || separates(chars[i], style) {
            let len: usize = i - start;
            let ghost c = s.subrange(start as int, i as int);
            let parent: bool = len == 2 && chars[start] == '.' && chars[start + 1] == '.';
            let current: bool = len == 1 && chars[start] == '.';
            let named: bool = len > 0 && !parent && !current;
            proof {
                assert(parent == is_parent_dir(c));
                assert(current == is_current_dir(c));
                assert(named == is_named(c));
                lemma_stays_inside_push(closed, c);
            }
            if first {
                led_by_current = current;
                first = false;
            }
            if parent || named {
                if moves == 0 {
                    first_start = start;
                    first_end = i;
                }
                moves = moves + 1;
            }
            if parent {
                if level == 0 {
                    inside = false;
                } else {
                    level = level - 1;
                }
            } else if named {
                level = level + 1;
            }
            proof {
                let before = closed;
                closed = closed.push(c);
                if i < n {
                    let t = s.take(i + 1);
                    assert(t.drop_last() == s.take(i as int));
                    assert(t.last() == s[i as int]);
                    assert(s.subrange(i + 1, i + 1) =~= Seq::<char>::empty());
                    assert(components(t, style) == closed.push(s.subrange(i + 1, i + 1)));
                } else {
                    assert(s.take(i as int) == s);
                }
                if moves > 0 {
                    assert(significant(closed)[0] == if significant(before).len() > 0 {
                        significant(before)[0]
                    } else {
                        c
                    });
                }
            }
            if i == n {
                finished = true;
            } else {
                start = i + 1;
                i = i + 1;
            }
        } else {
            proof {
                let t = s.take(i + 1);
                assert(t.drop_last() == s.take(i as int));
                assert(t.last() == s[i as int]);
                let before = components(s.take(i as int), style);
                assert(before.drop_last() == closed);
                assert(before.last().push(s[i as int]) == s.subrange(start as int, i + 1));
            }
            if chars[i] == '\0' {
                clean = false;
            }
            i = i + 1;
        }
    }
    Walk { inside, clean, led_by_current, moves, first_start, first_end }
}

/// Where a relative name leads from the directory it is joined to.
#[derive(Debug, Clone, PartialEq, Eq)]
pub enum Placement {
    /// The name is not enclosed: it must not be used.
    Escapes,
    /// The name is enclosed and is not top-level: it lies deeper, has a
    /// `.` before it, or names the directory it is joined to.
    Nested,
    /// The name is top-level; its single name is held here, without
    /// separators.
    TopLevel(String),
}

/// Judges a relative name as a host of the given style reads it: whether
/// it is enclosed, and if so whether it is a top-level name.
pub fn placement(name: &str, style: PathStyle) -> (p: Placement)
    ensures
        p is Escapes <==> !is_enclosed(name@, style),
        p is TopLevel <==> is_top_level(name@, style),
        p matches Placement::TopLevel(c) ==> c@ == top_level_component(name@, style),
{
    let chars = chars_of(name);
    let n: usize = chars.len();
    let drive: bool = match style {
        PathStyle::Unix => false,
        PathStyle::Windows => n >= 2 && (('a' <= chars[0] && chars[0] <= 'z') || ('A' <= chars[0]
            && chars[0] <= 'Z')) && chars[1] == ':',
    };
    let rooted: bool = (n >= 1 && separates(chars[0], style)) || drive;
    let w = walk(&chars, style);
    if rooted || !w.clean || !w.inside {
        Placement::Escapes
    } else if w.moves == 1 && !w.led_by_current {
        Placement::TopLevel(name.substring_char(w.first_start, w.first_end).to_owned())
    } else {
        Placement::Nested
    }
}

/// Whether a relative name is enclosed, as a host of the given style
/// reads it.
pub fn is_enclosed_name(name: &str, style: PathStyle) -> (r: bool)
    ensures
        r == is_enclosed(name@, style),
{
    match placement(name, style) {
        Placement::Escapes => false,
        _ => true,
    }
}

/// An archive names a directory by a name that ends in `/`, whatever the
/// host.
pub open spec fn names_directory(name: Seq<char>) -> bool {
    name.len() > 0 && name.last() == '/'
}

/// Whether `name` names a directory.
pub fn is_directory_name(name: &str) -> (r: bool)
    ensures
        r == names_directory(name@),
{
    let n: usize = name.unicode_len();
    if n == 0 {
        false
    } else {
        name.get_char(n - 1) == '/'
    }
}

/// `rel` below `base`: the two joined by the host's separator, unless
/// `base` is empty or already ends in a separator.
pub open spec fn joined(base: Seq<char>, rel: Seq<char>, style: PathStyle) -> Seq<char> {
    if base.len() == 0 {
        rel
    } else if is_separator(base.last(), style) {
        base + rel
    } else {
        base.push(joiner(style)) + rel
    }
}

/// Joins the relative path `rel` to `base`.
pub fn join_path(base: &str, rel: &str, style: PathStyle) -> (r: String)
    ensures
        r@ == joined(base@, rel@, style),
{
    let n: usize = base.unicode_len();
    if n == 0 {
        return rel.to_owned();
    }
    let last = base.get_char(n - 1);
    let mut out = base.to_owned();
    if !separates(last, style) {
        proof {
            reveal_strlit("/");
            reveal_strlit("\\");
        }
        match style {
            PathStyle::Unix => out.append("/"),
            PathStyle::Windows => out.append("\\"),
        }
        assert(out@ == base@.push(joiner(style)));
    }
    out.append(rel);
    out
}

/// The position of the last separator of `s`, or -1 where it has none.
pub open spec fn last_separator(s: Seq<char>, style: PathStyle) -> int
    decreases s.len(),
{
    if s.len() == 0 {
        -1
    } else if is_separator(s.last(), style) {
        s.len() - 1
    } else {
        last_separator(s.drop_last(), style)
    }
}

/// Whether the separator at position 2 of `s` stands right behind a
/// drive: a letter and a colon, on Windows.
pub open spec fn follows_drive(s: Seq<char>, style: PathStyle) -> bool {
    style is Windows && s.len() >= 3 && is_ascii_letter(s[0]) && s[1] == ':'
}

/// The directory part of a path: what stands before its last separator.
/// Where that separator begins the path, or stands right behind a drive,
/// it names the root and belongs to the directory part. A path without a
/// separator has none.
pub open spec fn directory_part(s: Seq<char>, style: PathStyle) -> Option<Seq<char>> {
    let k = last_separator(s, style);
    if k < 0 {
        None
    } else if k == 0 || (k == 2 && follows_drive(s, style)) {
        Some(s.take(k + 1))
    } else {
        Some(s.take(k))
    }
}

/// The directory part of `path`.
pub fn directory_of(path: &str, style: PathStyle) -> (r: Option<String>)
    ensures
        r is Some <==> directory_part(path@, style) is Some,
        r matches Some(d) ==> Some(d@) == directory_part(path@, style),
{
    let chars = chars_of(path);
    let mut end: usize = chars.len();
    assert(path@.take(end as int) == path@);
    while end > 0 && !separates(chars[end - 1], style)
        invariant
            end <= chars@.len(),
            chars@ == path@,
            last_separator(path@, style) == last_separator(path@.take(end as int), style),
        decreases end,
    {
        proof {
            let t = path@.take(end as int);
            assert(t.last() == chars@[end - 1]);
            assert(t.drop_last() == path@.take(end - 1));
        }
        end -= 1;
    }
    proof {
        let t = path@.take(end as int);
        if end > 0 {
            assert(t.last() == chars@[end - 1]);
        }
    }
    let behind_drive: bool = match style {
        PathStyle::Unix => false,
        PathStyle::Windows => end == 3 && (('a' <= chars[0] && chars[0] <= 'z') || ('A'
            <= chars[0] && chars[0] <= 'Z')) && chars[1] == ':',
    };
    if end == 0 {
        None
    } else if end == 1 || behind_drive {
        Some(path.substring_char(0, end).to_owned())
    } else {
        Some(path.substring_char(0, end - 1).to_owned())
    }
}

/// The depth of two walks, one after the other, is the sum of their depths.
pub proof fn lemma_depth_of_concat(a: Seq<Seq<char>>, b: Seq<Seq<char>>)
    ensures
        depth(a + b) == depth(a) + depth(b),
    decreases b.len(),
{
    if b.len() == 0 {
        assert(a + b == a);
    } else {
        lemma_depth_of_concat(a, b.drop_last());
        assert((a + b).drop_last() == a + b.drop_last());
        assert((a + b).last() == b.last());
    }
}

/// A path has at least one component, and the components of a path that
/// ends in a separator end with an empty one.
pub proof fn lemma_components_nonempty(s: Seq<char>, style: PathStyle)
    ensures
        components(s, style).len() >= 1,
        s.len() > 0 && is_separator(s.last(), style) ==> components(s, style).last().len() == 0,
    decreases s.len(),
{
    if s.len() > 0 {
        lemma_components_nonempty(s.drop_last(), style);
    }
}

/// The directory walk that a join starts from: the components of `base`,
/// without the empty one that a separator at its end leaves. For an empty
/// `base` the walk is empty.
pub open spec fn base_walk(base: Seq<char>, style: PathStyle) -> Seq<Seq<char>> {
    if base.len() == 0 || is_separator(base.last(), style) {
        components(base, style).drop_last()
    } else {
        components(base, style)
    }
}

/// The components of `front`, a separator and `rel` are those of `front`
/// followed by those of `rel`.
pub proof fn lemma_components_after_separator(
    front: Seq<char>,
    sep: char,
    rel: Seq<char>,
    style: PathStyle,
)
    requires
        is_separator(sep, style),
    ensures
        components(front.push(sep) + rel, style) == components(front, style) + components(
            rel,
            style,
        ),
    decreases rel.len(),
{
    let whole = front.push(sep) + rel;
    lemma_components_nonempty(rel, style);
    if rel.len() == 0 {
        assert(whole == front.push(sep));
        assert(whole.drop_last() == front);
        assert(components(rel, style) == seq![Seq::<char>::empty()]);
        assert(components(whole, style) == components(front, style) + components(rel, style));
    } else {
        let shorter = rel.drop_last();
        lemma_components_after_separator(front, sep, shorter, style);
        lemma_components_nonempty(shorter, style);
        assert(whole.drop_last() == front.push(sep) + shorter);
        assert(whole.last() == rel.last());
        let cf = components(front, style);
        let cs = components(shorter, style);
        if is_separator(rel.last(), style) {
            assert((cf + cs).push(Seq::<char>::empty()) == cf + cs.push(Seq::<char>::empty()));
        } else {
            assert((cf + cs).drop_last() == cf + cs.drop_last());
            assert((cf + cs).last() == cs.last());
            assert((cf + cs.drop_last()).push(cs.last().push(rel.last())) == cf
                + cs.drop_last().push(cs.last().push(rel.last())));
        }
    }
}

/// The components of a join are the walk of the base followed by the
/// components of the relative path.
pub proof fn lemma_components_of_join(base: Seq<char>, rel: Seq<char>, style: PathStyle)
    ensures
        components(joined(base, rel, style), style) == base_walk(base, style) + components(
            rel,
            style,
        ),
{
    lemma_components_nonempty(base, style);
    if base.len() == 0 {
        assert(base_walk(base, style) + components(rel, style) == components(rel, style));
    } else if is_separator(base.last(), style) {
        let front = base.drop_last();
        lemma_components_after_separator(front, base.last(), rel, style);
        assert(base == front.push(base.last()));
        assert(components(base, style).drop_last() == components(front, style));
    } else {
        lemma_components_after_separator(base, joiner(style), rel, style);
    }
}

/// An enclosed name joined to a directory stays below that directory, as
/// a host of the same style reads the joined path: the path first walks
/// the directory's own components, and from there on never stands above
/// the directory.
pub proof fn lemma_enclosed_stays_below(base: Seq<char>, name: Seq<char>, style: PathStyle)
    requires
        is_enclosed(name, style),
    ensures
        components(joined(base, name, style), style) == base_walk(base, style) + components(
            name,
            style,
        ),
        forall|k: int|
            base_walk(base, style).len() <= k <= components(joined(base, name, style), style).len()
                ==> depth(#[trigger] components(joined(base, name, style), style).take(k))
                >= depth(base_walk(base, style)),
{
    lemma_components_of_join(base, name, style);
    let walk = base_walk(base, style);
    let rest = components(name, style);
    let whole = components(joined(base, name, style), style);
    assert forall|k: int| walk.len() <= k <= whole.len() implies depth(#[trigger] whole.take(k))
        >= depth(walk) by {
        let j = k - walk.len();
        assert(whole.take(k) == walk + rest.take(j));
        lemma_depth_of_concat(walk, rest.take(j));
        assert(depth(rest.take(j)) >= 0);
    }
}

/// Every character of every component of a path is a character of the
/// path, and none is a separator.
pub proof fn lemma_component_chars(s: Seq<char>, style: PathStyle)
    ensures
        forall|k: int, i: int|
            0 <= k < components(s, style).len() && 0 <= i < components(s, style)[k].len() ==> {
                &&& !is_separator(#[trigger] components(s, style)[k][i], style)
                &&& s.contains(components(s, style)[k][i])
            },
    decreases s.len(),
{
    if s.len() > 0 {
        let shorter = s.drop_last();
        lemma_component_chars(shorter, style);
        lemma_components_nonempty(shorter, style);
        let before = components(shorter, style);
        let after = components(s, style);
        assert forall|k: int, i: int|
            0 <= k < after.len() && 0 <= i < after[k].len() implies !is_separator(
            #[trigger] after[k][i],
            style,
        ) && s.contains(after[k][i]) by {
            if k < before.len() && i < before[k].len() {
                assert(after[k][i] == before[k][i]);
                let j = choose|j: int| 0 <= j < shorter.len() && shorter[j] == before[k][i];
                assert(s[j] == before[k][i]);
            } else {
                assert(after[k][i] == s.last());
                assert(s[s.len() - 1] == s.last());
            }
        }
    }
}

/// A walk without significant components ends where it started.
pub proof fn lemma_idle_walk(comps: Seq<Seq<char>>)
    requires
        significant(comps).len() == 0,
    ensures
        depth(comps) == 0,
    decreases comps.len(),
{
    if comps.len() > 0 {
        lemma_idle_walk(comps.drop_last());
    }
}

/// Every significant component is one of the components.
pub proof fn lemma_significant_are_components(comps: Seq<Seq<char>>)
    ensures
        forall|j: int|
            0 <= j < significant(comps).len() ==> comps.contains(#[trigger] significant(comps)[j]),
    decreases comps.len(),
{
    if comps.len() > 0 {
        let rest = comps.drop_last();
        lemma_significant_are_components(rest);
        assert forall|j: int| 0 <= j < significant(comps).len() implies comps.contains(
            #[trigger] significant(comps)[j],
        ) by {
            if j < significant(rest).len() {
                let c = significant(rest)[j];
                let k = choose|k: int| 0 <= k < rest.len() && rest[k] == c;
                assert(comps[k] == c);
            } else {
                assert(comps[comps.len() - 1] == comps.last());
            }
        }
    }
}

/// The first significant component of a walk that stays inside is a name:
/// a walk that begins with `..` has left at once.
pub proof fn lemma_first_move_descends(comps: Seq<Seq<char>>)
    requires
        stays_inside(comps),
        significant(comps).len() >= 1,
    ensures
        is_named(significant(comps)[0]),
    decreases comps.len(),
{
    let rest = comps.drop_last();
    let c = comps.last();
    assert(comps == rest.push(c));
    lemma_stays_inside_push(rest, c);
    if significant(rest).len() >= 1 {
        lemma_first_move_descends(rest);
    } else {
        lemma_idle_walk(rest);
    }
}

/// A plain name: a name of a file or directory, without a separator of
/// the host and without NUL.
pub open spec fn is_plain_name(c: Seq<char>, style: PathStyle) -> bool {
    &&& is_named(c)
    &&& !has_nul(c)
    &&& forall|i: int| 0 <= i < c.len() ==> !is_separator(#[trigger] c[i], style)
}

/// A text without a separator is one component.
pub proof fn lemma_one_component(c: Seq<char>, style: PathStyle)
    requires
        forall|i: int| 0 <= i < c.len() ==> !is_separator(#[trigger] c[i], style),
    ensures
        components(c, style) == seq![c],
    decreases c.len(),
{
    if c.len() == 0 {
        assert(c == Seq::<char>::empty());
    } else {
        let shorter = c.drop_last();
        assert forall|i: int| 0 <= i < shorter.len() implies !is_separator(
            #[trigger] shorter[i],
            style,
        ) by {
            assert(shorter[i] == c[i]);
        }
        lemma_one_component(shorter, style);
        assert(!is_separator(c[c.len() - 1], style));
        assert(shorter.push(c.last()) == c);
        assert(seq![shorter].drop_last().push(seq![shorter].last().push(c.last())) == seq![c]);
    }
}

/// A plain name joined to a directory names an entry of that directory
/// itself: the joined path walks the directory and then descends by that
/// one name.
pub proof fn lemma_plain_name_joins_to_child(base: Seq<char>, c: Seq<char>, style: PathStyle)
    requires
        is_plain_name(c, style),
    ensures
        components(joined(base, c, style), style) == base_walk(base, style).push(c),
        depth(components(joined(base, c, style), style)) == depth(base_walk(base, style)) + 1,
{
    lemma_one_component(c, style);
    lemma_components_of_join(base, c, style);
    let walk = base_walk(base, style);
    assert(walk + seq![c] == walk.push(c));
    assert(walk.push(c).drop_last() == walk);
}

/// The single component of a top-level name is a plain name.
pub proof fn lemma_top_level_is_plain(name: Seq<char>, style: PathStyle)
    requires
        is_top_level(name, style),
    ensures
        is_plain_name(top_level_component(name, style), style),
{
    let comps = components(name, style);
    let c = top_level_component(name, style);
    lemma_first_move_descends(comps);
    lemma_significant_are_components(comps);
    lemma_component_chars(name, style);
    let k = choose|k: int| 0 <= k < comps.len() && comps[k] == c;
    assert forall|i: int| 0 <= i < c.len() implies !is_separator(#[trigger] c[i], style) && c[i]
        != '\0' by {
        assert(c[i] == comps[k][i]);
        assert(name.contains(comps[k][i]));
    }
}

/// Two names joined to one directory give one path only where they are
/// one name.
pub proof fn lemma_join_tells_names_apart(
    base: Seq<char>,
    a: Seq<char>,
    b: Seq<char>,
    style: PathStyle,
)
    requires
        joined(base, a, style) == joined(base, b, style),
    ensures
        a == b,
{
    let front = if base.len() == 0 {
        base
    } else if is_separator(base.last(), style) {
        base
    } else {
        base.push(joiner(style))
    };
    assert(joined(base, a, style) == front + a);
    assert(joined(base, b, style) == front + b);
    assert((front + a).skip(front.len() as int) == a);
    assert((front + b).skip(front.len() as int) == b);
}

} // verus!

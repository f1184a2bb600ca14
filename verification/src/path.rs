//! Relative paths as text: their components, dropping leading components,
//! flattening a path into one file name, and adding a suffix to a file name.

use vstd::prelude::*;
use crate::error::{Error, ErrorKind};
use crate::text::{chars_of, string_of};

verus! {

/// The character between two components of a path.
pub open spec fn separator() -> char {
    '/'
}

/// The components of a path: its longest runs of characters other than the
/// separator, first to last. Separators at either end, and separators that
/// follow one another, stand for nothing.
pub open spec fn components(path: Seq<char>) -> Seq<Seq<char>>
    decreases path.len(),
{
    if path.len() == 0 {
        Seq::empty()
    } else {
        let before = components(path.drop_last());
        let c = path.last();
        if c == separator() {
            before
        } else if path.len() >= 2 && path[path.len() - 2] != separator() {
            before.drop_last().push(before.last().push(c))
        } else {
            before.push(seq![c])
        }
    }
}

/// The parts written one after another with `sep` between two of them.
pub open spec fn join(parts: Seq<Seq<char>>, sep: char) -> Seq<char>
    decreases parts.len(),
{
    if parts.len() == 0 {
        Seq::empty()
    } else if parts.len() == 1 {
        parts[0]
    } else {
        join(parts.drop_last(), sep).push(sep) + parts.last()
    }
}

/// `name` with every space replaced by an underscore.
pub open spec fn underscored(name: Seq<char>) -> Seq<char> {
    name.map_values(|c: char| if c == ' ' { '_' } else { c })
}

/// The path that is left of `path` without its first `count` components.
pub open spec fn without_leading(path: Seq<char>, count: int) -> Seq<char> {
    join(components(path).skip(count), separator())
}

/// The single file name that stands for `path`: its components, spaces
/// replaced by underscores, with `-` between two of them.
pub open spec fn flattened(path: Seq<char>) -> Seq<char> {
    join(components(path).map_values(|c: Seq<char>| underscored(c)), '-')
}

/// The position of the last `c` in `s`.
pub open spec fn last_position(s: Seq<char>, c: char) -> Option<int>
    decreases s.len(),
{
    if s.len() == 0 {
        None
    } else if s.last() == c {
        Some(s.len() - 1)
    } else {
        last_position(s.drop_last(), c)
    }
}

/// `name` with `suffix` put in front of its extension, that is in front of
/// its last dot, or at its end where it has no dot. An empty suffix leaves
/// every name as it is. Otherwise there is no result for a name without a
/// stem: the empty name, and a name whose only dot comes first.
pub open spec fn suffixed(name: Seq<char>, suffix: Seq<char>) -> Option<Seq<char>> {
    if suffix.len() == 0 {
        Some(name)
    } else {
        match last_position(name, '.') {
            None => if name.len() == 0 {
                None
            } else {
                Some(name + suffix)
            },
            Some(dot) => if dot == 0 {
                None
            } else {
                Some(name.take(dot) + suffix + name.skip(dot))
            },
        }
    }
}

/// The views of the elements of `parts`.
pub open spec fn views(parts: Seq<Vec<char>>) -> Seq<Seq<char>> {
    parts.map_values(|p: Vec<char>| p@)
}

/// Whether `name` can be one component of a path: it is not empty and holds
/// no separator.
pub open spec fn is_component(name: Seq<char>) -> bool {
    name.len() > 0 && !name.contains(separator())
}

proof fn lemma_components_push(path: Seq<char>, c: char)
    ensures
        components(path.push(c)) == if c == separator() {
            components(path)
        } else if path.len() >= 1 && path.last() != separator() {
            components(path).drop_last().push(components(path).last().push(c))
        } else {
            components(path).push(seq![c])
        },
{
    assert(path.push(c).drop_last() =~= path);
}

/// A path that does not end in a separator has a last component, and that
/// component is not empty.
proof fn lemma_components_open(path: Seq<char>)
    requires
        path.len() > 0,
        path.last() != separator(),
    ensures
        components(path).len() > 0,
        components(path).last().len() > 0,
    decreases path.len(),
{
    let before = path.drop_last();
    if before.len() > 0 && before.last() != separator() {
        lemma_components_open(before);
    }
}

/// Every component of a path is not empty and holds no separator.
pub proof fn lemma_components_are_names(path: Seq<char>)
    ensures
        forall|i: int| 0 <= i < components(path).len() ==> is_component(#[trigger] components(path)[i]),
    decreases path.len(),
{
    if path.len() > 0 {
        let before = path.drop_last();
        lemma_components_are_names(before);
        if before.len() > 0 && before.last() != separator() {
            lemma_components_open(before);
        }
    }
}

/// A name that can be a component is, as a path, that one component.
pub proof fn lemma_components_of_name(name: Seq<char>)
    requires
        is_component(name),
    ensures
        components(name) == seq![name],
    decreases name.len(),
{
    let before = name.drop_last();
    let c = name.last();
    assert(name =~= before.push(c));
    lemma_components_push(before, c);
    if before.len() == 0 {
        assert(seq![c] =~= name);
    } else {
        lemma_components_of_name(before);
    }
}

/// Two paths written one after the other with a separator between them have
/// the components of the first, then those of the second.
pub proof fn lemma_components_concat(first: Seq<char>, second: Seq<char>)
    ensures
        components(first.push(separator()) + second) == components(first) + components(second),
    decreases second.len(),
{
    if second.len() == 0 {
        lemma_components_push(first, separator());
    } else {
        let before = second.drop_last();
        let c = second.last();
        let head = first.push(separator()) + before;
        lemma_components_concat(first, before);
        assert(second =~= before.push(c));
        lemma_components_push(head, c);
        lemma_components_push(before, c);
        if c != separator() && before.len() >= 1 && before.last() != separator() {
            lemma_components_open(before);
            let a = components(first);
            let b = components(before);
            assert((a + b.drop_last()).push(b.last().push(c)) =~= a + b.drop_last().push(
                b.last().push(c),
            ));
        }
    }
}

/// Names joined by the separator make a path whose components are those
/// names.
pub proof fn lemma_components_of_join(names: Seq<Seq<char>>)
    requires
        forall|i: int| 0 <= i < names.len() ==> is_component(#[trigger] names[i]),
    ensures
        components(join(names, separator())) == names,
    decreases names.len(),
{
    if names.len() == 0 {
    } else if names.len() == 1 {
        lemma_components_of_name(names[0]);
    } else {
        let before = names.drop_last();
        lemma_components_of_join(before);
        lemma_components_concat(join(before, separator()), names.last());
        lemma_components_of_name(names.last());
    }
}

/// What is left of a path without its leading components has the remaining
/// components of the path, and no others.
pub proof fn lemma_without_leading(path: Seq<char>, count: int)
    requires
        0 <= count <= components(path).len(),
    ensures
        components(without_leading(path, count)) == components(path).skip(count),
{
    lemma_components_are_names(path);
    lemma_components_of_join(components(path).skip(count));
}

/// Parts that hold no `c`, joined by another character, hold no `c`.
pub proof fn lemma_join_without(parts: Seq<Seq<char>>, sep: char, c: char)
    requires
        sep != c,
        forall|i: int| 0 <= i < parts.len() ==> !(#[trigger] parts[i]).contains(c),
    ensures
        !join(parts, sep).contains(c),
    decreases parts.len(),
{
    if parts.len() >= 2 {
        lemma_join_without(parts.drop_last(), sep, c);
    }
}

/// A flattened path holds no separator: it names a file, not a place in a
/// directory tree.
pub proof fn lemma_flattened_is_flat(path: Seq<char>)
    ensures
        !flattened(path).contains(separator()),
        components(flattened(path)).len() <= 1,
{
    let parts = components(path).map_values(|c: Seq<char>| underscored(c));
    lemma_components_are_names(path);
    lemma_join_without(parts, '-', separator());
    if flattened(path).len() > 0 {
        lemma_components_of_name(flattened(path));
    }
}

/// A file name that gets a suffix without separator stays a file name.
pub proof fn lemma_suffixed_is_name(name: Seq<char>, suffix: Seq<char>)
    requires
        is_component(name),
        !suffix.contains(separator()),
        suffixed(name, suffix) is Some,
    ensures
        is_component(suffixed(name, suffix)->Some_0),
{
    lemma_last_position_in_range(name, '.');
}

/// The last position of a character lies inside the text.
proof fn lemma_last_position_in_range(s: Seq<char>, c: char)
    ensures
        last_position(s, c) matches Some(i) ==> 0 <= i < s.len() && s[i] == c,
    decreases s.len(),
{
    if s.len() > 0 && s.last() != c {
        lemma_last_position_in_range(s.drop_last(), c);
    }
}

/// The components of `path`, each as a vector of characters.
fn split(path: &Vec<char>) -> (parts: Vec<Vec<char>>)
    ensures
        views(parts@) == components(path@),
{
    let mut parts: Vec<Vec<char>> = Vec::new();
    let mut run: Vec<char> = Vec::new();
    let mut i: usize = 0;
    while i < path.len()
        invariant
            i <= path.len(),
            run@.len() > 0 <==> (i > 0 && path@[i - 1] != separator()),
            components(path@.take(i as int)) == if run@.len() > 0 {
                views(parts@).push(run@)
            } else {
                views(parts@)
            },
        decreases path.len() - i,
    {
        let c = path[i];
        proof {
            assert(path@.take(i + 1) =~= path@.take(i as int).push(c));
            lemma_components_push(path@.take(i as int), c);
        }
        if c == '/' {
            if run.len() > 0 {
                parts.push(run);
                run = Vec::new();
            }
        } else {
            run.push(c);
            assert(run@.len() == 1 ==> run@ =~= seq![c]);
        }
        i += 1;
    }
    assert(path@.take(i as int) =~= path@);
    if run.len() > 0 {
        parts.push(run);
    }
    parts
}

/// The parts from position `from` on, joined by `sep`.
pub(crate) fn join_from(parts: &Vec<Vec<char>>, from: usize, sep: char) -> (joined: Vec<char>)
    requires
        from <= parts.len(),
    ensures
        joined@ == join(views(parts@).skip(from as int), sep),
{
    let mut joined: Vec<char> = Vec::new();
    let mut i: usize = from;
    while i < parts.len()
        invariant
            from <= i <= parts.len(),
            joined@ == join(views(parts@).subrange(from as int, i as int), sep),
        decreases parts.len() - i,
    {
        let ghost done = views(parts@).subrange(from as int, i as int);
        let ghost next = views(parts@).subrange(from as int, i + 1);
        assert(next.drop_last() =~= done);
        if i > from {
            joined.push(sep);
        }
        let part = &parts[i];
        let ghost start = joined@;
        let mut k: usize = 0;
        while k < part.len()
            invariant
                k <= part.len(),
                joined@ == start + part@.take(k as int),
            decreases part.len() - k,
        {
            joined.push(part[k]);
            k += 1;
        }
        i += 1;
    }
    joined
}

/// `name` with every space replaced by an underscore.
pub(crate) fn underscore(name: &Vec<char>) -> (out: Vec<char>)
    ensures
        out@ == underscored(name@),
{
    let mut out: Vec<char> = Vec::new();
    let mut i: usize = 0;
    while i < name.len()
        invariant
            i <= name.len(),
            out@ == underscored(name@.take(i as int)),
        decreases name.len() - i,
    {
        let c = name[i];
        out.push(if c == ' ' { '_' } else { c });
        assert(underscored(name@.take(i + 1)) =~= underscored(name@.take(i as int)).push(
            if c == ' ' { '_' } else { c },
        ));
        i += 1;
    }
    out
}

/// Whether `name` can be one component of a path: it is not empty and holds
/// no separator.
pub fn is_name(name: &str) -> (b: bool)
    ensures
        b == is_component(name@),
{
    let chars = chars_of(name);
    if chars.len() == 0 {
        return false;
    }
    let mut i: usize = 0;
    while i < chars.len()
        invariant
            i <= chars.len(),
            chars@ == name@,
            forall|k: int| 0 <= k < i ==> chars@[k] != separator(),
        decreases chars.len() - i,
    {
        if chars[i] == '/' {
            return false;
        }
        i += 1;
    }
    true
}

/// Removes the first `count` components of `path`. What is left comes back
/// with one separator between two components. A path with fewer than `count`
/// components is an error.
pub fn drop_components(path: &str, count: usize) -> (r: Result<String, Error>)
    ensures
        match r {
            Ok(rest) => count <= components(path@).len() && rest@ == without_leading(
                path@,
                count as int,
            ),
            Err(e) => components(path@).len() < count && e.kind == ErrorKind::PathStructure,
        },
{
    let chars = chars_of(path);
    let parts = split(&chars);
    if parts.len() < count {
        Err(Error::new(ErrorKind::PathStructure, "path has fewer components than are to be dropped"))
    } else {
        let rest = join_from(&parts, count, '/');
        Ok(string_of(&rest))
    }
}

/// Turns `path` into one file name: its components, spaces replaced by
/// underscores, with `-` between two of them. This never fails.
pub fn flatten_path(path: &str) -> (r: Result<String, Error>)
    ensures
        r matches Ok(name) && name@ == flattened(path@),
{
    let chars = chars_of(path);
    let parts = split(&chars);
    let mut renamed: Vec<Vec<char>> = Vec::new();
    let mut i: usize = 0;
    while i < parts.len()
        invariant
            i <= parts.len(),
            views(renamed@) == views(parts@).take(i as int).map_values(
                |c: Seq<char>| underscored(c),
            ),
        decreases parts.len() - i,
    {
        let ghost before = views(renamed@);
        renamed.push(underscore(&parts[i]));
        assert(views(renamed@) =~= before.push(underscored(parts@[i as int]@)));
        assert(views(renamed@) =~= views(parts@).take(i + 1).map_values(
            |c: Seq<char>| underscored(c),
        ));
        i += 1;
    }
    assert(views(parts@).take(i as int) =~= views(parts@));
    let name = join_from(&renamed, 0, '-');
    assert(views(renamed@).skip(0) =~= views(renamed@));
    Ok(string_of(&name))
}

/// The position of the last dot in `name`.
fn find_last_dot(name: &Vec<char>) -> (r: Option<usize>)
    ensures
        match r {
            Some(i) => last_position(name@, '.') == Some(i as int) && i < name.len(),
            None => last_position(name@, '.') is None,
        },
{
    let mut i: usize = name.len();
    assert(name@.take(i as int) =~= name@);
    while i > 0
        invariant
            i <= name.len(),
            last_position(name@, '.') == last_position(name@.take(i as int), '.'),
        decreases i,
    {
        assert(name@.take(i as int).drop_last() =~= name@.take(i - 1));
        if name[i - 1] == '.' {
            return Some(i - 1);
        }
        i -= 1;
    }
    None
}

/// Puts `suffix` in front of the extension of `name`, that is in front of its
/// last dot, or at its end where it has no dot. With an empty suffix the name
/// comes back as it is. Otherwise a name without a stem is an error.
pub fn append_suffix(name: &str, suffix: &str) -> (r: Result<String, Error>)
    ensures
        match r {
            Ok(out) => suffixed(name@, suffix@) == Some(out@),
            Err(e) => suffixed(name@, suffix@) is None && e.kind == ErrorKind::NameStructure,
        },
        suffix@.len() == 0 ==> r is Ok && r->Ok_0@ == name@,
{
    let tail = chars_of(suffix);
    if tail.len() == 0 {
        return Ok(name.to_owned());
    }
    let chars = chars_of(name);
    let cut = match find_last_dot(&chars) {
        Some(dot) => dot,
        None => chars.len(),
    };
    if cut == 0 {
        return Err(Error::new(ErrorKind::NameStructure, "name has no stem"));
    }
    let mut out: Vec<char> = Vec::new();
    let mut i: usize = 0;
    while i < cut
        invariant
            i <= cut <= chars.len(),
            out@ == chars@.take(i as int),
        decreases cut - i,
    {
        out.push(chars[i]);
        i += 1;
    }
    let mut k: usize = 0;
    while k < tail.len()
        invariant
            k <= tail.len(),
            cut <= chars.len(),
            out@ == chars@.take(cut as int) + tail@.take(k as int),
        decreases tail.len() - k,
    {
        out.push(tail[k]);
        k += 1;
    }
    let mut j: usize = cut;
    while j < chars.len()
        invariant
            cut <= j <= chars.len(),
            out@ == chars@.take(cut as int) + tail@ + chars@.subrange(cut as int, j as int),
        decreases chars.len() - j,
    {
        out.push(chars[j]);
        assert(chars@.subrange(cut as int, j + 1) =~= chars@.subrange(cut as int, j as int).push(
            chars@[j as int],
        ));
        j += 1;
    }
    proof {
        if cut == chars.len() {
        }
    }
    Ok(string_of(&out))
}

} // verus!

use vstd::prelude::*;

use crate::text::{characters, join, join3, same_text, texts};

verus! {

/// Whether a path starts at the root.
pub open spec fn is_absolute(path: Seq<char>) -> bool {
    path.len() > 0 && path[0] == '/'
}

/// The length of `path` without the separators and the `/.` steps at its end.
pub open spec fn body_end(path: Seq<char>) -> nat
    decreases path.len(),
{
    if path.len() == 0 {
        0
    } else if path.last() == '/' || (path.last() == '.' && path.len() >= 2 && path[path.len() - 2]
        == '/') {
        body_end(path.drop_last())
    } else {
        path.len()
    }
}

/// The position after the last separator of `path`.
pub open spec fn segment_start(path: Seq<char>) -> nat
    decreases path.len(),
{
    if path.len() == 0 || path.last() == '/' {
        path.len()
    } else {
        segment_start(path.drop_last())
    }
}

/// The names that a path leads through, in order.
///
/// Repeated separators, a separator at the end and `.` steps do not count; only a `.` that
/// opens a relative path is a name of its own.
pub open spec fn components(path: Seq<char>) -> Seq<Seq<char>>
    decreases path.len(),
{
    let body = path.take(body_end(path) as int);
    if body_end(path) == 0 || body_end(path) > path.len() || segment_start(body) >= body.len() {
        Seq::empty()
    } else {
        components(body.take(segment_start(body) as int)).push(
            body.skip(segment_start(body) as int),
        )
    }
}

/// The names joined by separators.
pub open spec fn joined(names: Seq<Seq<char>>) -> Seq<char>
    decreases names.len(),
{
    if names.len() == 0 {
        Seq::empty()
    } else if names.len() == 1 {
        names[0]
    } else {
        joined(names.drop_last()) + seq!['/'] + names.last()
    }
}

/// Where a path that was asked for lies in a layer's archive: relative to the layer's root.
pub open spec fn normalized(path: Seq<char>) -> Seq<char> {
    if is_absolute(path) {
        joined(components(path))
    } else {
        path
    }
}

/// The path of the directory that holds `path`; none for a path without names.
pub open spec fn parent(path: Seq<char>) -> Option<Seq<char>> {
    let body = path.take(body_end(path) as int);
    if body.len() == 0 {
        None
    } else {
        let above = body.take(segment_start(body) as int);
        Some(above.take(body_end(above) as int))
    }
}

proof fn lemma_body_end(path: Seq<char>)
    ensures
        body_end(path) <= path.len(),
        body_end(path) > 0 ==> path[body_end(path) - 1] != '/',
        body_end(path) > 0 ==> segment_start(path.take(body_end(path) as int)) < body_end(path),
    decreases path.len(),
{
    if path.len() > 0 {
        lemma_body_end(path.drop_last());
        if body_end(path) == path.len() {
            assert(path.take(path.len() as int) == path);
            lemma_segment_start(path.drop_last());
        } else {
            assert(path.take(body_end(path) as int) == path.drop_last().take(
                body_end(path) as int,
            ));
        }
    }
}

proof fn lemma_segment_start(path: Seq<char>)
    ensures
        segment_start(path) <= path.len(),
    decreases path.len(),
{
    if path.len() > 0 {
        lemma_segment_start(path.drop_last());
    }
}

fn find_body_end(chars: &Vec<char>, length: usize) -> (end: usize)
    requires
        length <= chars.len(),
    ensures
        end == body_end(chars@.take(length as int)),
        end <= length,
{
    let mut end: usize = length;
    assert(chars@.take(end as int) == chars@.take(length as int));
    while end > 0 && (chars[end - 1] == '/' || (chars[end - 1] == '.' && end >= 2 && chars[end - 2]
        == '/'))
        invariant
            end <= length <= chars.len(),
            body_end(chars@.take(length as int)) == body_end(chars@.take(end as int)),
        decreases end,
    {
        assert(chars@.take(end as int).drop_last() == chars@.take(end - 1));
        end = end - 1;
    }
    end
}

fn find_segment_start(chars: &Vec<char>, length: usize) -> (start: usize)
    requires
        length <= chars.len(),
    ensures
        start == segment_start(chars@.take(length as int)),
        start <= length,
{
    let mut start: usize = length;
    while start > 0 && chars[start - 1] != '/'
        invariant
            start <= length <= chars.len(),
            segment_start(chars@.take(length as int)) == segment_start(chars@.take(start as int)),
        decreases start,
    {
        assert(chars@.take(start as int).drop_last() == chars@.take(start - 1));
        start = start - 1;
    }
    start
}

/// The names that a path leads through.
pub fn path_names(path: &str) -> (names: Vec<String>)
    ensures
        texts(names@) == components(path@),
{
    let chars = characters(path);
    let mut names: Vec<String> = Vec::new();
    let mut end: usize = find_body_end(&chars, chars.len());
    proof {
        assert(chars@.take(chars@.len() as int) == chars@);
        lemma_body_end(chars@);
        lemma_body_end_again(chars@);
        lemma_components_of_body(path@);
    }
    while end > 0
        invariant
            chars@ == path@,
            end <= chars.len(),
            end == body_end(chars@.take(end as int)),
            components(path@) == components(path@.take(end as int)) + texts(names@),
        decreases end,
    {
        let start: usize = find_segment_start(&chars, end);
        let name = path.substring_char(start, end).to_owned();
        let ghost body = path@.take(end as int);
        let ghost before = names@;
        names.insert(0, name);
        let above: usize = find_body_end(&chars, start);
        proof {
            lemma_body_end(body);
            assert(body.take(end as int) == body);
            assert(body.take(start as int) == path@.take(start as int));
            assert(body.skip(start as int) == name@);
            lemma_components_of_body(path@.take(start as int));
            lemma_body_end(path@.take(start as int));
            assert(path@.take(start as int).take(above as int) == path@.take(above as int));
            lemma_body_end_again(path@.take(start as int));
            assert(texts(names@) == seq![name@] + texts(before));
            assert(components(path@) == components(path@.take(above as int)) + texts(names@));
        }
        end = above;
    }
    assert(path@.take(0).len() == 0);
    assert(components(path@.take(0)) == Seq::<Seq<char>>::empty());
    assert(components(path@) == texts(names@));
    names
}

proof fn lemma_body_end_again(path: Seq<char>)
    ensures
        body_end(path) == body_end(path.take(body_end(path) as int)),
    decreases path.len(),
{
    lemma_body_end(path);
    if path.len() > 0 {
        if body_end(path) == path.len() {
            assert(path.take(path.len() as int) == path);
        } else {
            lemma_body_end_again(path.drop_last());
            assert(path.take(body_end(path) as int) == path.drop_last().take(
                body_end(path) as int,
            ));
        }
    }
}

proof fn lemma_components_of_body(path: Seq<char>)
    ensures
        components(path) == components(path.take(body_end(path) as int)),
{
    lemma_body_end(path);
    lemma_body_end_again(path);
    let body = path.take(body_end(path) as int);
    assert(body.take(body_end(body) as int) == body);
}

/// Turns a path asked for in a layer into the path inside the layer's archive.
///
/// An absolute path such as `/foo/bar` becomes the relative `foo/bar`, and `/` becomes the
/// empty path. A relative path stays as it is.
pub fn normalize_archive_path(path_in_layer: &str) -> (archive_path: String)
    ensures
        archive_path@ == normalized(path_in_layer@),
{
    if path_in_layer.unicode_len() == 0 || path_in_layer.get_char(0) != '/' {
        return path_in_layer.to_owned();
    }
    let names = path_names(path_in_layer);
    let mut archive_path = String::new();
    for i in 0..names.len()
        invariant
            archive_path@ == joined(texts(names@).take(i as int)),
    {
        if i > 0 {
            archive_path.append("/");
            assert("/"@ == seq!['/']) by {
                reveal_strlit("/");
            }
        }
        archive_path.append(names[i].as_str());
        assert(texts(names@).take(i + 1).drop_last() == texts(names@).take(i as int));
        assert(texts(names@).take(i + 1)[i as int] == names@[i as int]@);
    }
    assert(texts(names@).take(names@.len() as int) == texts(names@));
    archive_path
}

/// A name that can stand between two separators: not empty, without a separator, not `.`.
pub open spec fn is_plain_name(name: Seq<char>) -> bool {
    name.len() > 0 && !name.contains('/') && name != seq!['.']
}

proof fn lemma_segment(path: Seq<char>)
    ensures
        segment_start(path) <= path.len(),
        !path.skip(segment_start(path) as int).contains('/'),
        segment_start(path) > 0 ==> path[segment_start(path) - 1] == '/',
    decreases path.len(),
{
    if path.len() > 0 && path.last() != '/' {
        lemma_segment(path.drop_last());
        let start = segment_start(path) as int;
        assert(path.skip(start) == path.drop_last().skip(start).push(path.last()));
        assert forall|i: int| 0 <= i < path.skip(start).len() implies path.skip(start)[i]
            != '/' by {
            if i < path.skip(start).len() - 1 {
                assert(path.drop_last().skip(start)[i] != '/');
            }
        }
    }
}

/// Every name of an absolute path is a plain name.
proof fn lemma_absolute_names(path: Seq<char>)
    requires
        is_absolute(path),
    ensures
        forall|i: int|
            0 <= i < components(path).len() ==> is_plain_name(#[trigger] components(path)[i]),
    decreases path.len(),
{
    lemma_body_end(path);
    let body = path.take(body_end(path) as int);
    if body_end(path) > 0 {
        lemma_segment(body);
        let start = segment_start(body) as int;
        let above = body.take(start);
        let name = body.skip(start);
        assert(start > 0) by {
            if start == 0 {
                assert(name == body);
                assert(name[0] == '/');
            }
        }
        assert(is_absolute(above));
        lemma_absolute_names(above);
        assert(name != seq!['.']) by {
            if name == seq!['.'] {
                assert(name[0] == '.');
                assert(body.last() == '.');
                assert(body[body.len() - 2] == '/');
                lemma_body_end_again(path);
                lemma_body_end(body.drop_last());
            }
        }
        assert(is_plain_name(name));
        let names = components(path);
        assert(names == components(above).push(name));
        assert forall|i: int| 0 <= i < names.len() implies is_plain_name(#[trigger] names[i]) by {
            if i < names.len() - 1 {
                assert(is_plain_name(components(above)[i]));
            }
        }
    }
}

proof fn lemma_segment_start_of(front: Seq<char>, name: Seq<char>)
    requires
        !name.contains('/'),
        front.len() == 0 || front.last() == '/',
    ensures
        segment_start(front + name) == front.len(),
    decreases name.len(),
{
    if name.len() == 0 {
        assert(front + name == front);
    } else {
        assert((front + name).drop_last() == front + name.drop_last());
        assert forall|i: int| 0 <= i < name.drop_last().len() implies name.drop_last()[i]
            != '/' by {
            assert(name[i] != '/');
        }
        assert(name.last() != '/');
        lemma_segment_start_of(front, name.drop_last());
    }
}

proof fn lemma_push_name(front: Seq<char>, name: Seq<char>)
    requires
        is_plain_name(name),
        front.len() == 0 || front.last() == '/',
    ensures
        components(front + name) == components(front).push(name),
{
    let path = front + name;
    assert(name.last() != '/');
    assert(body_end(path) == path.len()) by {
        if path.last() == '.' && path.len() >= 2 && path[path.len() - 2] == '/' {
            if name.len() >= 2 {
                assert(name[name.len() - 2] == '/');
            } else {
                assert(name == seq!['.']);
            }
        }
    }
    assert(path.take(path.len() as int) == path);
    lemma_segment_start_of(front, name);
    assert(path.take(front.len() as int) == front);
    assert(path.skip(front.len() as int) == name);
}

proof fn lemma_trailing_separator(path: Seq<char>)
    ensures
        components(path.push('/')) == components(path),
{
    let longer = path.push('/');
    assert(longer.drop_last() == path);
    lemma_components_of_body(longer);
    lemma_components_of_body(path);
    lemma_body_end(path);
    assert(longer.take(body_end(longer) as int) == path.take(body_end(path) as int));
}

/// Joining plain names and splitting the result gives the same names back.
pub proof fn lemma_names_of_joined(names: Seq<Seq<char>>)
    requires
        forall|i: int| 0 <= i < names.len() ==> is_plain_name(#[trigger] names[i]),
    ensures
        components(joined(names)) == names,
        !is_absolute(joined(names)),
    decreases names.len(),
{
    if names.len() > 0 {
        assert(is_plain_name(names[0]));
        assert(is_plain_name(names[names.len() - 1]));
        assert(names[0][0] != '/');
        lemma_joined_starts(names);
        let shorter = names.drop_last();
        assert forall|i: int| 0 <= i < shorter.len() implies is_plain_name(
            #[trigger] shorter[i],
        ) by {
            assert(is_plain_name(names[i]));
        }
        lemma_names_of_joined(shorter);
        assert(shorter.push(names.last()) == names);
        if names.len() == 1 {
            let front = Seq::<char>::empty();
            lemma_push_name(front, names[0]);
            assert(front + names[0] == names[0]);
            assert(components(front) == Seq::<Seq<char>>::empty());
        } else {
            let front = joined(shorter) + seq!['/'];
            assert(front == joined(shorter).push('/'));
            lemma_trailing_separator(joined(shorter));
            lemma_push_name(front, names.last());
        }
    }
}

proof fn lemma_joined_starts(names: Seq<Seq<char>>)
    requires
        names.len() > 0,
        names[0].len() > 0,
    ensures
        joined(names).len() > 0,
        joined(names)[0] == names[0][0],
    decreases names.len(),
{
    if names.len() > 1 {
        lemma_joined_starts(names.drop_last());
    }
}

/// A normalized path is relative: nothing in a layer's archive starts at the root.
pub proof fn law_normalized_is_relative(path: Seq<char>)
    ensures
        !is_absolute(normalized(path)),
{
    if is_absolute(path) {
        lemma_absolute_names(path);
        lemma_names_of_joined(components(path));
    }
}

/// Normalizing keeps the names that a path leads through.
pub proof fn law_normalized_keeps_names(path: Seq<char>)
    ensures
        components(normalized(path)) == components(path),
{
    if is_absolute(path) {
        lemma_absolute_names(path);
        lemma_names_of_joined(components(path));
    }
}

/// Normalizing twice is normalizing once.
pub proof fn law_normalized_twice(path: Seq<char>)
    ensures
        normalized(normalized(path)) == normalized(path),
{
    law_normalized_is_relative(path);
}

/// The directories that lead to `path`, from the outermost one down.
pub open spec fn ancestors(path: Seq<char>) -> Seq<Seq<char>>
    decreases path.len(),
{
    match parent(path) {
        Some(above) => if above.len() == 0 || above.len() >= path.len() {
            Seq::empty()
        } else {
            ancestors(above).push(above)
        },
        None => Seq::empty(),
    }
}

/// The directories that lead to a relative path, from the outermost one down.
pub fn parent_directories(path: &str) -> (directories: Vec<String>)
    ensures
        texts(directories@) == ancestors(path@),
{
    let chars = characters(path);
    let mut directories: Vec<String> = Vec::new();
    let mut length: usize = chars.len();
    assert(path@.take(length as int) == path@);
    loop
        invariant
            chars@ == path@,
            length <= chars.len(),
            ancestors(path@) == ancestors(path@.take(length as int)) + texts(directories@),
        ensures
            ancestors(path@) == texts(directories@),
        decreases length,
    {
        let ghost current = path@.take(length as int);
        let end: usize = find_body_end(&chars, length);
        proof {
            lemma_body_end(current);
            assert(current.take(end as int) == path@.take(end as int));
        }
        if end == 0 {
            assert(ancestors(current) == Seq::<Seq<char>>::empty());
            assert(ancestors(path@) == texts(directories@));
            break;
        }
        let start: usize = find_segment_start(&chars, end);
        let above: usize = find_body_end(&chars, start);
        proof {
            assert(path@.take(end as int).take(start as int) == path@.take(start as int));
            assert(path@.take(start as int).take(above as int) == path@.take(above as int));
            assert(parent(current) == Some(path@.take(above as int)));
        }
        if above == 0 {
            assert(ancestors(current) == Seq::<Seq<char>>::empty());
            assert(ancestors(path@) == texts(directories@));
            break;
        }
        let directory = path.substring_char(0, above).to_owned();
        let ghost before = directories@;
        directories.insert(0, directory);
        proof {
            assert(directory@ == path@.take(above as int));
            assert(texts(directories@) == seq![directory@] + texts(before));
            assert(ancestors(path@) == ancestors(path@.take(above as int)) + texts(directories@));
        }
        length = above;
    }
    directories
}

/// The path `relative` taken from the directory `base`.
pub open spec fn path_under(base: Seq<char>, relative: Seq<char>) -> Seq<char> {
    if is_absolute(relative) {
        relative
    } else if base.len() == 0 || base.last() == '/' {
        base + relative
    } else {
        base + seq!['/'] + relative
    }
}

/// The path `relative` taken from the directory `base`.
pub fn join_path(base: &str, relative: &str) -> (path: String)
    ensures
        path@ == path_under(base@, relative@),
{
    if relative.unicode_len() > 0 && relative.get_char(0) == '/' {
        return relative.to_owned();
    }
    let length: usize = base.unicode_len();
    if length == 0 || base.get_char(length - 1) == '/' {
        join(base, relative)
    } else {
        proof {
            reveal_strlit("/");
            assert("/"@ == seq!['/']);
        }
        join3(base, "/", relative)
    }
}

/// The names by which paths are told apart and ordered: the root counts as one.
pub open spec fn path_key(path: Seq<char>) -> Seq<Seq<char>> {
    if is_absolute(path) {
        seq![seq!['/']] + components(path)
    } else {
        components(path)
    }
}

/// The names by which paths are told apart and ordered.
pub fn path_key_of(path: &str) -> (key: Vec<String>)
    ensures
        texts(key@) == path_key(path@),
{
    let mut key = path_names(path);
    if path.unicode_len() > 0 && path.get_char(0) == '/' {
        let ghost names = key@;
        let root = "/".to_owned();
        key.insert(0, root);
        proof {
            reveal_strlit("/");
            assert(root@ == seq!['/']);
            assert(texts(key@) == seq![seq!['/']] + texts(names));
        }
    }
    key
}

/// Whether two lists hold the same texts.
pub fn same_texts(a: &Vec<String>, b: &Vec<String>) -> (same: bool)
    ensures
        same == (texts(a@) == texts(b@)),
{
    if a.len() != b.len() {
        assert(texts(a@).len() != texts(b@).len());
        return false;
    }
    for i in 0..a.len()
        invariant
            a@.len() == b@.len(),
            forall|j: int| 0 <= j < i ==> texts(a@)[j] == texts(b@)[j],
    {
        if !same_text(a[i].as_str(), b[i].as_str()) {
            assert(texts(a@)[i as int] != texts(b@)[i as int]);
            return false;
        }
    }
    assert(texts(a@) == texts(b@));
    true
}

/// A plain name behind a path and a separator is one more name. A separator or a `.` step behind a
/// path adds none.
pub proof fn law_names_of_a_path(path: Seq<char>, name: Seq<char>)
    requires
        is_plain_name(name),
    ensures
        components(Seq::empty()).len() == 0,
        components(name) == seq![name],
        components(path + seq!['/'] + name) == components(path).push(name),
        components(path + seq!['/']) == components(path),
        components(path + seq!['/', '.']) == components(path),
        components(seq!['.']) == seq![seq!['.']],
{
    let dot = seq!['.'];
    assert(body_end(dot) == 1);
    assert(dot.take(1) =~= dot);
    assert(dot.drop_last() =~= Seq::<char>::empty());
    assert(segment_start(dot.drop_last()) == 0);
    assert(segment_start(dot) == 0);
    assert(dot.take(0) =~= Seq::<char>::empty());
    assert(components(dot.take(0)) =~= Seq::<Seq<char>>::empty());
    assert(dot.skip(0) =~= dot);
    let front = path.push('/');
    assert(path + seq!['/'] =~= front);
    lemma_trailing_separator(path);
    lemma_push_name(front, name);
    let empty = Seq::<char>::empty();
    lemma_push_name(empty, name);
    assert(empty + name =~= name);
    assert(components(empty) == Seq::<Seq<char>>::empty());
    let longer = path + seq!['/', '.'];
    assert(longer.drop_last() =~= front);
    assert(front.drop_last() =~= path);
    assert(body_end(longer) == body_end(front));
    assert(body_end(front) == body_end(path));
    lemma_body_end(path);
    lemma_components_of_body(longer);
    lemma_components_of_body(path);
    assert(longer.take(body_end(longer) as int) =~= path.take(body_end(path) as int));
}

/// The names of a path are not empty and have no separator in them.
pub proof fn law_names_have_no_separator(path: Seq<char>)
    ensures
        forall|i: int|
            0 <= i < components(path).len() ==> (#[trigger] components(path)[i]).len() > 0
                && !components(path)[i].contains('/'),
    decreases path.len(),
{
    lemma_body_end(path);
    if body_end(path) > 0 {
        let body = path.take(body_end(path) as int);
        lemma_segment(body);
        let start = segment_start(body) as int;
        law_names_have_no_separator(body.take(start));
        assert(components(path) == components(body.take(start)).push(body.skip(start)));
    }
}

/// Names are joined with one separator between two of them.
pub proof fn law_joined_names(names: Seq<Seq<char>>, name: Seq<char>)
    ensures
        joined(Seq::empty()).len() == 0,
        joined(seq![name]) == name,
        names.len() > 0 ==> joined(names.push(name)) == joined(names) + seq!['/'] + name,
{
    assert(names.push(name).drop_last() =~= names);
}

/// A relative path stays as it is. An absolute one loses its root, and its names are joined with
/// one separator each: what comes out is relative and leads through the same names.
pub proof fn law_path_in_the_archive(path: &str, archive_path: String)
    requires
        call_ensures(normalize_archive_path, (path,), archive_path),
    ensures
        path@.len() == 0 || path@[0] != '/' ==> archive_path@ == path@,
        path@.len() > 0 && path@[0] == '/' ==> archive_path@ == joined(components(path@)),
        archive_path@.len() == 0 || archive_path@[0] != '/',
        components(archive_path@) == components(path@),
        path@.len() > 0 && path@[0] == '/' ==> (archive_path@.len() == 0 <==> components(
            path@,
        ).len() == 0),
{
    law_normalized_is_relative(path@);
    law_normalized_keeps_names(path@);
    if is_absolute(path@) {
        lemma_absolute_names(path@);
        if components(path@).len() > 0 {
            assert(is_plain_name(components(path@)[0]));
            lemma_joined_starts(components(path@));
        }
    }
}

proof fn lemma_ancestors(path: Seq<char>)
    ensures
        ancestors(path).len() == (if components(path).len() == 0 {
            0
        } else {
            components(path).len() - 1
        }),
        forall|i: int|
            0 <= i < ancestors(path).len() ==> components(#[trigger] ancestors(path)[i])
                == components(path).take(i + 1) && ancestors(path)[i].is_prefix_of(path)
                && body_end(ancestors(path)[i]) == ancestors(path)[i].len() > 0,
    decreases path.len(),
{
    lemma_body_end(path);
    let body = path.take(body_end(path) as int);
    if body.len() > 0 {
        let start = segment_start(body) as int;
        let front = body.take(start);
        let above = front.take(body_end(front) as int);
        lemma_body_end(front);
        lemma_body_end_again(front);
        lemma_components_of_body(front);
        assert(parent(path) == Some(above));
        assert(components(path) == components(front).push(body.skip(start)));
        assert(components(above) == components(front));
        if above.len() == 0 {
            assert(components(above) == Seq::<Seq<char>>::empty());
        } else {
            lemma_ancestors(above);
            lemma_body_end(above);
            assert(above.take(above.len() as int) =~= above);
            assert(components(above).len() > 0) by {
                assert(body_end(above) == above.len());
            }
            let all = ancestors(path);
            assert(all == ancestors(above).push(above));
            assert forall|i: int| 0 <= i < all.len() implies components(#[trigger] all[i])
                == components(path).take(i + 1) && all[i].is_prefix_of(path) && body_end(all[i])
                == all[i].len() > 0 by {
                if i < all.len() - 1 {
                    assert(all[i] == ancestors(above)[i]);
                    assert(components(above).take(i + 1) =~= components(path).take(i + 1));
                    assert(above =~= path.take(above.len() as int));
                    assert(all[i].is_prefix_of(above));
                } else {
                    assert(components(path).take(i + 1) =~= components(above));
                    assert(above =~= path.take(above.len() as int));
                }
            }
        }
    }
}

/// The directories that lead to a path are as many as it has names but one. Each leads through one
/// name more than the one before, and is the beginning of the path, up to the end of that name.
pub proof fn law_directories_lead_down_the_path(path: &str, directories: Vec<String>)
    requires
        call_ensures(parent_directories, (path,), directories),
    ensures
        directories@.len() == (if components(path@).len() == 0 {
            0
        } else {
            components(path@).len() - 1
        }),
        forall|i: int|
            0 <= i < directories@.len() ==> {
                let directory = (#[trigger] directories@[i])@;
                &&& components(directory) == components(path@).take(i + 1)
                &&& directory.is_prefix_of(path@)
                &&& directory.len() > 0
                &&& directory.last() != '/'
                &&& directory.last() == '.' && directory.len() >= 2 ==> directory[directory.len()
                    - 2] != '/'
            },
{
    lemma_ancestors(path@);
    assert(texts(directories@).len() == directories@.len());
    assert forall|i: int| 0 <= i < directories@.len() implies ({
        let directory = (#[trigger] directories@[i])@;
        &&& components(directory) == components(path@).take(i + 1)
        &&& directory.is_prefix_of(path@)
        &&& directory.len() > 0
        &&& directory.last() != '/'
        &&& directory.last() == '.' && directory.len() >= 2 ==> directory[directory.len() - 2]
            != '/'
    }) by {
        let directory = directories@[i]@;
        assert(texts(directories@)[i] == directory);
        assert(ancestors(path@)[i] == directory);
        lemma_body_end(directory.drop_last());
    }
}

/// A path in a directory is the directory's path, a separator where none is there, and the path
/// from the directory on. An absolute path stays as it is.
pub proof fn law_path_in_a_directory(base: &str, relative: &str, path: String)
    requires
        call_ensures(join_path, (base, relative), path),
    ensures
        relative@.len() > 0 && relative@[0] == '/' ==> path@ == relative@,
        relative@.len() == 0 || relative@[0] != '/' ==> {
            &&& base@.len() == 0 ==> path@ == relative@
            &&& base@.len() > 0 && base@.last() == '/' ==> path@ == base@ + relative@
            &&& base@.len() > 0 && base@.last() != '/' ==> path@ == base@ + seq!['/'] + relative@
        },
        is_plain_name(relative@) ==> components(path@) == components(base@).push(relative@),
{
    assert(base@.len() == 0 ==> base@ + relative@ =~= relative@);
    if is_plain_name(relative@) {
        assert(relative@[0] != '/');
        law_names_of_a_path(base@, relative@);
        if base@.len() > 0 && base@.last() == '/' {
            lemma_push_name(base@, relative@);
        }
        if base@.len() == 0 {
            assert(base@ =~= Seq::<char>::empty());
        }
    }
}

/// Two paths are taken for the same if and only if both start at the root or neither does, and they
/// lead through the same names.
pub proof fn law_same_paths(a: &str, b: &str, key_a: Vec<String>, key_b: Vec<String>)
    requires
        call_ensures(path_key_of, (a,), key_a),
        call_ensures(path_key_of, (b,), key_b),
    ensures
        texts(key_a@) == texts(key_b@) <==> {
            &&& (a@.len() > 0 && a@[0] == '/') == (b@.len() > 0 && b@[0] == '/')
            &&& components(a@) == components(b@)
        },
        texts(key_a@) == (if a@.len() > 0 && a@[0] == '/' {
            seq![seq!['/']] + components(a@)
        } else {
            components(a@)
        }),
{
    law_names_have_no_separator(a@);
    law_names_have_no_separator(b@);
    let (x, y) = (path_key(a@), path_key(b@));
    if x == y {
        if is_absolute(a@) && is_absolute(b@) {
            assert(x.skip(1) =~= components(a@));
            assert(y.skip(1) =~= components(b@));
        }
        if is_absolute(a@) && !is_absolute(b@) {
            assert(x[0] == seq!['/']);
            assert(x[0][0] == '/');
            assert(components(b@)[0].contains('/'));
        }
        if is_absolute(b@) && !is_absolute(a@) {
            assert(y[0] == seq!['/']);
            assert(y[0][0] == '/');
            assert(components(a@)[0].contains('/'));
        }
    }
}

} // verus!

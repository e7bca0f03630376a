use vstd::prelude::*;

use crate::path::path_key;
use crate::text::{characters, same_text, texts};

verus! {

/// Whether `a` stands before `b` in the order of their characters.
pub open spec fn text_less(a: Seq<char>, b: Seq<char>) -> bool
    decreases a.len(),
{
    if b.len() == 0 {
        false
    } else if a.len() == 0 {
        true
    } else if a[0] != b[0] {
        (a[0] as int) < (b[0] as int)
    } else {
        text_less(a.skip(1), b.skip(1))
    }
}

/// The kind of a name in a path: the root, `.`, `..`, or a plain name.
pub open spec fn name_rank(name: Seq<char>) -> int {
    if name == "/"@ {
        0
    } else if name == "."@ {
        1
    } else if name == ".."@ {
        2
    } else {
        3
    }
}

/// Whether the name `a` stands before the name `b`: by kind, then by characters.
pub open spec fn name_less(a: Seq<char>, b: Seq<char>) -> bool {
    name_rank(a) < name_rank(b) || (name_rank(a) == name_rank(b) && text_less(a, b))
}

/// Whether the names `a` stand before the names `b`: by the first name that differs.
pub open spec fn names_less(a: Seq<Seq<char>>, b: Seq<Seq<char>>) -> bool
    decreases a.len(),
{
    if b.len() == 0 {
        false
    } else if a.len() == 0 {
        true
    } else if a[0] != b[0] {
        name_less(a[0], b[0])
    } else {
        names_less(a.skip(1), b.skip(1))
    }
}

/// Whether the path `a` stands before the path `b`.
pub open spec fn path_less(a: Seq<char>, b: Seq<char>) -> bool {
    names_less(path_key(a), path_key(b))
}

proof fn lemma_text_less_transitive(a: Seq<char>, b: Seq<char>, c: Seq<char>)
    requires
        text_less(a, b),
        text_less(b, c),
    ensures
        text_less(a, c),
    decreases a.len(),
{
    if a.len() > 0 && a[0] == b[0] && b[0] == c[0] {
        lemma_text_less_transitive(a.skip(1), b.skip(1), c.skip(1));
    }
}

proof fn lemma_text_less_total(a: Seq<char>, b: Seq<char>)
    ensures
        text_less(a, b) || text_less(b, a) || a == b,
        !(text_less(a, b) && text_less(b, a)),
        a == b ==> !text_less(a, b),
    decreases a.len(),
{
    if a.len() > 0 && b.len() > 0 {
        lemma_text_less_total(a.skip(1), b.skip(1));
        if a[0] == b[0] && a.skip(1) == b.skip(1) {
            assert(a == seq![a[0]] + a.skip(1));
            assert(b == seq![b[0]] + b.skip(1));
        }
    } else if a.len() == b.len() {
        assert(a == b);
    }
}

proof fn lemma_name_less_transitive(a: Seq<char>, b: Seq<char>, c: Seq<char>)
    requires
        name_less(a, b),
        name_less(b, c),
    ensures
        name_less(a, c),
{
    if name_rank(a) == name_rank(b) && name_rank(b) == name_rank(c) {
        lemma_text_less_transitive(a, b, c);
    }
}

proof fn lemma_name_less_total(a: Seq<char>, b: Seq<char>)
    ensures
        name_less(a, b) || name_less(b, a) || a == b,
        !(name_less(a, b) && name_less(b, a)),
        a == b ==> !name_less(a, b),
{
    lemma_text_less_total(a, b);
}

pub proof fn lemma_names_less_transitive(a: Seq<Seq<char>>, b: Seq<Seq<char>>, c: Seq<Seq<char>>)
    requires
        names_less(a, b),
        names_less(b, c),
    ensures
        names_less(a, c),
    decreases a.len(),
{
    if a.len() > 0 {
        if a[0] == b[0] && b[0] == c[0] {
            lemma_names_less_transitive(a.skip(1), b.skip(1), c.skip(1));
        } else if a[0] != b[0] && b[0] != c[0] {
            lemma_name_less_transitive(a[0], b[0], c[0]);
            lemma_name_less_total(a[0], b[0]);
        }
    }
}

pub proof fn lemma_names_less_total(a: Seq<Seq<char>>, b: Seq<Seq<char>>)
    ensures
        names_less(a, b) || names_less(b, a) || a == b,
        !(names_less(a, b) && names_less(b, a)),
        a == b ==> !names_less(a, b),
    decreases a.len(),
{
    if a.len() > 0 && b.len() > 0 {
        lemma_name_less_total(a[0], b[0]);
        lemma_names_less_total(a.skip(1), b.skip(1));
        if a[0] == b[0] && a.skip(1) == b.skip(1) {
            assert(a == seq![a[0]] + a.skip(1));
            assert(b == seq![b[0]] + b.skip(1));
        }
    } else if a.len() == b.len() {
        assert(a == b);
    }
}

fn is_text_less(a: &str, b: &str) -> (less: bool)
    ensures
        less == text_less(a@, b@),
{
    let left = characters(a);
    let right = characters(b);
    let mut i: usize = 0;
    assert(a@.skip(0) == a@);
    assert(b@.skip(0) == b@);
    while i < left.len() && i < right.len() && left[i] == right[i]
        invariant
            left@ == a@,
            right@ == b@,
            i <= left.len(),
            i <= right.len(),
            text_less(a@, b@) == text_less(a@.skip(i as int), b@.skip(i as int)),
        decreases left.len() - i,
    {
        assert(a@.skip(i as int).skip(1) == a@.skip(i + 1));
        assert(b@.skip(i as int).skip(1) == b@.skip(i + 1));
        i = i + 1;
    }
    if i >= right.len() {
        false
    } else if i >= left.len() {
        true
    } else {
        left[i] < right[i]
    }
}

fn rank_of(name: &str) -> (rank: u8)
    ensures
        rank == name_rank(name@),
{
    if same_text(name, "/") {
        0
    } else if same_text(name, ".") {
        1
    } else if same_text(name, "..") {
        2
    } else {
        3
    }
}

/// Whether the names `a` stand before the names `b`.
pub fn is_names_less(a: &Vec<String>, b: &Vec<String>) -> (less: bool)
    ensures
        less == names_less(texts(a@), texts(b@)),
{
    let ghost left = texts(a@);
    let ghost right = texts(b@);
    let mut i: usize = 0;
    assert(left.skip(0) == left);
    assert(right.skip(0) == right);
    while i < a.len() && i < b.len() && same_text(a[i].as_str(), b[i].as_str())
        invariant
            left == texts(a@),
            right == texts(b@),
            i <= a.len(),
            i <= b.len(),
            names_less(left, right) == names_less(left.skip(i as int), right.skip(i as int)),
        decreases a.len() - i,
    {
        assert(left.skip(i as int).skip(1) == left.skip(i + 1));
        assert(right.skip(i as int).skip(1) == right.skip(i + 1));
        i = i + 1;
    }
    if i >= b.len() {
        false
    } else if i >= a.len() {
        true
    } else {
        assert(left.skip(i as int)[0] == a@[i as int]@);
        assert(right.skip(i as int)[0] == b@[i as int]@);
        let first: u8 = rank_of(a[i].as_str());
        let second: u8 = rank_of(b[i].as_str());
        first < second || (first == second && is_text_less(a[i].as_str(), b[i].as_str()))
    }
}

/// Of two texts the one comes first that has the lower character where they first differ, or that
/// ends there.
pub proof fn law_texts_are_ordered_by_the_first_difference(a: Seq<char>, b: Seq<char>, at: int)
    requires
        0 <= at <= a.len(),
        at <= b.len(),
        a.take(at) == b.take(at),
        at < a.len() && at < b.len() ==> a[at] != b[at],
    ensures
        at < a.len() && at < b.len() ==> (text_less(a, b) <==> (a[at] as int) < (b[at] as int)),
        at == a.len() && at < b.len() ==> text_less(a, b),
        at == b.len() ==> !text_less(a, b),
    decreases at,
{
    if at > 0 {
        assert(a.take(at)[0] == a[0] && b.take(at)[0] == b[0]);
        assert(a.skip(1).take(at - 1) =~= a.take(at).skip(1));
        assert(b.skip(1).take(at - 1) =~= b.take(at).skip(1));
        law_texts_are_ordered_by_the_first_difference(a.skip(1), b.skip(1), at - 1);
    }
}

/// Of two lists of names the one comes first that has the lower name where they first differ, or
/// that ends there.
pub proof fn law_names_are_ordered_by_the_first_difference(
    a: Seq<Seq<char>>,
    b: Seq<Seq<char>>,
    at: int,
)
    requires
        0 <= at <= a.len(),
        at <= b.len(),
        a.take(at) == b.take(at),
        at < a.len() && at < b.len() ==> a[at] != b[at],
    ensures
        at < a.len() && at < b.len() ==> (names_less(a, b) <==> name_less(a[at], b[at])),
        at == a.len() && at < b.len() ==> names_less(a, b),
        at == b.len() ==> !names_less(a, b),
    decreases at,
{
    if at > 0 {
        assert(a.take(at)[0] == a[0] && b.take(at)[0] == b[0]);
        assert(a.skip(1).take(at - 1) =~= a.take(at).skip(1));
        assert(b.skip(1).take(at - 1) =~= b.take(at).skip(1));
        law_names_are_ordered_by_the_first_difference(a.skip(1), b.skip(1), at - 1);
    }
}

/// Among names the root comes first, then `.`, then `..`, then all others by their characters.
pub proof fn law_special_names_come_first(a: Seq<char>, b: Seq<char>)
    requires
        a != "/"@ && a != "."@ && a != ".."@,
        b != "/"@ && b != "."@ && b != ".."@,
    ensures
        name_less("/"@, "."@),
        name_less("."@, ".."@),
        name_less(".."@, a),
        !name_less(a, ".."@),
        name_less(a, b) <==> text_less(a, b),
{
    reveal_strlit("/");
    reveal_strlit(".");
    reveal_strlit("..");
    assert("/"@[0] == '/' && "."@[0] == '.');
    assert("."@.len() == 1 && ".."@.len() == 2 && "/"@.len() == 1);
}

/// The order of paths is one: no path comes before itself, of two that differ in their names one
/// comes first, and what comes before a path that comes before a third comes before that.
pub proof fn law_paths_are_ordered(a: Seq<char>, b: Seq<char>, c: Seq<char>)
    ensures
        !path_less(a, a),
        path_key(a) != path_key(b) ==> path_less(a, b) != path_less(b, a),
        path_less(a, b) && path_less(b, c) ==> path_less(a, c),
{
    let (x, y) = (path_key(a), path_key(b));
    law_names_are_ordered_by_the_first_difference(x, x, x.len() as int);
    lemma_names_less_total(x, y);
    if path_less(a, b) && path_less(b, a) {
        lemma_names_less_transitive(x, y, x);
    }
    if path_less(a, b) && path_less(b, c) {
        lemma_names_less_transitive(x, y, path_key(c));
    }
}

} // verus!

//! Unix paths as texts.
use vstd::prelude::*;

use crate::ordering::{
    law_lists_in_order, lemma_list_le_total, lemma_list_le_transitive, list_le, strings_le, text_le,
};
use crate::strings::{
    cat2, cat3, chars_of, ends_with, law_split_at_separators, lemma_texts_push, opt_text, split,
    str_eq, str_split, str_strip_suffix, substring, texts, CharClass,
};

verus! {

/// `b` taken relative to `a`: an absolute `b` stands alone, otherwise it follows
/// `a` with one separator between them.
pub open spec fn joined(a: Seq<char>, b: Seq<char>) -> Seq<char> {
    if b.len() > 0 && b[0] == '/' {
        b
    } else if a.len() == 0 || a.last() == '/' {
        a + b
    } else {
        a + "/"@ + b
    }
}

/// `b` taken relative to `a`.
pub fn join_path(a: &str, b: &str) -> (r: String)
    ensures
        r@ == joined(a@, b@),
{
    let x = chars_of(a);
    let y = chars_of(b);
    if y.len() > 0 && y[0] == '/' {
        b.to_owned()
    } else if x.len() == 0 || x[x.len() - 1] == '/' {
        cat2(a, b)
    } else {
        cat3(a, "/", b)
    }
}

/// How many leading characters stand for the root or for a leading dot.
pub open spec fn body_start(p: Seq<char>) -> int {
    if p.len() > 0 && p[0] == '/' {
        1
    } else if p.len() > 0 && p[0] == '.' && (p.len() == 1 || p[1] == '/') {
        1
    } else {
        0
    }
}

/// Where the last component of the first `n` characters starts.
pub open spec fn component_start(p: Seq<char>, from: int, n: int) -> int
    decreases n - from,
{
    if n <= from || p[n - 1] == '/' {
        n
    } else {
        component_start(p, from, n - 1)
    }
}

/// How many characters are left once trailing separators and dots are dropped.
pub open spec fn trimmed_len(p: Seq<char>, from: int, n: int) -> int
    decreases n - from,
{
    if n <= from {
        n
    } else {
        let start = component_start(p, from, n);
        if start == n {
            trimmed_len(p, from, n - 1)
        } else if n - start == 1 && p[start] == '.' {
            if start > from {
                trimmed_len(p, from, start - 1)
            } else {
                from
            }
        } else {
            n
        }
    }
}

/// Where the final component of a path starts and ends, where it has one.
pub open spec fn last_component(p: Seq<char>) -> Option<(int, int)> {
    let from = body_start(p);
    let n = trimmed_len(p, from, p.len() as int);
    if n <= from {
        None
    } else {
        Some((component_start(p, from, n), n))
    }
}

/// The final component of a path, unless the path ends in the root, a leading
/// dot or `..`.
pub open spec fn file_name(p: Seq<char>) -> Option<Seq<char>> {
    match last_component(p) {
        Some((s, e)) => if p.subrange(s, e) == ".."@ {
            None
        } else {
            Some(p.subrange(s, e))
        },
        None => None,
    }
}

/// The path with its final component replaced by `name`; a path without a final
/// component gets `name` added to it.
pub open spec fn with_name(p: Seq<char>, name: Seq<char>) -> Seq<char> {
    match (file_name(p), last_component(p)) {
        (Some(_), Some((s, _))) => {
            let from = body_start(p);
            let end = if s > from {
                s - 1
            } else {
                s
            };
            joined(p.take(trimmed_len(p, from, end)), name)
        },
        _ => joined(p, name),
    }
}

/// Where the root or a leading dot ends.
fn find_body_start(v: &Vec<char>) -> (r: usize)
    ensures
        r == body_start(v@),
        r <= v@.len(),
{
    if v.len() > 0 && v[0] == '/' {
        1
    } else if v.len() > 0 && v[0] == '.' && (v.len() == 1 || v[1] == '/') {
        1
    } else {
        0
    }
}

/// Where the last component of the first `n` characters starts.
fn find_component_start(v: &Vec<char>, from: usize, n: usize) -> (r: usize)
    requires
        from <= n <= v@.len(),
    ensures
        r == component_start(v@, from as int, n as int),
        from <= r <= n,
{
    let mut k: usize = n;
    while from < k && v[k - 1] != '/'
        invariant
            from <= k <= n <= v@.len(),
            component_start(v@, from as int, n as int) == component_start(
                v@,
                from as int,
                k as int,
            ),
        decreases k,
    {
        k -= 1;
    }
    k
}

/// How many characters are left once trailing separators and dots are dropped.
fn find_trimmed_len(v: &Vec<char>, from: usize, n: usize) -> (r: usize)
    requires
        from <= n <= v@.len(),
    ensures
        r == trimmed_len(v@, from as int, n as int),
        from <= r <= n,
    decreases n,
{
    if n <= from {
        return n;
    }
    let start = find_component_start(v, from, n);
    if start == n {
        find_trimmed_len(v, from, n - 1)
    } else if n - start == 1 && v[start] == '.' {
        if start > from {
            find_trimmed_len(v, from, start - 1)
        } else {
            from
        }
    } else {
        n
    }
}

/// The final component of a path, unless it ends in the root, a leading dot or `..`.
pub fn path_file_name(p: &str) -> (r: Option<String>)
    ensures
        match r {
            Some(name) => file_name(p@) == Some(name@),
            None => file_name(p@) is None,
        },
{
    let v = chars_of(p);
    let from = find_body_start(&v);
    let n = find_trimmed_len(&v, from, v.len());
    if n <= from {
        return None;
    }
    let start = find_component_start(&v, from, n);
    let name = substring(&v, start, n);
    if str_eq(&name, "..") {
        None
    } else {
        Some(name)
    }
}

/// The path with its final component replaced by `name`.
pub fn path_with_name(p: &str, name: &str) -> (r: String)
    ensures
        r@ == with_name(p@, name@),
{
    if path_file_name(p).is_none() {
        return join_path(p, name);
    }
    let v = chars_of(p);
    let from = find_body_start(&v);
    let n = find_trimmed_len(&v, from, v.len());
    let start = find_component_start(&v, from, n);
    let end: usize = if start > from {
        start - 1
    } else {
        start
    };
    let keep = find_trimmed_len(&v, from, end);
    assert(v@.subrange(0, keep as int) =~= p@.take(keep as int));
    join_path(&substring(&v, 0, keep), name)
}

/// The position of the last dot among the first `n` characters, or -1.
pub open spec fn last_dot(name: Seq<char>, n: int) -> int
    decreases n,
{
    if n <= 0 {
        -1
    } else if name[n - 1] == '.' {
        n - 1
    } else {
        last_dot(name, n - 1)
    }
}

/// The extension of the file that a path names: what follows its last dot, unless
/// that is its first character.
pub open spec fn extension(p: Seq<char>) -> Option<Seq<char>> {
    match file_name(p) {
        Some(name) => {
            let at = last_dot(name, name.len() as int);
            if at > 0 {
                Some(name.skip(at + 1))
            } else {
                None
            }
        },
        None => None,
    }
}

/// The extension of the file that a path names.
pub fn path_extension(p: &str) -> (r: Option<String>)
    ensures
        opt_text(r) == extension(p@),
{
    let name = match path_file_name(p) {
        Some(name) => name,
        None => return None,
    };
    let v = chars_of(&name);
    let mut n: usize = v.len();
    while n > 0 && v[n - 1] != '.'
        invariant
            n <= v@.len(),
            last_dot(v@, v@.len() as int) == last_dot(v@, n as int),
        decreases n,
    {
        n -= 1;
    }
    if n > 1 {
        assert(v@.subrange(n as int, v@.len() as int) =~= v@.skip(n as int));
        Some(substring(&v, n, v.len()))
    } else {
        None
    }
}

/// Whether a path names a file with the extension `wav`.
pub open spec fn is_wav(p: Seq<char>) -> bool {
    match file_name(p) {
        Some(name) => name.len() > 4 && ends_with(name, ".wav"@),
        None => false,
    }
}

/// Whether a path names a file with the extension `wav`.
pub fn path_is_wav(p: &str) -> (r: bool)
    ensures
        r == is_wav(p@),
{
    proof {
        reveal_strlit(".wav");
    }
    match path_file_name(p) {
        Some(name) => match str_strip_suffix(&name, ".wav") {
            Some(stem) => !stem.as_str().is_empty(),
            None => false,
        },
        None => false,
    }
}

/// The rank and the name of one piece of a path: a leading root, a leading dot,
/// a step up, then names.
pub open spec fn piece_key(piece: Seq<char>, first: bool) -> Option<Seq<char>> {
    if piece.len() == 0 {
        if first {
            Some("0"@)
        } else {
            None
        }
    } else if piece == "."@ {
        if first {
            Some("1"@)
        } else {
            None
        }
    } else if piece == ".."@ {
        Some("2"@)
    } else {
        Some("3"@ + piece)
    }
}

/// The ranked components of the first `n` pieces.
pub open spec fn piece_keys(pieces: Seq<Seq<char>>, n: int) -> Seq<Seq<char>>
    decreases n,
{
    if n <= 0 {
        Seq::empty()
    } else {
        match piece_key(pieces[n - 1], n == 1) {
            Some(k) => piece_keys(pieces, n - 1).push(k),
            None => piece_keys(pieces, n - 1),
        }
    }
}

/// The ranked components of a path, by which paths are ordered. The empty path
/// has none.
pub open spec fn path_keys(p: Seq<char>) -> Seq<Seq<char>> {
    if p.len() == 0 {
        Seq::empty()
    } else {
        let pieces = split(p, CharClass::Is('/'));
        piece_keys(pieces, pieces.len() as int)
    }
}

/// The order of paths: component by component.
pub open spec fn path_le(a: Seq<char>, b: Seq<char>) -> bool {
    list_le(path_keys(a), path_keys(b))
}

/// The order of paths is total and transitive.
pub proof fn lemma_path_order(a: Seq<char>, b: Seq<char>, c: Seq<char>)
    ensures
        path_le(a, b) || path_le(b, a),
        path_le(a, b) && path_le(b, c) ==> path_le(a, c),
{
    lemma_list_le_total(path_keys(a), path_keys(b));
    if path_le(a, b) && path_le(b, c) {
        lemma_list_le_transitive(path_keys(a), path_keys(b), path_keys(c));
    }
}

/// The ranked components of a path.
fn ranked_components(p: &str) -> (r: Vec<String>)
    ensures
        texts(r@) == path_keys(p@),
{
    let mut r: Vec<String> = Vec::new();
    assert(texts(r@) =~= Seq::<Seq<char>>::empty());
    if p.is_empty() {
        return r;
    }
    let pieces = str_split(p, CharClass::Is('/'));
    let mut i: usize = 0;
    while i < pieces.len()
        invariant
            i <= pieces@.len(),
            texts(r@) == piece_keys(texts(pieces@), i as int),
        decreases pieces@.len() - i,
    {
        broadcast use lemma_texts_push;

        let piece = pieces[i].as_str();
        assert(texts(pieces@)[i as int] == piece@);
        if piece.is_empty() {
            if i == 0 {
                r.push("0".to_owned());
            }
        } else if str_eq(piece, ".") {
            if i == 0 {
                r.push("1".to_owned());
            }
        } else if str_eq(piece, "..") {
            r.push("2".to_owned());
        } else {
            r.push(cat2("3", piece));
        }
        i += 1;
    }
    r
}

/// Whether path `a` stands before path `b` or equals it, component by component.
pub fn path_comes_before(a: &str, b: &str) -> (r: bool)
    ensures
        r == path_le(a@, b@),
{
    strings_le(&ranked_components(a), &ranked_components(b))
}

/// How many components a path has.
pub fn component_count(p: &str) -> (r: usize)
    ensures
        r == path_keys(p@).len(),
{
    let parts = ranked_components(p);
    assert(texts(parts@).len() == parts@.len());
    parts.len()
}

/// Where the last component starts: behind the last separator.
proof fn lemma_component_start(p: Seq<char>, from: int, start: int, n: int)
    requires
        0 <= from <= start <= n <= p.len(),
        start == from || p[start - 1] == '/',
        forall|k: int| start <= k < n ==> #[trigger] p[k] != '/',
    ensures
        component_start(p, from, n) == start,
    decreases n - start,
{
    if start < n {
        assert(p[n - 1] != '/');
        lemma_component_start(p, from, start, n - 1);
    }
}

/// The last dot is the last.
proof fn lemma_last_dot(name: Seq<char>, at: int, n: int)
    requires
        0 <= at < n <= name.len(),
        name[at] == '.',
        forall|k: int| at < k < n ==> #[trigger] name[k] != '.',
    ensures
        last_dot(name, n) == at,
    decreases n,
{
    if at < n - 1 {
        assert(name[n - 1] != '.');
        lemma_last_dot(name, at, n - 1);
    }
}

/// A name in a directory is that name, behind the directory and one separator; it has as
/// its extension what follows its last dot; and it is a WAV file just where that is `wav`.
pub proof fn law_names_in_directories(dir: Seq<char>, stem: Seq<char>, ext: Seq<char>)
    requires
        dir.len() > 0,
        dir.last() != '/',
        stem.len() > 0,
        ext.len() > 0,
        forall|k: int| 0 <= k < stem.len() ==> #[trigger] stem[k] != '/',
        forall|k: int| 0 <= k < ext.len() ==> #[trigger] ext[k] != '/' && ext[k] != '.',
    ensures
        ({
            let name = stem + "."@ + ext;
            let p = joined(dir, name);
            &&& p == dir + "/"@ + name
            &&& file_name(p) == Some(name)
            &&& extension(p) == Some(ext)
            &&& is_wav(p) <==> ext == "wav"@
        }),
{
    reveal_strlit("/");
    reveal_strlit(".");
    reveal_strlit("..");
    reveal_strlit("wav");
    reveal_strlit(".wav");
    let name = stem + "."@ + ext;
    let p = joined(dir, name);
    let start = dir.len() as int + 1;
    let n = p.len() as int;
    assert(name[0] == stem[0]);
    assert(p == dir + "/"@ + name);
    assert(p[start - 1] == '/');
    assert forall|k: int| start <= k < n implies #[trigger] p[k] != '/' by {
        assert(p[k] == name[k - start]);
        if k - start < stem.len() {
            assert(name[k - start] == stem[k - start]);
        } else if k - start > stem.len() {
            assert(name[k - start] == ext[k - start - stem.len() - 1]);
        }
    }
    let from = body_start(p);
    lemma_component_start(p, from, start, n);
    assert(trimmed_len(p, from, n) == n);
    assert(p.subrange(start, n) =~= name);
    assert(name != ".."@) by {
        assert(name[name.len() - 1] == ext[ext.len() - 1]);
    }
    let at = stem.len() as int;
    assert forall|k: int| at < k < name.len() implies #[trigger] name[k] != '.' by {
        assert(name[k] == ext[k - at - 1]);
    }
    lemma_last_dot(name, at, name.len() as int);
    assert(name.skip(at + 1) =~= ext);
    if ext == "wav"@ {
        assert(name.skip(name.len() - 4) =~= ".wav"@);
    }
    if is_wav(p) {
        let tail = name.skip(name.len() - 4);
        assert(tail[0] == '.' && tail[1] == 'w' && tail[2] == 'a' && tail[3] == 'v');
        assert(name[name.len() - 4] == '.');
        assert(at == name.len() - 4) by {
            if at < name.len() - 4 {
                assert(name[name.len() - 4] != '.');
            } else if at > name.len() - 4 {
                assert(name[at] == '.');
                assert(tail[at - (name.len() - 4)] == name[at]);
            }
        }
        assert(ext =~= "wav"@) by {
            assert forall|k: int| 0 <= k < 3 implies ext[k] == "wav"@[k] by {
                assert(ext[k] == name[at + 1 + k]);
                assert(tail[k + 1] == name[at + 1 + k]);
            }
        }
    }
}

/// Names in one directory stand in the order of their texts.
pub proof fn law_siblings_in_order(dir: Seq<char>, x: Seq<char>, y: Seq<char>)
    requires
        dir.len() > 0,
        x.len() > 0 && y.len() > 0,
        x != "."@ && x != ".."@ && y != "."@ && y != ".."@,
        x != y,
        forall|k: int| 0 <= k < x.len() ==> #[trigger] x[k] != '/',
        forall|k: int| 0 <= k < y.len() ==> #[trigger] y[k] != '/',
    ensures
        path_le(dir + "/"@ + x, dir + "/"@ + y) <==> text_le(x, y),
{
    lemma_child_keys(dir, x);
    lemma_child_keys(dir, y);
    let p = path_keys(dir);
    let none = Seq::<Seq<char>>::empty();
    reveal_strlit("3");
    let (a, b) = ("3"@ + x, "3"@ + y);
    assert(a.drop_first() =~= x && b.drop_first() =~= y);
    assert(a != b);
    law_lists_in_order(p, a, b, none, none);
    assert(p + seq![a] + none =~= p.push(a));
    assert(p + seq![b] + none =~= p.push(b));
    assert(text_le(a, b) == text_le(x, y));
}

/// A name in a directory is one component more.
proof fn lemma_child_keys(dir: Seq<char>, x: Seq<char>)
    requires
        dir.len() > 0,
        x.len() > 0,
        x != "."@ && x != ".."@,
        forall|k: int| 0 <= k < x.len() ==> #[trigger] x[k] != '/',
    ensures
        path_keys(dir + "/"@ + x) == path_keys(dir).push("3"@ + x),
{
    reveal_strlit("/");
    let class = CharClass::Is('/');
    law_split_at_separators(dir, '/', x, class);
    law_split_at_separators(x, '/', dir, class);
    assert(split(x, class) =~= seq![x]);
    assert(dir + "/"@ + x =~= dir + seq!['/'] + x);
    let d = split(dir, class);
    let p = split(dir + "/"@ + x, class);
    assert(p =~= d.push(x));
    assert(d.len() > 0);
    lemma_piece_keys(d, x, d.len() as int);
}

/// What follows does not change the components before it.
proof fn lemma_piece_keys(d: Seq<Seq<char>>, x: Seq<char>, n: int)
    requires
        0 <= n <= d.len(),
    ensures
        piece_keys(d.push(x), n) == piece_keys(d, n),
    decreases n,
{
    if n > 0 {
        lemma_piece_keys(d, x, n - 1);
        assert(d.push(x)[n - 1] == d[n - 1]);
    }
}

} // verus!

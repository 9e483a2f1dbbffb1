//! Signs of a hallucinating recogniser: phrases or words that repeat far more
//! often than speech does, and the collapse of such loops.
use vstd::hash_map::StringHashMap;
use vstd::prelude::*;

use crate::strings::{
    all_said, char_is_ascii_alnum, char_is_ascii_white, char_lower, chars_occur_at, chars_of,
    contains, drop_empty, is_ascii_alnum, is_ascii_white, join, lemma_said_add, lemma_said_join,
    lemma_said_trim, lemma_said_white, lemma_texts_push, lower, lower_char, nonempty, occurs_at,
    said, split, str_join, str_split, str_trim, str_words, string_of, texts, to_lower, trim, words,
    CharClass,
};

verus! {

// ---------------------------------------------------------------------------
// Non-speech markers
// ---------------------------------------------------------------------------

/// How often `n` stands in `h` from position `i` on, one after the other.
pub open spec fn occurrences(h: Seq<char>, n: Seq<char>, i: int) -> nat
    decreases h.len() - i,
{
    if i < 0 || n.len() == 0 || i + n.len() > h.len() {
        0
    } else if occurs_at(h, n, i) {
        1 + occurrences(h, n, i + n.len())
    } else {
        occurrences(h, n, i + 1)
    }
}

/// How often `n` stands in `h`, one after the other.
fn count_occurrences(h: &Vec<char>, n: &str) -> (r: usize)
    ensures
        r as nat == occurrences(h@, n@, 0),
        r <= h@.len(),
{
    let needle = chars_of(n);
    if needle.len() == 0 {
        return 0;
    }
    let total: usize = h.len();
    let mut count: usize = 0;
    let mut i: usize = 0;
    while i <= total && needle.len() <= total - i
        invariant
            total == h@.len(),
            needle@ == n@,
            needle@.len() > 0,
            count <= i,
            i <= total,
            occurrences(h@, n@, 0) == count + occurrences(h@, n@, i as int),
        decreases total - i,
    {
        if chars_occur_at(h, &needle, i) {
            count += 1;
            i += needle.len();
        } else {
            i += 1;
        }
    }
    count
}

/// How many markers of something other than speech a text holds.
pub open spec fn markers(text: Seq<char>) -> nat {
    let t = lower(text);
    occurrences(t, "[blank_audio]"@, 0) + occurrences(t, "[music]"@, 0) + occurrences(
        t,
        "[applause]"@,
        0,
    ) + occurrences(t, "[laughter]"@, 0)
}

/// How many markers of something other than speech a text holds.
pub fn non_speech_marker_count(text: &str) -> (r: u128)
    ensures
        r as nat == markers(text@),
{
    let t = chars_of(&to_lower(text));
    count_occurrences(&t, "[blank_audio]") as u128 + count_occurrences(&t, "[music]") as u128
        + count_occurrences(&t, "[applause]") as u128 + count_occurrences(&t, "[laughter]") as u128
}

// ---------------------------------------------------------------------------
// Runs
// ---------------------------------------------------------------------------

/// Whether `n` equal elements stand one after the other from position `i` on.
pub open spec fn run_at(s: Seq<Seq<char>>, i: int, n: int) -> bool {
    0 <= i && i + n <= s.len() && forall|k: int| i <= k < i + n ==> #[trigger] s[k] == s[i]
}

/// Whether `n` equal elements stand one after the other somewhere.
pub open spec fn has_run(s: Seq<Seq<char>>, n: int) -> bool {
    exists|i: int| run_at(s, i, n)
}

/// Whether `n` equal strings stand one after the other.
fn find_run(v: &Vec<String>, n: usize) -> (r: bool)
    requires
        n >= 2,
    ensures
        r == has_run(texts(v@), n as int),
{
    let ghost s = texts(v@);
    let mut run: usize = 0;
    let mut i: usize = 0;
    while i < v.len()
        invariant
            i <= v@.len(),
            s == texts(v@),
            n >= 2,
            run <= i,
            run < n,
            i > 0 ==> run >= 1,
            forall|k: int| i - run <= k < i ==> #[trigger] s[k] == s[i - run],
            0 < run < i ==> s[i - run - 1] != s[i - run],
            forall|j: int| 0 <= j && j + n <= i ==> !#[trigger] run_at(s, j, n as int),
        decreases v@.len() - i,
    {
        assert(s[i as int] == v@[i as int]@);
        if i > 0 {
            assert(s[i - 1] == v@[i - 1]@);
        }
        if i > 0 && v[i] == v[i - 1] {
            assert(s[i - 1] == s[i - run]);
            run += 1;
        } else {
            run = 1;
        }
        i += 1;
        assert forall|k: int| i - run <= k < i implies #[trigger] s[k] == s[i - run] by {}
        if run >= n {
            assert(run_at(s, i - n, n as int));
            return true;
        }
        assert forall|j: int| 0 <= j && j + n <= i implies !#[trigger] run_at(
            s,
            j,
            n as int,
        ) by {
            if j + n == i && run_at(s, j, n as int) {
                assert(s[i - run - 1] == s[j]);
                assert(s[i - run] == s[j]);
            }
        }
    }
    assert forall|j: int| !run_at(s, j, n as int) by {
        if 0 <= j && j + n <= s.len() {
            assert(!run_at(s, j, n as int));
        }
    }
    false
}

// ---------------------------------------------------------------------------
// Loops
// ---------------------------------------------------------------------------

/// A character as it counts for repetition: letters and digits in lower case and
/// white space stay, anything else is a space.
pub open spec fn plain_char(c: char) -> char {
    if is_ascii_alnum(c) || is_ascii_white(c) {
        lower_char(c)
    } else {
        ' '
    }
}

/// A text as it counts for repetition: its plain words, one space between them.
pub open spec fn normalized(s: Seq<char>) -> Seq<char> {
    join(words(Seq::new(s.len(), |i: int| plain_char(s[i]))), " "@)
}

/// A text as it counts for repetition.
pub fn normalize_repetition_unit(text: &str) -> (r: String)
    ensures
        r@ == normalized(text@),
{
    let v = chars_of(text);
    let ghost plain = Seq::new(v@.len(), |i: int| plain_char(v@[i]));
    let mut w: Vec<char> = Vec::new();
    let mut i: usize = 0;
    while i < v.len()
        invariant
            i <= v@.len(),
            plain == Seq::new(v@.len(), |i: int| plain_char(v@[i])),
            w@ == plain.take(i as int),
        decreases v@.len() - i,
    {
        let c = v[i];
        if char_is_ascii_alnum(c) || char_is_ascii_white(c) {
            w.push(char_lower(c));
        } else {
            w.push(' ');
        }
        i += 1;
        assert(w@ =~= plain.take(i as int));
    }
    assert(plain.take(v@.len() as int) =~= plain);
    str_join(&str_words(&string_of(&w)), " ")
}

/// Each text as it counts for repetition.
pub open spec fn all_normalized(p: Seq<Seq<char>>) -> Seq<Seq<char>> {
    Seq::new(p.len(), |i: int| normalized(p[i]))
}

/// Each string as it counts for repetition.
fn normalize_all(v: &Vec<String>) -> (r: Vec<String>)
    ensures
        texts(r@) == all_normalized(texts(v@)),
{
    let mut r: Vec<String> = Vec::new();
    let mut i: usize = 0;
    while i < v.len()
        invariant
            i <= v@.len(),
            texts(r@) =~= all_normalized(texts(v@)).take(i as int),
        decreases v@.len() - i,
    {
        broadcast use lemma_texts_push;

        r.push(normalize_repetition_unit(&v[i]));
        assert(texts(r@) =~= all_normalized(texts(v@)).take(i + 1));
        i += 1;
    }
    assert(texts(r@) =~= all_normalized(texts(v@)));
    r
}

/// The texts with at least two words.
pub open spec fn phrases(p: Seq<Seq<char>>) -> Seq<Seq<char>>
    decreases p.len(),
{
    if p.len() == 0 {
        p
    } else if words(p.last()).len() >= 2 {
        phrases(p.drop_last()).push(p.last())
    } else {
        phrases(p.drop_last())
    }
}

/// The strings with at least two words.
fn keep_phrases(v: &Vec<String>) -> (r: Vec<String>)
    ensures
        texts(r@) == phrases(texts(v@)),
{
    let ghost all = texts(v@);
    let mut r: Vec<String> = Vec::new();
    let mut i: usize = 0;
    assert(texts(r@) =~= Seq::<Seq<char>>::empty());
    while i < v.len()
        invariant
            i <= v@.len(),
            all == texts(v@),
            texts(r@) == phrases(all.take(i as int)),
        decreases v@.len() - i,
    {
        broadcast use lemma_texts_push;

        assert(all.take(i + 1).drop_last() =~= all.take(i as int));
        assert(all.take(i + 1).last() == v@[i as int]@);
        let w = str_words(&v[i]);
        assert(texts(w@).len() == w@.len());
        if w.len() >= 2 {
            r.push(v[i].clone());
        }
        i += 1;
    }
    assert(all.take(all.len() as int) =~= all);
    r
}

/// Whether a phrase of several words stands five times in a row.
pub open spec fn phrase_loop(text: Seq<char>) -> bool {
    has_run(phrases(all_normalized(split(text, CharClass::Sentence))), 5)
}

/// Whether a phrase of several words stands five times in a row.
pub fn has_phrase_repetition_loop(text: &str) -> (r: bool)
    ensures
        r == phrase_loop(text@),
{
    find_run(&keep_phrases(&normalize_all(&str_split(text, CharClass::Sentence))), 5)
}

/// The words of a text as they count for repetition.
pub open spec fn tokens(text: Seq<char>) -> Seq<Seq<char>> {
    nonempty(all_normalized(words(text)))
}

/// How often an element stands in a list.
pub open spec fn count_of(s: Seq<Seq<char>>, x: Seq<char>) -> nat
    decreases s.len(),
{
    if s.len() == 0 {
        0
    } else if s.last() == x {
        count_of(s.drop_last(), x) + 1
    } else {
        count_of(s.drop_last(), x)
    }
}

/// Whether one word makes up three fifths of a list.
pub open spec fn has_dominant(s: Seq<Seq<char>>) -> bool {
    exists|x: Seq<char>| 5 * #[trigger] count_of(s, x) >= 3 * s.len()
}

/// Whether one word stands ten times in a row, or makes up three fifths of a text
/// of at least twenty words.
pub open spec fn unigram_loop(text: Seq<char>) -> bool {
    let t = tokens(text);
    has_run(t, 10) || (t.len() >= 20 && has_dominant(t))
}

/// Whether one string makes up three fifths of a list.
fn find_dominant(v: &Vec<String>) -> (r: bool)
    requires
        v@.len() > 0,
    ensures
        r == has_dominant(texts(v@)),
{
    let ghost s = texts(v@);
    let total: usize = v.len();
    let mut counts: StringHashMap<usize> = StringHashMap::new();
    let mut best: usize = 0;
    let mut i: usize = 0;
    let ghost mut top: Seq<char> = s[0];
    while i < total
        invariant
            i <= total == v@.len(),
            s == texts(v@),
            forall|x: Seq<char>| #[trigger]
                counts@.contains_key(x) ==> counts@[x] == count_of(s.take(i as int), x),
            forall|x: Seq<char>|
                !counts@.contains_key(x) ==> #[trigger] count_of(s.take(i as int), x) == 0,
            forall|x: Seq<char>| #[trigger] count_of(s.take(i as int), x) <= best,
            best <= i,
            best == count_of(s.take(i as int), top) || best == 0,
        decreases total - i,
    {
        let ghost before = s.take(i as int);
        let ghost after = s.take(i + 1);
        assert(after.drop_last() =~= before);
        assert(after.last() == v@[i as int]@);
        let seen: usize = match counts.get(v[i].as_str()) {
            Some(n) => *n,
            None => 0,
        };
        let ghost x = v@[i as int]@;
        assert(seen == count_of(before, x));
        assert(count_of(before, x) <= best);
        let now: usize = seen + 1;
        counts.insert(v[i].clone(), now);
        if now > best {
            best = now;
            proof {
                top = x;
            }
        }
        assert forall|y: Seq<char>| #[trigger]
            counts@.contains_key(y) implies counts@[y] == count_of(after, y) by {
            if y != x {
                assert(count_of(after, y) == count_of(before, y));
            }
        }
        assert forall|y: Seq<char>| !counts@.contains_key(y) implies #[trigger] count_of(
            after,
            y,
        ) == 0 by {
            assert(count_of(before, y) == 0);
        }
        assert forall|y: Seq<char>| #[trigger] count_of(after, y) <= best by {
            assert(count_of(before, y) <= i);
        }
        i += 1;
    }
    assert(s.take(total as int) =~= s);
    proof {
        if 5 * best >= 3 * total {
            assert(5 * count_of(s, top) >= 3 * s.len());
        }
        if has_dominant(s) {
            let y = choose|y: Seq<char>| 5 * #[trigger] count_of(s, y) >= 3 * s.len();
            assert(count_of(s, y) <= best);
        }
    }
    5 * best as u128 >= 3 * total as u128
}

/// Whether one word stands ten times in a row, or makes up three fifths of a text
/// of at least twenty words.
pub fn has_dominant_unigram_loop(text: &str) -> (r: bool)
    ensures
        r == unigram_loop(text@),
{
    let t = drop_empty(normalize_all(&str_words(text)));
    assert(texts(t@).len() == t@.len());
    if find_run(&t, 10) {
        return true;
    }
    t.len() >= 20 && find_dominant(&t)
}

/// Whether a text repeats itself as speech does not.
pub open spec fn repetition_loop(text: Seq<char>) -> bool {
    phrase_loop(text) || unigram_loop(text)
}

/// Whether a text repeats itself as speech does not.
pub fn has_repetition_loop(text: &str) -> (r: bool)
    ensures
        r == repetition_loop(text@),
{
    has_phrase_repetition_loop(text) || has_dominant_unigram_loop(text)
}

// ---------------------------------------------------------------------------
// Collapsing
// ---------------------------------------------------------------------------

/// A mark that ends a unit.
pub open spec fn ends_unit(c: char) -> bool {
    c == '.' || c == '!' || c == '?' || c == ',' || c == '\n'
}

/// A list with a trimmed piece added, unless it is blank.
pub open spec fn with_unit(done: Seq<Seq<char>>, open: Seq<char>) -> Seq<Seq<char>> {
    if trim(open).len() > 0 {
        done.push(trim(open))
    } else {
        done
    }
}

/// The finished units of a text, and the characters after the last mark.
pub open spec fn unit_state(s: Seq<char>) -> (Seq<Seq<char>>, Seq<char>)
    decreases s.len(),
{
    if s.len() == 0 {
        (Seq::empty(), Seq::empty())
    } else {
        let (done, open) = unit_state(s.drop_last());
        let grown = open.push(s.last());
        if ends_unit(s.last()) {
            (with_unit(done, grown), Seq::empty())
        } else {
            (done, grown)
        }
    }
}

/// The units of a text: its sentences and clauses, each with its mark.
pub open spec fn units(s: Seq<char>) -> Seq<Seq<char>> {
    with_unit(unit_state(s).0, unit_state(s).1)
}

/// Adds a trimmed piece, unless it is blank.
fn push_repeat_unit(units: &mut Vec<String>, current: &str)
    ensures
        texts(final(units)@) == with_unit(texts(old(units)@), current@),
{
    broadcast use lemma_texts_push;

    let t = str_trim(current);
    if !t.as_str().is_empty() {
        units.push(t);
    }
}

/// The units of a text.
fn repeat_units(text: &str) -> (r: Vec<String>)
    ensures
        texts(r@) == units(text@),
{
    let v = chars_of(text);
    let mut done: Vec<String> = Vec::new();
    let mut open = String::new();
    let mut i: usize = 0;
    assert(texts(done@) =~= Seq::<Seq<char>>::empty());
    while i < v.len()
        invariant
            i <= v@.len(),
            (texts(done@), open@) == unit_state(v@.take(i as int)),
        decreases v@.len() - i,
    {
        let c = v[i];
        assert(v@.take(i + 1).drop_last() =~= v@.take(i as int));
        open.push(c);
        if c == '.' || c == '!' || c == '?' || c == ',' || c == '\n' {
            push_repeat_unit(&mut done, &open);
            open = String::new();
        }
        i += 1;
    }
    assert(v@.take(v@.len() as int) =~= v@);
    push_repeat_unit(&mut done, &open);
    done
}

/// Where the run of units that read alike from position `i` on ends, at `j` or
/// later.
pub open spec fn run_end(u: Seq<Seq<char>>, i: int, j: int) -> int
    decreases u.len() - j,
{
    if j < u.len() && normalized(u[j]) == normalized(u[i]) {
        run_end(u, i, j + 1)
    } else {
        j
    }
}

/// A run ends after it starts and within the list.
proof fn lemma_run_end(u: Seq<Seq<char>>, i: int, j: int)
    requires
        0 <= i < j <= u.len(),
    ensures
        j <= run_end(u, i, j) <= u.len(),
    decreases u.len() - j,
{
    if j < u.len() && normalized(u[j]) == normalized(u[i]) {
        lemma_run_end(u, i, j + 1);
    }
}

/// What a collapsed loop is replaced by, after its first two units.
pub open spec fn loop_marker() -> Seq<char> {
    "[repeated phrase loop collapsed]"@
}

/// The units from position `i` on with each loop collapsed, and whether there was
/// one. A unit of fewer than seven plain characters is never part of a loop, and
/// a loop has five units or more.
pub open spec fn collapsed_from(u: Seq<Seq<char>>, i: int) -> (Seq<Seq<char>>, bool)
    decreases u.len() - i,
{
    if i < 0 || i >= u.len() {
        (Seq::empty(), false)
    } else if normalized(u[i]).len() < 7 {
        let rest = collapsed_from(u, i + 1);
        (seq![u[i]] + rest.0, rest.1)
    } else {
        let end = run_end(u, i, i + 1);
        if end <= i || end > u.len() {
            (Seq::empty(), false)
        } else if end - i >= 5 {
            (seq![u[i], u[i + 1], loop_marker()] + collapsed_from(u, end).0, true)
        } else {
            let rest = collapsed_from(u, end);
            (u.subrange(i, end) + rest.0, rest.1)
        }
    }
}

/// A text with its loops collapsed, and whether there was one.
pub open spec fn collapsed(text: Seq<char>) -> (Seq<char>, bool) {
    let u = units(text);
    if u.len() == 0 {
        (trim(text), false)
    } else {
        let c = collapsed_from(u, 0);
        (trim(join(c.0, " "@)), c.1)
    }
}

/// Collapses the loops of a text: of a sentence or clause that stands five times
/// in a row, two are kept and a marker says so.
pub fn collapse_repetition_loops(text: &str) -> (r: (String, bool))
    ensures
        (r.0@, r.1) == collapsed(text@),
{
    let v = repeat_units(text);
    let ghost u = texts(v@);
    if v.len() == 0 {
        return (str_trim(text), false);
    }
    let n = normalize_all(&v);
    let ghost m = texts(n@);
    let total: usize = v.len();
    let mut found = false;
    let mut output: Vec<String> = Vec::new();
    let mut i: usize = 0;
    assert(m.len() == total);
    assert(texts(output@) =~= Seq::<Seq<char>>::empty());
    assert(texts(output@) + collapsed_from(u, 0).0 =~= collapsed_from(u, 0).0);
    while i < total
        invariant
            i <= total == v@.len() == n@.len(),
            u == texts(v@),
            m == texts(n@),
            m == all_normalized(u),
            texts(output@) + collapsed_from(u, i as int).0 == collapsed_from(u, 0).0,
            (found || collapsed_from(u, i as int).1) == collapsed_from(u, 0).1,
        decreases total - i,
    {
        broadcast use lemma_texts_push;

        assert(m[i as int] == n@[i as int]@);
        assert(u[i as int] == v@[i as int]@);
        let ghost before = texts(output@);
        if chars_of(&n[i]).len() < 7 {
            output.push(v[i].clone());
            let ghost rest = collapsed_from(u, i + 1).0;
            assert(before + (seq![u[i as int]] + rest) =~= before.push(u[i as int]) + rest);
            i += 1;
            continue;
        }
        let mut end: usize = i + 1;
        while end < total && n[end] == n[i]
            invariant
                i < end <= total == v@.len() == n@.len(),
                u == texts(v@),
                m == texts(n@),
                m == all_normalized(u),
                run_end(u, i as int, i + 1) == run_end(u, i as int, end as int),
            decreases total - end,
        {
            assert(m[end as int] == n@[end as int]@);
            assert(m[i as int] == n@[i as int]@);
            end += 1;
        }
        proof {
            if end < total {
                assert(m[end as int] == n@[end as int]@);
            }
            lemma_run_end(u, i as int, i + 1);
        }
        let ghost rest = collapsed_from(u, end as int).0;
        if end - i >= 5 {
            found = true;
            assert(u[i + 1] == v@[i + 1]@);
            output.push(v[i].clone());
            output.push(v[i + 1].clone());
            output.push("[repeated phrase loop collapsed]".to_owned());
            assert(before + (seq![u[i as int], u[i + 1], loop_marker()] + rest) =~= texts(output@)
                + rest);
        } else {
            let mut k: usize = i;
            while k < end
                invariant
                    i <= k <= end <= total == v@.len(),
                    u == texts(v@),
                    texts(output@) == before + u.subrange(i as int, k as int),
                decreases end - k,
            {
                broadcast use lemma_texts_push;

                assert(u[k as int] == v@[k as int]@);
                output.push(v[k].clone());
                k += 1;
                assert(texts(output@) =~= before + u.subrange(i as int, k as int));
            }
            assert(before + (u.subrange(i as int, end as int) + rest) =~= texts(output@) + rest);
        }
        i = end;
    }
    assert(texts(output@) + collapsed_from(u, i as int).0 =~= texts(output@));
    (str_trim(&str_join(&output, " ")), found)
}

/// Where no five units in a row read alike nothing is collapsed: every unit is
/// kept, in its place.
pub proof fn law_no_loop_nothing_collapsed(u: Seq<Seq<char>>, i: int)
    requires
        0 <= i <= u.len(),
        !has_run(all_normalized(u), 5),
    ensures
        collapsed_from(u, i) == (u.skip(i), false),
    decreases u.len() - i,
{
    if i < u.len() {
        if normalized(u[i]).len() < 7 {
            law_no_loop_nothing_collapsed(u, i + 1);
            assert(seq![u[i]] + u.skip(i + 1) =~= u.skip(i));
        } else {
            let end = run_end(u, i, i + 1);
            lemma_run_end(u, i, i + 1);
            if end - i >= 5 {
                lemma_run_end_alike(u, i, i + 1);
                let m = all_normalized(u);
                assert forall|k: int| i <= k < i + 5 implies #[trigger] m[k] == m[i] by {}
                assert(run_at(m, i, 5));
            }
            law_no_loop_nothing_collapsed(u, end);
            assert(u.subrange(i, end) + u.skip(end) =~= u.skip(i));
        }
    } else {
        assert(u.skip(i) =~= Seq::<Seq<char>>::empty());
    }
}

/// The units of a run read alike.
proof fn lemma_run_end_alike(u: Seq<Seq<char>>, i: int, j: int)
    requires
        0 <= i < j <= u.len(),
    ensures
        forall|k: int| j <= k < run_end(u, i, j) ==> normalized(#[trigger] u[k]) == normalized(u[i]),
    decreases u.len() - j,
{
    if j < u.len() && normalized(u[j]) == normalized(u[i]) {
        lemma_run_end_alike(u, i, j + 1);
    }
}

/// Whether five units that read alike, each of seven plain characters at least, stand in a
/// row from position `i` on.
spec fn loops_at(u: Seq<Seq<char>>, i: int) -> bool {
    &&& 0 <= i
    &&& i + 5 <= u.len()
    &&& normalized(u[i]).len() >= 7
    &&& forall|k: int| i <= k < i + 5 ==> normalized(#[trigger] u[k]) == normalized(u[i])
}

/// A run ends where the next unit reads otherwise.
proof fn lemma_run_end_stops(u: Seq<Seq<char>>, i: int, j: int)
    requires
        0 <= i < j <= u.len(),
    ensures
        j <= run_end(u, i, j) <= u.len(),
        run_end(u, i, j) < u.len() ==> normalized(u[run_end(u, i, j)]) != normalized(u[i]),
    decreases u.len() - j,
{
    if j < u.len() && normalized(u[j]) == normalized(u[i]) {
        lemma_run_end_stops(u, i, j + 1);
    }
}

/// Loops are told of from a position on just where one stands there or later.
proof fn lemma_loops_are_told(u: Seq<Seq<char>>, i: int)
    requires
        0 <= i <= u.len(),
    ensures
        collapsed_from(u, i).1 <==> exists|j: int| i <= j && #[trigger] loops_at(u, j),
    decreases u.len() - i,
{
    if i < u.len() {
        if normalized(u[i]).len() < 7 {
            lemma_loops_are_told(u, i + 1);
            assert(!loops_at(u, i));
        } else {
            let end = run_end(u, i, i + 1);
            lemma_run_end_stops(u, i, i + 1);
            lemma_run_end_alike(u, i, i + 1);
            lemma_loops_are_told(u, end);
            if end - i >= 5 {
                assert(loops_at(u, i));
            } else {
                assert forall|j: int| i <= j < end implies !#[trigger] loops_at(u, j) by {
                    if loops_at(u, j) {
                        assert(normalized(u[j]) == normalized(u[i]));
                        assert(normalized(u[end]) == normalized(u[j]));
                    }
                }
            }
        }
    }
}

/// A text is said to have had loops just where five of its units in a row read alike, each
/// of seven plain characters at least.
pub proof fn law_loops_are_told(text: Seq<char>)
    ensures
        collapsed(text).1 <==> exists|i: int|
            0 <= i && i + 5 <= units(text).len() && normalized(#[trigger] units(text)[i]).len() >= 7
                && forall|k: int|
                i <= k < i + 5 ==> normalized(#[trigger] units(text)[k]) == normalized(
                    units(text)[i],
                ),
{
    let u = units(text);
    lemma_loops_are_told(u, 0);
    if exists|j: int| 0 <= j && #[trigger] loops_at(u, j) {
        let j = choose|j: int| 0 <= j && #[trigger] loops_at(u, j);
        assert(normalized(u[j]).len() >= 7);
    }
    if exists|i: int|
        0 <= i && i + 5 <= u.len() && normalized(#[trigger] u[i]).len() >= 7 && forall|k: int|
            i <= k < i + 5 ==> normalized(#[trigger] u[k]) == normalized(u[i]) {
        let i = choose|i: int|
            0 <= i && i + 5 <= u.len() && normalized(#[trigger] u[i]).len() >= 7 && forall|k: int|
                i <= k < i + 5 ==> normalized(#[trigger] u[k]) == normalized(u[i]);
        assert(loops_at(u, i));
    }
}

/// Of a loop the first two units stay, a marker follows, and what comes after the loop is
/// treated in the same way.
pub proof fn law_loops_keep_two_units(u: Seq<Seq<char>>, i: int, end: int)
    requires
        0 <= i,
        i + 5 <= end <= u.len(),
        normalized(u[i]).len() >= 7,
        forall|k: int| i <= k < end ==> normalized(#[trigger] u[k]) == normalized(u[i]),
        end < u.len() ==> normalized(u[end]) != normalized(u[i]),
    ensures
        collapsed_from(u, i) == (
            seq![u[i], u[i + 1], "[repeated phrase loop collapsed]"@] + collapsed_from(u, end).0,
            true,
        ),
{
    lemma_run_end_stops(u, i, i + 1);
    lemma_run_end_alike(u, i, i + 1);
    let e = run_end(u, i, i + 1);
    assert(e == end) by {
        if e < end {
            assert(normalized(u[e]) == normalized(u[i]));
        } else if end < e {
            assert(normalized(u[end]) == normalized(u[i]));
        }
    }
}

/// The units of a text say, one after the other, what the text says.
pub proof fn law_units_keep_the_text(text: Seq<char>)
    ensures
        all_said(units(text)) == said(text),
{
    lemma_unit_state(text);
    lemma_with_unit(unit_state(text).0, unit_state(text).1);
}

/// A piece that is added says what it says.
proof fn lemma_with_unit(done: Seq<Seq<char>>, open: Seq<char>)
    ensures
        all_said(with_unit(done, open)) == all_said(done) + said(open),
{
    lemma_said_trim(open);
    if trim(open).len() > 0 {
        assert(done.push(trim(open)).drop_last() =~= done);
    } else {
        lemma_said_white(trim(open));
        assert(all_said(done) + said(open) =~= all_said(done));
    }
}

/// The finished units and the open one say what the text says.
proof fn lemma_unit_state(s: Seq<char>)
    ensures
        all_said(unit_state(s).0) + said(unit_state(s).1) == said(s),
    decreases s.len(),
{
    if s.len() == 0 {
        lemma_said_white(s);
        lemma_said_white(Seq::empty());
        assert(all_said(unit_state(s).0) + said(unit_state(s).1) =~= said(s));
    } else {
        let t = s.drop_last();
        let (done, open) = unit_state(t);
        let c = s.last();
        lemma_unit_state(t);
        lemma_said_add(t, seq![c]);
        lemma_said_add(open, seq![c]);
        assert(s =~= t + seq![c]);
        assert(open.push(c) =~= open + seq![c]);
        assert(all_said(done) + said(open.push(c)) =~= said(s));
        if ends_unit(c) {
            lemma_with_unit(done, open.push(c));
            lemma_said_white(Seq::empty());
            assert(all_said(unit_state(s).0) + said(unit_state(s).1) =~= said(s));
        }
    }
}

/// A text reads alike in any case of its letters, and whatever marks stand in it.
pub proof fn law_marks_and_case_do_not_count(a: Seq<char>, b: Seq<char>)
    requires
        a.len() == b.len(),
        forall|i: int|
            0 <= i < a.len() ==> (#[trigger] a[i] == b[i] || (65 <= a[i] as u32 <= 90 && b[i] as u32
                == a[i] as u32 + 32) || ((a[i] == ' ' || a[i] == '.' || a[i] == ',' || a[i] == '!'
                || a[i] == '?') && (b[i] == ' ' || b[i] == '.' || b[i] == ',' || b[i] == '!' || b[i]
                == '?'))),
    ensures
        normalized(a) == normalized(b),
{
    let x = Seq::new(a.len(), |i: int| plain_char(a[i]));
    let y = Seq::new(b.len(), |i: int| plain_char(b[i]));
    assert forall|i: int| 0 <= i < a.len() implies x[i] == y[i] by {
        lemma_plain_char(a[i], b[i]);
    }
    assert(x =~= y);
}

/// A character counts alike in either case, and marks count as blanks.
proof fn lemma_plain_char(a: char, b: char)
    requires
        a == b || (65 <= a as u32 <= 90 && b as u32 == a as u32 + 32) || ((a == ' ' || a == '.' || a
            == ',' || a == '!' || a == '?') && (b == ' ' || b == '.' || b == ',' || b == '!' || b
            == '?')),
    ensures
        plain_char(a) == plain_char(b),
{
}

/// A phrase counts where it has two words or more, in the sequence it stands in; how often
/// a word stands in a text is how many of its words are that word; and a loop of words is
/// ten in a row, or three fifths of twenty words or more.
pub proof fn law_what_counts_as_a_loop(text: Seq<char>, x: Seq<char>)
    ensures
        ({
            let p = all_normalized(split(text, CharClass::Sentence)).filter(
                |t: Seq<char>| words(t).len() >= 2,
            );
            phrase_loop(text) <==> exists|i: int|
                #![trigger p[i]]
                0 <= i && i + 5 <= p.len() && p[i] == p[i + 1] && p[i] == p[i + 2] && p[i] == p[i
                    + 3] && p[i] == p[i + 4]
        }),
        count_of(tokens(text), x) == tokens(text).to_multiset().count(x),
        tokens(text).len() >= 20 && 5 * tokens(text).to_multiset().count(x) >= 3 * tokens(text).len()
            ==> unigram_loop(text),
        tokens(text).len() < 20 && unigram_loop(text) ==> has_run(tokens(text), 10),
        has_run(tokens(text), 10) ==> unigram_loop(text),
        tokens(text).len() < 10 ==> !unigram_loop(text),
{
    let q = all_normalized(split(text, CharClass::Sentence));
    lemma_phrases_filter(q);
    lemma_count_of_multiset(tokens(text), x);
    let p = phrases(q);
    if phrase_loop(text) {
        let i = choose|i: int| run_at(p, i, 5);
        assert(run_at(p, i, 5));
        assert(p[i] == p[i + 1] && p[i] == p[i + 2] && p[i] == p[i + 3] && p[i] == p[i + 4]);
    }
    if exists|i: int|
        #![trigger p[i]]
        0 <= i && i + 5 <= p.len() && p[i] == p[i + 1] && p[i] == p[i + 2] && p[i] == p[i + 3]
            && p[i] == p[i + 4] {
        let i = choose|i: int|
            #![trigger p[i]]
            0 <= i && i + 5 <= p.len() && p[i] == p[i + 1] && p[i] == p[i + 2] && p[i] == p[i + 3]
                && p[i] == p[i + 4];
        assert forall|k: int| i <= k < i + 5 implies #[trigger] p[k] == p[i] by {
            assert(k == i || k == i + 1 || k == i + 2 || k == i + 3 || k == i + 4);
        }
        assert(run_at(p, i, 5));
    }
    if tokens(text).len() >= 20 && 5 * tokens(text).to_multiset().count(x) >= 3 * tokens(
        text,
    ).len() {
        assert(5 * count_of(tokens(text), x) >= 3 * tokens(text).len());
    }
}

/// Phrases are the texts with two words or more.
proof fn lemma_phrases_filter(p: Seq<Seq<char>>)
    ensures
        phrases(p) == p.filter(|t: Seq<char>| words(t).len() >= 2),
    decreases p.len(),
{
    reveal(Seq::filter);
    if p.len() > 0 {
        lemma_phrases_filter(p.drop_last());
    }
}

/// How often an element stands in a list is how many of the list are that element.
proof fn lemma_count_of_multiset(s: Seq<Seq<char>>, x: Seq<char>)
    ensures
        count_of(s, x) == s.to_multiset().count(x),
    decreases s.len(),
{
    broadcast use vstd::seq_lib::group_to_multiset_ensures;

    if s.len() > 0 {
        lemma_count_of_multiset(s.drop_last(), x);
        assert(s =~= s.drop_last().push(s.last()));
    }
}

/// A word is counted just where it stands.
proof fn lemma_occurrences(h: Seq<char>, n: Seq<char>, i: int)
    requires
        0 <= i,
        n.len() > 0,
    ensures
        occurrences(h, n, i) > 0 <==> exists|j: int| i <= j && #[trigger] occurs_at(h, n, j),
    decreases h.len() - i,
{
    if i + n.len() <= h.len() {
        if occurs_at(h, n, i) {
            assert(occurrences(h, n, i) > 0);
        } else {
            lemma_occurrences(h, n, i + 1);
        }
    }
}

/// Counting from a position on is counting in what stands from there on.
proof fn lemma_occurrences_shift(a: Seq<char>, h: Seq<char>, n: Seq<char>, i: int)
    requires
        0 <= i,
        n.len() > 0,
    ensures
        occurrences(a + h, n, a.len() + i) == occurrences(h, n, i),
    decreases h.len() - i,
{
    let s = a + h;
    if i + n.len() <= h.len() {
        let k = a.len() + i;
        assert(s.subrange(k, k + n.len()) =~= h.subrange(i, i + n.len()));
        if occurs_at(h, n, i) {
            lemma_occurrences_shift(a, h, n, i + n.len());
            assert(a.len() + (i + n.len()) == k + n.len());
        } else {
            lemma_occurrences_shift(a, h, n, i + 1);
            assert(a.len() + (i + 1) == k + 1);
        }
    }
}

/// A text has markers of something other than speech just where one of them stands in it,
/// in any case of its letters, and one more marker before it is one more.
pub proof fn law_markers_are_counted(text: Seq<char>)
    ensures
        markers(text) > 0 <==> contains(lower(text), "[blank_audio]"@) || contains(
            lower(text),
            "[music]"@,
        ) || contains(lower(text), "[applause]"@) || contains(lower(text), "[laughter]"@),
        occurrences("[music]"@ + text, "[music]"@, 0) == 1 + occurrences(text, "[music]"@, 0),
{
    reveal_strlit("[blank_audio]");
    reveal_strlit("[music]");
    reveal_strlit("[applause]");
    reveal_strlit("[laughter]");
    let t = lower(text);
    lemma_occurrences(t, "[blank_audio]"@, 0);
    lemma_occurrences(t, "[music]"@, 0);
    lemma_occurrences(t, "[applause]"@, 0);
    lemma_occurrences(t, "[laughter]"@, 0);
    let m = "[music]"@;
    assert((m + text).subrange(0, m.len() as int) =~= m);
    lemma_occurrences_shift(m, text, m, 0);
}

/// Where nothing is collapsed the units stay.
proof fn lemma_nothing_collapsed(u: Seq<Seq<char>>, i: int)
    requires
        0 <= i <= u.len(),
        !collapsed_from(u, i).1,
    ensures
        collapsed_from(u, i).0 == u.skip(i),
    decreases u.len() - i,
{
    if i < u.len() {
        if normalized(u[i]).len() < 7 {
            lemma_nothing_collapsed(u, i + 1);
            assert(seq![u[i]] + u.skip(i + 1) =~= u.skip(i));
        } else {
            let end = run_end(u, i, i + 1);
            lemma_run_end(u, i, i + 1);
            lemma_nothing_collapsed(u, end);
            assert(u.subrange(i, end) + u.skip(end) =~= u.skip(i));
        }
    } else {
        assert(u.skip(i) =~= Seq::<Seq<char>>::empty());
    }
}

/// A text that had no loops says what it said.
pub proof fn law_texts_without_loops_stay(text: Seq<char>)
    requires
        !collapsed(text).1,
    ensures
        said(collapsed(text).0) == said(text),
{
    let u = units(text);
    reveal_strlit(" ");
    lemma_said_white(" "@);
    law_units_keep_the_text(text);
    if u.len() == 0 {
        lemma_said_trim(text);
    } else {
        lemma_nothing_collapsed(u, 0);
        assert(u.skip(0) =~= u);
        lemma_said_join(u, " "@);
        lemma_said_trim(join(u, " "@));
    }
}

/// What stands behind a mark is parted on its own.
proof fn lemma_unit_parts(a: Seq<char>, b: Seq<char>)
    requires
        a.len() > 0,
        ends_unit(a.last()),
    ensures
        unit_state(a + b).0 == unit_state(a).0 + unit_state(b).0,
        unit_state(a + b).1 == unit_state(b).1,
    decreases b.len(),
{
    if b.len() == 0 {
        assert(a + b =~= a);
        assert(unit_state(a).0 + unit_state(b).0 =~= unit_state(a).0);
    } else {
        let t = b.drop_last();
        lemma_unit_parts(a, t);
        assert((a + b).drop_last() =~= a + t);
        assert((a + b).last() == b.last());
        assert(unit_state(a + b).0 =~= unit_state(a).0 + unit_state(b).0);
    }
}

/// Without a mark nothing is finished.
proof fn lemma_open_unit(s: Seq<char>)
    requires
        forall|i: int| 0 <= i < s.len() ==> !ends_unit(#[trigger] s[i]),
    ensures
        unit_state(s) == (Seq::<Seq<char>>::empty(), s),
    decreases s.len(),
{
    if s.len() > 0 {
        let t = s.drop_last();
        assert forall|i: int| 0 <= i < t.len() implies !ends_unit(#[trigger] t[i]) by {
            assert(t[i] == s[i]);
        }
        lemma_open_unit(t);
        assert(!ends_unit(s[s.len() - 1]));
        assert(t.push(s.last()) =~= s);
    } else {
        assert(s =~= Seq::empty());
    }
}

/// A unit ends with a full stop, an exclamation or a question mark, a comma or a line end,
/// and nowhere else: what stands behind such a mark is parted on its own, and a text without
/// one is one unit, or none where it is blank.
pub proof fn law_units_end_at_marks(a: Seq<char>, c: char, b: Seq<char>)
    requires
        c == '.' || c == '!' || c == '?' || c == ',' || c == '\n',
        forall|i: int|
            0 <= i < a.len() ==> #[trigger] a[i] != '.' && a[i] != '!' && a[i] != '?' && a[i] != ','
                && a[i] != '\n',
    ensures
        units(a.push(c) + b) == (if trim(a.push(c)).len() > 0 {
            seq![trim(a.push(c))]
        } else {
            Seq::<Seq<char>>::empty()
        }) + units(b),
        units(a) == if trim(a).len() > 0 {
            seq![trim(a)]
        } else {
            Seq::<Seq<char>>::empty()
        },
{
    let x = a.push(c);
    lemma_open_unit(a);
    lemma_unit_parts(x, b);
    assert(x.drop_last() =~= a);
    assert(unit_state(x) == (with_unit(Seq::empty(), x), Seq::<char>::empty()));
    let first = with_unit(Seq::empty(), x);
    assert(first =~= if trim(x).len() > 0 {
        seq![trim(x)]
    } else {
        Seq::<Seq<char>>::empty()
    });
    assert(units(x + b) =~= first + units(b));
    assert(units(a) =~= if trim(a).len() > 0 {
        seq![trim(a)]
    } else {
        Seq::<Seq<char>>::empty()
    });
}

} // verus!

//! Text as sequences of characters: the string operations that the rest of the
//! crate is stated with, each with an executable counterpart.
use vstd::prelude::*;
use vstd::utf8::{encode_utf8, valid_utf8};

verus! {

/// `String::push` appends one character to the end.
pub assume_specification[ String::push ](s: &mut String, c: char)
    ensures
        final(s)@ == old(s)@.push(c),
;

/// The texts held by a sequence of strings.
pub open spec fn texts(v: Seq<String>) -> Seq<Seq<char>> {
    Seq::new(v.len(), |i: int| v[i]@)
}

/// The text of an optional string.
pub open spec fn opt_text(o: Option<String>) -> Option<Seq<char>> {
    match o {
        Some(s) => Some(s@),
        None => None,
    }
}

/// Pushing a string pushes its text.
pub broadcast proof fn lemma_texts_push(v: Seq<String>, s: String)
    ensures
        #[trigger] texts(v.push(s)) == texts(v).push(s@),
{
    assert(texts(v.push(s)) =~= texts(v).push(s@));
}

/// Concatenating lists concatenates their texts.
pub broadcast proof fn lemma_texts_add(a: Seq<String>, b: Seq<String>)
    ensures
        #[trigger] texts(a + b) == texts(a) + texts(b),
{
    assert(texts(a + b) =~= texts(a) + texts(b));
}

/// The characters of a string, in order.
pub fn chars_of(s: &str) -> (v: Vec<char>)
    ensures
        v@ == s@,
{
    let mut v: Vec<char> = Vec::new();
    for c in it: s.chars()
        invariant
            v@ == it.seq().take(it.index()),
    {
        v.push(c);
    }
    v
}

/// The string that holds the characters from `from` up to `to`.
pub fn substring(v: &Vec<char>, from: usize, to: usize) -> (s: String)
    requires
        from <= to <= v@.len(),
    ensures
        s@ == v@.subrange(from as int, to as int),
{
    let mut s = String::new();
    let mut i = from;
    while i < to
        invariant
            from <= i <= to <= v@.len(),
            s@ == v@.subrange(from as int, i as int),
        decreases to - i,
    {
        s.push(v[i]);
        i += 1;
    }
    s
}

/// The string that holds these characters.
pub fn string_of(v: &Vec<char>) -> (s: String)
    ensures
        s@ == v@,
{
    let s = substring(v, 0, v.len());
    assert(v@.subrange(0, v@.len() as int) =~= v@);
    s
}

/// Whether two strings hold the same characters.
pub fn str_eq(a: &str, b: &str) -> (r: bool)
    ensures
        r == (a@ == b@),
{
    a.to_owned() == b.to_owned()
}

/// The White_Space characters of Unicode.
pub open spec fn is_white(c: char) -> bool {
    let n = c as u32;
    ||| 9 <= n <= 13
    ||| n == 0x20
    ||| n == 0x85
    ||| n == 0xA0
    ||| n == 0x1680
    ||| 0x2000 <= n <= 0x200A
    ||| n == 0x2028
    ||| n == 0x2029
    ||| n == 0x202F
    ||| n == 0x205F
    ||| n == 0x3000
}

/// Whether a character is white space.
pub fn char_is_white(c: char) -> (r: bool)
    ensures
        r == is_white(c),
{
    let n: u32 = c as u32;
    (9 <= n && n <= 13) || n == 0x20 || n == 0x85 || n == 0xA0 || n == 0x1680 || (0x2000 <= n && n
        <= 0x200A) || n == 0x2028 || n == 0x2029 || n == 0x202F || n == 0x205F || n == 0x3000
}

/// An ASCII letter or digit.
pub open spec fn is_ascii_alnum(c: char) -> bool {
    ||| '0' <= c <= '9'
    ||| 'a' <= c <= 'z'
    ||| 'A' <= c <= 'Z'
}

/// Whether a character is an ASCII letter or digit.
pub fn char_is_ascii_alnum(c: char) -> (r: bool)
    ensures
        r == is_ascii_alnum(c),
{
    ('0' <= c && c <= '9') || ('a' <= c && c <= 'z') || ('A' <= c && c <= 'Z')
}

/// ASCII white space: space, tab, line feed, form feed and carriage return.
pub open spec fn is_ascii_white(c: char) -> bool {
    c == ' ' || c == '\t' || c == '\n' || c == '\r' || c as u32 == 12
}

/// Whether a character is ASCII white space.
pub fn char_is_ascii_white(c: char) -> (r: bool)
    ensures
        r == is_ascii_white(c),
{
    c == ' ' || c == '\t' || c == '\n' || c == '\r' || c as u32 == 12
}

/// A character with an ASCII capital replaced by its small letter.
pub open spec fn lower_char(c: char) -> char {
    if 'A' <= c <= 'Z' {
        ((c as u32) + 32) as char
    } else {
        c
    }
}

/// The small ASCII letter for a capital; any other character unchanged.
pub fn char_lower(c: char) -> (r: char)
    ensures
        r == lower_char(c),
{
    if 'A' <= c && c <= 'Z' {
        ((c as u8) + 32) as char
    } else {
        c
    }
}

/// A text with its ASCII capitals replaced by small letters.
pub open spec fn lower(s: Seq<char>) -> Seq<char> {
    Seq::new(s.len(), |i: int| lower_char(s[i]))
}

/// The characters with ASCII capitals replaced by small letters.
pub fn lower_chars(v: &Vec<char>) -> (r: Vec<char>)
    ensures
        r@ == lower(v@),
{
    let mut r: Vec<char> = Vec::new();
    let mut i: usize = 0;
    while i < v.len()
        invariant
            i <= v@.len(),
            r@ == lower(v@.take(i as int)),
        decreases v@.len() - i,
    {
        r.push(char_lower(v[i]));
        i += 1;
        assert(r@ =~= lower(v@.take(i as int)));
    }
    assert(v@.take(v@.len() as int) =~= v@);
    r
}

/// The text with ASCII capitals replaced by small letters.
pub fn to_lower(s: &str) -> (r: String)
    ensures
        r@ == lower(s@),
{
    string_of(&lower_chars(&chars_of(s)))
}

/// Whether two texts are equal up to the case of ASCII letters.
pub open spec fn eq_ignore_case(a: Seq<char>, b: Seq<char>) -> bool {
    lower(a) == lower(b)
}

/// Whether two strings are equal up to the case of ASCII letters.
pub fn str_eq_ignore_case(a: &str, b: &str) -> (r: bool)
    ensures
        r == eq_ignore_case(a@, b@),
{
    str_eq(&to_lower(a), &to_lower(b))
}

/// Kinds of characters at which a text is split, or which are cut from its edges.
#[derive(Clone, Copy)]
pub enum CharClass {
    /// Any white space.
    White,
    /// The end of a sentence or of a line.
    Sentence,
    /// Punctuation that follows a word.
    Marks,
    /// One given character.
    Is(char),
}

impl CharClass {
    /// Whether `c` is of this kind.
    pub open spec fn holds(self, c: char) -> bool {
        match self {
            CharClass::White => is_white(c),
            CharClass::Sentence => c == '.' || c == '!' || c == '?' || c == '\n',
            CharClass::Marks => c == ',' || c == '.' || c == '!' || c == '?' || c == ':' || c
                == ';',
            CharClass::Is(x) => c == x,
        }
    }

    /// Whether `c` is of this kind.
    pub fn test(self, c: char) -> (r: bool)
        ensures
            r == self.holds(c),
    {
        match self {
            CharClass::White => char_is_white(c),
            CharClass::Sentence => c == '.' || c == '!' || c == '?' || c == '\n',
            CharClass::Marks => c == ',' || c == '.' || c == '!' || c == '?' || c == ':' || c
                == ';',
            CharClass::Is(x) => c == x,
        }
    }
}

/// A text without its leading characters of a kind.
pub open spec fn strip_start(s: Seq<char>, class: CharClass) -> Seq<char>
    decreases s.len(),
{
    if s.len() > 0 && class.holds(s[0]) {
        strip_start(s.drop_first(), class)
    } else {
        s
    }
}

/// A text without its trailing characters of a kind.
pub open spec fn strip_end(s: Seq<char>, class: CharClass) -> Seq<char>
    decreases s.len(),
{
    if s.len() > 0 && class.holds(s.last()) {
        strip_end(s.drop_last(), class)
    } else {
        s
    }
}

/// A text without its trailing white space.
pub open spec fn trim_end(s: Seq<char>) -> Seq<char> {
    strip_end(s, CharClass::White)
}

/// A text without white space at either edge.
pub open spec fn trim(s: Seq<char>) -> Seq<char> {
    strip_end(strip_start(s, CharClass::White), CharClass::White)
}

/// Where the text starts once leading characters of a kind are dropped.
fn strip_start_index(v: &Vec<char>, class: CharClass) -> (r: usize)
    ensures
        r <= v@.len(),
        strip_start(v@, class) == v@.skip(r as int),
{
    let mut i: usize = 0;
    assert(v@.skip(0) =~= v@);
    while i < v.len() && class.test(v[i])
        invariant
            i <= v@.len(),
            strip_start(v@, class) == strip_start(v@.skip(i as int), class),
        decreases v@.len() - i,
    {
        assert(v@.skip(i as int).drop_first() =~= v@.skip(i + 1));
        i += 1;
    }
    i
}

/// Where the text from `from` on ends once trailing characters of a kind are
/// dropped.
fn strip_end_index(v: &Vec<char>, from: usize, class: CharClass) -> (r: usize)
    requires
        from <= v@.len(),
    ensures
        from <= r <= v@.len(),
        strip_end(v@.skip(from as int), class) == v@.subrange(from as int, r as int),
{
    let mut j: usize = v.len();
    assert(v@.skip(from as int) =~= v@.subrange(from as int, j as int));
    while from < j && class.test(v[j - 1])
        invariant
            from <= j <= v@.len(),
            strip_end(v@.skip(from as int), class) == strip_end(
                v@.subrange(from as int, j as int),
                class,
            ),
        decreases j,
    {
        assert(v@.subrange(from as int, j as int).drop_last() =~= v@.subrange(
            from as int,
            j - 1,
        ));
        j -= 1;
    }
    j
}

/// The text without characters of a kind at either edge.
pub fn str_strip(s: &str, class: CharClass) -> (r: String)
    ensures
        r@ == strip_end(strip_start(s@, class), class),
{
    let v = chars_of(s);
    let i = strip_start_index(&v, class);
    let j = strip_end_index(&v, i, class);
    substring(&v, i, j)
}

/// The text without leading characters of a kind.
pub fn str_strip_start(s: &str, class: CharClass) -> (r: String)
    ensures
        r@ == strip_start(s@, class),
{
    let v = chars_of(s);
    let i = strip_start_index(&v, class);
    assert(v@.subrange(i as int, v@.len() as int) =~= v@.skip(i as int));
    substring(&v, i, v.len())
}

/// The text without trailing characters of a kind.
pub fn str_strip_end(s: &str, class: CharClass) -> (r: String)
    ensures
        r@ == strip_end(s@, class),
{
    let v = chars_of(s);
    assert(v@.skip(0) =~= v@);
    let j = strip_end_index(&v, 0, class);
    substring(&v, 0, j)
}

/// The text without white space at either edge.
pub fn str_trim(s: &str) -> (r: String)
    ensures
        r@ == trim(s@),
{
    str_strip(s, CharClass::White)
}

/// The text without trailing white space.
pub fn str_trim_end(s: &str) -> (r: String)
    ensures
        r@ == trim_end(s@),
{
    str_strip_end(s, CharClass::White)
}

/// Cutting an edge leaves a text that has nothing more to cut there.
pub proof fn lemma_strip(s: Seq<char>, class: CharClass)
    ensures
        strip_start(s, class).len() <= s.len(),
        strip_start(s, class) == s.skip(s.len() - strip_start(s, class).len()),
        strip_start(s, class).len() > 0 ==> !class.holds(strip_start(s, class)[0]),
        strip_end(s, class).len() <= s.len(),
        strip_end(s, class) == s.take(strip_end(s, class).len() as int),
        strip_end(s, class).len() > 0 ==> !class.holds(strip_end(s, class).last()),
    decreases s.len(),
{
    assert(s.skip(0) =~= s);
    assert(s.take(s.len() as int) =~= s);
    if s.len() > 0 {
        lemma_strip(s.drop_first(), class);
        lemma_strip(s.drop_last(), class);
        let a = strip_start(s.drop_first(), class);
        assert(s.drop_first().skip(s.len() - 1 - a.len()) =~= s.skip(s.len() - a.len()));
        let b = strip_end(s.drop_last(), class);
        assert(s.drop_last().take(b.len() as int) =~= s.take(b.len() as int));
    }
}

/// Trimming a trimmed text changes nothing.
pub proof fn law_trim_idempotent(s: Seq<char>)
    ensures
        trim(trim(s)) == trim(s),
{
    let a = strip_start(s, CharClass::White);
    let b = strip_end(a, CharClass::White);
    lemma_strip(s, CharClass::White);
    lemma_strip(a, CharClass::White);
    if b.len() > 0 {
        assert(b[0] == a[0]);
    }
}

/// Blanks, tabs and line ends are white space; no other ASCII character is, but for the
/// vertical tab and the form feed.
pub proof fn law_white_space(c: char)
    requires
        (c as u32) < 128,
    ensures
        is_white(c) <==> c == ' ' || c == '\t' || c == '\n' || c == '\r' || c == '\u{b}' || c
            == '\u{c}',
{
}

/// Trimming cuts white space from both edges, all of it, and nothing else.
pub proof fn law_trim_cuts_the_edges(s: Seq<char>) -> (cut: (int, int))
    ensures
        0 <= cut.0 <= cut.1 <= s.len(),
        trim(s) == s.subrange(cut.0, cut.1),
        forall|k: int| 0 <= k < cut.0 ==> is_white(#[trigger] s[k]),
        forall|k: int| cut.1 <= k < s.len() ==> is_white(#[trigger] s[k]),
        cut.0 < cut.1 ==> !is_white(s[cut.0]) && !is_white(s[cut.1 - 1]),
{
    let a = strip_start(s, CharClass::White);
    let b = strip_end(a, CharClass::White);
    lemma_strip(s, CharClass::White);
    lemma_strip(a, CharClass::White);
    lemma_stripped(s, CharClass::White);
    lemma_stripped(a, CharClass::White);
    let i = s.len() - a.len();
    assert(b =~= s.subrange(i, i + b.len()));
    assert forall|k: int| i + b.len() <= k < s.len() implies is_white(#[trigger] s[k]) by {
        assert(a[k - i] == s[k]);
    }
    (i, i + b.len())
}

/// What is cut from an edge is of the kind.
pub proof fn lemma_stripped(s: Seq<char>, class: CharClass)
    ensures
        forall|k: int|
            0 <= k < s.len() - strip_start(s, class).len() ==> class.holds(#[trigger] s[k]),
        forall|k: int| strip_end(s, class).len() <= k < s.len() ==> class.holds(#[trigger] s[k]),
    decreases s.len(),
{
    if s.len() > 0 {
        let (f, l) = (s.drop_first(), s.drop_last());
        lemma_stripped(f, class);
        lemma_stripped(l, class);
        assert forall|k: int|
            0 <= k < s.len() - strip_start(s, class).len() implies class.holds(
            #[trigger] s[k],
        ) by {
            if k > 0 {
                assert(f[k - 1] == s[k]);
            }
        }
        assert forall|k: int| strip_end(s, class).len() <= k < s.len() implies class.holds(
            #[trigger] s[k],
        ) by {
            if k < s.len() - 1 {
                assert(l[k] == s[k]);
            }
        }
    }
}

/// Just the ASCII capitals have another small letter, which stands 32 places on.
pub proof fn law_lower_case(s: Seq<char>, i: int)
    requires
        0 <= i < s.len(),
    ensures
        lower(s).len() == s.len(),
        65 <= s[i] as u32 <= 90 ==> lower(s)[i] as u32 == s[i] as u32 + 32,
        !(65 <= s[i] as u32 <= 90) ==> lower(s)[i] == s[i],
{
}

/// Two texts are equal but for case just where they are equally long and their characters
/// are, each the other or its ASCII capital or small letter.
pub proof fn law_equal_but_for_case(a: Seq<char>, b: Seq<char>)
    ensures
        eq_ignore_case(a, b) <==> a.len() == b.len() && forall|i: int|
            0 <= i < a.len() ==> (#[trigger] a[i] == b[i] || (65 <= a[i] as u32 <= 90 && b[i] as u32
                == a[i] as u32 + 32) || (65 <= b[i] as u32 <= 90 && a[i] as u32 == b[i] as u32
                + 32)),
{
    if eq_ignore_case(a, b) {
        assert(lower(a).len() == lower(b).len());
        assert forall|i: int| 0 <= i < a.len() implies (#[trigger] a[i] == b[i] || (65
            <= a[i] as u32 <= 90 && b[i] as u32 == a[i] as u32 + 32) || (65 <= b[i] as u32 <= 90
            && a[i] as u32 == b[i] as u32 + 32)) by {
            assert(lower(a)[i] == lower(b)[i]);
        }
    }
    if a.len() == b.len() && forall|i: int|
        0 <= i < a.len() ==> (#[trigger] a[i] == b[i] || (65 <= a[i] as u32 <= 90 && b[i] as u32
            == a[i] as u32 + 32) || (65 <= b[i] as u32 <= 90 && a[i] as u32 == b[i] as u32 + 32)) {
        assert forall|i: int| 0 <= i < a.len() implies lower(a)[i] == lower(b)[i] by {
            assert(a[i] == a[i]);
        }
        assert(lower(a) =~= lower(b));
    }
}

/// The finished pieces of a text, and the piece that is still open at its end.
pub open spec fn split_state(s: Seq<char>, class: CharClass) -> (Seq<Seq<char>>, Seq<char>)
    decreases s.len(),
{
    if s.len() == 0 {
        (Seq::empty(), Seq::empty())
    } else {
        let (done, open) = split_state(s.drop_last(), class);
        if class.holds(s.last()) {
            (done.push(open), Seq::empty())
        } else {
            (done, open.push(s.last()))
        }
    }
}

/// The pieces of a text between its separators, empty ones included.
pub open spec fn split(s: Seq<char>, class: CharClass) -> Seq<Seq<char>> {
    split_state(s, class).0.push(split_state(s, class).1)
}

/// The pieces of a text between its separators, empty ones included.
pub fn str_split(s: &str, class: CharClass) -> (r: Vec<String>)
    ensures
        texts(r@) == split(s@, class),
        r@.len() > 0,
{
    broadcast use lemma_texts_push;

    let v = chars_of(s);
    let mut done: Vec<String> = Vec::new();
    let mut open = String::new();
    let mut i: usize = 0;
    assert(texts(done@) =~= Seq::<Seq<char>>::empty());
    while i < v.len()
        invariant
            i <= v@.len(),
            (texts(done@), open@) == split_state(v@.take(i as int), class),
        decreases v@.len() - i,
    {
        broadcast use lemma_texts_push;

        let c = v[i];
        assert(v@.take(i + 1).drop_last() =~= v@.take(i as int));
        if class.test(c) {
            done.push(open);
            open = String::new();
        } else {
            open.push(c);
        }
        i += 1;
    }
    assert(v@.take(v@.len() as int) =~= v@);
    done.push(open);
    done
}

/// The pieces that are not empty.
pub open spec fn nonempty(p: Seq<Seq<char>>) -> Seq<Seq<char>>
    decreases p.len(),
{
    if p.len() == 0 {
        p
    } else if p.last().len() > 0 {
        nonempty(p.drop_last()).push(p.last())
    } else {
        nonempty(p.drop_last())
    }
}

/// The words of a text: what stands between white space.
pub open spec fn words(s: Seq<char>) -> Seq<Seq<char>> {
    nonempty(split(s, CharClass::White))
}

/// A separator parts what stands before it from what stands after it.
proof fn lemma_split_parts(a: Seq<char>, c: char, b: Seq<char>, class: CharClass)
    requires
        class.holds(c),
    ensures
        split(a + seq![c] + b, class) == split(a, class) + split(b, class),
    decreases b.len(),
{
    let s = a + seq![c] + b;
    if b.len() == 0 {
        assert(s.drop_last() =~= a);
        assert(s.last() == c);
        assert(split(b, class) =~= seq![Seq::<char>::empty()]);
        assert(split(s, class) =~= split(a, class) + split(b, class));
    } else {
        let t = b.drop_last();
        lemma_split_parts(a, c, t, class);
        assert(s.drop_last() =~= a + seq![c] + t);
        assert(s.last() == b.last());
        let (x, y) = split_state(a + seq![c] + t, class);
        let (u, v) = split_state(t, class);
        assert(split(a + seq![c] + t, class) == x.push(y));
        assert(x.push(y).last() == y);
        assert((split(a, class) + u.push(v)).last() == v);
        assert(x =~= split(a, class) + u) by {
            assert(x.push(y).drop_last() =~= x);
            assert((split(a, class) + u.push(v)).drop_last() =~= split(a, class) + u);
        }
        assert(split(s, class) =~= split(a, class) + split(b, class));
    }
}

/// A text without separators is one piece.
proof fn lemma_split_whole(s: Seq<char>, class: CharClass)
    requires
        forall|i: int| 0 <= i < s.len() ==> !class.holds(#[trigger] s[i]),
    ensures
        split_state(s, class) == (Seq::<Seq<char>>::empty(), s),
        split(s, class) == seq![s],
    decreases s.len(),
{
    if s.len() > 0 {
        let t = s.drop_last();
        assert forall|i: int| 0 <= i < t.len() implies !class.holds(#[trigger] t[i]) by {
            assert(t[i] == s[i]);
        }
        lemma_split_whole(t, class);
        assert(s.last() == s[s.len() - 1]);
        assert(t.push(s.last()) =~= s);
    } else {
        assert(s =~= Seq::empty());
    }
    assert(split(s, class) =~= seq![s]);
}

/// Splitting parts a text at each separator and nowhere else: a text without one is one
/// piece, and a separator parts what stands before it from what stands after it.
pub proof fn law_split_at_separators(a: Seq<char>, c: char, b: Seq<char>, class: CharClass)
    requires
        class.holds(c),
    ensures
        split(a + seq![c] + b, class) == split(a, class) + split(b, class),
        (forall|i: int| 0 <= i < a.len() ==> !class.holds(#[trigger] a[i])) ==> split(a, class)
            == seq![a],
{
    lemma_split_parts(a, c, b, class);
    if forall|i: int| 0 <= i < a.len() ==> !class.holds(#[trigger] a[i]) {
        lemma_split_whole(a, class);
    }
}

/// What is not empty of two lists is what is not empty of each.
proof fn lemma_nonempty_parts(a: Seq<Seq<char>>, b: Seq<Seq<char>>)
    ensures
        nonempty(a + b) == nonempty(a) + nonempty(b),
    decreases b.len(),
{
    if b.len() == 0 {
        assert(a + b =~= a);
        assert(nonempty(a) + nonempty(b) =~= nonempty(a));
    } else {
        assert((a + b).drop_last() =~= a + b.drop_last());
        lemma_nonempty_parts(a, b.drop_last());
        assert(nonempty(a + b) =~= nonempty(a) + nonempty(b));
    }
}

/// Words are parted by white space alone: a text without any is one word, or none where
/// it is empty, and white space parts the words before it from those after it.
pub proof fn law_words_between_white_space(a: Seq<char>, c: char, b: Seq<char>)
    requires
        is_white(c),
    ensures
        words(a + seq![c] + b) == words(a) + words(b),
        (forall|i: int| 0 <= i < a.len() ==> !is_white(#[trigger] a[i])) ==> words(a)
            == if a.len() == 0 {
            Seq::<Seq<char>>::empty()
        } else {
            seq![a]
        },
{
    lemma_split_parts(a, c, b, CharClass::White);
    lemma_nonempty_parts(split(a, CharClass::White), split(b, CharClass::White));
    if forall|i: int| 0 <= i < a.len() ==> !is_white(#[trigger] a[i]) {
        assert forall|i: int| 0 <= i < a.len() implies !CharClass::White.holds(#[trigger] a[i]) by {
            assert(!is_white(a[i]));
        }
        lemma_split_whole(a, CharClass::White);
        reveal_with_fuel(nonempty, 2);
        assert(seq![a].drop_last() =~= Seq::empty());
        assert(words(a) =~= if a.len() == 0 {
            Seq::<Seq<char>>::empty()
        } else {
            seq![a]
        });
    }
}

/// The strings that are not empty.
pub fn drop_empty(pieces: Vec<String>) -> (r: Vec<String>)
    ensures
        texts(r@) == nonempty(texts(pieces@)),
{
    let mut r: Vec<String> = Vec::new();
    let mut i: usize = 0;
    assert(texts(r@) =~= Seq::<Seq<char>>::empty());
    while i < pieces.len()
        invariant
            i <= pieces@.len(),
            texts(r@) == nonempty(texts(pieces@).take(i as int)),
        decreases pieces@.len() - i,
    {
        broadcast use lemma_texts_push;

        assert(texts(pieces@).take(i + 1).drop_last() =~= texts(pieces@).take(i as int));
        assert(texts(pieces@).take(i + 1).last() == pieces@[i as int]@);
        if !pieces[i].as_str().is_empty() {
            r.push(pieces[i].clone());
        }
        i += 1;
    }
    assert(texts(pieces@).take(pieces@.len() as int) =~= texts(pieces@));
    r
}

/// The words of a text: what stands between white space.
pub fn str_words(s: &str) -> (r: Vec<String>)
    ensures
        texts(r@) == words(s@),
{
    drop_empty(str_split(s, CharClass::White))
}

/// The pieces joined with `sep` between each two of them.
pub open spec fn join(p: Seq<Seq<char>>, sep: Seq<char>) -> Seq<char>
    decreases p.len(),
{
    if p.len() == 0 {
        Seq::empty()
    } else if p.len() == 1 {
        p[0]
    } else {
        join(p.drop_last(), sep) + sep + p.last()
    }
}

/// One text joined is that text, and two lists joined are each joined, with the separator
/// between them.
pub proof fn law_join_parts(a: Seq<Seq<char>>, b: Seq<Seq<char>>, sep: Seq<char>, x: Seq<char>)
    requires
        a.len() > 0,
        b.len() > 0,
    ensures
        join(Seq::empty(), sep) == Seq::<char>::empty(),
        join(seq![x], sep) == x,
        join(a + b, sep) == join(a, sep) + sep + join(b, sep),
    decreases b.len(),
{
    assert((a + b).last() == b.last());
    if b.len() == 1 {
        assert((a + b).drop_last() =~= a);
        assert(join(a + b, sep) =~= join(a, sep) + sep + join(b, sep));
    } else {
        assert((a + b).drop_last() =~= a + b.drop_last());
        law_join_parts(a, b.drop_last(), sep, x);
        assert(join(a + b, sep) =~= join(a, sep) + sep + join(b, sep));
    }
}

/// Joined texts hold the characters of the texts and of the separator.
pub proof fn lemma_join_chars(p: Seq<Seq<char>>, sep: Seq<char>, f: spec_fn(char) -> bool)
    requires
        forall|i: int, j: int|
            #![trigger p[i][j]]
            0 <= i < p.len() && 0 <= j < p[i].len() ==> f(p[i][j]),
        forall|j: int| 0 <= j < sep.len() ==> f(#[trigger] sep[j]),
    ensures
        forall|j: int| 0 <= j < join(p, sep).len() ==> f(#[trigger] join(p, sep)[j]),
    decreases p.len(),
{
    if p.len() == 1 {
        assert forall|j: int| 0 <= j < join(p, sep).len() implies f(#[trigger] join(p, sep)[j]) by {
            assert(f(p[0][j]));
        }
    } else if p.len() > 1 {
        let t = p.drop_last();
        let n = p.len() - 1;
        assert forall|i: int, j: int|
            #![trigger t[i][j]]
            0 <= i < t.len() && 0 <= j < t[i].len() implies f(t[i][j]) by {
            assert(f(p[i][j]));
        }
        lemma_join_chars(t, sep, f);
        let a = join(t, sep);
        assert forall|j: int| 0 <= j < join(p, sep).len() implies f(#[trigger] join(p, sep)[j]) by {
            if j < a.len() {
                assert(join(p, sep)[j] == a[j]);
            } else if j < a.len() + sep.len() {
                assert(join(p, sep)[j] == sep[j - a.len()]);
            } else {
                assert(join(p, sep)[j] == p[n][j - a.len() - sep.len()]);
            }
        }
    }
}

/// Several joined texts start with the first of them and the separator.
pub proof fn lemma_join_start(p: Seq<Seq<char>>, sep: Seq<char>)
    requires
        p.len() > 1,
    ensures
        starts_with(join(p, sep), p[0] + sep),
    decreases p.len(),
{
    let t = p.drop_last();
    let x = p[0] + sep;
    if p.len() == 2 {
        assert(join(p, sep).take(x.len() as int) =~= x);
    } else {
        lemma_join_start(t, sep);
        assert(join(p, sep).take(x.len() as int) =~= join(t, sep).take(x.len() as int));
    }
}

/// What a text is split into at a character, joined with that character, is the text.
pub proof fn law_split_and_join(s: Seq<char>, c: char)
    ensures
        join(split(s, CharClass::Is(c)), seq![c]) == s,
        forall|i: int, j: int|
            #![trigger split(s, CharClass::Is(c))[i][j]]
            0 <= i < split(s, CharClass::Is(c)).len() && 0 <= j < split(s, CharClass::Is(c))[i].len()
                ==> split(s, CharClass::Is(c))[i][j] != c,
    decreases s.len(),
{
    let class = CharClass::Is(c);
    let p = split(s, class);
    if s.len() == 0 {
        assert(p =~= seq![Seq::<char>::empty()]);
        assert(s =~= Seq::empty());
    } else {
        let t = s.drop_last();
        law_split_and_join(t, c);
        let (done, open) = split_state(t, class);
        let q = split(t, class);
        assert(q == done.push(open));
        if s.last() == c {
            assert(p == q.push(Seq::empty()));
            assert(p.drop_last() =~= q);
            assert(join(p, seq![c]) =~= t.push(c));
            assert(t.push(c) =~= s);
        } else {
            assert(p == done.push(open.push(s.last())));
            assert(p.drop_last() =~= done && q.drop_last() =~= done);
            assert(join(p, seq![c]) =~= t.push(s.last()));
            assert(t.push(s.last()) =~= s);
            assert forall|i: int, j: int|
                #![trigger p[i][j]]
                0 <= i < p.len() && 0 <= j < p[i].len() implies p[i][j] != c by {
                if i < done.len() {
                    assert(p[i] == q[i]);
                    assert(q[i][j] != c);
                } else if j < open.len() {
                    assert(q[done.len() as int] == open);
                    assert(q[done.len() as int][j] != c);
                }
            }
        }
        if s.last() == c {
            assert forall|i: int, j: int|
                #![trigger p[i][j]]
                0 <= i < p.len() && 0 <= j < p[i].len() implies p[i][j] != c by {
                assert(p[i] == q[i]);
                assert(q[i][j] != c);
            }
        }
    }
}

/// A text that is made of characters that are no white space.
pub open spec fn is_solid(s: Seq<char>) -> bool {
    forall|i: int| 0 <= i < s.len() ==> !is_white(#[trigger] s[i])
}

/// No piece holds a separator.
proof fn lemma_split_pieces(s: Seq<char>, class: CharClass)
    ensures
        forall|i: int, j: int|
            #![trigger split(s, class)[i][j]]
            0 <= i < split(s, class).len() && 0 <= j < split(s, class)[i].len() ==> !class.holds(
                split(s, class)[i][j],
            ),
    decreases s.len(),
{
    if s.len() > 0 {
        let t = s.drop_last();
        lemma_split_pieces(t, class);
        let (done, open) = split_state(t, class);
        let q = split(t, class);
        let p = split(s, class);
        assert(q == done.push(open));
        assert forall|i: int, j: int|
            #![trigger p[i][j]]
            0 <= i < p.len() && 0 <= j < p[i].len() implies !class.holds(p[i][j]) by {
            if i < done.len() {
                assert(p[i] == q[i]);
                assert(!class.holds(q[i][j]));
            } else if i == done.len() && j < open.len() {
                assert(q[done.len() as int] == open);
                assert(!class.holds(q[done.len() as int][j]));
            }
        }
    }
}

/// What is not empty is kept, in the sequence it had.
proof fn lemma_nonempty(p: Seq<Seq<char>>)
    ensures
        forall|i: int|
            0 <= i < nonempty(p).len() ==> (#[trigger] nonempty(p)[i]).len() > 0 && p.contains(
                nonempty(p)[i],
            ),
    decreases p.len(),
{
    if p.len() > 0 {
        let t = p.drop_last();
        lemma_nonempty(t);
        assert forall|i: int| 0 <= i < nonempty(p).len() implies (#[trigger] nonempty(p)[i]).len()
            > 0 && p.contains(nonempty(p)[i]) by {
            if i < nonempty(t).len() {
                assert(nonempty(p)[i] == nonempty(t)[i]);
                let k = choose|k: int| 0 <= k < t.len() && t[k] == nonempty(t)[i];
                assert(p[k] == nonempty(p)[i]);
            } else {
                assert(p[p.len() - 1] == nonempty(p)[i]);
            }
        }
    }
}

/// A word is not empty and holds no white space.
pub proof fn law_words_are_solid(s: Seq<char>)
    ensures
        forall|i: int|
            0 <= i < words(s).len() ==> (#[trigger] words(s)[i]).len() > 0 && is_solid(words(s)[i]),
{
    let p = split(s, CharClass::White);
    lemma_split_pieces(s, CharClass::White);
    lemma_nonempty(p);
    assert forall|i: int| 0 <= i < words(s).len() implies (#[trigger] words(s)[i]).len() > 0
        && is_solid(words(s)[i]) by {
        let w = words(s)[i];
        let k = choose|k: int| 0 <= k < p.len() && p[k] == w;
        assert forall|j: int| 0 <= j < w.len() implies !is_white(#[trigger] w[j]) by {
            assert(!CharClass::White.holds(p[k][j]));
        }
    }
}

/// Words with a blank between each two of them are read back as those words.
pub proof fn law_words_of_joined_words(w: Seq<Seq<char>>)
    requires
        forall|i: int| 0 <= i < w.len() ==> (#[trigger] w[i]).len() > 0 && is_solid(w[i]),
    ensures
        words(join(w, " "@)) == w,
    decreases w.len(),
{
    reveal_strlit(" ");
    assert(" "@ =~= seq![' ']);
    if w.len() == 0 {
        law_words_between_white_space(Seq::empty(), ' ', Seq::empty());
        assert(words(join(w, " "@)) =~= w);
    } else {
        let t = w.drop_last();
        let x = w.last();
        assert(w[w.len() - 1] == x);
        assert forall|i: int| 0 <= i < t.len() implies (#[trigger] t[i]).len() > 0 && is_solid(
            t[i],
        ) by {
            assert(t[i] == w[i]);
        }
        law_words_of_joined_words(t);
        assert(is_solid(x));
        law_words_between_white_space(x, ' ', Seq::empty());
        if w.len() == 1 {
            assert(w =~= seq![x]);
        } else {
            law_words_between_white_space(join(t, " "@), ' ', x);
            assert(words(join(w, " "@)) =~= w);
        }
    }
}

/// The characters of a text that are no white space, in their sequence.
pub open spec fn said(s: Seq<char>) -> Seq<char> {
    s.filter(|c: char| !is_white(c))
}

/// What is said in two texts is what is said in each.
pub proof fn lemma_said_add(a: Seq<char>, b: Seq<char>)
    ensures
        said(a + b) == said(a) + said(b),
{
    Seq::filter_distributes_over_add(a, b, |c: char| !is_white(c));
}

/// White space says nothing.
pub proof fn lemma_said_white(s: Seq<char>)
    requires
        forall|i: int| 0 <= i < s.len() ==> is_white(#[trigger] s[i]),
    ensures
        said(s) == Seq::<char>::empty(),
    decreases s.len(),
{
    reveal(Seq::filter);
    if s.len() > 0 {
        let t = s.drop_last();
        assert(is_white(s[s.len() - 1]));
        assert forall|i: int| 0 <= i < t.len() implies is_white(#[trigger] t[i]) by {
            assert(t[i] == s[i]);
        }
        lemma_said_white(t);
    } else {
        assert(said(s) =~= Seq::empty());
    }
}

/// Trimming keeps what is said.
pub proof fn lemma_said_trim(s: Seq<char>)
    ensures
        said(trim(s)) == said(s),
{
    let (i, j) = law_trim_cuts_the_edges(s);
    let (a, b, c) = (s.take(i), s.subrange(i, j), s.skip(j));
    assert forall|k: int| 0 <= k < a.len() implies is_white(#[trigger] a[k]) by {
        assert(a[k] == s[k]);
    }
    assert forall|k: int| 0 <= k < c.len() implies is_white(#[trigger] c[k]) by {
        assert(c[k] == s[j + k]);
    }
    lemma_said_white(a);
    lemma_said_white(c);
    lemma_said_add(a, b);
    lemma_said_add(a + b, c);
    assert(s =~= a + b + c);
    assert(said(s) =~= said(b));
}

/// The words of a text say what it says.
pub proof fn lemma_said_words(s: Seq<char>)
    ensures
        said(join(words(s), " "@)) == said(s),
    decreases s.len(),
{
    reveal_strlit(" ");
    assert(" "@ =~= seq![' ']);
    if exists|i: int| 0 <= i < s.len() && is_white(#[trigger] s[i]) {
        let i = choose|i: int| 0 <= i < s.len() && is_white(#[trigger] s[i]);
        let (a, c, b) = (s.take(i), s[i], s.skip(i + 1));
        assert(s =~= a + seq![c] + b);
        law_words_between_white_space(a, c, b);
        lemma_said_words(a);
        lemma_said_words(b);
        lemma_said_add(a, seq![c]);
        lemma_said_add(a + seq![c], b);
        lemma_said_white(seq![c]);
        assert(said(s) =~= said(a) + said(b));
        let (x, y) = (words(a), words(b));
        if x.len() == 0 {
            assert(x + y =~= y);
            lemma_said_white(join(x, " "@));
            assert(said(s) =~= said(b));
        } else if y.len() == 0 {
            assert(x + y =~= x);
            lemma_said_white(join(y, " "@));
            assert(said(s) =~= said(a));
        } else {
            law_join_parts(x, y, " "@, Seq::empty());
            lemma_said_add(join(x, " "@), " "@);
            lemma_said_add(join(x, " "@) + " "@, join(y, " "@));
            lemma_said_white(" "@);
            assert(said(join(x + y, " "@)) =~= said(s));
        }
    } else {
        law_words_between_white_space(s, ' ', Seq::empty());
        if s.len() == 0 {
            assert(join(words(s), " "@) =~= s);
        }
    }
}

/// The strings joined with `sep` between each two of them.
pub fn str_join(p: &Vec<String>, sep: &str) -> (r: String)
    ensures
        r@ == join(texts(p@), sep@),
{
    let mut r = String::new();
    let mut i: usize = 0;
    while i < p.len()
        invariant
            i <= p@.len(),
            r@ == join(texts(p@).take(i as int), sep@),
        decreases p@.len() - i,
    {
        assert(texts(p@).take(i + 1).drop_last() =~= texts(p@).take(i as int));
        assert(texts(p@).take(i + 1).last() == p@[i as int]@);
        if i > 0 {
            r.append(sep);
            r.append(p[i].as_str());
        } else {
            r = p[i].clone();
        }
        i += 1;
    }
    assert(texts(p@).take(p@.len() as int) =~= texts(p@));
    r
}

/// Whether `n` stands in `h` at position `i`.
pub open spec fn occurs_at(h: Seq<char>, n: Seq<char>, i: int) -> bool {
    0 <= i && i + n.len() <= h.len() && h.subrange(i, i + n.len()) == n
}

/// Whether `n` stands somewhere in `h`.
pub open spec fn contains(h: Seq<char>, n: Seq<char>) -> bool {
    exists|i: int| occurs_at(h, n, i)
}

/// Whether position `i` is the first at which `n` stands in `h`.
pub open spec fn first_at(h: Seq<char>, n: Seq<char>, i: int) -> bool {
    occurs_at(h, n, i) && forall|j: int| 0 <= j < i ==> !occurs_at(h, n, j)
}

/// The first position at which `n` stands in `h`.
pub open spec fn find(h: Seq<char>, n: Seq<char>) -> Option<int> {
    if exists|i: int| first_at(h, n, i) {
        Some(choose|i: int| first_at(h, n, i))
    } else {
        None
    }
}

/// Whether the characters of `n` stand in `h` at position `i`.
pub fn chars_occur_at(h: &Vec<char>, n: &Vec<char>, i: usize) -> (r: bool)
    requires
        i <= h@.len(),
    ensures
        r == occurs_at(h@, n@, i as int),
{
    let total: usize = h.len();
    if n.len() > total - i {
        return false;
    }
    let mut k: usize = 0;
    while k < n.len()
        invariant
            k <= n@.len(),
            i + n@.len() <= total == h@.len(),
            forall|j: int| 0 <= j < k ==> h@[i + j] == n@[j],
        decreases n@.len() - k,
    {
        if h[i + k] != n[k] {
            assert(h@.subrange(i as int, i + n@.len())[k as int] != n@[k as int]);
            return false;
        }
        k += 1;
    }
    assert(h@.subrange(i as int, i + n@.len()) =~= n@);
    true
}

/// The first position at which `n` stands in `h`.
pub fn chars_find(h: &Vec<char>, n: &Vec<char>) -> (r: Option<usize>)
    ensures
        match r {
            Some(i) => find(h@, n@) == Some(i as int) && first_at(h@, n@, i as int),
            None => find(h@, n@) is None && !contains(h@, n@),
        },
{
    let mut i: usize = 0;
    while i <= h.len()
        invariant
            i <= h@.len() + 1,
            forall|j: int| 0 <= j < i ==> !occurs_at(h@, n@, j),
        decreases h@.len() + 1 - i,
    {
        if chars_occur_at(h, n, i) {
            assert(first_at(h@, n@, i as int));
            return Some(i);
        }
        if i == h.len() {
            assert forall|j: int| !occurs_at(h@, n@, j) by {
                if j > h@.len() {
                }
            }
            return None;
        }
        i += 1;
    }
    None
}

/// Whether `n` stands somewhere in `h`.
pub fn str_contains(h: &str, n: &str) -> (r: bool)
    ensures
        r == contains(h@, n@),
{
    chars_find(&chars_of(h), &chars_of(n)).is_some()
}

/// A part of a text stands in it.
pub proof fn lemma_holds(a: Seq<char>, part: Seq<char>, b: Seq<char>)
    ensures
        contains(a + part + b, part),
{
    assert((a + part + b).subrange(a.len() as int, (a.len() + part.len()) as int) =~= part);
    assert(occurs_at(a + part + b, part, a.len() as int));
}

/// What stands in a part of a text stands in the text.
pub proof fn lemma_holds_within(a: Seq<char>, part: Seq<char>, b: Seq<char>, x: Seq<char>)
    requires
        contains(part, x),
    ensures
        contains(a + part + b, x),
{
    let i = choose|i: int| occurs_at(part, x, i);
    let s = a + part + b;
    assert(s.subrange(a.len() + i, a.len() + i + x.len()) =~= part.subrange(i, i + x.len()));
    assert(occurs_at(s, x, a.len() + i));
}

/// What stands in a text that stands in another stands in that one.
pub proof fn lemma_holds_through(s: Seq<char>, part: Seq<char>, x: Seq<char>)
    requires
        contains(s, part),
        contains(part, x),
    ensures
        contains(s, x),
{
    let i = choose|i: int| occurs_at(s, part, i);
    let (a, b) = (s.take(i), s.skip((i + part.len()) as int));
    lemma_holds_within(a, part, b, x);
    assert(s =~= a + part + b);
}

/// Each piece of a text that is made piece by piece stands in it.
pub proof fn lemma_pieces_stand(
    text: spec_fn(int) -> Seq<char>,
    piece: spec_fn(int) -> Seq<char>,
    n: int,
    k: int,
)
    requires
        0 <= k < n,
        forall|m: int| 0 < m <= n ==> #[trigger] text(m) == text(m - 1) + piece(m - 1),
    ensures
        contains(text(n), piece(k)),
    decreases n,
{
    let none = Seq::<char>::empty();
    assert(text(n) == text(n - 1) + piece(n - 1));
    if k < n - 1 {
        lemma_pieces_stand(text, piece, n - 1, k);
        lemma_holds_within(none, text(n - 1), piece(n - 1), piece(k));
        assert(text(n) =~= none + text(n - 1) + piece(n - 1));
    } else {
        lemma_holds(text(n - 1), piece(k), none);
        assert(text(n) =~= text(n - 1) + piece(k) + none);
    }
}

/// What ends with no white space is not trimmed away.
pub proof fn lemma_holds_trim_end(s: Seq<char>, part: Seq<char>)
    requires
        contains(s, part),
        part.len() > 0,
        !is_white(part.last()),
    ensures
        contains(trim_end(s), part),
{
    let i = choose|i: int| occurs_at(s, part, i);
    let t = trim_end(s);
    lemma_strip(s, CharClass::White);
    lemma_stripped(s, CharClass::White);
    let end = i + part.len();
    assert(s[end - 1] == s.subrange(i, end)[part.len() - 1]);
    assert(end <= t.len()) by {
        if end > t.len() {
            assert(CharClass::White.holds(s[end - 1]));
        }
    }
    assert(t.subrange(i, end) =~= s.subrange(i, end));
    assert(occurs_at(t, part, i));
}

/// Whether `p` is a prefix of `s`.
pub open spec fn starts_with(s: Seq<char>, p: Seq<char>) -> bool {
    p.len() <= s.len() && s.take(p.len() as int) == p
}

/// Whether `p` is a suffix of `s`.
pub open spec fn ends_with(s: Seq<char>, p: Seq<char>) -> bool {
    p.len() <= s.len() && s.skip(s.len() - p.len()) == p
}

/// The text after the prefix `p`, where `s` starts with it.
pub fn str_strip_prefix(s: &str, p: &str) -> (r: Option<String>)
    ensures
        match r {
            Some(rest) => starts_with(s@, p@) && rest@ == s@.skip(p@.len() as int),
            None => !starts_with(s@, p@),
        },
{
    let v = chars_of(s);
    let n = chars_of(p);
    assert(p@.len() <= s@.len() ==> s@.subrange(0, p@.len() as int) =~= s@.take(p@.len() as int));
    if chars_occur_at(&v, &n, 0) {
        assert(s@.subrange(p@.len() as int, s@.len() as int) =~= s@.skip(p@.len() as int));
        Some(substring(&v, n.len(), v.len()))
    } else {
        None
    }
}

/// The text before the suffix `p`, where `s` ends with it.
pub fn str_strip_suffix(s: &str, p: &str) -> (r: Option<String>)
    ensures
        match r {
            Some(rest) => ends_with(s@, p@) && rest@ == s@.take(s@.len() - p@.len()),
            None => !ends_with(s@, p@),
        },
{
    let v = chars_of(s);
    let n = chars_of(p);
    if n.len() > v.len() {
        return None;
    }
    let at: usize = v.len() - n.len();
    assert(s@.subrange(at as int, at + p@.len()) =~= s@.skip(at as int));
    if chars_occur_at(&v, &n, at) {
        assert(s@.subrange(0, at as int) =~= s@.take(at as int));
        Some(substring(&v, 0, at))
    } else {
        None
    }
}

/// The strings, copied.
pub fn copy_strings(v: &Vec<String>) -> (r: Vec<String>)
    ensures
        r@ == v@,
{
    let mut r: Vec<String> = Vec::new();
    let mut i: usize = 0;
    while i < v.len()
        invariant
            i <= v@.len(),
            r@ == v@.take(i as int),
        decreases v@.len() - i,
    {
        r.push(v[i].clone());
        i += 1;
    }
    r
}

/// An optional string, copied.
pub fn copy_opt(o: &Option<String>) -> (r: Option<String>)
    ensures
        r == *o,
{
    match o {
        Some(s) => Some(s.clone()),
        None => None,
    }
}

/// Two texts, one after the other.
pub fn cat2(a: &str, b: &str) -> (r: String)
    ensures
        r@ == a@ + b@,
{
    let mut s = a.to_owned();
    s.append(b);
    s
}

/// Three texts, one after the other.
pub fn cat3(a: &str, b: &str, c: &str) -> (r: String)
    ensures
        r@ == a@ + b@ + c@,
{
    let mut s = a.to_owned();
    s.append(b);
    s.append(c);
    s
}

/// Four texts, one after the other.
pub fn cat4(a: &str, b: &str, c: &str, d: &str) -> (r: String)
    ensures
        r@ == a@ + b@ + c@ + d@,
{
    let mut s = a.to_owned();
    s.append(b);
    s.append(c);
    s.append(d);
    s
}

/// Five texts, one after the other.
pub fn cat5(a: &str, b: &str, c: &str, d: &str, e: &str) -> (r: String)
    ensures
        r@ == a@ + b@ + c@ + d@ + e@,
{
    let mut s = a.to_owned();
    s.append(b);
    s.append(c);
    s.append(d);
    s.append(e);
    s
}

/// Six texts, one after the other.
pub fn cat6(a: &str, b: &str, c: &str, d: &str, e: &str, f: &str) -> (r: String)
    ensures
        r@ == a@ + b@ + c@ + d@ + e@ + f@,
{
    let mut s = a.to_owned();
    s.append(b);
    s.append(c);
    s.append(d);
    s.append(e);
    s.append(f);
    s
}

/// Seven texts, one after the other.
pub fn cat7(a: &str, b: &str, c: &str, d: &str, e: &str, f: &str, g: &str) -> (r: String)
    ensures
        r@ == a@ + b@ + c@ + d@ + e@ + f@ + g@,
{
    let mut s = a.to_owned();
    s.append(b);
    s.append(c);
    s.append(d);
    s.append(e);
    s.append(f);
    s.append(g);
    s
}

/// Eight texts, one after the other.
pub fn cat8(a: &str, b: &str, c: &str, d: &str, e: &str, f: &str, g: &str, h: &str) -> (r: String)
    ensures
        r@ == a@ + b@ + c@ + d@ + e@ + f@ + g@ + h@,
{
    let mut s = a.to_owned();
    s.append(b);
    s.append(c);
    s.append(d);
    s.append(e);
    s.append(f);
    s.append(g);
    s.append(h);
    s
}

/// The text that bytes stand for, with what is not UTF-8 replaced.
pub uninterp spec fn lossy_text(bytes: Seq<u8>) -> Seq<char>;

/// `String::from_utf8_lossy` depends on the bytes alone; of valid UTF-8 it gives
/// the text that is encoded so.
#[verifier::external_body]
pub(crate) fn text_lossy(bytes: &[u8]) -> (r: String)
    ensures
        r@ == lossy_text(bytes@),
        valid_utf8(bytes@) ==> encode_utf8(r@) == bytes@,
{
    String::from_utf8_lossy(bytes).to_string()
}

/// A text in quotes, with what cannot be printed escaped.
pub uninterp spec fn quoted(s: Seq<char>) -> Seq<char>;

/// The `Debug` form of a `str`, which depends on the text alone.
#[verifier::external_body]
pub(crate) fn quote(s: &str) -> (r: String)
    ensures
        r@ == quoted(s@),
{
    format!("{:?}", s)
}

/// A line without one carriage return at its end.
pub open spec fn without_cr(s: Seq<char>) -> Seq<char> {
    if s.len() > 0 && s.last() == '\r' {
        s.drop_last()
    } else {
        s
    }
}

/// The lines of a text: a line feed, or a carriage return and a line feed, ends
/// each of them but an unfinished last one.
pub open spec fn lines(s: Seq<char>) -> Seq<Seq<char>> {
    let p = split(s, CharClass::Is('\n'));
    let ended = Seq::new((p.len() - 1) as nat, |i: int| without_cr(p[i]));
    if p.last().len() > 0 {
        ended.push(p.last())
    } else {
        ended
    }
}

/// The line without one carriage return at its end.
fn drop_cr(s: &str) -> (r: String)
    ensures
        r@ == without_cr(s@),
{
    let v = chars_of(s);
    if v.len() > 0 && v[v.len() - 1] == '\r' {
        assert(v@.subrange(0, v@.len() - 1) =~= v@.drop_last());
        substring(&v, 0, v.len() - 1)
    } else {
        s.to_owned()
    }
}

/// The lines of a text.
pub fn str_lines(s: &str) -> (r: Vec<String>)
    ensures
        texts(r@) == lines(s@),
{
    let pieces = str_split(s, CharClass::Is('\n'));
    let ghost p = texts(pieces@);
    let ghost ended = Seq::new((p.len() - 1) as nat, |i: int| without_cr(p[i]));
    let mut r: Vec<String> = Vec::new();
    let mut i: usize = 0;
    let last: usize = pieces.len() - 1;
    while i < last
        invariant
            i <= last,
            last + 1 == pieces@.len(),
            p == texts(pieces@),
            ended == Seq::new((p.len() - 1) as nat, |i: int| without_cr(p[i])),
            texts(r@) =~= ended.take(i as int),
        decreases pieces@.len() - i,
    {
        broadcast use lemma_texts_push;

        r.push(drop_cr(&pieces[i]));
        assert(texts(r@) =~= ended.take(i + 1));
        i += 1;
    }
    assert(texts(r@) =~= ended);
    assert(p.last() == pieces@[i as int]@);
    if !pieces[i].as_str().is_empty() {
        broadcast use lemma_texts_push;

        r.push(pieces[i].clone());
    }
    r
}

/// A line feed ends a line, with the carriage return before it, and the lines of the rest
/// follow; a last line that nothing ends counts where it is not empty.
pub proof fn law_lines_end_at_line_feeds(a: Seq<char>, b: Seq<char>)
    requires
        forall|i: int| 0 <= i < a.len() ==> #[trigger] a[i] != '\n',
    ensures
        lines(a.push('\n') + b) == seq![
            if a.len() > 0 && a.last() == '\r' {
                a.drop_last()
            } else {
                a
            },
        ] + lines(b),
        lines(a) == if a.len() > 0 {
            seq![a]
        } else {
            Seq::<Seq<char>>::empty()
        },
{
    let class = CharClass::Is('\n');
    law_split_at_separators(a, '\n', b, class);
    assert(split(a, class) == seq![a]);
    assert(a.push('\n') + b =~= a + seq!['\n'] + b);
    assert((seq![a] + split(b, class)).last() == split(b, class).last());
    assert(lines(a.push('\n') + b) =~= seq![without_cr(a)] + lines(b));
    assert(lines(a) =~= if a.len() > 0 {
        seq![a]
    } else {
        Seq::<Seq<char>>::empty()
    });
}

/// What is said in texts, one after the other.
pub open spec fn all_said(p: Seq<Seq<char>>) -> Seq<char>
    decreases p.len(),
{
    if p.len() == 0 {
        Seq::empty()
    } else {
        all_said(p.drop_last()) + said(p.last())
    }
}

/// Texts joined with white space say what they say one after the other.
pub proof fn lemma_said_join(p: Seq<Seq<char>>, sep: Seq<char>)
    requires
        said(sep) == Seq::<char>::empty(),
    ensures
        said(join(p, sep)) == all_said(p),
    decreases p.len(),
{
    if p.len() == 0 {
        lemma_said_white(join(p, sep));
    } else if p.len() == 1 {
        assert(p.drop_last() =~= Seq::empty());
        assert(all_said(p.drop_last()) =~= Seq::empty());
        assert(all_said(p) =~= said(p[0]));
    } else {
        let t = p.drop_last();
        lemma_said_join(t, sep);
        lemma_said_add(join(t, sep), sep);
        lemma_said_add(join(t, sep) + sep, p.last());
        assert(said(join(t, sep)) + said(sep) =~= said(join(t, sep)));
    }
}

/// What is not empty of trimmed texts says what the texts say.
pub proof fn lemma_said_trimmed(p: Seq<Seq<char>>)
    ensures
        all_said(nonempty(all_trimmed(p))) == all_said(p),
    decreases p.len(),
{
    let q = all_trimmed(p);
    if p.len() > 0 {
        let t = p.drop_last();
        lemma_said_trimmed(t);
        lemma_said_trim(p.last());
        assert(q.drop_last() =~= all_trimmed(t));
        assert(q.last() == trim(p.last()));
        let n = nonempty(all_trimmed(t));
        if trim(p.last()).len() == 0 {
            lemma_said_white(trim(p.last()));
            assert(all_said(t) + said(p.last()) =~= all_said(t));
        } else {
            assert(n.push(trim(p.last())).drop_last() =~= n);
        }
    }
}

/// Trimmed lines that are not empty, joined with blanks, say what the text says.
pub proof fn lemma_said_lines_joined(s: Seq<char>)
    ensures
        said(join(nonempty(all_trimmed(lines(s))), " "@)) == said(s),
{
    let p = split(s, CharClass::Is('\n'));
    let l = lines(s);
    law_split_and_join(s, '\n');
    lemma_said_white(seq!['\n']);
    lemma_said_join(p, seq!['\n']);
    lemma_said_trimmed(p);
    reveal_strlit(" ");
    lemma_said_white(" "@);
    lemma_said_join(nonempty(all_trimmed(l)), " "@);
    let e = Seq::new((p.len() - 1) as nat, |i: int| without_cr(p[i]));
    assert forall|i: int| 0 <= i < e.len() implies trim(#[trigger] e[i]) == trim(p[i]) by {
        lemma_trim_cr(p[i]);
    }
    assert(all_trimmed(e) =~= all_trimmed(p.drop_last()));
    assert(all_trimmed(p) =~= all_trimmed(p.drop_last()).push(trim(p.last())));
    if p.last().len() > 0 {
        assert(all_trimmed(l) =~= all_trimmed(p));
    } else {
        assert(trim(p.last()).len() == 0) by {
            law_trim_cuts_the_edges(p.last());
        }
        assert(all_trimmed(p).drop_last() =~= all_trimmed(l));
    }
}

/// A carriage return at the end is trimmed away.
proof fn lemma_trim_cr(x: Seq<char>)
    ensures
        trim(without_cr(x)) == trim(x),
    decreases x.len(),
{
    if x.len() > 0 && x.last() == '\r' {
        let t = x.drop_last();
        if is_white(x[0]) {
            let f = x.drop_first();
            if f.len() > 0 {
                lemma_trim_cr(f);
                assert(f.drop_last() =~= t.drop_first());
                assert(t[0] == x[0]);
            } else {
                assert(t =~= Seq::empty() && f =~= Seq::empty());
            }
        } else {
            assert(t.len() > 0) by {
                if t.len() == 0 {
                    assert(x[0] == '\r');
                }
            }
            assert(t[0] == x[0]);
        }
    }
}

/// Each text trimmed.
pub open spec fn all_trimmed(p: Seq<Seq<char>>) -> Seq<Seq<char>> {
    Seq::new(p.len(), |i: int| trim(p[i]))
}

/// Each string trimmed.
pub fn trim_all(v: &Vec<String>) -> (r: Vec<String>)
    ensures
        texts(r@) == all_trimmed(texts(v@)),
{
    let mut r: Vec<String> = Vec::new();
    let mut i: usize = 0;
    while i < v.len()
        invariant
            i <= v@.len(),
            texts(r@) =~= all_trimmed(texts(v@)).take(i as int),
        decreases v@.len() - i,
    {
        broadcast use lemma_texts_push;

        r.push(str_trim(&v[i]));
        assert(texts(r@) =~= all_trimmed(texts(v@)).take(i + 1));
        i += 1;
    }
    assert(texts(r@) =~= all_trimmed(texts(v@)));
    r
}

/// What stands before and after the first `pat`.
pub open spec fn split_once(s: Seq<char>, pat: Seq<char>) -> Option<(Seq<char>, Seq<char>)> {
    match find(s, pat) {
        Some(i) => Some((s.take(i), s.skip(i + pat.len()))),
        None => None,
    }
}

/// A text without the first character of a mark is not parted by the mark.
pub proof fn lemma_no_split_once(s: Seq<char>, pat: Seq<char>)
    requires
        pat.len() > 0,
        forall|k: int| 0 <= k < s.len() ==> #[trigger] s[k] != pat[0],
    ensures
        split_once(s, pat) is None,
{
    if let Some(i) = find(s, pat) {
        assert(first_at(s, pat, i));
        assert(s.subrange(i, i + pat.len())[0] == s[i]);
    }
}

/// The first mark parts a text.
pub proof fn lemma_split_once(a: Seq<char>, pat: Seq<char>, b: Seq<char>)
    requires
        pat.len() > 0,
        forall|k: int| 0 <= k < a.len() ==> #[trigger] a[k] != pat[0],
    ensures
        split_once(a + pat + b, pat) == Some((a, b)),
{
    let s = a + pat + b;
    let n = a.len() as int;
    let m = (n + pat.len()) as int;
    assert(s.subrange(n, m) =~= pat);
    assert forall|j: int| 0 <= j < n implies !occurs_at(s, pat, j) by {
        if occurs_at(s, pat, j) {
            assert(s.subrange(j, j + pat.len())[0] == a[j]);
        }
    }
    assert(first_at(s, pat, n));
    let i = find(s, pat)->Some_0;
    assert(first_at(s, pat, i));
    assert(i == n) by {
        if i < n {
            assert(!occurs_at(s, pat, i));
        } else if n < i {
            assert(!occurs_at(s, pat, n));
        }
    }
    assert(s.take(n) =~= a);
    assert(s.skip(m) =~= b);
}

/// What stands before and after the first `pat`.
pub fn str_split_once(s: &str, pat: &str) -> (r: Option<(String, String)>)
    ensures
        match r {
            Some((a, b)) => split_once(s@, pat@) == Some((a@, b@)),
            None => split_once(s@, pat@) is None,
        },
{
    let v = chars_of(s);
    let n = chars_of(pat);
    let total: usize = v.len();
    match chars_find(&v, &n) {
        Some(i) => {
            let after: usize = i + n.len();
            assert(v@.subrange(0, i as int) =~= s@.take(i as int));
            assert(v@.subrange(after as int, v@.len() as int) =~= s@.skip(after as int));
            Some((substring(&v, 0, i), substring(&v, after, total)))
        },
        None => None,
    }
}

/// `s` with every `pat` replaced, from the left.
pub open spec fn replaced(s: Seq<char>, pat: Seq<char>, with: Seq<char>) -> Seq<char>
    decreases s.len(),
{
    if s.len() == 0 || pat.len() == 0 {
        s
    } else if occurs_at(s, pat, 0) {
        with + replaced(s.skip(pat.len() as int), pat, with)
    } else {
        seq![s[0]] + replaced(s.drop_first(), pat, with)
    }
}

/// `s` with every `pat` replaced, from the left.
pub fn str_replace(s: &str, pat: &str, with: &str) -> (r: String)
    requires
        pat@.len() > 0,
    ensures
        r@ == replaced(s@, pat@, with@),
{
    let v = chars_of(s);
    let n = chars_of(pat);
    let total: usize = v.len();
    let mut r = String::new();
    let mut i: usize = 0;
    assert(s@.skip(0) =~= s@);
    assert(r@ + replaced(s@, pat@, with@) =~= replaced(s@, pat@, with@));
    while i < total
        invariant
            i <= total,
            total == v@.len(),
            v@ == s@,
            n@ == pat@,
            n@.len() > 0,
            r@ + replaced(s@.skip(i as int), pat@, with@) == replaced(s@, pat@, with@),
        decreases total - i,
    {
        let ghost here = s@.skip(i as int);
        let ghost before = r@;
        assert(i + pat@.len() <= s@.len() ==> here.subrange(0, pat@.len() as int) =~= s@.subrange(
            i as int,
            i + pat@.len(),
        ));
        if chars_occur_at(&v, &n, i) {
            assert(occurs_at(here, pat@, 0));
            r.append(with);
            assert(here.skip(pat@.len() as int) =~= s@.skip(i + pat@.len()));
            assert(before + (with@ + replaced(here.skip(pat@.len() as int), pat@, with@)) =~= r@
                + replaced(s@.skip(i + pat@.len()), pat@, with@));
            i += n.len();
        } else {
            assert(!occurs_at(here, pat@, 0));
            r.push(v[i]);
            assert(here.drop_first() =~= s@.skip(i + 1));
            assert(before + (seq![here[0]] + replaced(here.drop_first(), pat@, with@)) =~= r@
                + replaced(s@.skip(i + 1), pat@, with@));
            i += 1;
        }
    }
    assert(s@.skip(total as int) =~= Seq::empty());
    assert(r@ + Seq::<char>::empty() =~= r@);
    r
}

/// A sentence ends with a full stop, an exclamation or a question mark, or a line end; a
/// word is followed by one of six marks.
pub proof fn law_marks(c: char, x: char)
    ensures
        CharClass::Sentence.holds(c) <==> c == '.' || c == '!' || c == '?' || c == '\n',
        CharClass::Marks.holds(c) <==> c == ',' || c == '.' || c == '!' || c == '?' || c == ':' || c
            == ';',
        CharClass::Is(x).holds(c) <==> c == x,
        CharClass::White.holds(c) <==> is_white(c),
{
}

/// A text holds another just where it is that text with something before and after it.
pub proof fn law_what_a_text_holds(s: Seq<char>, x: Seq<char>, a: Seq<char>, b: Seq<char>)
    ensures
        contains(a + x + b, x),
        contains(s, x) ==> exists|i: int|
            0 <= i && i + x.len() <= s.len() && #[trigger] s.subrange(i, i + x.len()) == x,
        x.len() > s.len() ==> !contains(s, x),
        starts_with(x + b, x),
        ends_with(a + x, x),
        starts_with(s, x) ==> x.len() <= s.len() && forall|i: int|
            0 <= i < x.len() ==> s[i] == #[trigger] x[i],
        ends_with(s, x) ==> x.len() <= s.len() && forall|i: int|
            0 <= i < x.len() ==> s[s.len() - x.len() + i] == #[trigger] x[i],
{
    lemma_holds(a, x, b);
    if contains(s, x) {
        let i = choose|i: int| occurs_at(s, x, i);
        assert(s.subrange(i, i + x.len()) == x);
    }
    assert((x + b).take(x.len() as int) =~= x);
    assert((a + x).skip((a + x).len() - x.len()) =~= x);
    if starts_with(s, x) {
        assert forall|i: int| 0 <= i < x.len() implies s[i] == #[trigger] x[i] by {
            assert(s.take(x.len() as int)[i] == s[i]);
        }
    }
    if ends_with(s, x) {
        assert forall|i: int| 0 <= i < x.len() implies s[s.len() - x.len() + i]
            == #[trigger] x[i] by {
            assert(s.skip(s.len() - x.len())[i] == s[s.len() - x.len() + i]);
        }
    }
}

/// Parting a text at a mark gives what stands before the first such mark and what stands
/// after it; a text that does not hold the mark is not parted.
pub proof fn law_parted_at_the_first_mark(s: Seq<char>, pat: Seq<char>)
    ensures
        split_once(s, pat) matches Some((a, b)) ==> s == a + pat + b && forall|i: int|
            0 <= i < a.len() ==> !occurs_at(s, pat, i),
        split_once(s, pat) is None <==> !contains(s, pat),
{
    if let Some(i) = find(s, pat) {
        assert(first_at(s, pat, i));
        let (a, b) = (s.take(i), s.skip((i + pat.len()) as int));
        assert(s =~= a + pat + b) by {
            assert(s.subrange(i, i + pat.len()) == pat);
        }
    } else {
        if contains(s, pat) {
            let k = choose|k: int| occurs_at(s, pat, k);
            lemma_first_occurrence(s, pat, k);
        }
    }
}

/// Where a text stands somewhere it stands somewhere first.
proof fn lemma_first_occurrence(s: Seq<char>, pat: Seq<char>, k: int)
    requires
        occurs_at(s, pat, k),
    ensures
        exists|i: int| first_at(s, pat, i),
    decreases k,
{
    if exists|j: int| 0 <= j < k && occurs_at(s, pat, j) {
        let j = choose|j: int| 0 <= j < k && occurs_at(s, pat, j);
        lemma_first_occurrence(s, pat, j);
    } else {
        assert(first_at(s, pat, k));
    }
}

} // verus!

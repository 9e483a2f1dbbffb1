//! Text modes: how dictated text is cleaned, and the registry of modes.
use vstd::prelude::*;

use crate::config::{
    byte_len, find_key, is_key_index, key_index, lemma_key_index_exists, style_profile, Config,
    Keyed, ModeEntry, SnippetEntry, StyleProfile, VocabularyEntry,
};
use crate::error::ComlinkError;
use crate::ordering::{
    lemma_ranked, lemma_text_le_total, lemma_text_le_transitive, ranked, sort_ranked, str_le, text_le, Ranked,
};
use crate::strings::{
    cat2, cat5, chars_occur_at, chars_of, copy_opt, eq_ignore_case, is_solid, is_white, join,
    law_equal_but_for_case, law_split_and_join, law_trim_cuts_the_edges, law_words_are_solid,
    law_words_of_joined_words, lemma_said_add, lemma_said_trim, lemma_said_white, lemma_said_words,
    lemma_strip, lemma_stripped, lemma_texts_push, lower, lower_chars, occurs_at, opt_text, said,
    split, str_eq, str_eq_ignore_case, str_join, str_split, str_strip, str_trim, str_words,
    string_of, strip_end, strip_start, texts, to_lower, trim, words, CharClass,
};

verus! {

/// A built-in way of cleaning dictated text.
#[derive(Debug, Clone, Copy, PartialEq, Eq, Structural)]
pub enum TextMode {
    Raw,
    Clean,
    Memo,
    CodingPrompt,
    EmailReply,
    SlackReply,
}

/// A mode as the registry lists it.
#[derive(Debug, Clone)]
pub struct ModeDefinition {
    pub name: String,
    pub description: String,
    pub deterministic: bool,
    pub deterministic_mode: Option<String>,
    pub llm_instruction: Option<String>,
    pub style_profile: Option<String>,
}

/// The user's replacements that apply to a text.
pub struct TextRules<'a> {
    pub vocabulary: &'a [VocabularyEntry],
    pub snippets: &'a [SnippetEntry],
}

impl<'a> Default for TextRules<'a> {
    fn default() -> (r: Self)
        ensures
            r.vocabulary@.len() == 0,
            r.snippets@.len() == 0,
    {
        TextRules { vocabulary: &[], snippets: &[] }
    }
}

// ---------------------------------------------------------------------------
// Cleaning
// ---------------------------------------------------------------------------

/// A hesitation that can be dropped without changing the meaning.
pub open spec fn is_filler(token: Seq<char>) -> bool {
    let t = lower(strip_end(strip_start(token, CharClass::Marks), CharClass::Marks));
    t == "um"@ || t == "uh"@ || t == "umm"@ || t == "uhh"@
}

/// The tokens that are not fillers.
pub open spec fn without_fillers(p: Seq<Seq<char>>) -> Seq<Seq<char>>
    decreases p.len(),
{
    if p.len() == 0 {
        p
    } else if is_filler(p.last()) {
        without_fillers(p.drop_last())
    } else {
        without_fillers(p.drop_last()).push(p.last())
    }
}

/// Whether a token is a filler.
fn is_safe_filler(token: &str) -> (r: bool)
    ensures
        r == is_filler(token@),
{
    let t = to_lower(&str_strip(token, CharClass::Marks));
    str_eq(&t, "um") || str_eq(&t, "uh") || str_eq(&t, "umm") || str_eq(&t, "uhh")
}

/// The words of a text that are not fillers, one space between them.
pub open spec fn fillers_removed(s: Seq<char>) -> Seq<char> {
    join(without_fillers(words(s)), " "@)
}

/// Drops the fillers.
fn remove_safe_fillers(raw: &str) -> (r: String)
    ensures
        r@ == fillers_removed(raw@),
{
    let tokens = str_words(raw);
    let ghost all = texts(tokens@);
    let mut kept: Vec<String> = Vec::new();
    let mut i: usize = 0;
    assert(texts(kept@) =~= Seq::<Seq<char>>::empty());
    while i < tokens.len()
        invariant
            i <= tokens@.len(),
            all == texts(tokens@),
            texts(kept@) == without_fillers(all.take(i as int)),
        decreases tokens@.len() - i,
    {
        broadcast use lemma_texts_push;

        assert(all.take(i + 1).drop_last() =~= all.take(i as int));
        assert(all.take(i + 1).last() == tokens@[i as int]@);
        if !is_safe_filler(&tokens[i]) {
            kept.push(tokens[i].clone());
        }
        i += 1;
    }
    assert(all.take(all.len() as int) =~= all);
    str_join(&kept, " ")
}

/// A mark that no space stands before.
pub open spec fn is_closing(c: char) -> bool {
    CharClass::Marks.holds(c) || c == ')' || c == ']' || c == '}'
}

/// A text with the spaces before closing marks dropped.
pub open spec fn closed_up(s: Seq<char>) -> Seq<char>
    decreases s.len(),
{
    if s.len() == 0 {
        s
    } else if is_closing(s.last()) {
        strip_end(closed_up(s.drop_last()), CharClass::Is(' ')).push(s.last())
    } else {
        closed_up(s.drop_last()).push(s.last())
    }
}

/// A text with single spaces between its words and none before closing marks.
pub open spec fn spacing_cleaned(s: Seq<char>) -> Seq<char> {
    trim(closed_up(join(words(s), " "@)))
}

/// Drops trailing spaces.
fn pop_spaces(v: Vec<char>) -> (r: Vec<char>)
    ensures
        r@ == strip_end(v@, CharClass::Is(' ')),
{
    let mut v = v;
    let ghost all = v@;
    while v.len() > 0 && v[v.len() - 1] == ' '
        invariant
            strip_end(all, CharClass::Is(' ')) == strip_end(v@, CharClass::Is(' ')),
        decreases v@.len(),
    {
        v.pop();
    }
    v
}

/// Puts single spaces between words and none before closing marks.
fn clean_spacing(raw: &str) -> (r: String)
    ensures
        r@ == spacing_cleaned(raw@),
{
    let collapsed = chars_of(&str_join(&str_words(raw), " "));
    let mut cleaned: Vec<char> = Vec::new();
    let mut i: usize = 0;
    while i < collapsed.len()
        invariant
            i <= collapsed@.len(),
            cleaned@ == closed_up(collapsed@.take(i as int)),
        decreases collapsed@.len() - i,
    {
        let c = collapsed[i];
        assert(collapsed@.take(i + 1).drop_last() =~= collapsed@.take(i as int));
        if CharClass::Marks.test(c) || c == ')' || c == ']' || c == '}' {
            cleaned = pop_spaces(cleaned);
            cleaned.push(c);
        } else {
            cleaned.push(c);
        }
        i += 1;
    }
    assert(collapsed@.take(collapsed@.len() as int) =~= collapsed@);
    str_trim(&string_of(&cleaned))
}

/// Each line cleaned on its own.
pub open spec fn lines_cleaned(p: Seq<Seq<char>>) -> Seq<Seq<char>> {
    Seq::new(p.len(), |i: int| spacing_cleaned(p[i]))
}

/// A text with the spacing of each line cleaned.
pub open spec fn spacing_cleaned_by_line(s: Seq<char>) -> Seq<char> {
    trim(join(lines_cleaned(split(s, CharClass::Is('\n'))), "\n"@))
}

/// Cleans the spacing of each line.
fn clean_spacing_preserving_newlines(raw: &str) -> (r: String)
    ensures
        r@ == spacing_cleaned_by_line(raw@),
{
    let lines = str_split(raw, CharClass::Is('\n'));
    let ghost all = texts(lines@);
    let mut cleaned: Vec<String> = Vec::new();
    let mut i: usize = 0;
    while i < lines.len()
        invariant
            i <= lines@.len(),
            all == texts(lines@),
            texts(cleaned@) =~= lines_cleaned(all).take(i as int),
        decreases lines@.len() - i,
    {
        broadcast use lemma_texts_push;

        cleaned.push(clean_spacing(&lines[i]));
        assert(texts(cleaned@) =~= lines_cleaned(all).take(i + 1));
        i += 1;
    }
    assert(lines_cleaned(all).take(all.len() as int) =~= lines_cleaned(all));
    str_trim(&str_join(&cleaned, "\n"))
}

// ---------------------------------------------------------------------------
// Phrase replacement
// ---------------------------------------------------------------------------

/// Whether Unicode counts a character among letters and numbers.
pub uninterp spec fn is_alphanumeric(c: char) -> bool;

/// `char::is_alphanumeric` depends on the character alone; among ASCII characters
/// it holds of the letters and the digits.
pub assume_specification[ char::is_alphanumeric ](c: char) -> (r: bool)
    ensures
        r == is_alphanumeric(c),
        (c as u32) < 128 ==> r == crate::strings::is_ascii_alnum(c),
;

/// A phrase and what replaces it.
pub struct PhraseReplacement {
    pub trigger: String,
    pub replacement: String,
}

/// The order in which rules are tried: longer triggers first, those of one
/// length by their text.
pub open spec fn rule_precedes(a: Seq<char>, b: Seq<char>) -> bool {
    byte_len(a) > byte_len(b) || (byte_len(a) == byte_len(b) && text_le(a, b))
}

impl Ranked for PhraseReplacement {
    open spec fn precedes(self, other: Self) -> bool {
        rule_precedes(self.trigger@, other.trigger@)
    }

    proof fn lemma_order(a: Self, b: Self, c: Self) {
        lemma_text_le_total(a.trigger@, b.trigger@);
        if text_le(a.trigger@, b.trigger@) && text_le(b.trigger@, c.trigger@) {
            lemma_text_le_transitive(a.trigger@, b.trigger@, c.trigger@);
        }
    }

    fn comes_before(&self, other: &Self) -> (r: bool) {
        let x: usize = self.trigger.as_str().len();
        let y: usize = other.trigger.as_str().len();
        x > y || (x == y && str_le(&self.trigger, &other.trigger))
    }
}

/// The rules whose trigger is not blank.
pub open spec fn usable(s: Seq<PhraseReplacement>) -> Seq<PhraseReplacement>
    decreases s.len(),
{
    if s.len() == 0 {
        s
    } else if trim(s.last().trigger@).len() == 0 {
        usable(s.drop_last())
    } else {
        usable(s.drop_last()).push(s.last())
    }
}

/// Whether a character is a letter or a number.
pub open spec fn is_word_char(c: char) -> bool {
    if (c as u32) < 128 {
        crate::strings::is_ascii_alnum(c)
    } else {
        is_alphanumeric(c)
    }
}

/// Whether a phrase may end or begin next to this character: no letter, number,
/// underscore or hyphen stands there.
pub open spec fn is_boundary(o: Option<char>) -> bool {
    match o {
        Some(c) => !is_word_char(c) && c != '_' && c != '-',
        None => true,
    }
}

/// The character before position `i`.
pub open spec fn char_before(s: Seq<char>, i: int) -> Option<char> {
    if i > 0 {
        Some(s[i - 1])
    } else {
        None
    }
}

/// The character at position `i`.
pub open spec fn char_after(s: Seq<char>, i: int) -> Option<char> {
    if i < s.len() {
        Some(s[i])
    } else {
        None
    }
}

/// Whether a trigger stands at position `i` as a whole phrase, whatever the case
/// of its letters.
pub open spec fn phrase_at(text: Seq<char>, i: int, trigger: Seq<char>) -> bool {
    &&& occurs_at(lower(text), lower(trigger), i)
    &&& is_boundary(char_before(text, i))
    &&& is_boundary(char_after(text, i + trigger.len()))
}

/// The first rule from the `k`-th on that applies at position `i`.
pub open spec fn rule_at(
    text: Seq<char>,
    i: int,
    rules: Seq<PhraseReplacement>,
    k: int,
) -> Option<int>
    decreases rules.len() - k,
{
    if k < 0 || k >= rules.len() {
        None
    } else if phrase_at(text, i, rules[k].trigger@) {
        Some(k)
    } else {
        rule_at(text, i, rules, k + 1)
    }
}

/// The text from position `i` on with each phrase replaced, left to right; no
/// rule applies inside a phrase that was replaced or inside its replacement.
pub open spec fn replaced_from(text: Seq<char>, rules: Seq<PhraseReplacement>, i: int) -> Seq<char>
    decreases text.len() - i,
{
    if i < 0 || i >= text.len() {
        Seq::empty()
    } else {
        match rule_at(text, i, rules, 0) {
            Some(k) => if 0 < rules[k].trigger@.len() <= text.len() - i {
                rules[k].replacement@ + replaced_from(
                    text,
                    rules,
                    i + rules[k].trigger@.len(),
                )
            } else {
                Seq::empty()
            },
            None => seq![text[i]] + replaced_from(text, rules, i + 1),
        }
    }
}

/// A text with the phrases of the rules replaced; longer triggers are tried
/// first.
pub open spec fn replaced(text: Seq<char>, rules: Seq<PhraseReplacement>) -> Seq<char> {
    replaced_from(text, ranked(usable(rules)), 0)
}

/// Whether a phrase may end or begin next to this character.
fn is_phrase_boundary(c: Option<char>) -> (r: bool)
    ensures
        r == is_boundary(c),
{
    match c {
        Some(c) => !c.is_alphanumeric() && c != '_' && c != '-',
        None => true,
    }
}

/// Whether a trigger stands at position `i` as a whole phrase.
fn phrase_matches(text: &Vec<char>, lowered: &Vec<char>, i: usize, trigger: &Vec<char>) -> (r: bool)
    requires
        i <= text@.len(),
        lowered@ == lower(text@),
    ensures
        forall|t: Seq<char>|
            trigger@ == lower(t) ==> r == #[trigger] phrase_at(text@, i as int, t),
{
    if !chars_occur_at(lowered, trigger, i) {
        return false;
    }
    let total: usize = text.len();
    let end: usize = i + trigger.len();
    let before = if i > 0 {
        Some(text[i - 1])
    } else {
        None
    };
    let after = if end < total {
        Some(text[end])
    } else {
        None
    };
    is_phrase_boundary(before) && is_phrase_boundary(after)
}

/// The rules whose trigger is not blank.
fn usable_rules(rules: Vec<PhraseReplacement>) -> (r: Vec<PhraseReplacement>)
    ensures
        r@ == usable(rules@),
        forall|k: int| 0 <= k < r@.len() ==> (#[trigger] r@[k]).trigger@.len() > 0,
{
    let mut r: Vec<PhraseReplacement> = Vec::new();
    let ghost all = rules@;
    for rule in it: rules
        invariant
            it.seq() == all,
            r@ == usable(all.take(it.index())),
            forall|k: int| 0 <= k < r@.len() ==> (#[trigger] r@[k]).trigger@.len() > 0,
    {
        let ghost i = it.index();
        assert(all.take(i + 1).drop_last() =~= all.take(i));
        assert(all.take(i + 1).last() == rule);
        let trimmed = str_trim(&rule.trigger);
        if !trimmed.as_str().is_empty() {
            r.push(rule);
        }
    }
    assert(all.take(all.len() as int) =~= all);
    r
}

/// Sorting keeps every rule's trigger nonempty.
proof fn lemma_ranked_triggers(s: Seq<PhraseReplacement>)
    requires
        forall|k: int| 0 <= k < s.len() ==> (#[trigger] s[k]).trigger@.len() > 0,
    ensures
        forall|k: int| 0 <= k < ranked(s).len() ==> (#[trigger] ranked(s)[k]).trigger@.len() > 0,
{
    broadcast use vstd::seq_lib::group_to_multiset_ensures;

    lemma_ranked(s);
    let r = ranked(s);
    assert forall|k: int| 0 <= k < r.len() implies (#[trigger] r[k]).trigger@.len() > 0 by {
        assert(r.contains(r[k]));
        assert(r.to_multiset().count(r[k]) > 0);
        assert(s.contains(r[k]));
        let j = choose|j: int| 0 <= j < s.len() && s[j] == r[k];
        assert(s[j].trigger@.len() > 0);
    }
}

/// Replaces the phrases of the rules.
fn apply_phrase_replacements(text: &str, rules: Vec<PhraseReplacement>) -> (r: String)
    ensures
        r@ == replaced(text@, rules@),
{
    let chosen = usable_rules(rules);
    proof {
        lemma_ranked_triggers(chosen@);
    }
    let ordered = sort_ranked(chosen);
    let ghost rs = ordered@;
    let v = chars_of(text);
    let lowered = lower_chars(&v);
    let mut triggers: Vec<Vec<char>> = Vec::new();
    let mut n: usize = 0;
    while n < ordered.len()
        invariant
            n <= ordered@.len(),
            ordered@ == rs,
            triggers@.len() == n,
            forall|j: int|
                0 <= j < n ==> (#[trigger] triggers@[j])@ == lower(rs[j].trigger@),
        decreases ordered@.len() - n,
    {
        triggers.push(lower_chars(&chars_of(&ordered[n].trigger)));
        n += 1;
    }
    let mut output = String::new();
    let mut i: usize = 0;
    assert(output@ + replaced_from(v@, rs, 0) =~= replaced_from(v@, rs, 0));
    while i < v.len()
        invariant
            i <= v@.len(),
            v@ == text@,
            lowered@ == lower(v@),
            ordered@ == rs,
            triggers@.len() == rs.len(),
            forall|j: int|
                0 <= j < rs.len() ==> (#[trigger] triggers@[j])@ == lower(rs[j].trigger@),
            forall|k: int| 0 <= k < rs.len() ==> (#[trigger] rs[k]).trigger@.len() > 0,
            output@ + replaced_from(v@, rs, i as int) == replaced_from(v@, rs, 0),
        decreases v@.len() - i,
    {
        let mut k: usize = 0;
        let mut matched: Option<usize> = None;
        while k < ordered.len() && matched.is_none()
            invariant
                i < v@.len(),
                k <= ordered@.len(),
                lowered@ == lower(v@),
                ordered@ == rs,
                triggers@.len() == rs.len(),
                forall|j: int|
                    0 <= j < rs.len() ==> (#[trigger] triggers@[j])@ == lower(rs[j].trigger@),
                match matched {
                    Some(m) => m < rs.len() && rule_at(v@, i as int, rs, 0) == Some(m as int)
                        && phrase_at(v@, i as int, rs[m as int].trigger@),
                    None => rule_at(v@, i as int, rs, 0) == rule_at(v@, i as int, rs, k as int),
                },
            decreases ordered@.len() - k,
        {
            if phrase_matches(&v, &lowered, i, &triggers[k]) {
                assert(phrase_at(v@, i as int, rs[k as int].trigger@));
                matched = Some(k);
            } else {
                assert(!phrase_at(v@, i as int, rs[k as int].trigger@));
            }
            k += 1;
        }
        let ghost before = output@;
        match matched {
            Some(m) => {
                output.append(&ordered[m].replacement);
                assert(triggers@[m as int]@.len() == rs[m as int].trigger@.len());
                let step: usize = triggers[m].len();
                assert(before + (rs[m as int].replacement@ + replaced_from(v@, rs, i + step))
                    =~= output@ + replaced_from(v@, rs, i + step));
                i += step;
            },
            None => {
                output.push(v[i]);
                assert(before + (seq![v@[i as int]] + replaced_from(v@, rs, i + 1)) =~= output@
                    + replaced_from(v@, rs, i + 1));
                i += 1;
            },
        }
    }
    assert(output@ + replaced_from(v@, rs, i as int) =~= output@);
    output
}

/// The rules that vocabulary entries give.
pub open spec fn vocabulary_rules(e: Seq<VocabularyEntry>) -> Seq<PhraseReplacement> {
    Seq::new(
        e.len(),
        |i: int| PhraseReplacement { trigger: e[i].phrase, replacement: e[i].replacement },
    )
}

/// The rules that snippets give.
pub open spec fn snippet_rules(e: Seq<SnippetEntry>) -> Seq<PhraseReplacement> {
    Seq::new(
        e.len(),
        |i: int| PhraseReplacement { trigger: e[i].trigger, replacement: e[i].body },
    )
}

/// Replaces the phrases of the vocabulary.
fn apply_vocabulary(text: &str, entries: &[VocabularyEntry]) -> (r: String)
    ensures
        r@ == replaced(text@, vocabulary_rules(entries@)),
{
    let mut rules: Vec<PhraseReplacement> = Vec::new();
    let mut i: usize = 0;
    while i < entries.len()
        invariant
            i <= entries@.len(),
            rules@ =~= vocabulary_rules(entries@).take(i as int),
        decreases entries@.len() - i,
    {
        rules.push(
            PhraseReplacement {
                trigger: entries[i].phrase.clone(),
                replacement: entries[i].replacement.clone(),
            },
        );
        i += 1;
    }
    assert(rules@ =~= vocabulary_rules(entries@));
    apply_phrase_replacements(text, rules)
}

/// Replaces the triggers of the snippets.
fn apply_snippets(text: &str, entries: &[SnippetEntry]) -> (r: String)
    ensures
        r@ == replaced(text@, snippet_rules(entries@)),
{
    let mut rules: Vec<PhraseReplacement> = Vec::new();
    let mut i: usize = 0;
    while i < entries.len()
        invariant
            i <= entries@.len(),
            rules@ =~= snippet_rules(entries@).take(i as int),
        decreases entries@.len() - i,
    {
        rules.push(
            PhraseReplacement {
                trigger: entries[i].trigger.clone(),
                replacement: entries[i].body.clone(),
            },
        );
        i += 1;
    }
    assert(rules@ =~= snippet_rules(entries@));
    apply_phrase_replacements(text, rules)
}

/// A text cleaned by the local rules: fillers dropped, spacing cleaned, the
/// vocabulary and then the snippets replaced, and the spacing of each line
/// cleaned again.
pub open spec fn cleaned(
    raw: Seq<char>,
    vocabulary: Seq<VocabularyEntry>,
    snippets: Seq<SnippetEntry>,
) -> Seq<char> {
    spacing_cleaned_by_line(
        replaced(
            replaced(spacing_cleaned(fillers_removed(raw)), vocabulary_rules(vocabulary)),
            snippet_rules(snippets),
        ),
    )
}

/// Cleans a text by the local rules.
fn apply_deterministic_rules(raw: &str, rules: &TextRules<'_>) -> (r: String)
    ensures
        r@ == cleaned(raw@, rules.vocabulary@, rules.snippets@),
{
    let no_fillers = remove_safe_fillers(raw);
    let spaced = clean_spacing(&no_fillers);
    let with_vocabulary = apply_vocabulary(&spaced, rules.vocabulary);
    let with_snippets = apply_snippets(&with_vocabulary, rules.snippets);
    clean_spacing_preserving_newlines(&with_snippets)
}

/// A trimmed text with a full stop, unless it is empty or ends a sentence or a
/// code span already.
pub open spec fn sentence_ended(s: Seq<char>) -> Seq<char> {
    let t = trim(s);
    if t.len() == 0 || t.last() == '.' || t.last() == '!' || t.last() == '?' || t.last() == '`' {
        t
    } else {
        t + "."@
    }
}

/// Ends the last sentence of a text.
fn ensure_sentence_end(text: &str) -> (r: String)
    ensures
        r@ == sentence_ended(text@),
{
    let t = str_trim(text);
    let v = chars_of(&t);
    if v.len() == 0 {
        return t;
    }
    let last = v[v.len() - 1];
    if last == '.' || last == '!' || last == '?' || last == '`' {
        t
    } else {
        cat2(&t, ".")
    }
}

// ---------------------------------------------------------------------------
// Modes
// ---------------------------------------------------------------------------

/// The texts of string slices.
pub open spec fn strs(v: Seq<&'static str>) -> Seq<Seq<char>> {
    Seq::new(v.len(), |i: int| v[i]@)
}

impl TextMode {
    /// The mode with a name.
    pub open spec fn named(name: Seq<char>) -> Option<TextMode> {
        if name == "raw"@ {
            Some(TextMode::Raw)
        } else if name == "clean"@ {
            Some(TextMode::Clean)
        } else if name == "memo"@ {
            Some(TextMode::Memo)
        } else if name == "coding-prompt"@ {
            Some(TextMode::CodingPrompt)
        } else if name == "email-reply"@ {
            Some(TextMode::EmailReply)
        } else if name == "slack-reply"@ {
            Some(TextMode::SlackReply)
        } else {
            None
        }
    }

    /// The name of the mode.
    pub open spec fn name(self) -> Seq<char> {
        match self {
            TextMode::Raw => "raw"@,
            TextMode::Clean => "clean"@,
            TextMode::Memo => "memo"@,
            TextMode::CodingPrompt => "coding-prompt"@,
            TextMode::EmailReply => "email-reply"@,
            TextMode::SlackReply => "slack-reply"@,
        }
    }

    /// The built-in mode with a name.
    pub fn parse(name: &str) -> (r: Option<TextMode>)
        ensures
            r == TextMode::named(name@),
    {
        if str_eq(name, "raw") {
            Some(TextMode::Raw)
        } else if str_eq(name, "clean") {
            Some(TextMode::Clean)
        } else if str_eq(name, "memo") {
            Some(TextMode::Memo)
        } else if str_eq(name, "coding-prompt") {
            Some(TextMode::CodingPrompt)
        } else if str_eq(name, "email-reply") {
            Some(TextMode::EmailReply)
        } else if str_eq(name, "slack-reply") {
            Some(TextMode::SlackReply)
        } else {
            None
        }
    }

    /// The name of the mode.
    pub fn as_str(self) -> (r: &'static str)
        ensures
            r@ == self.name(),
    {
        match self {
            TextMode::Raw => "raw",
            TextMode::Clean => "clean",
            TextMode::Memo => "memo",
            TextMode::CodingPrompt => "coding-prompt",
            TextMode::EmailReply => "email-reply",
            TextMode::SlackReply => "slack-reply",
        }
    }

    /// What the mode makes of a text.
    pub open spec fn processed(
        self,
        raw: Seq<char>,
        vocabulary: Seq<VocabularyEntry>,
        snippets: Seq<SnippetEntry>,
    ) -> Seq<char> {
        match self {
            TextMode::Raw => trim(raw),
            TextMode::Clean | TextMode::SlackReply => cleaned(raw, vocabulary, snippets),
            TextMode::Memo | TextMode::CodingPrompt | TextMode::EmailReply => sentence_ended(
                cleaned(raw, vocabulary, snippets),
            ),
        }
    }

    /// Processes a dictated text.
    pub fn process(self, raw_text: &str, rules: TextRules<'_>) -> (r: String)
        ensures
            r@ == self.processed(raw_text@, rules.vocabulary@, rules.snippets@),
    {
        match self {
            TextMode::Raw => str_trim(raw_text),
            TextMode::Clean | TextMode::SlackReply => apply_deterministic_rules(raw_text, &rules),
            TextMode::Memo | TextMode::CodingPrompt | TextMode::EmailReply => ensure_sentence_end(
                &apply_deterministic_rules(raw_text, &rules),
            ),
        }
    }

    /// The names of the steps that the mode takes.
    pub open spec fn steps(self) -> Seq<Seq<char>> {
        let rules = seq!["deterministic-cleanup"@, "vocabulary"@, "snippets"@];
        match self {
            TextMode::Raw => seq!["raw"@],
            TextMode::Clean => rules,
            TextMode::Memo => rules.push("memo-mode"@),
            TextMode::CodingPrompt => rules.push("coding-prompt-mode"@),
            TextMode::EmailReply => rules.push("email-reply-mode"@),
            TextMode::SlackReply => rules.push("slack-reply-mode"@),
        }
    }

    /// The names of the steps that the mode takes.
    pub fn processing_steps(self) -> (r: Vec<&'static str>)
        ensures
            strs(r@) == self.steps(),
    {
        let mut steps: Vec<&'static str> = Vec::new();
        match self {
            TextMode::Raw => {
                steps.push("raw");
            },
            _ => {
                steps.push("deterministic-cleanup");
                steps.push("vocabulary");
                steps.push("snippets");
                match self {
                    TextMode::Memo => {
                        steps.push("memo-mode");
                    },
                    TextMode::CodingPrompt => {
                        steps.push("coding-prompt-mode");
                    },
                    TextMode::EmailReply => {
                        steps.push("email-reply-mode");
                    },
                    TextMode::SlackReply => {
                        steps.push("slack-reply-mode");
                    },
                    _ => {},
                }
            },
        }
        assert(strs(steps@) =~= self.steps());
        steps
    }
}

/// The name of a mode is read back as that mode.
pub proof fn law_mode_name_round_trip(m: TextMode)
    ensures
        TextMode::named(m.name()) == Some(m),
{
    reveal_strlit("raw");
    reveal_strlit("clean");
    reveal_strlit("memo");
    reveal_strlit("coding-prompt");
    reveal_strlit("email-reply");
    reveal_strlit("slack-reply");
    assert("raw"@.len() == 3);
    assert("clean"@.len() == 5);
    assert("memo"@.len() == 4);
    assert("coding-prompt"@.len() == 13);
    assert("email-reply"@.len() == 11);
    assert("slack-reply"@.len() == 11);
    assert("email-reply"@[0] == 'e');
    assert("slack-reply"@[0] == 's');
}

/// Closing up keeps what is said, and the last character.
proof fn lemma_said_closed_up(s: Seq<char>)
    ensures
        said(closed_up(s)) == said(s),
        s.len() > 0 ==> closed_up(s).len() > 0 && closed_up(s).last() == s.last(),
    decreases s.len(),
{
    if s.len() > 0 {
        let t = s.drop_last();
        lemma_said_closed_up(t);
        let x = closed_up(t);
        let y = strip_end(x, CharClass::Is(' '));
        lemma_strip(x, CharClass::Is(' '));
        lemma_stripped(x, CharClass::Is(' '));
        let z = x.skip(y.len() as int);
        assert forall|k: int| 0 <= k < z.len() implies is_white(#[trigger] z[k]) by {
            assert(z[k] == x[y.len() + k]);
            assert(CharClass::Is(' ').holds(x[y.len() + k]));
        }
        lemma_said_white(z);
        lemma_said_add(y, z);
        assert(x =~= y + z);
        assert(said(x) =~= said(y));
        lemma_said_add(t, seq![s.last()]);
        lemma_said_add(x, seq![s.last()]);
        lemma_said_add(y, seq![s.last()]);
        assert(s =~= t + seq![s.last()]);
        assert(y.push(s.last()) =~= y + seq![s.last()]);
        assert(x.push(s.last()) =~= x + seq![s.last()]);
    }
}

/// Cleaning the spacing changes white space alone: every other character stays, in its
/// sequence.
pub proof fn law_spacing_keeps_what_is_said(s: Seq<char>)
    ensures
        said(spacing_cleaned(s)) == said(s),
        said(spacing_cleaned_by_line(s)) == said(s),
{
    lemma_said_spacing(s);
    let p = split(s, CharClass::Is('\n'));
    let q = lines_cleaned(p);
    law_split_and_join(s, '\n');
    reveal_strlit("\n");
    assert("\n"@ =~= seq!['\n']);
    lemma_said_lines(p);
    lemma_said_trim(join(q, "\n"@));
}

/// Cleaning the spacing keeps what is said.
proof fn lemma_said_spacing(s: Seq<char>)
    ensures
        said(spacing_cleaned(s)) == said(s),
{
    let j = join(words(s), " "@);
    lemma_said_words(s);
    lemma_said_closed_up(j);
    lemma_said_trim(closed_up(j));
}

/// Cleaning lines keeps what they say.
proof fn lemma_said_lines(p: Seq<Seq<char>>)
    ensures
        said(join(lines_cleaned(p), "\n"@)) == said(join(p, "\n"@)),
    decreases p.len(),
{
    let q = lines_cleaned(p);
    if p.len() == 0 {
        assert(q =~= p);
    } else {
        lemma_said_spacing(p.last());
        if p.len() > 1 {
            let t = p.drop_last();
            lemma_said_lines(t);
            assert(q.drop_last() =~= lines_cleaned(t));
            lemma_said_add(join(t, "\n"@), "\n"@);
            lemma_said_add(join(t, "\n"@) + "\n"@, p.last());
            lemma_said_add(join(lines_cleaned(t), "\n"@), "\n"@);
            lemma_said_add(join(lines_cleaned(t), "\n"@) + "\n"@, q.last());
        }
    }
}

/// Whether white space in a text is single blanks.
spec fn is_tidy(s: Seq<char>) -> bool {
    &&& forall|i: int| 0 <= i < s.len() && is_white(#[trigger] s[i]) ==> s[i] == ' '
    &&& forall|i: int| 0 <= i < s.len() - 1 && #[trigger] s[i] == ' ' ==> s[i + 1] != ' '
}

/// Joined words are tidy, and begin and end with no blank.
proof fn lemma_joined_tidy(w: Seq<Seq<char>>)
    requires
        forall|i: int| 0 <= i < w.len() ==> (#[trigger] w[i]).len() > 0 && is_solid(w[i]),
    ensures
        is_tidy(join(w, " "@)),
        w.len() > 0 ==> join(w, " "@).len() > 0 && !is_white(join(w, " "@).last()),
    decreases w.len(),
{
    reveal_strlit(" ");
    assert(" "@ =~= seq![' ']);
    if w.len() > 0 {
        let t = w.drop_last();
        let x = w[w.len() - 1];
        assert(is_solid(x) && x.len() > 0);
        assert(!is_white(x[x.len() - 1]));
        assert(is_white(' '));
        assert forall|i: int| 0 <= i < x.len() implies #[trigger] x[i] != ' ' by {
            assert(!is_white(x[i]));
        }
        if w.len() > 1 {
            assert forall|i: int| 0 <= i < t.len() implies (#[trigger] t[i]).len() > 0 && is_solid(
                t[i],
            ) by {
                assert(t[i] == w[i]);
            }
            lemma_joined_tidy(t);
            let a = join(t, " "@);
            let s = a + " "@ + x;
            assert(join(w, " "@) == s);
            assert forall|i: int| 0 <= i < s.len() && is_white(#[trigger] s[i]) implies s[i]
                == ' ' by {
                if i < a.len() {
                    assert(s[i] == a[i]);
                } else if i > a.len() {
                    assert(s[i] == x[i - a.len() - 1]);
                }
            }
            assert forall|i: int| 0 <= i < s.len() - 1 && #[trigger] s[i] == ' ' implies s[i + 1]
                != ' ' by {
                if i < a.len() - 1 {
                    assert(s[i] == a[i]);
                } else if i == a.len() - 1 {
                    assert(s[i] == a.last());
                } else if i == a.len() {
                    assert(s[i + 1] == x[0]);
                } else {
                    assert(s[i] == x[i - a.len() - 1]);
                }
            }
        }
    }
}

/// Closing up leaves a tidy text with no blank before a closing mark.
proof fn lemma_closed_up_tidy(s: Seq<char>)
    requires
        is_tidy(s),
    ensures
        is_tidy(closed_up(s)),
        forall|i: int|
            0 <= i < closed_up(s).len() - 1 && is_closing(closed_up(s)[i + 1]) ==> #[trigger] closed_up(
                s,
            )[i] != ' ',
    decreases s.len(),
{
    if s.len() > 0 {
        let t = s.drop_last();
        assert(is_tidy(t)) by {
            assert forall|i: int| 0 <= i < t.len() && is_white(#[trigger] t[i]) implies t[i]
                == ' ' by {
                assert(t[i] == s[i]);
            }
            assert forall|i: int| 0 <= i < t.len() - 1 && #[trigger] t[i] == ' ' implies t[i + 1]
                != ' ' by {
                assert(s[i] == ' ');
            }
        }
        lemma_closed_up_tidy(t);
        lemma_said_closed_up(t);
        let x = closed_up(t);
        let y = strip_end(x, CharClass::Is(' '));
        lemma_strip(x, CharClass::Is(' '));
        let r = closed_up(s);
        let n = r.len() - 1;
        assert(r[n] == s.last());
        assert forall|i: int| 0 <= i < n implies #[trigger] r[i] == x[i] by {}
        assert forall|i: int| 0 <= i < r.len() && is_white(#[trigger] r[i]) implies r[i]
            == ' ' by {
            if i == n {
                assert(s[s.len() - 1] == r[i]);
            }
        }
        assert forall|i: int| 0 <= i < r.len() - 1 && #[trigger] r[i] == ' ' implies r[i + 1]
            != ' ' by {
            if i == n - 1 {
                if is_closing(s.last()) {
                    assert(y.last() == r[i]);
                } else {
                    assert(t.len() > 0) by {
                        if t.len() == 0 {
                            assert(x =~= Seq::empty());
                        }
                    }
                    assert(r[i] == t.last());
                    assert(s[s.len() - 2] == ' ');
                }
            }
        }
        assert forall|i: int| 0 <= i < r.len() - 1 && is_closing(r[i + 1]) implies #[trigger] r[i]
            != ' ' by {
            if i == n - 1 {
                assert(y.last() == r[i]);
            }
        }
    }
}

/// Cleaned spacing has single blanks for all white space, none at the edges and none
/// before a closing mark.
pub proof fn law_spacing_is_clean(s: Seq<char>)
    ensures
        ({
            let r = spacing_cleaned(s);
            &&& forall|i: int| 0 <= i < r.len() && is_white(#[trigger] r[i]) ==> r[i] == ' '
            &&& forall|i: int|
                0 <= i < r.len() && #[trigger] r[i] == ' ' ==> 0 < i < r.len() - 1 && {
                    let next = r[i + 1];
                    next != ' ' && next != ',' && next != '.' && next != '!' && next != '?' && next
                        != ':' && next != ';' && next != ')' && next != ']' && next != '}'
                }
        }),
{
    let j = join(words(s), " "@);
    law_words_are_solid(s);
    lemma_joined_tidy(words(s));
    lemma_closed_up_tidy(j);
    let x = closed_up(j);
    let r = spacing_cleaned(s);
    let (a, b) = law_trim_cuts_the_edges(x);
    assert(r == x.subrange(a, b));
    assert forall|i: int| 0 <= i < r.len() && is_white(#[trigger] r[i]) implies r[i] == ' ' by {
        assert(r[i] == x[a + i]);
    }
    assert forall|i: int| 0 <= i < r.len() && #[trigger] r[i] == ' ' implies 0 < i < r.len() - 1 && {
        let next = r[i + 1];
        next != ' ' && !is_closing(next)
    } by {
        assert(r[i] == x[a + i]);
        assert(is_white(' '));
        if i < r.len() - 1 {
            assert(r[i + 1] == x[a + i + 1]);
        }
    }
}

/// The tokens that are kept are those that are no fillers.
proof fn lemma_without_fillers(p: Seq<Seq<char>>)
    ensures
        without_fillers(p) == p.filter(|t: Seq<char>| !is_filler(t)),
    decreases p.len(),
{
    reveal(Seq::filter);
    if p.len() > 0 {
        lemma_without_fillers(p.drop_last());
    }
}

/// The words of a text without its fillers are its other words, in their sequence.
pub proof fn law_just_fillers_are_dropped(s: Seq<char>)
    ensures
        words(fillers_removed(s)) == words(s).filter(|t: Seq<char>| !is_filler(t)),
{
    let w = words(s);
    let k = without_fillers(w);
    law_words_are_solid(s);
    lemma_without_fillers(w);
    assert forall|i: int| 0 <= i < k.len() implies (#[trigger] k[i]).len() > 0 && is_solid(
        k[i],
    ) by {
        lemma_kept_token(w, i);
        let j = choose|j: int| 0 <= j < w.len() && w[j] == k[i];
        assert(w[j].len() > 0);
    }
    law_words_of_joined_words(k);
}

/// A token that is kept is one of the tokens.
proof fn lemma_kept_token(p: Seq<Seq<char>>, i: int)
    requires
        0 <= i < without_fillers(p).len(),
    ensures
        p.contains(without_fillers(p)[i]),
    decreases p.len(),
{
    if p.len() > 0 {
        let t = p.drop_last();
        if i < without_fillers(t).len() {
            lemma_kept_token(t, i);
            let k = choose|k: int| 0 <= k < t.len() && t[k] == without_fillers(t)[i];
            assert(p[k] == without_fillers(p)[i]);
        } else {
            assert(p[p.len() - 1] == without_fillers(p)[i]);
        }
    }
}

/// Marks at an edge are cut one by one.
proof fn lemma_strip_edge(s: Seq<char>, m: char, class: CharClass)
    requires
        class.holds(m),
    ensures
        strip_start(seq![m] + s, class) == strip_start(s, class),
        strip_end(strip_start(s.push(m), class), class) == strip_end(strip_start(s, class), class),
    decreases s.len(),
{
    assert((seq![m] + s).drop_first() =~= s);
    let x = s.push(m);
    if s.len() == 0 {
        reveal_with_fuel(strip_start, 2);
        assert(x.drop_first() =~= s);
    } else if class.holds(s[0]) {
        let t = s.drop_first();
        assert(x.drop_first() =~= t.push(m));
        lemma_strip_edge(t, m, class);
    } else {
        assert(x.drop_last() =~= s);
    }
}

/// A filler is one whatever its case and whatever marks stand round it. A token that
/// begins and ends with no mark is a filler just where it is one of four.
pub proof fn law_fillers(t: Seq<char>, m: char)
    ensures
        m == ',' || m == '.' || m == '!' || m == '?' || m == ':' || m == ';' ==> is_filler(
            seq![m] + t,
        ) == is_filler(t) && is_filler(t.push(m)) == is_filler(t),
        t.len() > 0 && (97 <= t[0] as u32 <= 122 || 65 <= t[0] as u32 <= 90) && (97 <= t.last() as u32
            <= 122 || 65 <= t.last() as u32 <= 90) ==> (is_filler(t) <==> eq_ignore_case(t, "um"@)
            || eq_ignore_case(t, "uh"@) || eq_ignore_case(t, "umm"@) || eq_ignore_case(t, "uhh"@)),
{
    if CharClass::Marks.holds(m) {
        lemma_strip_edge(t, m, CharClass::Marks);
    }
    reveal_strlit("um");
    reveal_strlit("uh");
    reveal_strlit("umm");
    reveal_strlit("uhh");
    assert(lower("um"@) =~= "um"@);
    assert(lower("uh"@) =~= "uh"@);
    assert(lower("umm"@) =~= "umm"@);
    assert(lower("uhh"@) =~= "uhh"@);
}

/// A text that is a phrase of the vocabulary once it is cleaned becomes its replacement,
/// and one that is the trigger of a snippet becomes its body; the snippets are looked for
/// in what the vocabulary made.
pub proof fn law_vocabulary_and_then_snippets(raw: Seq<char>, v: VocabularyEntry, n: SnippetEntry)
    ensures
        ({
            let clean = spacing_cleaned(fillers_removed(raw));
            let none = Seq::<VocabularyEntry>::empty();
            &&& eq_ignore_case(clean, v.phrase@) && trim(v.phrase@).len() > 0
                ==> TextMode::Clean.processed(raw, seq![v], Seq::empty())
                == spacing_cleaned_by_line(v.replacement@)
            &&& eq_ignore_case(clean, n.trigger@) && trim(n.trigger@).len() > 0
                ==> TextMode::Clean.processed(raw, none, seq![n]) == spacing_cleaned_by_line(
                n.body@,
            )
            &&& eq_ignore_case(clean, v.phrase@) && trim(v.phrase@).len() > 0 && eq_ignore_case(
                v.replacement@,
                n.trigger@,
            ) && trim(n.trigger@).len() > 0 ==> TextMode::Clean.processed(raw, seq![v], seq![n])
                == spacing_cleaned_by_line(n.body@)
        }),
{
    let clean = spacing_cleaned(fillers_removed(raw));
    let a = PhraseReplacement { trigger: v.phrase, replacement: v.replacement };
    let b = PhraseReplacement { trigger: n.trigger, replacement: n.body };
    let none = Seq::<PhraseReplacement>::empty();
    assert(vocabulary_rules(seq![v]) =~= seq![a]);
    assert(snippet_rules(seq![n]) =~= seq![b]);
    assert(vocabulary_rules(Seq::empty()) =~= none);
    assert(snippet_rules(Seq::empty()) =~= none);
    assert(ranked(usable(none)) =~= none);
    law_replacement_needs_a_phrase(clean, none, 0);
    law_replacement_needs_a_phrase(v.replacement@, none, 0);
    assert(clean.skip(0) =~= clean);
    assert(v.replacement@.skip(0) =~= v.replacement@);
    if eq_ignore_case(clean, v.phrase@) && trim(v.phrase@).len() > 0 {
        law_phrase_becomes_its_replacement(clean, a);
        if eq_ignore_case(v.replacement@, n.trigger@) && trim(n.trigger@).len() > 0 {
            law_phrase_becomes_its_replacement(v.replacement@, b);
        }
    }
    if eq_ignore_case(clean, n.trigger@) && trim(n.trigger@).len() > 0 {
        law_phrase_becomes_its_replacement(clean, b);
    }
}

/// A sentence is ended by one full stop at most, and just where a trimmed text that is
/// not empty ends in no other mark.
pub proof fn law_sentences_end(s: Seq<char>)
    ensures
        ({
            let t = trim(s);
            let r = sentence_ended(s);
            &&& r == t || r == t.push('.')
            &&& t.len() == 0 ==> r.len() == 0
            &&& t.len() > 0 ==> r.last() == '.' || r.last() == '!' || r.last() == '?' || r.last()
                == '`'
            &&& t.len() > 0 && (t.last() == '.' || t.last() == '!' || t.last() == '?' || t.last()
                == '`') ==> r == t
        }),
{
    reveal_strlit(".");
    assert(trim(s) + "."@ =~= trim(s).push('.'));
}

/// Without vocabulary and snippets, every mode but the raw one says just what the words
/// of the text say, without its fillers; some modes add a full stop.
pub proof fn law_modes_keep_the_words(m: TextMode, raw: Seq<char>)
    requires
        m != TextMode::Raw,
    ensures
        ({
            let r = said(m.processed(raw, Seq::empty(), Seq::empty()));
            let kept = said(join(words(raw).filter(|t: Seq<char>| !is_filler(t)), " "@));
            r == kept || (r == kept.push('.') && m != TextMode::Clean && m != TextMode::SlackReply)
        }),
{
    let v = Seq::<VocabularyEntry>::empty();
    let n = Seq::<SnippetEntry>::empty();
    lemma_without_fillers(words(raw));
    let a = spacing_cleaned(fillers_removed(raw));
    lemma_said_spacing(fillers_removed(raw));
    assert(vocabulary_rules(v) =~= Seq::empty());
    assert(snippet_rules(n) =~= Seq::empty());
    let none = Seq::<PhraseReplacement>::empty();
    assert(ranked(usable(none)) =~= none);
    law_replacement_needs_a_phrase(a, none, 0);
    assert(a.skip(0) =~= a);
    law_spacing_keeps_what_is_said(a);
    let c = cleaned(raw, v, n);
    assert(said(c) == said(fillers_removed(raw)));
    law_sentences_end(c);
    lemma_said_trim(c);
    lemma_said_add(trim(c), seq!['.']);
    assert(trim(c) + seq!['.'] =~= trim(c).push('.'));
    assert(said(seq!['.']) =~= seq!['.']) by {
        reveal_with_fuel(Seq::<char>::filter, 2);
    }
}

/// Raw mode only trims the edges, and a second pass changes nothing.
pub proof fn law_raw_mode_only_trims(
    raw: Seq<char>,
    vocabulary: Seq<VocabularyEntry>,
    snippets: Seq<SnippetEntry>,
)
    ensures
        TextMode::Raw.processed(raw, vocabulary, snippets) == trim(raw),
        TextMode::Raw.processed(
            TextMode::Raw.processed(raw, vocabulary, snippets),
            vocabulary,
            snippets,
        ) == TextMode::Raw.processed(raw, vocabulary, snippets),
{
    crate::strings::law_trim_idempotent(raw);
}

/// A trigger stands at a position just where the text there is the trigger, but for the
/// case of ASCII letters, and neither a letter or number nor an underscore or hyphen
/// touches it on either side.
pub proof fn law_phrases_stand_in_any_case(text: Seq<char>, i: int, t: Seq<char>)
    ensures
        phrase_at(text, i, t) <==> {
            &&& 0 <= i
            &&& i + t.len() <= text.len()
            &&& forall|k: int|
                0 <= k < t.len() ==> (text[i + k] == #[trigger] t[k] || (65 <= text[i + k] as u32
                    <= 90 && t[k] as u32 == text[i + k] as u32 + 32) || (65 <= t[k] as u32 <= 90
                    && text[i + k] as u32 == t[k] as u32 + 32))
            &&& i > 0 ==> !is_word_char(text[i - 1]) && text[i - 1] != '_' && text[i - 1] != '-'
            &&& i + t.len() < text.len() ==> !is_word_char(text[i + t.len()]) && text[i + t.len()]
                != '_' && text[i + t.len()] != '-'
        },
{
    if 0 <= i && i + t.len() <= text.len() {
        let part = text.subrange(i, i + t.len());
        law_equal_but_for_case(part, t);
        assert(lower(text).subrange(i, i + t.len()) =~= lower(part));
        assert(lower(t).len() == t.len());
        if eq_ignore_case(part, t) {
            assert forall|k: int| 0 <= k < t.len() implies (text[i + k] == #[trigger] t[k] || (65
                <= text[i + k] as u32 <= 90 && t[k] as u32 == text[i + k] as u32 + 32) || (65
                <= t[k] as u32 <= 90 && text[i + k] as u32 == t[k] as u32 + 32)) by {
                assert(part[k] == text[i + k]);
            }
        } else {
            let k = choose|k: int|
                0 <= k < part.len() && !(#[trigger] part[k] == t[k] || (65 <= part[k] as u32 <= 90
                    && t[k] as u32 == part[k] as u32 + 32) || (65 <= t[k] as u32 <= 90
                    && part[k] as u32 == t[k] as u32 + 32));
            assert(part[k] == text[i + k]);
            let x = t[k];
        }
    } else {
        assert(lower(t).len() == t.len());
        assert(lower(text).len() == text.len());
    }
}

/// A letter is one in either case.
proof fn lemma_letter_case(x: char, y: char)
    requires
        x == y || (65 <= x as u32 <= 90 && y as u32 == x as u32 + 32) || (65 <= y as u32 <= 90
            && x as u32 == y as u32 + 32),
    ensures
        is_boundary(Some(x)) == is_boundary(Some(y)),
{
    if x != y {
        assert(is_word_char(x));
        assert(is_word_char(y));
    }
}

/// Whether a trigger stands at a position does not depend on the case of the text, nor on
/// that of the trigger.
pub proof fn law_case_does_not_matter(
    a: Seq<char>,
    b: Seq<char>,
    i: int,
    t: Seq<char>,
    u: Seq<char>,
)
    requires
        lower(a) == lower(b),
        lower(t) == lower(u),
    ensures
        phrase_at(a, i, t) == phrase_at(b, i, u),
{
    assert(lower(a).len() == a.len() && lower(b).len() == b.len());
    assert(lower(t).len() == t.len() && lower(u).len() == u.len());
    assert forall|k: int| 0 <= k < a.len() implies is_boundary(Some(#[trigger] a[k]))
        == is_boundary(Some(b[k])) by {
        law_equal_but_for_case(a, b);
        lemma_letter_case(a[k], b[k]);
    }
}

/// The first phrase of a text is replaced where it stands: what comes before it stays, its
/// replacement comes in its place, and the text goes on behind it. Of the rules whose
/// trigger stands there, the one with the longest is taken.
pub proof fn law_first_phrase_is_replaced(
    text: Seq<char>,
    rules: Seq<PhraseReplacement>,
    i: int,
    m: int,
)
    requires
        0 <= i < text.len(),
        0 <= m < rules.len(),
        trim(rules[m].trigger@).len() > 0,
        phrase_at(text, i, rules[m].trigger@),
        forall|k: int|
            0 <= k < rules.len() && k != m && trim((#[trigger] rules[k]).trigger@).len() > 0
                && phrase_at(text, i, rules[k].trigger@) ==> byte_len(rules[k].trigger@) < byte_len(
                rules[m].trigger@,
            ),
        forall|j: int, k: int|
            0 <= j < i && 0 <= k < rules.len() && trim(rules[k].trigger@).len() > 0
                ==> !#[trigger] phrase_at(text, j, rules[k].trigger@),
    ensures
        replaced(text, rules) == text.take(i) + rules[m].replacement@ + replaced_from(
            text,
            ranked(usable(rules)),
            i + rules[m].trigger@.len(),
        ),
        (forall|j: int, k: int|
            i + rules[m].trigger@.len() <= j < text.len() && 0 <= k < rules.len() && trim(
                rules[k].trigger@,
            ).len() > 0 ==> !#[trigger] phrase_at(text, j, rules[k].trigger@)) ==> replaced(
            text,
            rules,
        ) == text.take(i) + rules[m].replacement@ + text.skip(i + rules[m].trigger@.len()),
{
    let rs = ranked(usable(rules));
    let end = i + rules[m].trigger@.len();
    let rest = replaced_from(text, rs, end);
    lemma_rule_chosen(text, rules, i, m);
    assert forall|j: int| 0 <= j < i implies #[trigger] none_at(text, rules, j) by {
        assert forall|k: int| 0 <= k < rules.len() && trim(
            (#[trigger] rules[k]).trigger@,
        ).len() > 0 implies !phrase_at(text, j, rules[k].trigger@) by {}
    }
    lemma_copied(text, rules, 0, i);
    assert(text.subrange(0, i) =~= text.take(i));
    assert(text.take(i) + (rules[m].replacement@ + rest) =~= text.take(i) + rules[m].replacement@
        + rest);
    if forall|j: int, k: int|
        end <= j < text.len() && 0 <= k < rules.len() && trim(rules[k].trigger@).len() > 0
            ==> !#[trigger] phrase_at(text, j, rules[k].trigger@) {
        assert forall|j: int| end <= j < text.len() implies #[trigger] none_at(
            text,
            rules,
            j,
        ) by {
            assert forall|k: int| 0 <= k < rules.len() && trim(
                (#[trigger] rules[k]).trigger@,
            ).len() > 0 implies !phrase_at(text, j, rules[k].trigger@) by {}
        }
        law_phrases_stand_in_any_case(text, i, rules[m].trigger@);
        lemma_copied(text, rules, end, text.len() as int);
        assert(text.subrange(end, text.len() as int) =~= text.skip(end));
        assert(text.skip(end) + replaced_from(text, rs, text.len() as int) =~= text.skip(end));
    }
}

/// Whether no rule with a trigger that is not blank stands at a position.
spec fn none_at(text: Seq<char>, rules: Seq<PhraseReplacement>, j: int) -> bool {
    forall|k: int|
        0 <= k < rules.len() && trim((#[trigger] rules[k]).trigger@).len() > 0 ==> !phrase_at(
            text,
            j,
            rules[k].trigger@,
        )
}

/// The rule with the longest trigger of those that stand at a position is applied there.
proof fn lemma_rule_chosen(text: Seq<char>, rules: Seq<PhraseReplacement>, i: int, m: int)
    requires
        0 <= i < text.len(),
        0 <= m < rules.len(),
        trim(rules[m].trigger@).len() > 0,
        phrase_at(text, i, rules[m].trigger@),
        forall|k: int|
            0 <= k < rules.len() && k != m && trim((#[trigger] rules[k]).trigger@).len() > 0
                && phrase_at(text, i, rules[k].trigger@) ==> byte_len(rules[k].trigger@) < byte_len(
                rules[m].trigger@,
            ),
    ensures
        replaced_from(text, ranked(usable(rules)), i) == rules[m].replacement@ + replaced_from(
            text,
            ranked(usable(rules)),
            i + rules[m].trigger@.len(),
        ),
{
    let rs = ranked(usable(rules));
    let z = lemma_rule_is_used(rules, m);
    lemma_some_rule(text, i, rs, 0, z);
    let k = rule_at(text, i, rs, 0)->Some_0;
    lemma_ranked(usable(rules));
    law_longest_trigger_wins(text, i, rs, k, z);
    lemma_rule_at(text, i, rs, 0, k);
    let a = lemma_used_rule(rules, k);
    assert(a == m);
    law_trim_cuts_the_edges(rules[m].trigger@);
    law_phrases_stand_in_any_case(text, i, rules[m].trigger@);
}

/// A rule whose trigger is not blank is used.
proof fn lemma_rule_is_used(rules: Seq<PhraseReplacement>, m: int) -> (z: int)
    requires
        0 <= m < rules.len(),
        trim(rules[m].trigger@).len() > 0,
    ensures
        0 <= z < ranked(usable(rules)).len(),
        ranked(usable(rules))[z] == rules[m],
{
    let u = usable(rules);
    lemma_usable(rules);
    let y = choose|y: int| 0 <= y < u.len() && #[trigger] u[y] == rules[m];
    let p = crate::ordering::lemma_ranked_places(u);
    assert(p.contains(y));
    let z = choose|z: int| 0 <= z < p.len() && p[z] == y;
    assert(ranked(u)[z] == u[p[z]]);
    z
}

/// What is used is a rule whose trigger is not blank.
proof fn lemma_used_rule(rules: Seq<PhraseReplacement>, z: int) -> (m: int)
    requires
        0 <= z < ranked(usable(rules)).len(),
    ensures
        0 <= m < rules.len(),
        trim(rules[m].trigger@).len() > 0,
        ranked(usable(rules))[z] == rules[m],
{
    let u = usable(rules);
    lemma_usable(rules);
    let p = crate::ordering::lemma_ranked_places(u);
    assert(ranked(u)[z] == u[p[z]]);
    let m = choose|m: int| 0 <= m < rules.len() && #[trigger] rules[m] == u[p[z]];
    m
}

/// The rules that are used are those whose trigger is not blank.
proof fn lemma_usable(s: Seq<PhraseReplacement>)
    ensures
        forall|k: int|
            0 <= k < s.len() && trim((#[trigger] s[k]).trigger@).len() > 0 ==> exists|j: int|
                0 <= j < usable(s).len() && #[trigger] usable(s)[j] == s[k],
        forall|j: int|
            0 <= j < usable(s).len() ==> trim((#[trigger] usable(s)[j]).trigger@).len() > 0
                && exists|k: int| 0 <= k < s.len() && #[trigger] s[k] == usable(s)[j],
    decreases s.len(),
{
    if s.len() > 0 {
        let t = s.drop_last();
        lemma_usable(t);
        assert forall|k: int|
            0 <= k < s.len() && trim((#[trigger] s[k]).trigger@).len() > 0 implies exists|j: int|
            0 <= j < usable(s).len() && #[trigger] usable(s)[j] == s[k] by {
            if k < t.len() {
                assert(t[k] == s[k]);
                let j = choose|j: int|
                    0 <= j < usable(t).len() && #[trigger] usable(t)[j] == t[k];
                assert(usable(s)[j] == s[k]);
            } else {
                assert(usable(s)[usable(s).len() - 1] == s[k]);
            }
        }
        assert forall|j: int| 0 <= j < usable(s).len() implies trim(
            (#[trigger] usable(s)[j]).trigger@,
        ).len() > 0 && exists|k: int| 0 <= k < s.len() && #[trigger] s[k] == usable(s)[j] by {
            if j < usable(t).len() {
                assert(usable(s)[j] == usable(t)[j]);
                let k = choose|k: int| 0 <= k < t.len() && #[trigger] t[k] == usable(t)[j];
                assert(s[k] == usable(s)[j]);
            } else {
                assert(s[s.len() - 1] == usable(s)[j]);
            }
        }
    }
}

/// Where a trigger stands, some rule is chosen.
proof fn lemma_some_rule(text: Seq<char>, i: int, rules: Seq<PhraseReplacement>, from: int, k: int)
    requires
        0 <= from <= k < rules.len(),
        phrase_at(text, i, rules[k].trigger@),
    ensures
        rule_at(text, i, rules, from) is Some,
    decreases k - from,
{
    if from < k && !phrase_at(text, i, rules[from].trigger@) {
        lemma_some_rule(text, i, rules, from + 1, k);
    }
}

/// What no phrase stands at is copied.
proof fn lemma_copied(text: Seq<char>, rules: Seq<PhraseReplacement>, from: int, to: int)
    requires
        0 <= from <= to <= text.len(),
        forall|j: int| from <= j < to ==> #[trigger] none_at(text, rules, j),
    ensures
        replaced_from(text, ranked(usable(rules)), from) == text.subrange(from, to)
            + replaced_from(text, ranked(usable(rules)), to),
    decreases to - from,
{
    let rs = ranked(usable(rules));
    let rest = replaced_from(text, rs, to);
    if from < to {
        assert(none_at(text, rules, from));
        assert forall|x: int| 0 <= x < rs.len() implies !#[trigger] phrase_at(
            text,
            from,
            rs[x].trigger@,
        ) by {
            let b = lemma_used_rule(rules, x);
            assert(rules[b] == rs[x]);
        }
        lemma_no_rule(text, from, rs, 0);
        lemma_copied(text, rules, from + 1, to);
        assert(seq![text[from]] + (text.subrange(from + 1, to) + rest) =~= text.subrange(from, to)
            + rest);
    } else {
        assert(text.subrange(from, to) + rest =~= rest);
    }
}

/// A text that is a phrase, but for case, becomes its replacement.
pub proof fn law_phrase_becomes_its_replacement(text: Seq<char>, rule: PhraseReplacement)
    requires
        eq_ignore_case(text, rule.trigger@),
        trim(rule.trigger@).len() > 0,
    ensures
        replaced(text, seq![rule]) == rule.replacement@,
{
    let rules = seq![rule];
    let t = rule.trigger@;
    assert(lower(text).len() == text.len() && lower(t).len() == t.len());
    law_trim_cuts_the_edges(t);
    law_equal_but_for_case(text, t);
    law_phrases_stand_in_any_case(text, 0, t);
    assert(phrase_at(text, 0, t)) by {
        assert forall|k: int| 0 <= k < t.len() implies (text[0 + k] == #[trigger] t[k] || (65
            <= text[0 + k] as u32 <= 90 && t[k] as u32 == text[0 + k] as u32 + 32) || (65
            <= t[k] as u32 <= 90 && text[0 + k] as u32 == t[k] as u32 + 32)) by {
            let x = text[k];
        }
    }
    law_first_phrase_is_replaced(text, rules, 0, 0);
    assert(text.take(0) + rule.replacement@ + text.skip(text.len() as int) =~= rule.replacement@);
}

/// A text in which no rule applies is left as it is.
pub proof fn law_replacement_needs_a_phrase(text: Seq<char>, rules: Seq<PhraseReplacement>, i: int)
    requires
        0 <= i <= text.len(),
        forall|j: int, k: int|
            i <= j < text.len() && 0 <= k < rules.len() ==> !#[trigger] phrase_at(
                text,
                j,
                rules[k].trigger@,
            ),
    ensures
        replaced_from(text, rules, i) == text.skip(i),
    decreases text.len() - i,
{
    if i < text.len() {
        lemma_no_rule(text, i, rules, 0);
        law_replacement_needs_a_phrase(text, rules, i + 1);
        assert(seq![text[i]] + text.skip(i + 1) =~= text.skip(i));
    } else {
        assert(text.skip(i) =~= Seq::<char>::empty());
    }
}

/// Where no trigger stands, no rule is chosen.
proof fn lemma_no_rule(text: Seq<char>, i: int, rules: Seq<PhraseReplacement>, k: int)
    requires
        0 <= k,
        forall|j: int| 0 <= j < rules.len() ==> !#[trigger] phrase_at(text, i, rules[j].trigger@),
    ensures
        rule_at(text, i, rules, k) is None,
    decreases rules.len() - k,
{
    if k < rules.len() {
        assert(!phrase_at(text, i, rules[k].trigger@));
        lemma_no_rule(text, i, rules, k + 1);
    }
}

/// Of the phrases that stand at a position, the longest trigger is replaced.
pub proof fn law_longest_trigger_wins(
    text: Seq<char>,
    i: int,
    rules: Seq<PhraseReplacement>,
    k: int,
    j: int,
)
    requires
        crate::ordering::is_ranked(rules),
        rule_at(text, i, rules, 0) == Some(k),
        0 <= j < rules.len(),
        phrase_at(text, i, rules[j].trigger@),
    ensures
        0 <= k < rules.len(),
        byte_len(rules[j].trigger@) <= byte_len(rules[k].trigger@),
{
    lemma_rule_at(text, i, rules, 0, k);
    if k < j {
        assert(rules[k].precedes(rules[j]));
    }
}

/// The rule chosen is the first that applies.
proof fn lemma_rule_at(text: Seq<char>, i: int, rules: Seq<PhraseReplacement>, from: int, k: int)
    requires
        0 <= from,
        rule_at(text, i, rules, from) == Some(k),
    ensures
        from <= k < rules.len(),
        phrase_at(text, i, rules[k].trigger@),
        forall|j: int| from <= j < k ==> !#[trigger] phrase_at(text, i, rules[j].trigger@),
    decreases rules.len() - from,
{
    if from < rules.len() && !phrase_at(text, i, rules[from].trigger@) {
        lemma_rule_at(text, i, rules, from + 1, k);
    }
}

/// What is said of a built-in mode.
pub open spec fn builtin_text(name: Seq<char>) -> Option<Seq<char>> {
    match TextMode::named(name) {
        Some(TextMode::Raw) => Some("Trim only; preserve dictated wording."@),
        Some(TextMode::Clean) => Some(
            "Remove safe fillers, normalize whitespace, and apply local rules."@,
        ),
        Some(TextMode::Memo) => Some("Clean work notes without rewriting meaning."@),
        Some(TextMode::CodingPrompt) => Some(
            "Clean technical dictation and add sentence-ending punctuation when needed."@,
        ),
        Some(TextMode::EmailReply) => Some(
            "Clean an email reply while keeping the user's wording."@,
        ),
        Some(TextMode::SlackReply) => Some(
            "Clean a concise chat reply while keeping the user's wording."@,
        ),
        None => None,
    }
}

/// What is said of a built-in mode.
fn builtin_description(name: &str) -> (r: Option<&'static str>)
    ensures
        match r {
            Some(d) => builtin_text(name@) == Some(d@),
            None => builtin_text(name@) is None,
        },
{
    match TextMode::parse(name) {
        Some(TextMode::Raw) => Some("Trim only; preserve dictated wording."),
        Some(TextMode::Clean) => Some(
            "Remove safe fillers, normalize whitespace, and apply local rules.",
        ),
        Some(TextMode::Memo) => Some("Clean work notes without rewriting meaning."),
        Some(TextMode::CodingPrompt) => Some(
            "Clean technical dictation and add sentence-ending punctuation when needed.",
        ),
        Some(TextMode::EmailReply) => Some(
            "Clean an email reply while keeping the user's wording.",
        ),
        Some(TextMode::SlackReply) => Some(
            "Clean a concise chat reply while keeping the user's wording.",
        ),
        None => None,
    }
}

/// A mode as a command runs it.
pub struct ResolvedMode<'a> {
    pub name: String,
    pub description: String,
    pub deterministic_mode: TextMode,
    pub llm_instruction: Option<String>,
    pub style_profile: Option<&'a StyleProfile>,
    pub warnings: Vec<String>,
}

/// The configured entry for a mode name, whatever the case of its letters.
pub open spec fn custom_mode(config: Config, name: Seq<char>) -> Option<ModeEntry> {
    match key_index(config.modes@, name) {
        Some(i) => Some(config.modes@[i]),
        None => None,
    }
}

/// The built-in mode that stands in where an entry names none that exists.
pub open spec fn fallback_mode(name: Seq<char>) -> TextMode {
    match TextMode::named(name) {
        Some(m) => m,
        None => TextMode::Memo,
    }
}

/// The warnings of a mode that refers to something that is not there.
pub open spec fn mode_warnings(config: Config, name: Seq<char>, e: ModeEntry) -> Seq<Seq<char>> {
    let unknown = match e.deterministic_mode {
        Some(d) => if TextMode::named(d@) is None {
            seq![
                "mode '"@ + e.name@ + "' references unknown deterministic mode '"@ + d@
                    + "'; using "@ + fallback_mode(name).name(),
            ]
        } else {
            seq![]
        },
        None => seq![],
    };
    match e.style_profile {
        Some(p) => if key_index(config.style_profiles@, p@) is None {
            unknown.push(
                "mode '"@ + e.name@ + "' references missing style profile '"@ + p@
                    + "'; continuing without it"@,
            )
        } else {
            unknown
        },
        None => unknown,
    }
}

/// Whether `m` is the configured mode `e`, called by `name`.
pub open spec fn is_custom(config: Config, name: Seq<char>, e: ModeEntry, m: ResolvedMode) -> bool {
    &&& m.name@ == e.name@
    &&& m.description@ == match e.description {
        Some(d) => d@,
        None => match builtin_text(e.name@) {
            Some(d) => d,
            None => "Configured local work mode."@,
        },
    }
    &&& m.deterministic_mode == match e.deterministic_mode {
        Some(d) => match TextMode::named(d@) {
            Some(t) => t,
            None => fallback_mode(name),
        },
        None => fallback_mode(name),
    }
    &&& m.llm_instruction == e.llm_instruction
    &&& match e.style_profile {
        Some(p) => match key_index(config.style_profiles@, p@) {
            Some(i) => m.style_profile == Some(&config.style_profiles@[i]),
            None => m.style_profile is None,
        },
        None => m.style_profile is None,
    }
    &&& texts(m.warnings@) == mode_warnings(config, name, e)
}

/// Whether `m` is a built-in mode as it comes.
pub open spec fn is_builtin(t: TextMode, m: ResolvedMode) -> bool {
    &&& m.name@ == t.name()
    &&& Some(m.description@) == builtin_text(t.name())
    &&& m.deterministic_mode == t
    &&& m.llm_instruction is None
    &&& m.style_profile is None
    &&& m.warnings@.len() == 0
}

/// The configured mode of an entry.
fn resolve_custom<'a>(config: &'a Config, name: &str, entry: &ModeEntry) -> (r: ResolvedMode<'a>)
    ensures
        is_custom(*config, name@, *entry, r),
{
    broadcast use lemma_texts_push;

    let fallback = match TextMode::parse(name) {
        Some(m) => m,
        None => TextMode::Memo,
    };
    let mut warnings: Vec<String> = Vec::new();
    assert(texts(warnings@) =~= Seq::<Seq<char>>::empty());
    let deterministic_mode = match &entry.deterministic_mode {
        Some(configured) => match TextMode::parse(configured) {
            Some(m) => m,
            None => {
                let mut w = cat5(
                    "mode '",
                    &entry.name,
                    "' references unknown deterministic mode '",
                    configured,
                    "'; using ",
                );
                w.append(fallback.as_str());
                warnings.push(w);
                assert(texts(warnings@) =~= seq![w@]);
                fallback
            },
        },
        None => fallback,
    };
    let description = match &entry.description {
        Some(d) => d.clone(),
        None => match builtin_description(&entry.name) {
            Some(d) => d.to_owned(),
            None => "Configured local work mode.".to_owned(),
        },
    };
    let profile = match &entry.style_profile {
        Some(p) => {
            let found = style_profile(config, p);
            if found.is_none() {
                warnings.push(
                    cat5(
                        "mode '",
                        &entry.name,
                        "' references missing style profile '",
                        p,
                        "'; continuing without it",
                    ),
                );
            }
            found
        },
        None => None,
    };
    ResolvedMode {
        name: entry.name.clone(),
        description,
        deterministic_mode,
        llm_instruction: copy_opt(&entry.llm_instruction),
        style_profile: profile,
        warnings,
    }
}

/// The mode that a name stands for: the configured entry with that name, else
/// the built-in mode. There is none exactly where neither exists.
pub fn resolve_mode<'a>(config: &'a Config, name: &str) -> (r: Option<ResolvedMode<'a>>)
    ensures
        match custom_mode(*config, name@) {
            Some(e) => r matches Some(m) && is_custom(*config, name@, e, m),
            None => match TextMode::named(name@) {
                Some(t) => r matches Some(m) && is_builtin(t, m),
                None => r is None,
            },
        },
{
    match find_key(&config.modes, name) {
        Some(i) => Some(resolve_custom(config, name, &config.modes[i])),
        None => match TextMode::parse(name) {
            Some(t) => {
                proof {
                    law_mode_name_round_trip(t);
                }
                let description = match builtin_description(t.as_str()) {
                    Some(d) => d.to_owned(),
                    None => String::new(),
                };
                Some(
                    ResolvedMode {
                        name: t.as_str().to_owned(),
                        description,
                        deterministic_mode: t,
                        llm_instruction: None,
                        style_profile: None,
                        warnings: Vec::new(),
                    },
                )
            },
            None => None,
        },
    }
}

/// Whether a name stands for a mode.
pub open spec fn mode_exists(config: Config, name: Seq<char>) -> bool {
    custom_mode(config, name) is Some || TextMode::named(name) is Some
}

/// Checks that a mode exists before anything slow is started.
pub fn validate_mode(config: &Config, name: &str) -> (r: Result<(), ComlinkError>)
    ensures
        if mode_exists(*config, name@) {
            r is Ok
        } else {
            r matches Err(ComlinkError::ModeNotFound(n)) && n@ == name@
        },
{
    match resolve_mode(config, name) {
        Some(_) => Ok(()),
        None => Err(ComlinkError::ModeNotFound(name.to_owned())),
    }
}

impl<'a> ResolvedMode<'a> {
    /// What the mode makes of a text without a language model.
    pub fn process_deterministic(&self, raw_text: &str, rules: TextRules<'_>) -> (r: String)
        ensures
            r@ == self.deterministic_mode.processed(
                raw_text@,
                rules.vocabulary@,
                rules.snippets@,
            ),
    {
        self.deterministic_mode.process(raw_text, rules)
    }

    /// The names of the steps that the mode takes.
    pub open spec fn steps(self) -> Seq<Seq<char>> {
        if self.name@ != self.deterministic_mode.name() {
            self.deterministic_mode.steps().push(self.name@ + "-mode"@)
        } else {
            self.deterministic_mode.steps()
        }
    }

    /// The names of the steps that the mode takes.
    pub fn processing_steps(&self) -> (r: Vec<String>)
        ensures
            texts(r@) == self.steps(),
    {
        let fixed = self.deterministic_mode.processing_steps();
        let mut steps: Vec<String> = Vec::new();
        let mut i: usize = 0;
        while i < fixed.len()
            invariant
                i <= fixed@.len(),
                texts(steps@) =~= strs(fixed@).take(i as int),
            decreases fixed@.len() - i,
        {
            broadcast use lemma_texts_push;

            steps.push(fixed[i].to_owned());
            i += 1;
        }
        assert(texts(steps@) =~= strs(fixed@));
        if !str_eq(&self.name, self.deterministic_mode.as_str()) {
            proof {
                broadcast use lemma_texts_push;

            }
            let ghost before = steps@;
            steps.push(cat2(&self.name, "-mode"));
            assert(texts(steps@) =~= texts(before).push(self.name@ + "-mode"@));
        }
        steps
    }
}

// ---------------------------------------------------------------------------
// The registry
// ---------------------------------------------------------------------------

/// A listed mode, by its texts.
pub struct ModeView {
    pub name: Seq<char>,
    pub description: Seq<char>,
    pub deterministic: bool,
    pub deterministic_mode: Option<Seq<char>>,
    pub llm_instruction: Option<Seq<char>>,
    pub style_profile: Option<Seq<char>>,
}

impl View for ModeDefinition {
    type V = ModeView;

    open spec fn view(&self) -> ModeView {
        ModeView {
            name: self.name@,
            description: self.description@,
            deterministic: self.deterministic,
            deterministic_mode: opt_text(self.deterministic_mode),
            llm_instruction: opt_text(self.llm_instruction),
            style_profile: opt_text(self.style_profile),
        }
    }
}

/// The listed modes, by their texts.
pub open spec fn mode_views(v: Seq<ModeDefinition>) -> Seq<ModeView> {
    Seq::new(v.len(), |i: int| v[i]@)
}

/// A built-in mode as the registry lists it.
pub open spec fn builtin_view(t: TextMode) -> ModeView {
    ModeView {
        name: t.name(),
        description: match builtin_text(t.name()) {
            Some(d) => d,
            None => Seq::empty(),
        },
        deterministic: true,
        deterministic_mode: None,
        llm_instruction: None,
        style_profile: None,
    }
}

/// The built-in modes.
pub open spec fn builtin_views() -> Seq<ModeView> {
    seq![
        builtin_view(TextMode::Raw),
        builtin_view(TextMode::Clean),
        builtin_view(TextMode::Memo),
        builtin_view(TextMode::CodingPrompt),
        builtin_view(TextMode::EmailReply),
        builtin_view(TextMode::SlackReply),
    ]
}

/// A listed mode with a configured entry of its name taken over.
pub open spec fn overridden(v: ModeView, e: ModeEntry) -> ModeView {
    ModeView {
        name: v.name,
        description: match e.description {
            Some(d) => d@,
            None => v.description,
        },
        deterministic: e.llm_instruction is None,
        deterministic_mode: opt_text(e.deterministic_mode),
        llm_instruction: opt_text(e.llm_instruction),
        style_profile: opt_text(e.style_profile),
    }
}

/// A configured mode as the registry lists it.
pub open spec fn configured_view(e: ModeEntry) -> ModeView {
    ModeView {
        name: e.name@,
        description: match e.description {
            Some(d) => d@,
            None => "Configured local work mode."@,
        },
        deterministic: e.llm_instruction is None,
        deterministic_mode: opt_text(e.deterministic_mode),
        llm_instruction: opt_text(e.llm_instruction),
        style_profile: opt_text(e.style_profile),
    }
}

/// Whether position `i` is the first that lists this name.
pub open spec fn is_listed_at(s: Seq<ModeView>, name: Seq<char>, i: int) -> bool {
    0 <= i < s.len() && eq_ignore_case(s[i].name, name) && forall|j: int|
        0 <= j < i ==> !eq_ignore_case((#[trigger] s[j]).name, name)
}

/// The registry with one more configured entry: it overrides the listed mode of
/// its name, or is added.
pub open spec fn registered(s: Seq<ModeView>, e: ModeEntry) -> Seq<ModeView> {
    if exists|i: int| is_listed_at(s, e.name@, i) {
        let i = choose|i: int| is_listed_at(s, e.name@, i);
        s.update(i, overridden(s[i], e))
    } else {
        s.push(configured_view(e))
    }
}

/// The registry for the configured entries.
pub open spec fn registry(modes: Seq<ModeEntry>) -> Seq<ModeView>
    decreases modes.len(),
{
    if modes.len() == 0 {
        builtin_views()
    } else {
        registered(registry(modes.drop_last()), modes.last())
    }
}

/// A built-in mode as the registry lists it.
fn builtin_definition(t: TextMode) -> (r: ModeDefinition)
    ensures
        r@ == builtin_view(t),
{
    proof {
        law_mode_name_round_trip(t);
    }
    let description = match builtin_description(t.as_str()) {
        Some(d) => d.to_owned(),
        None => String::new(),
    };
    ModeDefinition {
        name: t.as_str().to_owned(),
        description,
        deterministic: true,
        deterministic_mode: None,
        llm_instruction: None,
        style_profile: None,
    }
}

/// The built-in modes.
fn builtin_mode_registry() -> (r: Vec<ModeDefinition>)
    ensures
        mode_views(r@) == builtin_views(),
{
    let mut r: Vec<ModeDefinition> = Vec::new();
    r.push(builtin_definition(TextMode::Raw));
    r.push(builtin_definition(TextMode::Clean));
    r.push(builtin_definition(TextMode::Memo));
    r.push(builtin_definition(TextMode::CodingPrompt));
    r.push(builtin_definition(TextMode::EmailReply));
    r.push(builtin_definition(TextMode::SlackReply));
    assert(mode_views(r@) =~= builtin_views());
    r
}

/// A listed mode with a configured entry of its name taken over.
fn merge_custom_definition(name: &str, description: &str, custom: &ModeEntry) -> (r: ModeDefinition)
    ensures
        forall|v: ModeView|
            v.name == name@ && v.description == description@ ==> r@ == #[trigger] overridden(
                v,
                *custom,
            ),
{
    ModeDefinition {
        name: name.to_owned(),
        description: match &custom.description {
            Some(d) => d.clone(),
            None => description.to_owned(),
        },
        deterministic: custom.llm_instruction.is_none(),
        deterministic_mode: copy_opt(&custom.deterministic_mode),
        llm_instruction: copy_opt(&custom.llm_instruction),
        style_profile: copy_opt(&custom.style_profile),
    }
}

/// Registers one configured entry.
fn register(modes: &mut Vec<ModeDefinition>, entry: &ModeEntry)
    ensures
        mode_views(final(modes)@) == registered(mode_views(old(modes)@), *entry),
{
    let ghost s = mode_views(modes@);
    let mut i: usize = 0;
    while i < modes.len()
        invariant
            modes@ == old(modes)@,
            s == mode_views(modes@),
            i <= modes@.len(),
            forall|j: int| 0 <= j < i ==> !eq_ignore_case((#[trigger] s[j]).name, entry.name@),
        decreases modes@.len() - i,
    {
        assert(s[i as int] == modes@[i as int]@);
        if str_eq_ignore_case(&modes[i].name, &entry.name) {
            assert(is_listed_at(s, entry.name@, i as int));
            assert forall|j: int| is_listed_at(s, entry.name@, j) implies j == i by {
                if j < i {
                    assert(!eq_ignore_case(s[j].name, entry.name@));
                }
                if i < j {
                    assert(!eq_ignore_case(s[i as int].name, entry.name@));
                }
            }
            let merged = merge_custom_definition(&modes[i].name, &modes[i].description, entry);
            assert(merged@ == overridden(s[i as int], *entry));
            modes.set(i, merged);
            assert(mode_views(modes@) =~= s.update(i as int, merged@));
            return;
        }
        i += 1;
    }
    assert forall|j: int| !is_listed_at(s, entry.name@, j) by {
        if 0 <= j < s.len() {
            assert(!eq_ignore_case(s[j].name, entry.name@));
        }
    }
    modes.push(
        ModeDefinition {
            name: entry.name.clone(),
            description: match &entry.description {
                Some(d) => d.clone(),
                None => "Configured local work mode.".to_owned(),
            },
            deterministic: entry.llm_instruction.is_none(),
            deterministic_mode: copy_opt(&entry.deterministic_mode),
            llm_instruction: copy_opt(&entry.llm_instruction),
            style_profile: copy_opt(&entry.style_profile),
        },
    );
    assert(mode_views(modes@) =~= s.push(configured_view(*entry)));
}

/// All modes: the built-in ones, overridden by the configured entries of their
/// names, then the other configured ones.
pub fn mode_registry(config: &Config) -> (r: Vec<ModeDefinition>)
    ensures
        mode_views(r@) == registry(config.modes@),
{
    let mut modes = builtin_mode_registry();
    let mut i: usize = 0;
    while i < config.modes.len()
        invariant
            i <= config.modes@.len(),
            mode_views(modes@) == registry(config.modes@.take(i as int)),
        decreases config.modes@.len() - i,
    {
        assert(config.modes@.take(i + 1).drop_last() =~= config.modes@.take(i as int));
        register(&mut modes, &config.modes[i]);
        i += 1;
    }
    assert(config.modes@.take(config.modes@.len() as int) =~= config.modes@);
    modes
}

/// Whatever is configured, the registry lists the built-in modes first, under
/// their names.
pub proof fn law_registry_lists_builtin_modes(modes: Seq<ModeEntry>)
    ensures
        registry(modes).len() >= 6,
        forall|i: int|
            0 <= i < 6 ==> (#[trigger] registry(modes)[i]).name == builtin_views()[i].name,
    decreases modes.len(),
{
    if modes.len() > 0 {
        law_registry_lists_builtin_modes(modes.drop_last());
    }
}

/// A configured mode is used under its own name, with its own instruction and style profile,
/// on the text that its local mode makes, or that of its name, or the memo mode; a mode that
/// is not configured is the built-in one of the name, which asks no language model.
pub proof fn law_modes_are_resolved(config: Config, name: Seq<char>, m: ResolvedMode)
    ensures
        ({
            let entry = custom_mode(config, name);
            &&& entry matches Some(e) ==> (is_custom(config, name, e, m) ==> m.name@ == e.name@
                && m.llm_instruction == e.llm_instruction && eq_ignore_case(e.name@, name)
                && m.deterministic_mode == (match e.deterministic_mode {
                Some(d) => match TextMode::named(d@) {
                    Some(t) => t,
                    None => match TextMode::named(name) {
                        Some(t) => t,
                        None => TextMode::Memo,
                    },
                },
                None => match TextMode::named(name) {
                    Some(t) => t,
                    None => TextMode::Memo,
                },
            }) && (e.style_profile is None ==> m.style_profile is None) && (
            e.style_profile matches Some(p) ==> (m.style_profile matches Some(x) ==> eq_ignore_case(
                x.name@,
                p@,
            ))))
            &&& forall|t: TextMode| #[trigger]
                is_builtin(t, m) ==> m.deterministic_mode == t && m.llm_instruction is None
                    && m.name@ == t.name() && m.warnings@.len() == 0
        }),
        mode_exists(config, name) <==> TextMode::named(name) is Some || exists|i: int|
            0 <= i < config.modes@.len() && eq_ignore_case(
                (#[trigger] config.modes@[i]).name@,
                name,
            ),
{
    if let Some(i) = key_index(config.modes@, name) {
        assert(is_key_index(config.modes@, name, i));
        assert(eq_ignore_case(config.modes@[i].key(), name));
        let e = config.modes@[i];
        if let Some(p) = e.style_profile {
            if let Some(k) = key_index(config.style_profiles@, p@) {
                assert(is_key_index(config.style_profiles@, p@, k));
            }
        }
    } else {
        lemma_key_index_exists(config.modes@, name);
        assert forall|i: int| 0 <= i < config.modes@.len() implies !eq_ignore_case(
            (#[trigger] config.modes@[i]).name@,
            name,
        ) by {
            assert(!eq_ignore_case(config.modes@[i].key(), name));
        }
    }
}

/// The mode configured last is in the registry, under its name in some case of its letters,
/// with its own instruction, and the modes before it keep their places.
pub proof fn law_configured_modes_are_registered(s: Seq<ModeView>, e: ModeEntry)
    ensures
        s.len() <= registered(s, e).len() <= s.len() + 1,
        exists|i: int|
            0 <= i < registered(s, e).len() && eq_ignore_case(
                (#[trigger] registered(s, e)[i]).name,
                e.name@,
            ) && registered(s, e)[i].llm_instruction == opt_text(e.llm_instruction) && registered(
                s,
                e,
            )[i].deterministic == (e.llm_instruction is None) && registered(s, e)[i].style_profile
                == opt_text(e.style_profile),
        forall|i: int|
            0 <= i < s.len() && !eq_ignore_case((#[trigger] s[i]).name, e.name@) ==> registered(
                s,
                e,
            )[i] == s[i],
        forall|i: int| 0 <= i < s.len() ==> registered(s, e)[i].name == (#[trigger] s[i]).name,
{
    let r = registered(s, e);
    if exists|i: int| is_listed_at(s, e.name@, i) {
        let i = choose|i: int| is_listed_at(s, e.name@, i);
        assert(r[i] == overridden(s[i], e));
    } else {
        assert(r[s.len() as int] == configured_view(e));
    }
}

/// Among ASCII characters the letters and the digits make up words, and no other.
pub proof fn law_word_characters(c: char)
    requires
        (c as u32) < 128,
    ensures
        is_word_char(c) <==> 48 <= c as u32 <= 57 || 65 <= c as u32 <= 90 || 97 <= c as u32 <= 122,
{
}

} // verus!

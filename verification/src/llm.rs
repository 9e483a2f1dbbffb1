//! Rewriting of dictated text by a local language model: which endpoints are
//! accepted, what is sent, and what a reply stands for.
use vstd::prelude::*;

use crate::config::{byte_len, LlmProvider, LocalLlmConfig, StyleExample, StyleProfile};
use crate::numbers::{
    all_digits, decimal, digits_value, is_digit, law_decimal_round_trip, lemma_decimal_is_digits,
    parse_number, parsed_number, u64_text, usize_text,
};
use crate::strings::{
    cat2, cat3, cat4, cat5, cat6, cat8, chars_of, contains, ends_with, eq_ignore_case, find,
    first_at, is_solid, is_white, law_lines_end_at_line_feeds, law_split_and_join,
    law_split_at_separators, law_words_between_white_space, lemma_holds, lemma_holds_within,
    lemma_join_chars, lemma_join_start, lemma_no_split_once, lemma_split_once, lines, occurs_at,
    opt_text, split, split_once, starts_with, str_contains, str_eq, str_eq_ignore_case, str_lines,
    str_split, str_split_once, str_strip_prefix, str_trim, str_words, texts, trim, words, CharClass,
};

verus! {

/// What a request to the model is allowed to hold.
pub const LLM_CONTEXT_POLICY: &'static str = "text-only; no audio; no external context";

/// What was asked of the model.
#[derive(Debug)]
pub struct LlmRequestRecord {
    pub provider: String,
    pub endpoint: String,
    pub model: String,
    pub mode: String,
    pub input_kind: String,
    pub input_bytes: usize,
    pub context_policy: String,
    pub instruction: String,
    pub style_profile: Option<String>,
}

impl Clone for LlmRequestRecord {
    fn clone(&self) -> (r: Self)
        ensures
            r == *self,
    {
        LlmRequestRecord {
            provider: self.provider.clone(),
            endpoint: self.endpoint.clone(),
            model: self.model.clone(),
            mode: self.mode.clone(),
            input_kind: self.input_kind.clone(),
            input_bytes: self.input_bytes,
            context_policy: self.context_policy.clone(),
            instruction: self.instruction.clone(),
            style_profile: crate::strings::copy_opt(&self.style_profile),
        }
    }
}

/// What came of a rewrite.
#[derive(Debug)]
pub struct LlmRewriteRecord {
    pub attempted: bool,
    pub status: String,
    pub request: Option<LlmRequestRecord>,
    pub error: Option<String>,
}

impl Clone for LlmRewriteRecord {
    fn clone(&self) -> (r: Self)
        ensures
            r == *self,
    {
        LlmRewriteRecord {
            attempted: self.attempted,
            status: self.status.clone(),
            request: match &self.request {
                Some(x) => Some(x.clone()),
                None => None,
            },
            error: crate::strings::copy_opt(&self.error),
        }
    }
}

/// A text to rewrite, and how.
pub struct RewriteInput<'a> {
    pub mode: &'a str,
    pub text: &'a str,
    pub instruction: &'a str,
    pub profile: Option<&'a StyleProfile>,
}

/// A rewritten text.
#[derive(Debug)]
pub struct RewriteSuccess {
    pub text: String,
    pub record: LlmRewriteRecord,
}

/// The record of a rewrite that was not tried.
pub open spec fn is_skipped(r: LlmRewriteRecord, reason: Seq<char>) -> bool {
    &&& !r.attempted
    &&& r.status@ == "skipped"@
    &&& r.request is None
    &&& opt_text(r.error) == Some(reason)
}

/// The record of a rewrite that was not tried.
pub fn skipped_record(reason: &str) -> (r: LlmRewriteRecord)
    ensures
        is_skipped(r, reason@),
{
    LlmRewriteRecord {
        attempted: false,
        status: "skipped".to_owned(),
        request: None,
        error: Some(reason.to_owned()),
    }
}

/// The record of a rewrite that failed.
pub open spec fn is_fallback(
    r: LlmRewriteRecord,
    request: Option<LlmRequestRecord>,
    error: Seq<char>,
) -> bool {
    &&& r.attempted == request is Some
    &&& r.status@ == "fallback"@
    &&& r.request == request
    &&& opt_text(r.error) == Some(error)
}

/// The record of a rewrite that failed.
pub fn fallback_record(request: Option<LlmRequestRecord>, error: String) -> (r: LlmRewriteRecord)
    ensures
        is_fallback(r, request, error@),
{
    LlmRewriteRecord {
        attempted: request.is_some(),
        status: "fallback".to_owned(),
        request,
        error: Some(error),
    }
}

// ---------------------------------------------------------------------------
// Prompts
// ---------------------------------------------------------------------------

/// The lines that show the examples of a profile.
pub open spec fn examples_text(e: Seq<StyleExample>) -> Seq<char>
    decreases e.len(),
{
    if e.len() == 0 {
        Seq::empty()
    } else {
        examples_text(e.drop_last()) + ("\nExample input: "@ + e.last().input@
            + "\nExample output: "@ + e.last().output@)
    }
}

/// What tells the model how to rewrite.
pub open spec fn system_text(instruction: Seq<char>, profile: Option<&StyleProfile>) -> Seq<char> {
    let head =
        "You rewrite dictated speech into paste-ready text.\nMode instruction: "@ + instruction;
    match profile {
        Some(p) => head + ("\nStyle profile '"@ + p.name@ + "': "@ + p.summary@) + examples_text(
            p.examples@,
        ),
        None => head,
    }
}

/// What tells the model how to rewrite.
pub fn system_prompt(instruction: &str, profile: Option<&StyleProfile>) -> (r: String)
    ensures
        r@ == system_text(instruction@, profile),
{
    let mut prompt = cat2(
        "You rewrite dictated speech into paste-ready text.\nMode instruction: ",
        instruction,
    );
    if let Some(p) = profile {
        prompt.append(&cat4("\nStyle profile '", &p.name, "': ", &p.summary));
        let ghost head = prompt@;
        let mut i: usize = 0;
        assert(head + examples_text(p.examples@.take(0)) =~= head);
        while i < p.examples.len()
            invariant
                i <= p.examples@.len(),
                prompt@ == head + examples_text(p.examples@.take(i as int)),
            decreases p.examples@.len() - i,
        {
            let e = &p.examples[i];
            let ghost before = prompt@;
            let piece = cat4("\nExample input: ", &e.input, "\nExample output: ", &e.output);
            prompt.append(&piece);
            assert(p.examples@.take(i + 1).drop_last() =~= p.examples@.take(i as int));
            assert(prompt@ =~= head + (examples_text(p.examples@.take(i as int)) + piece@));
            i += 1;
        }
        assert(p.examples@.take(p.examples@.len() as int) =~= p.examples@);
    }
    prompt
}

/// The whole prompt for a model that takes one text.
pub open spec fn prompt_text(
    instruction: Seq<char>,
    profile: Option<&StyleProfile>,
    text: Seq<char>,
) -> Seq<char> {
    system_text(instruction, profile) + "\n\nContext policy: "@
        + LLM_CONTEXT_POLICY@ + "\n\n"@
        + "Return only the rewritten text. Preserve facts, technical terms, filenames, URLs, and code symbols."@
        + "\n\nText:\n"@ + text
}

/// The whole prompt for a model that takes one text.
pub fn build_prompt(input: &RewriteInput<'_>) -> (r: String)
    ensures
        r@ == prompt_text(input.instruction@, input.profile, input.text@),
{
    let mut s = system_prompt(input.instruction, input.profile);
    s.append("\n\nContext policy: ");
    s.append(LLM_CONTEXT_POLICY);
    s.append("\n\n");
    s.append(
        "Return only the rewritten text. Preserve facts, technical terms, filenames, URLs, and code symbols.",
    );
    s.append("\n\nText:\n");
    s.append(input.text);
    s
}

/// Each example stands in the examples, its input before its output.
proof fn lemma_example_stands(e: Seq<StyleExample>, k: int)
    requires
        0 <= k < e.len(),
    ensures
        contains(
            examples_text(e),
            "\nExample input: "@ + e[k].input@ + "\nExample output: "@ + e[k].output@,
        ),
    decreases e.len(),
{
    let t = e.drop_last();
    let x = "\nExample input: "@ + e[k].input@ + "\nExample output: "@ + e[k].output@;
    let none = Seq::<char>::empty();
    if k < t.len() {
        lemma_example_stands(t, k);
        let last = e.last();
        let y = "\nExample input: "@ + last.input@ + "\nExample output: "@ + last.output@;
        lemma_holds_within(none, examples_text(t), y, x);
        assert(examples_text(e) =~= none + examples_text(t) + y);
    } else {
        lemma_holds(examples_text(t), x, none);
        assert(examples_text(e) =~= examples_text(t) + x + none);
    }
}

/// What tells the model how to rewrite holds the mode's instruction and all of the style
/// profile: its name, its summary and each example, with its input and its output.
pub proof fn law_instructions_are_sent(instruction: Seq<char>, profile: Option<&StyleProfile>)
    ensures
        contains(system_text(instruction, profile), instruction),
        profile matches Some(p) ==> contains(system_text(instruction, profile), p.name@)
            && contains(system_text(instruction, profile), p.summary@) && forall|k: int|
            0 <= k < p.examples@.len() ==> contains(
                system_text(instruction, profile),
                "\nExample input: "@ + (#[trigger] p.examples@[k]).input@ + "\nExample output: "@
                    + p.examples@[k].output@,
            ),
{
    let none = Seq::<char>::empty();
    let s = system_text(instruction, profile);
    let start = "You rewrite dictated speech into paste-ready text.\nMode instruction: "@;
    match profile {
        None => {
            lemma_holds(start, instruction, none);
            assert(s =~= start + instruction + none);
        },
        Some(p) => {
            let e = examples_text(p.examples@);
            let rest = "\nStyle profile '"@ + p.name@ + "': "@ + p.summary@ + e;
            lemma_holds(start, instruction, rest);
            assert(s =~= start + instruction + rest);
            let a = start + instruction + "\nStyle profile '"@;
            let b = "': "@ + p.summary@ + e;
            lemma_holds(a, p.name@, b);
            assert(s =~= a + p.name@ + b);
            let c = a + p.name@ + "': "@;
            lemma_holds(c, p.summary@, e);
            assert(s =~= c + p.summary@ + e);
            assert forall|k: int| 0 <= k < p.examples@.len() implies contains(
                s,
                "\nExample input: "@ + (#[trigger] p.examples@[k]).input@ + "\nExample output: "@
                    + p.examples@[k].output@,
            ) by {
                lemma_example_stands(p.examples@, k);
                let d = c + p.summary@;
                lemma_holds_within(
                    d,
                    e,
                    none,
                    "\nExample input: "@ + p.examples@[k].input@ + "\nExample output: "@
                        + p.examples@[k].output@,
                );
                assert(s =~= d + e + none);
            }
        },
    }
}

/// The prompt for a model that takes one text holds the instructions and ends with the
/// dictated text.
pub proof fn law_prompt_holds_instructions_and_text(
    instruction: Seq<char>,
    profile: Option<&StyleProfile>,
    text: Seq<char>,
)
    ensures
        starts_with(prompt_text(instruction, profile, text), system_text(instruction, profile)),
        contains(prompt_text(instruction, profile, text), instruction),
        ends_with(prompt_text(instruction, profile, text), "\n\nText:\n"@ + text),
        contains(prompt_text(instruction, profile, text), LLM_CONTEXT_POLICY@),
{
    let p = prompt_text(instruction, profile, text);
    let s = system_text(instruction, profile);
    let none = Seq::<char>::empty();
    assert(p.take(s.len() as int) =~= s);
    let rest = p.skip(s.len() as int);
    law_instructions_are_sent(instruction, profile);
    lemma_holds_within(none, s, rest, instruction);
    assert(p =~= none + s + rest);
    let end = "\n\nText:\n"@ + text;
    assert(p.skip(p.len() - end.len()) =~= end);
    let a = s + "\n\nContext policy: "@;
    let b = p.skip((a + LLM_CONTEXT_POLICY@).len() as int);
    lemma_holds(a, LLM_CONTEXT_POLICY@, b);
    assert(p =~= a + LLM_CONTEXT_POLICY@ + b);
}

// ---------------------------------------------------------------------------
// Endpoints
// ---------------------------------------------------------------------------

/// One number of an IPv4 address: up to three digits, no leading zero, at most
/// 255.
pub open spec fn is_octet(p: Seq<char>) -> bool {
    &&& 1 <= p.len() <= 3
    &&& all_digits(p)
    &&& (p.len() == 1 || p[0] != '0')
    &&& digits_value(p) <= 255
}

/// An IPv4 address of the loopback network `127.0.0.0/8`.
pub open spec fn is_ipv4_loopback(s: Seq<char>) -> bool {
    let p = split(s, CharClass::Is('.'));
    &&& p.len() == 4
    &&& p[0] == "127"@
    &&& is_octet(p[1])
    &&& is_octet(p[2])
    &&& is_octet(p[3])
}

/// A group of an IPv6 address that stands for zero.
pub open spec fn is_zero_group(p: Seq<char>) -> bool {
    1 <= p.len() <= 4 && forall|i: int| 0 <= i < p.len() ==> #[trigger] p[i] == '0'
}

/// A group of an IPv6 address that stands for one.
pub open spec fn is_one_group(p: Seq<char>) -> bool {
    &&& 1 <= p.len() <= 4
    &&& p.last() == '1'
    &&& forall|i: int| 0 <= i < p.len() - 1 ==> #[trigger] p[i] == '0'
}

/// All groups but the last stand for zero.
pub open spec fn zeros_before_last(p: Seq<Seq<char>>) -> bool {
    forall|i: int| 0 <= i < p.len() - 1 ==> is_zero_group(#[trigger] p[i])
}

/// How many groups these pieces make up, where they end an address that is one:
/// zeros, then a group that is one or the embedded IPv4 address `0.0.0.1`.
pub open spec fn one_ending(p: Seq<Seq<char>>) -> Option<int> {
    if p.len() == 0 || !zeros_before_last(p) {
        None
    } else if is_one_group(p.last()) {
        Some(p.len() as int)
    } else if p.last() == "0.0.0.1"@ {
        Some(p.len() as int + 1)
    } else {
        None
    }
}

/// The pieces of a side of an IPv6 address: none where the side is empty.
pub open spec fn side_pieces(s: Seq<char>) -> Seq<Seq<char>> {
    if s.len() == 0 {
        Seq::empty()
    } else {
        split(s, CharClass::Is(':'))
    }
}

/// All pieces stand for zero.
pub open spec fn all_zero_groups(p: Seq<Seq<char>>) -> bool {
    forall|i: int| 0 <= i < p.len() ==> is_zero_group(#[trigger] p[i])
}

/// The IPv6 loopback address `::1`, in any spelling: eight groups, or fewer
/// around one `::`.
pub open spec fn is_ipv6_loopback(s: Seq<char>) -> bool {
    match split_once(s, "::"@) {
        None => one_ending(split(s, CharClass::Is(':'))) == Some(8int),
        Some((head, tail)) => {
            let h = side_pieces(head);
            &&& all_zero_groups(h)
            &&& match one_ending(side_pieces(tail)) {
                Some(n) => h.len() + n <= 7,
                None => false,
            }
        },
    }
}

/// A host on this machine: `localhost` or a loopback address.
pub open spec fn is_local(host: Seq<char>) -> bool {
    eq_ignore_case(host, "localhost"@) || is_ipv4_loopback(host) || is_ipv6_loopback(host)
}

/// Whether a piece is a number of an IPv4 address.
fn is_octet_text(p: &str) -> (r: bool)
    ensures
        r == is_octet(p@),
{
    let v = chars_of(p);
    if v.len() < 1 || v.len() > 3 || v[0] == '+' || (v.len() > 1 && v[0] == '0') {
        proof {
            if v@.len() > 0 && v@[0] == '+' {
                assert(!crate::numbers::is_digit(v@[0]));
            }
        }
        return false;
    }
    assert(crate::numbers::number_digits(v@) == v@);
    parse_number(&v, 255).is_some()
}

/// Whether a host is an IPv4 loopback address.
fn is_ipv4_loopback_text(s: &str) -> (r: bool)
    ensures
        r == is_ipv4_loopback(s@),
{
    let p = str_split(s, CharClass::Is('.'));
    let ghost t = texts(p@);
    if p.len() != 4 {
        return false;
    }
    assert(t[0] == p@[0]@ && t[1] == p@[1]@ && t[2] == p@[2]@ && t[3] == p@[3]@);
    str_eq(&p[0], "127") && is_octet_text(&p[1]) && is_octet_text(&p[2]) && is_octet_text(&p[3])
}

/// Whether a piece stands for zero.
fn is_zero_group_text(p: &str) -> (r: bool)
    ensures
        r == is_zero_group(p@),
{
    let v = chars_of(p);
    if v.len() < 1 || v.len() > 4 {
        return false;
    }
    let mut i: usize = 0;
    while i < v.len()
        invariant
            v@ == p@,
            i <= v@.len(),
            forall|j: int| 0 <= j < i ==> #[trigger] v@[j] == '0',
        decreases v@.len() - i,
    {
        if v[i] != '0' {
            assert(p@[i as int] != '0');
            return false;
        }
        i += 1;
    }
    true
}

/// Whether a piece stands for one.
fn is_one_group_text(p: &str) -> (r: bool)
    ensures
        r == is_one_group(p@),
{
    let v = chars_of(p);
    if v.len() < 1 || v.len() > 4 || v[v.len() - 1] != '1' {
        return false;
    }
    let mut i: usize = 0;
    while i < v.len() - 1
        invariant
            v@ == p@,
            i < v@.len(),
            forall|j: int| 0 <= j < i ==> #[trigger] v@[j] == '0',
        decreases v@.len() - i,
    {
        if v[i] != '0' {
            assert(p@[i as int] != '0');
            return false;
        }
        i += 1;
    }
    true
}

/// Whether the first `n` pieces stand for zero.
fn first_are_zero(p: &Vec<String>, n: usize) -> (r: bool)
    requires
        n <= p@.len(),
    ensures
        r == forall|i: int| 0 <= i < n ==> is_zero_group(#[trigger] texts(p@)[i]),
{
    let mut i: usize = 0;
    while i < n
        invariant
            i <= n <= p@.len(),
            forall|j: int| 0 <= j < i ==> is_zero_group(#[trigger] texts(p@)[j]),
        decreases n - i,
    {
        assert(texts(p@)[i as int] == p@[i as int]@);
        if !is_zero_group_text(&p[i]) {
            assert(!is_zero_group(texts(p@)[i as int]));
            return false;
        }
        i += 1;
    }
    true
}

/// How many groups these pieces make up, where they end an address that is one.
fn one_ending_groups(p: &Vec<String>) -> (r: Option<usize>)
    requires
        p@.len() < 100,
    ensures
        match r {
            Some(n) => one_ending(texts(p@)) == Some(n as int),
            None => one_ending(texts(p@)) is None,
        },
{
    let ghost t = texts(p@);
    if p.len() == 0 {
        return None;
    }
    let last: usize = p.len() - 1;
    assert(t.last() == p@[last as int]@);
    if !first_are_zero(p, last) {
        assert(!zeros_before_last(t));
        return None;
    }
    assert(zeros_before_last(t));
    if is_one_group_text(&p[last]) {
        Some(p.len())
    } else if str_eq(&p[last], "0.0.0.1") {
        Some(p.len() + 1)
    } else {
        None
    }
}

/// The pieces of a side of an IPv6 address.
fn side(s: &str) -> (r: Vec<String>)
    ensures
        texts(r@) == side_pieces(s@),
{
    if s.is_empty() {
        let r: Vec<String> = Vec::new();
        assert(texts(r@) =~= Seq::<Seq<char>>::empty());
        r
    } else {
        str_split(s, CharClass::Is(':'))
    }
}

/// Whether a host is the IPv6 loopback address.
fn is_ipv6_loopback_text(s: &str) -> (r: bool)
    ensures
        r == is_ipv6_loopback(s@),
{
    match str_split_once(s, "::") {
        None => {
            let p = str_split(s, CharClass::Is(':'));
            if p.len() > 8 {
                return false;
            }
            match one_ending_groups(&p) {
                Some(n) => n == 8,
                None => false,
            }
        },
        Some((head, tail)) => {
            let h = side(&head);
            let t = side(&tail);
            let ghost hs = texts(h@);
            let all_zero = first_are_zero(&h, h.len());
            assert(all_zero == all_zero_groups(hs));
            if !all_zero {
                return false;
            }
            if h.len() > 7 || t.len() > 7 {
                return false;
            }
            match one_ending_groups(&t) {
                Some(n) => h.len() + n <= 7,
                None => false,
            }
        },
    }
}

/// Whether a host is on this machine.
pub fn is_local_host(host: &str) -> (r: bool)
    ensures
        r == is_local(host@),
{
    str_eq_ignore_case(host, "localhost") || is_ipv4_loopback_text(host) || is_ipv6_loopback_text(
        host,
    )
}

/// The host and the port of an authority, or why it is refused. A host in
/// brackets may hold colons; one without brackets that holds several colons is
/// taken whole.
pub open spec fn authority_of(a: Seq<char>) -> Result<(Seq<char>, nat), Seq<char>> {
    if starts_with(a, "["@) {
        match split_once(a.skip(1), "]"@) {
            None => Err("LLM endpoint IPv6 host is invalid"@),
            Some((host, rest)) => if rest.len() == 0 {
                Ok((host, 80))
            } else if !starts_with(rest, ":"@) {
                Err("LLM endpoint port is invalid"@)
            } else {
                match parsed_number(rest.skip(1), 65535) {
                    Some(port) => Ok((host, port)),
                    None => Err("LLM endpoint port is invalid"@),
                }
            },
        }
    } else if split(a, CharClass::Is(':')).len() > 2 {
        Ok((a, 80))
    } else {
        match split_once(a, ":"@) {
            Some((host, port)) => match parsed_number(port, 65535) {
                Some(n) => Ok((host, n)),
                None => Err("LLM endpoint port is invalid"@),
            },
            None => Ok((a, 80)),
        }
    }
}

/// The host, the port and the path of an endpoint, or why it is refused.
pub open spec fn endpoint_of(e: Seq<char>) -> Result<(Seq<char>, nat, Seq<char>), Seq<char>> {
    if !starts_with(e, "http://"@) {
        Err("only http local LLM endpoints are supported"@)
    } else {
        let rest = e.skip(7);
        let (authority, path) = match split_once(rest, "/"@) {
            Some((a, p)) => (a, p),
            None => (rest, ""@),
        };
        if authority.len() == 0 {
            Err("LLM endpoint is missing a host"@)
        } else {
            match authority_of(authority) {
                Err(m) => Err(m),
                Ok((host, port)) => if host.len() == 0 {
                    Err("LLM endpoint is missing a host"@)
                } else if !is_local(host) {
                    Err("LLM endpoint host must be local-only; rejected "@ + host)
                } else {
                    Ok((host, port, "/"@ + path))
                },
            }
        }
    }
}

/// A local HTTP endpoint.
#[derive(Debug)]
pub struct HttpEndpoint {
    pub host: String,
    pub port: u16,
    pub path: String,
}

/// The host as it stands in an address: in brackets where it holds a colon.
pub open spec fn bracketed(host: Seq<char>) -> Seq<char> {
    if contains(host, ":"@) {
        "["@ + host + "]"@
    } else {
        host
    }
}

/// The host as it stands in an address.
fn bracket_ipv6_host(host: &str) -> (r: String)
    ensures
        r@ == bracketed(host@),
{
    if str_contains(host, ":") {
        cat3("[", host, "]")
    } else {
        host.to_owned()
    }
}

impl HttpEndpoint {
    /// The address to connect to.
    pub open spec fn address(self) -> Seq<char> {
        bracketed(self.host@) + ":"@ + decimal(self.port as nat)
    }

    /// The address to connect to.
    pub fn socket_address(&self) -> (r: String)
        ensures
            r@ == self.address(),
    {
        cat3(&bracket_ipv6_host(&self.host), ":", &u64_text(self.port as u64))
    }

    /// The value of the `Host` header: without the port where it is the usual
    /// one.
    pub open spec fn header(self) -> Seq<char> {
        if self.port == 80 {
            bracketed(self.host@)
        } else {
            self.address()
        }
    }

    /// The value of the `Host` header.
    pub fn host_header(&self) -> (r: String)
        ensures
            r@ == self.header(),
    {
        if self.port == 80 {
            bracket_ipv6_host(&self.host)
        } else {
            self.socket_address()
        }
    }
}

/// Reads a port number.
fn parse_port(text: &str) -> (r: Result<u16, String>)
    ensures
        match parsed_number(text@, 65535) {
            Some(n) => r matches Ok(p) && p as nat == n,
            None => r matches Err(m) && m@ == "LLM endpoint port is invalid"@,
        },
{
    match parse_number(&chars_of(text), 65535) {
        Some(n) => Ok(n as u16),
        None => Err("LLM endpoint port is invalid".to_owned()),
    }
}

/// The host and the port of an authority.
fn parse_authority(authority: &str) -> (r: Result<(String, u16), String>)
    ensures
        match authority_of(authority@) {
            Ok((host, port)) => r matches Ok((h, p)) && h@ == host && p as nat == port,
            Err(m) => r matches Err(e) && e@ == m,
        },
{
    proof {
        reveal_strlit("[");
        reveal_strlit(":");
    }
    if let Some(rest) = str_strip_prefix(authority, "[") {
        let (host, rest) = match str_split_once(&rest, "]") {
            Some(pair) => pair,
            None => {
                return Err("LLM endpoint IPv6 host is invalid".to_owned());
            },
        };
        if rest.as_str().is_empty() {
            return Ok((host, 80));
        }
        return match str_strip_prefix(&rest, ":") {
            Some(port) => match parse_port(&port) {
                Ok(n) => Ok((host, n)),
                Err(m) => Err(m),
            },
            None => Err("LLM endpoint port is invalid".to_owned()),
        };
    }
    if str_split(authority, CharClass::Is(':')).len() > 2 {
        return Ok((authority.to_owned(), 80));
    }
    match str_split_once(authority, ":") {
        Some((host, port)) => match parse_port(&port) {
            Ok(n) => Ok((host, n)),
            Err(m) => Err(m),
        },
        None => Ok((authority.to_owned(), 80)),
    }
}

/// The endpoint that a configured address stands for. Only plain HTTP to this
/// machine is accepted.
pub fn parse_http_endpoint(endpoint: &str) -> (r: Result<HttpEndpoint, String>)
    ensures
        match endpoint_of(endpoint@) {
            Ok((host, port, path)) => r matches Ok(e) && e.host@ == host && e.port as nat == port
                && e.path@ == path,
            Err(m) => r matches Err(e) && e@ == m,
        },
{
    proof {
        reveal_strlit("http://");
    }
    let rest = match str_strip_prefix(endpoint, "http://") {
        Some(rest) => rest,
        None => {
            return Err("only http local LLM endpoints are supported".to_owned());
        },
    };
    let (authority, path) = match str_split_once(&rest, "/") {
        Some(pair) => pair,
        None => (rest, "".to_owned()),
    };
    if authority.as_str().is_empty() {
        return Err("LLM endpoint is missing a host".to_owned());
    }
    let (host, port) = match parse_authority(&authority) {
        Ok(pair) => pair,
        Err(m) => {
            return Err(m);
        },
    };
    if host.as_str().is_empty() {
        return Err("LLM endpoint is missing a host".to_owned());
    }
    if !is_local_host(&host) {
        return Err(cat2("LLM endpoint host must be local-only; rejected ", &host));
    }
    Ok(HttpEndpoint { host, port, path: cat2("/", &path) })
}

/// Text never leaves this machine: every endpoint that is accepted names a local
/// host, over plain HTTP, and a path from the root.
pub proof fn law_accepted_endpoint_is_local(e: Seq<char>)
    ensures
        endpoint_of(e) matches Ok((host, port, path)) ==> is_local(host) && starts_with(
            e,
            "http://"@,
        ) && starts_with(path, "/"@),
{
    if let Ok((host, port, path)) = endpoint_of(e) {
        reveal_strlit("/");
        let rest = e.skip(7);
        let p = match split_once(rest, "/"@) {
            Some((a, p)) => p,
            None => ""@,
        };
        assert(("/"@ + p).take(1) =~= "/"@);
    }
}

/// The host of this machine is called `localhost`, has an IPv4 address that starts with
/// 127, or has an IPv6 address of zeros and ones; no other host is taken for it.
pub proof fn law_local_hosts(host: Seq<char>)
    requires
        is_local(host),
    ensures
        eq_ignore_case(host, "localhost"@) || (starts_with(host, "127."@) && forall|i: int|
            0 <= i < host.len() ==> '0' <= #[trigger] host[i] <= '9' || host[i] == '.') || (contains(
            host,
            ":"@,
        ) && forall|i: int|
            0 <= i < host.len() ==> #[trigger] host[i] == '0' || host[i] == '1' || host[i] == ':'
                || host[i] == '.'),
{
    if !eq_ignore_case(host, "localhost"@) {
        if is_ipv4_loopback(host) {
            lemma_ipv4_chars(host);
        } else {
            lemma_ipv6_chars(host);
        }
    }
}

/// An IPv4 address of this machine starts with 127.
proof fn lemma_ipv4_chars(host: Seq<char>)
    requires
        is_ipv4_loopback(host),
    ensures
        starts_with(host, "127."@),
        forall|i: int|
            0 <= i < host.len() ==> '0' <= #[trigger] host[i] <= '9' || host[i] == '.',
{
    let p = split(host, CharClass::Is('.'));
    law_split_and_join(host, '.');
    reveal_strlit("127");
    reveal_strlit("127.");
    assert("127"@ + seq!['.'] =~= "127."@);
    lemma_join_start(p, seq!['.']);
    let f = |c: char| '0' <= c <= '9' || c == '.';
    assert forall|i: int, j: int|
        #![trigger p[i][j]]
        0 <= i < p.len() && 0 <= j < p[i].len() implies f(p[i][j]) by {
        if i == 0 {
            assert(p[0] == "127"@);
        } else {
            assert(is_octet(p[i]));
        }
    }
    lemma_join_chars(p, seq!['.'], f);
    assert forall|i: int| 0 <= i < host.len() implies '0' <= #[trigger] host[i] <= '9' || host[i]
        == '.' by {
        assert(f(host[i]));
    }
}

/// Whether a character stands in an IPv6 address of this machine.
spec fn is_group_char(c: char) -> bool {
    c == '0' || c == '1' || c == ':' || c == '.'
}

/// The groups of a side hold zeros and ones.
proof fn lemma_group_chars(s: Seq<char>)
    requires
        side_pieces(s).len() == 0 || all_zero_groups(side_pieces(s)) || one_ending(side_pieces(s))
            is Some || one_ending(split(s, CharClass::Is(':'))) is Some,
    ensures
        forall|i: int| 0 <= i < s.len() ==> is_group_char(#[trigger] s[i]),
{
    if s.len() > 0 {
        let p = split(s, CharClass::Is(':'));
        law_split_and_join(s, ':');
        reveal_strlit("0.0.0.1");
        let f = |c: char| is_group_char(c);
        assert forall|i: int, j: int|
            #![trigger p[i][j]]
            0 <= i < p.len() && 0 <= j < p[i].len() implies f(p[i][j]) by {
            if i == p.len() - 1 && !is_zero_group(p[i]) {
                assert(p.last() == p[i]);
            } else {
                assert(is_zero_group(p[i]));
            }
        }
        lemma_join_chars(p, seq![':'], f);
        assert forall|i: int| 0 <= i < s.len() implies is_group_char(#[trigger] s[i]) by {
            assert(f(s[i]));
        }
    }
}

/// An IPv6 address of this machine holds zeros and ones.
proof fn lemma_ipv6_chars(host: Seq<char>)
    requires
        is_ipv6_loopback(host),
    ensures
        contains(host, ":"@),
        forall|i: int|
            0 <= i < host.len() ==> #[trigger] host[i] == '0' || host[i] == '1' || host[i] == ':'
                || host[i] == '.',
{
    reveal_strlit(":");
    reveal_strlit("::");
    match split_once(host, "::"@) {
        None => {
            lemma_group_chars(host);
            let p = split(host, CharClass::Is(':'));
            law_split_and_join(host, ':');
            lemma_join_start(p, seq![':']);
            let n = p[0].len() as int;
            let x = p[0] + seq![':'];
            assert(host.take(n + 1)[n] == x[n]);
            assert(host.subrange(n, n + 1) =~= ":"@);
            assert(occurs_at(host, ":"@, n));
        },
        Some((head, tail)) => {
            let i = find(host, "::"@)->Some_0;
            assert(first_at(host, "::"@, i));
            lemma_group_chars(head);
            lemma_group_chars(tail);
            assert(host.subrange(i, i + 2)[0] == ':');
            assert(host.subrange(i, i + 2)[1] == ':');
            assert(host.subrange(i, i + 1) =~= ":"@);
            assert(occurs_at(host, ":"@, i));
            assert forall|k: int| 0 <= k < host.len() implies is_group_char(#[trigger] host[k]) by {
                if k < i {
                    assert(head[k] == host[k]);
                } else if k >= i + 2 {
                    assert(tail[k - i - 2] == host[k]);
                }
            }
        },
    }
}

/// The address of a host of this machine, with a port and a path, is read as that host,
/// port and path; without a port it is the usual one, and without a path the root.
pub proof fn law_local_endpoints_are_read(host: Seq<char>, port: nat, path: Seq<char>)
    requires
        is_local(host),
        host.len() > 0,
        port <= 65535,
        forall|i: int|
            0 <= i < host.len() ==> #[trigger] host[i] != '/' && host[i] != ':' && host[i] != '[',
    ensures
        endpoint_of("http://"@ + host + ":"@ + decimal(port) + "/"@ + path)
            == Ok::<(Seq<char>, nat, Seq<char>), Seq<char>>((host, port, "/"@ + path)),
        endpoint_of("http://"@ + host) == Ok::<(Seq<char>, nat, Seq<char>), Seq<char>>(
            (host, 80, "/"@),
        ),
{
    reveal_strlit("http://");
    reveal_strlit("/");
    reveal_strlit(":");
    reveal_strlit("[");
    reveal_strlit("");
    let d = decimal(port);
    lemma_decimal_is_digits(port);
    law_decimal_round_trip(port, 65535);
    let a = host + ":"@ + d;
    let e = "http://"@ + host + ":"@ + d + "/"@ + path;
    let rest = a + "/"@ + path;
    assert(e.take(7) =~= "http://"@);
    assert(e.skip(7) =~= rest);
    assert forall|k: int| 0 <= k < a.len() implies a[k] != '/' && a[k] != '[' by {
        if k < host.len() {
            assert(a[k] == host[k]);
        } else if k > host.len() {
            assert(a[k] == d[k - host.len() - 1]);
            assert(is_digit(d[k - host.len() - 1]));
        }
    }
    lemma_split_once(a, "/"@, path);
    assert(!starts_with(a, "["@)) by {
        assert(a.take(1)[0] == a[0]);
    }
    assert forall|k: int| 0 <= k < d.len() implies #[trigger] d[k] != ':' by {
        assert(is_digit(d[k]));
    }
    lemma_split_once(host, ":"@, d);
    law_split_at_separators(host, ':', d, CharClass::Is(':'));
    law_split_at_separators(d, ':', host, CharClass::Is(':'));
    assert(split(host, CharClass::Is(':')) =~= seq![host]);
    assert(split(d, CharClass::Is(':')) =~= seq![d]);
    assert(a =~= host + seq![':'] + d);
    let f = "http://"@ + host;
    assert(f.take(7) =~= "http://"@);
    assert(f.skip(7) =~= host);
    lemma_no_split_once(host, "/"@);
    lemma_no_split_once(host, ":"@);
    assert(!starts_with(host, "["@)) by {
        assert(host.take(1)[0] == host[0]);
    }
    assert("/"@ + ""@ =~= "/"@);
}

// ---------------------------------------------------------------------------
// JSON
// ---------------------------------------------------------------------------

/// A character within a JSON string: quotes, backslashes and control characters are
/// escaped, in the short form where there is one.
pub open spec fn json_escaped(c: char) -> Seq<char> {
    if c == '"' || c == '\\' {
        seq!['\\', c]
    } else if c == '\n' {
        seq!['\\', 'n']
    } else if c == '\r' {
        seq!['\\', 'r']
    } else if c == '\t' {
        seq!['\\', 't']
    } else if c == '\u{8}' {
        seq!['\\', 'b']
    } else if c == '\u{c}' {
        seq!['\\', 'f']
    } else if (c as u32) < 32 {
        let digits = "0123456789abcdef"@;
        seq!['\\', 'u', '0', '0', digits[c as int / 16], digits[c as int % 16]]
    } else {
        seq![c]
    }
}

/// The characters of a text within a JSON string.
pub open spec fn json_chars(s: Seq<char>) -> Seq<char>
    decreases s.len(),
{
    if s.len() == 0 {
        Seq::empty()
    } else {
        json_chars(s.drop_last()) + json_escaped(s.last())
    }
}

/// A text as a JSON string.
pub open spec fn json_string(s: Seq<char>) -> Seq<char> {
    seq!['"'] + json_chars(s) + seq!['"']
}

/// `serde_json::Value` of a text, written out: the text in double quotes, each character
/// as it is but for quotes, backslashes and the control characters below the space,
/// which are escaped, with lower-case digits where a character has no short escape.
#[verifier::external_body]
fn json_string_of(s: &str) -> (r: String)
    ensures
        r@ == json_string(s@),
{
    serde_json::Value::from(s).to_string()
}

/// What a JSON text holds under a key of its outermost object: an error where the
/// text is not JSON, nothing where there is no string under the key.
pub uninterp spec fn json_text_under(text: Seq<char>, key: Seq<char>) -> Result<
    Option<Seq<char>>,
    Seq<char>,
>;

/// `serde_json::from_str` into a `serde_json::Value`, indexed by a key and taken
/// as a string. What comes back, the message of a parse error included, depends
/// on the arguments alone.
#[verifier::external_body]
pub(crate) fn find_json_text(text: &str, key: &str) -> (r: Result<Option<String>, String>)
    ensures
        found_text(r) == json_text_under(text@, key@),
{
    let value: serde_json::Value = serde_json::from_str(text).map_err(
        |e: serde_json::Error| e.to_string(),
    )?;
    Ok(value[key].as_str().map(|s| s.to_owned()))
}

/// What a JSON text holds at a path: an object's list, an item of it, an object
/// in that, and a key of this one. An error where the text is not JSON, nothing
/// where there is no string there.
pub uninterp spec fn json_text_within(
    text: Seq<char>,
    list: Seq<char>,
    index: nat,
    item: Seq<char>,
    key: Seq<char>,
) -> Result<Option<Seq<char>>, Seq<char>>;

/// `serde_json::from_str` into a `serde_json::Value`, indexed by a key, a
/// position and two more keys, and taken as a string. What comes back, the
/// message of a parse error included, depends on the arguments alone.
#[verifier::external_body]
fn find_nested_json_text(text: &str, list: &str, index: usize, item: &str, key: &str) -> (r: Result<
    Option<String>,
    String,
>)
    ensures
        found_text(r) == json_text_within(text@, list@, index as nat, item@, key@),
{
    let value: serde_json::Value = serde_json::from_str(text).map_err(
        |e: serde_json::Error| e.to_string(),
    )?;
    Ok(value[list][index][item][key].as_str().map(|s| s.to_owned()))
}

/// What was found in a JSON text, by its texts.
pub open spec fn found_text(r: Result<Option<String>, String>) -> Result<
    Option<Seq<char>>,
    Seq<char>,
> {
    match r {
        Ok(o) => Ok(opt_text(o)),
        Err(e) => Err(e@),
    }
}

/// The request to a server with the Ollama protocol.
pub open spec fn ollama_body(model: Seq<char>, prompt: Seq<char>) -> Seq<char> {
    "{\"model\":"@ + json_string(model) + ",\"prompt\":"@ + json_string(prompt)
        + ",\"stream\":false}"@
}

/// The request to a server with the OpenAI protocol.
pub open spec fn openai_body(model: Seq<char>, system: Seq<char>, user: Seq<char>) -> Seq<char> {
    "{\"messages\":[{\"content\":"@ + json_string(system)
        + ",\"role\":\"system\"},{\"content\":"@ + json_string(user)
        + ",\"role\":\"user\"}],\"model\":"@ + json_string(model) + ",\"stream\":false}"@
}

/// The request that asks a provider for a rewrite.
pub open spec fn request_body(
    provider: LlmProvider,
    model: Seq<char>,
    instruction: Seq<char>,
    profile: Option<&StyleProfile>,
    text: Seq<char>,
) -> Seq<char> {
    match provider {
        LlmProvider::Ollama => ollama_body(model, prompt_text(instruction, profile, text)),
        LlmProvider::OpenAiCompatible => openai_body(
            model,
            system_text(instruction, profile),
            text,
        ),
    }
}

/// A request names the model and carries the instructions and the dictated text, each as
/// a JSON string, whichever the provider.
pub proof fn law_requests_carry_what_was_asked(
    provider: LlmProvider,
    model: Seq<char>,
    instruction: Seq<char>,
    profile: Option<&StyleProfile>,
    text: Seq<char>,
)
    ensures
        ({
            let body = request_body(provider, model, instruction, profile, text);
            &&& contains(body, "\"model\":"@ + json_string(model))
            &&& contains(body, "\"stream\":false"@)
            &&& provider == LlmProvider::Ollama ==> contains(
                body,
                "\"prompt\":"@ + json_string(prompt_text(instruction, profile, text)),
            )
            &&& provider == LlmProvider::OpenAiCompatible ==> contains(
                body,
                "{\"content\":"@ + json_string(system_text(instruction, profile))
                    + ",\"role\":\"system\"}"@,
            ) && contains(
                body,
                "{\"content\":"@ + json_string(text) + ",\"role\":\"user\"}"@,
            )
        }),
{
    reveal_strlit("{\"model\":");
    reveal_strlit("\"model\":");
    reveal_strlit(",\"prompt\":");
    reveal_strlit("\"prompt\":");
    reveal_strlit(",\"stream\":false}");
    reveal_strlit("\"stream\":false");
    reveal_strlit("{\"messages\":[{\"content\":");
    reveal_strlit("{\"content\":");
    reveal_strlit(",\"role\":\"system\"},{\"content\":");
    reveal_strlit(",\"role\":\"system\"}");
    reveal_strlit(",\"role\":\"user\"}],\"model\":");
    reveal_strlit(",\"role\":\"user\"}");
    let body = request_body(provider, model, instruction, profile, text);
    let m = json_string(model);
    match provider {
        LlmProvider::Ollama => {
            let p = json_string(prompt_text(instruction, profile, text));
            let x = "\"model\":"@ + m;
            let y = "\"prompt\":"@ + p;
            assert(body.subrange(1, (1 + x.len()) as int) =~= x);
            assert(occurs_at(body, x, 1));
            let i = (1 + x.len() + 1) as int;
            assert(body.subrange(i, i + y.len()) =~= y);
            assert(occurs_at(body, y, i));
            let z = "\"stream\":false"@;
            let j = body.len() - 1 - z.len();
            assert(body.subrange(j, j + z.len()) =~= z);
            assert(occurs_at(body, z, j));
        },
        LlmProvider::OpenAiCompatible => {
            let p = json_string(system_text(instruction, profile));
            let u = json_string(text);
            let x = "{\"content\":"@ + p + ",\"role\":\"system\"}"@;
            let y = "{\"content\":"@ + u + ",\"role\":\"user\"}"@;
            let i = "{\"messages\":["@.len() as int;
            reveal_strlit("{\"messages\":[");
            assert(body.subrange(i, i + x.len()) =~= x);
            assert(occurs_at(body, x, i));
            let j = i + x.len() + 1;
            assert(body.subrange(j, j + y.len()) =~= y);
            assert(occurs_at(body, y, j));
            let k = j + y.len() + 2;
            let w = "\"model\":"@ + m;
            assert(body.subrange(k, k + w.len()) =~= w);
            assert(occurs_at(body, w, k));
            let z = "\"stream\":false"@;
            let l = body.len() - 1 - z.len();
            assert(body.subrange(l, l + z.len()) =~= z);
            assert(occurs_at(body, z, l));
        },
    }
}

/// The request that asks a provider for a rewrite.
pub fn build_request_body(provider: LlmProvider, model: &str, input: &RewriteInput<'_>) -> (r:
    String)
    ensures
        r@ == request_body(provider, model@, input.instruction@, input.profile, input.text@),
{
    match provider {
        LlmProvider::Ollama => cat5(
            "{\"model\":",
            &json_string_of(model),
            ",\"prompt\":",
            &json_string_of(&build_prompt(input)),
            ",\"stream\":false}",
        ),
        LlmProvider::OpenAiCompatible => {
            let mut s = cat6(
                "{\"messages\":[{\"content\":",
                &json_string_of(&system_prompt(input.instruction, input.profile)),
                ",\"role\":\"system\"},{\"content\":",
                &json_string_of(input.text),
                ",\"role\":\"user\"}],\"model\":",
                &json_string_of(model),
            );
            s.append(",\"stream\":false}");
            s
        },
    }
}

/// The text of an Ollama reply, given what its JSON holds.
pub open spec fn ollama_answer(found: Result<Option<Seq<char>>, Seq<char>>) -> Result<
    Seq<char>,
    Seq<char>,
> {
    match found {
        Err(e) => Err("invalid Ollama JSON: "@ + e),
        Ok(Some(text)) => Ok(text),
        Ok(None) => Err("Ollama response did not include response text"@),
    }
}

/// The text of an OpenAI-compatible reply, given what its JSON holds.
pub open spec fn openai_answer(found: Result<Option<Seq<char>>, Seq<char>>) -> Result<
    Seq<char>,
    Seq<char>,
> {
    match found {
        Err(e) => Err("invalid OpenAI-compatible JSON: "@ + e),
        Ok(Some(text)) => Ok(text),
        Ok(None) => Err("OpenAI-compatible response did not include message content"@),
    }
}

/// A result by its texts.
pub open spec fn result_text(r: Result<String, String>) -> Result<Seq<char>, Seq<char>> {
    match r {
        Ok(t) => Ok(t@),
        Err(e) => Err(e@),
    }
}

/// The text of an Ollama reply, given what its JSON holds.
pub fn ollama_text(found: Result<Option<String>, String>) -> (r: Result<String, String>)
    ensures
        result_text(r) == ollama_answer(found_text(found)),
{
    match found {
        Err(e) => Err(cat2("invalid Ollama JSON: ", &e)),
        Ok(Some(text)) => Ok(text),
        Ok(None) => Err("Ollama response did not include response text".to_owned()),
    }
}

/// The text of an OpenAI-compatible reply, given what its JSON holds.
pub fn openai_text(found: Result<Option<String>, String>) -> (r: Result<String, String>)
    ensures
        result_text(r) == openai_answer(found_text(found)),
{
    match found {
        Err(e) => Err(cat2("invalid OpenAI-compatible JSON: ", &e)),
        Ok(Some(text)) => Ok(text),
        Ok(None) => Err("OpenAI-compatible response did not include message content".to_owned()),
    }
}

/// The text of an Ollama reply.
pub fn parse_ollama_response(response: &str) -> (r: Result<String, String>)
    ensures
        result_text(r) == ollama_answer(json_text_under(response@, "response"@)),
{
    ollama_text(find_json_text(response, "response"))
}

/// The text of an OpenAI-compatible reply.
pub fn parse_openai_response(response: &str) -> (r: Result<String, String>)
    ensures
        result_text(r) == openai_answer(
            json_text_within(response@, "choices"@, 0, "message"@, "content"@),
        ),
{
    openai_text(find_nested_json_text(response, "choices", 0, "message", "content"))
}

/// The answer in a provider's reply.
pub open spec fn answer_of(provider: LlmProvider, body: Seq<char>) -> Result<Seq<char>, Seq<char>> {
    match provider {
        LlmProvider::Ollama => ollama_answer(json_text_under(body, "response"@)),
        LlmProvider::OpenAiCompatible => openai_answer(
            json_text_within(body, "choices"@, 0, "message"@, "content"@),
        ),
    }
}

// ---------------------------------------------------------------------------
// HTTP
// ---------------------------------------------------------------------------

/// The HTTP request that posts a JSON body.
pub open spec fn http_post(e: HttpEndpoint, body: Seq<char>) -> Seq<char> {
    "POST "@ + e.path@ + " HTTP/1.1\r\nHost: "@ + e.header()
        + "\r\nContent-Type: application/json\r\nAccept: application/json\r\nContent-Length: "@
        + decimal(byte_len(body) as nat) + "\r\nConnection: close\r\n\r\n"@ + body
}

/// The HTTP request that posts a JSON body.
pub fn http_request(endpoint: &HttpEndpoint, body: &str) -> (r: String)
    ensures
        r@ == http_post(*endpoint, body@),
{
    cat8(
        "POST ",
        &endpoint.path,
        " HTTP/1.1\r\nHost: ",
        &endpoint.host_header(),
        "\r\nContent-Type: application/json\r\nAccept: application/json\r\nContent-Length: ",
        &usize_text(body.len()),
        "\r\nConnection: close\r\n\r\n",
        body,
    )
}

/// The status code in the head of an HTTP response: the second word of its first
/// line.
pub open spec fn http_status(head: Seq<char>) -> Seq<char> {
    let l = lines(head);
    if l.len() > 0 && words(l[0]).len() > 1 {
        words(l[0])[1]
    } else {
        "000"@
    }
}

/// The body of a successful HTTP response, or what is wrong with it.
pub open spec fn http_body(response: Seq<char>) -> Result<Seq<char>, Seq<char>> {
    match split_once(response, "\r\n\r\n"@) {
        None => Err("LLM response was not valid HTTP"@),
        Some((head, body)) => if starts_with(http_status(head), "2"@) {
            Ok(body)
        } else {
            Err("LLM endpoint returned HTTP "@ + http_status(head))
        },
    }
}

/// The status code in the head of an HTTP response.
fn read_http_status(head: &str) -> (r: String)
    ensures
        r@ == http_status(head@),
{
    let l = str_lines(head);
    if l.len() > 0 {
        assert(texts(l@)[0] == l@[0]@);
        let w = str_words(&l[0]);
        if w.len() > 1 {
            assert(texts(w@)[1] == w@[1]@);
            return w[1].clone();
        }
    }
    "000".to_owned()
}

/// The body of a successful HTTP response.
pub fn parse_http_response(response: &str) -> (r: Result<String, String>)
    ensures
        result_text(r) == http_body(response@),
{
    match str_split_once(response, "\r\n\r\n") {
        None => Err("LLM response was not valid HTTP".to_owned()),
        Some((head, body)) => {
            let status = read_http_status(&head);
            if str_strip_prefix(&status, "2").is_some() {
                Ok(body)
            } else {
                Err(cat2("LLM endpoint returned HTTP ", &status))
            }
        },
    }
}

/// Why no response came back.
#[derive(Debug)]
pub enum TransportError {
    Connect(String),
    ReadTimeout(String),
    WriteTimeout(String),
    Request(String),
    Response(String),
}

impl TransportError {
    /// What is reported.
    pub open spec fn text(self) -> Seq<char> {
        match self {
            TransportError::Connect(e) => "LLM connection failed: "@ + e@,
            TransportError::ReadTimeout(e) => "LLM read timeout setup failed: "@ + e@,
            TransportError::WriteTimeout(e) => "LLM write timeout setup failed: "@ + e@,
            TransportError::Request(e) => "LLM request failed: "@ + e@,
            TransportError::Response(e) => "LLM response failed: "@ + e@,
        }
    }

    /// What is reported.
    pub fn message(&self) -> (r: String)
        ensures
            r@ == self.text(),
    {
        match self {
            TransportError::Connect(e) => cat2("LLM connection failed: ", e),
            TransportError::ReadTimeout(e) => cat2("LLM read timeout setup failed: ", e),
            TransportError::WriteTimeout(e) => cat2("LLM write timeout setup failed: ", e),
            TransportError::Request(e) => cat2("LLM request failed: ", e),
            TransportError::Response(e) => cat2("LLM response failed: ", e),
        }
    }
}

// ---------------------------------------------------------------------------
// The rewrite
// ---------------------------------------------------------------------------

/// Whether `q` records the request that a configuration and an input make.
pub open spec fn is_request(
    q: LlmRequestRecord,
    config: LocalLlmConfig,
    model: Seq<char>,
    mode: Seq<char>,
    text: Seq<char>,
    instruction: Seq<char>,
    profile: Option<&StyleProfile>,
) -> bool {
    &&& q.provider@ == config.provider.name()
    &&& q.endpoint@ == config.endpoint@
    &&& q.model@ == model
    &&& q.mode@ == mode
    &&& q.input_kind@ == "text"@
    &&& q.input_bytes == byte_len(text)
    &&& q.context_policy@ == LLM_CONTEXT_POLICY@
    &&& q.instruction@ == instruction
    &&& opt_text(q.style_profile) == match profile {
        Some(p) => Some(p.name@),
        None => None,
    }
}

/// A rewrite that is ready to be sent.
#[derive(Debug)]
pub struct PreparedRewrite {
    pub provider: LlmProvider,
    pub request: LlmRequestRecord,
    /// The address to connect to.
    pub address: String,
    /// What to send there.
    pub http: String,
    /// How long to wait for it to be taken and answered.
    pub timeout_ms: u64,
}

/// Whether `r` is what preparing a rewrite comes to: a disabled or incomplete
/// configuration is skipped, an endpoint that is not local is refused before
/// anything is sent.
pub open spec fn is_prepared(
    config: LocalLlmConfig,
    mode: Seq<char>,
    text: Seq<char>,
    instruction: Seq<char>,
    profile: Option<&StyleProfile>,
    r: Result<PreparedRewrite, LlmRewriteRecord>,
) -> bool {
    if !config.enabled {
        r matches Err(record) && is_skipped(record, "local LLM is disabled"@)
    } else {
        match config.model {
            None => r matches Err(record) && is_skipped(
                record,
                "local LLM model is not configured"@,
            ),
            Some(model) => match endpoint_of(config.endpoint@) {
                Err(m) => r matches Err(record) && record.request is Some && is_request(
                    record.request->0,
                    config,
                    model@,
                    mode,
                    text,
                    instruction,
                    profile,
                ) && is_fallback(record, record.request, m),
                Ok((host, port, path)) => r matches Ok(p) && {
                    &&& p.provider == config.provider
                    &&& is_request(p.request, config, model@, mode, text, instruction, profile)
                    &&& p.timeout_ms == if config.timeout_ms == 0 {
                        1
                    } else {
                        config.timeout_ms
                    }
                    &&& exists|e: HttpEndpoint|
                        e.host@ == host && e.port as nat == port && e.path@ == path && p.address@
                            == e.address() && p.http@ == #[trigger] http_post(
                            e,
                            request_body(config.provider, model@, instruction, profile, text),
                        )
                },
            },
        }
    }
}

/// Prepares a rewrite.
pub fn prepare_rewrite(config: &LocalLlmConfig, input: &RewriteInput<'_>) -> (r: Result<
    PreparedRewrite,
    LlmRewriteRecord,
>)
    ensures
        is_prepared(*config, input.mode@, input.text@, input.instruction@, input.profile, r),
{
    if !config.enabled {
        return Err(skipped_record("local LLM is disabled"));
    }
    let model: &str = match &config.model {
        Some(model) => model.as_str(),
        None => {
            return Err(skipped_record("local LLM model is not configured"));
        },
    };
    let request = LlmRequestRecord {
        provider: config.provider.as_str().to_owned(),
        endpoint: config.endpoint.clone(),
        model: model.to_owned(),
        mode: input.mode.to_owned(),
        input_kind: "text".to_owned(),
        input_bytes: input.text.len(),
        context_policy: LLM_CONTEXT_POLICY.to_owned(),
        instruction: input.instruction.to_owned(),
        style_profile: match input.profile {
            Some(p) => Some(p.name.clone()),
            None => None,
        },
    };
    let endpoint = match parse_http_endpoint(&config.endpoint) {
        Ok(endpoint) => endpoint,
        Err(m) => {
            return Err(fallback_record(Some(request), m));
        },
    };
    let body = build_request_body(config.provider, model, input);
    let http = http_request(&endpoint, &body);
    let timeout_ms: u64 = if config.timeout_ms == 0 {
        1
    } else {
        config.timeout_ms
    };
    Ok(
        PreparedRewrite {
            provider: config.provider,
            request,
            address: endpoint.socket_address(),
            http,
            timeout_ms,
        },
    )
}

/// The rewritten text of a provider's answer, or what is wrong with it.
pub open spec fn rewritten(answer: Result<Seq<char>, Seq<char>>) -> Result<Seq<char>, Seq<char>> {
    match answer {
        Err(m) => Err(m),
        Ok(text) => if trim(text).len() == 0 {
            Err("local LLM returned empty text"@)
        } else {
            Ok(trim(text))
        },
    }
}

/// The answer that a reply holds: what the transport reports, else what the HTTP
/// response and the JSON in it hold.
pub open spec fn reply_answer(
    provider: LlmProvider,
    reply: Result<String, TransportError>,
) -> Result<Seq<char>, Seq<char>> {
    match reply {
        Err(e) => Err(e.text()),
        Ok(response) => match http_body(response@) {
            Err(m) => Err(m),
            Ok(body) => answer_of(provider, body),
        },
    }
}

/// Whether `r` is what a rewrite with this request comes to, given the answer.
pub open spec fn is_outcome(
    request: LlmRequestRecord,
    answer: Result<Seq<char>, Seq<char>>,
    r: Result<RewriteSuccess, LlmRewriteRecord>,
) -> bool {
    match rewritten(answer) {
        Ok(text) => r matches Ok(s) && {
            &&& s.text@ == text
            &&& s.record.attempted
            &&& s.record.status@ == "rewritten"@
            &&& s.record.request == Some(request)
            &&& s.record.error is None
        },
        Err(m) => r matches Err(record) && is_fallback(record, Some(request), m),
    }
}

/// What a rewrite comes to, given the provider's answer.
pub fn finish_with_answer(request: LlmRequestRecord, answer: Result<String, String>) -> (r: Result<
    RewriteSuccess,
    LlmRewriteRecord,
>)
    ensures
        is_outcome(request, result_text(answer), r),
{
    match answer {
        Err(m) => Err(fallback_record(Some(request), m)),
        Ok(text) => {
            let text = str_trim(&text);
            if text.as_str().is_empty() {
                Err(fallback_record(Some(request), "local LLM returned empty text".to_owned()))
            } else {
                Ok(
                    RewriteSuccess {
                        text,
                        record: LlmRewriteRecord {
                            attempted: true,
                            status: "rewritten".to_owned(),
                            request: Some(request),
                            error: None,
                        },
                    },
                )
            }
        },
    }
}

/// What a rewrite comes to, given what came back over the connection.
pub fn finish_rewrite(
    provider: LlmProvider,
    request: LlmRequestRecord,
    reply: Result<String, TransportError>,
) -> (r: Result<RewriteSuccess, LlmRewriteRecord>)
    ensures
        is_outcome(request, reply_answer(provider, reply), r),
{
    let answer = match reply {
        Err(e) => Err(e.message()),
        Ok(response) => match parse_http_response(&response) {
            Err(m) => Err(m),
            Ok(body) => match provider {
                LlmProvider::Ollama => parse_ollama_response(&body),
                LlmProvider::OpenAiCompatible => parse_openai_response(&body),
            },
        },
    };
    finish_with_answer(request, answer)
}

/// A response whose first line holds a status that starts with two, and whose head ends
/// at the first empty line, gives what follows that line; with any other status it gives an
/// error that tells the status.
pub proof fn law_response_bodies(
    version: Seq<char>,
    status: Seq<char>,
    reason: Seq<char>,
    head: Seq<char>,
    body: Seq<char>,
)
    requires
        version.len() > 0 && is_solid(version),
        status.len() > 0 && is_solid(status),
        forall|i: int| 0 <= i < reason.len() ==> #[trigger] reason[i] != '\n',
        head == version + seq![' '] + status + seq![' '] + reason || exists|more: Seq<char>|
            head == #[trigger] ((version + seq![' '] + status + seq![' '] + reason).push('\n')
                + more),
        first_at(head + "\r\n\r\n"@ + body, "\r\n\r\n"@, head.len() as int),
    ensures
        status[0] == '2' ==> http_body(head + "\r\n\r\n"@ + body) == Ok::<
            Seq<char>,
            Seq<char>,
        >(body),
        status[0] != '2' ==> http_body(head + "\r\n\r\n"@ + body) == Err::<
            Seq<char>,
            Seq<char>,
        >("LLM endpoint returned HTTP "@ + status),
{
    let s = head + "\r\n\r\n"@ + body;
    let pat = "\r\n\r\n"@;
    reveal_strlit("\r\n\r\n");
    reveal_strlit("2");
    let n = head.len() as int;
    let i = find(s, pat)->Some_0;
    assert(first_at(s, pat, i));
    assert(i == n) by {
        if i < n {
            assert(!occurs_at(s, pat, i));
        } else if n < i {
            assert(!occurs_at(s, pat, n));
        }
    }
    assert(s.take(n) =~= head);
    assert(s.skip(n + 4) =~= body);
    let line = version + seq![' '] + status + seq![' '] + reason;
    assert forall|k: int| 0 <= k < line.len() implies #[trigger] line[k] != '\n' by {
        if k < version.len() {
            assert(line[k] == version[k]);
            assert(!is_white(version[k]));
        } else if version.len() < k < version.len() + 1 + status.len() {
            assert(line[k] == status[k - version.len() - 1]);
            assert(!is_white(status[k - version.len() - 1]));
        } else if k > version.len() + 1 + status.len() {
            assert(line[k] == reason[k - version.len() - status.len() - 2]);
        }
    }
    let l = lines(head);
    if head == line {
        law_lines_end_at_line_feeds(line, Seq::empty());
    } else {
        let more = choose|more: Seq<char>| head == #[trigger] (line.push('\n') + more);
        law_lines_end_at_line_feeds(line, more);
    }
    let first = l[0];
    let shown = if first == line {
        reason
    } else {
        reason.drop_last()
    };
    assert(first =~= version + seq![' '] + (status + seq![' '] + shown) || first =~= version
        + seq![' '] + status) by {
        if first != line {
            assert(first == line.drop_last());
        }
    }
    law_words_between_white_space(version, ' ', status + seq![' '] + shown);
    law_words_between_white_space(version, ' ', status);
    law_words_between_white_space(status, ' ', shown);
    assert(words(version) =~= seq![version]);
    assert(words(status) =~= seq![status]);
    assert(words(first)[1] == status);
    assert(http_status(head) == status);
    assert(status.take(1)[0] == status[0]);
    if status[0] == '2' {
        assert(status.take(1) =~= "2"@);
    }
}

/// A request posts to the path of the endpoint, tells how long its body is, and ends with
/// that body.
pub proof fn law_requests_are_posted(e: HttpEndpoint, body: Seq<char>)
    ensures
        starts_with(http_post(e, body), "POST "@ + e.path@ + " HTTP/1.1\r\n"@),
        contains(
            http_post(e, body),
            "Content-Length: "@ + decimal(byte_len(body) as nat) + "\r\n"@,
        ),
        ends_with(http_post(e, body), "\r\n\r\n"@ + body),
{
    let p = http_post(e, body);
    reveal_strlit(" HTTP/1.1\r\nHost: ");
    reveal_strlit(" HTTP/1.1\r\n");
    reveal_strlit(
        "\r\nContent-Type: application/json\r\nAccept: application/json\r\nContent-Length: ",
    );
    reveal_strlit("Content-Length: ");
    reveal_strlit("\r\nConnection: close\r\n\r\n");
    reveal_strlit("\r\n");
    reveal_strlit("\r\n\r\n");
    let x = "POST "@ + e.path@ + " HTTP/1.1\r\n"@;
    assert(p.take(x.len() as int) =~= x);
    let d = decimal(byte_len(body) as nat);
    let y = "Content-Length: "@ + d + "\r\n"@;
    let z = "\r\n\r\n"@ + body;
    assert(p.skip(p.len() - z.len()) =~= z);
    let mid = "\r\nContent-Type: application/json\r\nAccept: application/json\r\nContent-Length: "@;
    let a = "POST "@ + e.path@ + " HTTP/1.1\r\nHost: "@ + e.header();
    let at = a.len() + mid.len() - 16;
    assert(p =~= a + mid + d + ("\r\nConnection: close\r\n\r\n"@ + body));
    assert(mid.skip(mid.len() - 16) =~= "Content-Length: "@);
    assert forall|k: int| 0 <= k < 16 implies p[at + k] == "Content-Length: "@[k] by {
        assert(p[at + k] == mid[mid.len() - 16 + k]);
        assert(mid.skip(mid.len() - 16)[k] == mid[mid.len() - 16 + k]);
    }
    assert(p.subrange(at, at + y.len()) =~= y);
    assert(occurs_at(p, y, at));
}

/// Nothing is sent unless the language model is switched on, has a model and is on this
/// machine; what is sent then ends with the request for the text.
pub proof fn law_only_asked_local_models_are_reached(
    config: LocalLlmConfig,
    mode: Seq<char>,
    text: Seq<char>,
    instruction: Seq<char>,
    profile: Option<&StyleProfile>,
    r: Result<PreparedRewrite, LlmRewriteRecord>,
)
    requires
        is_prepared(config, mode, text, instruction, profile, r),
    ensures
        r is Ok <==> config.enabled && config.model is Some && endpoint_of(config.endpoint@) is Ok,
        r matches Ok(p) ==> ends_with(
            p.http@,
            request_body(config.provider, config.model->0@, instruction, profile, text),
        ) && p.provider == config.provider && p.timeout_ms > 0,
        r matches Err(record) ==> record.error is Some && (record.request is Some ==> config.enabled),
        r matches Ok(p) ==> p.request.instruction@ == instruction && p.request.mode@ == mode
            && p.request.model@ == config.model->0@ && p.request.endpoint@ == config.endpoint@
            && p.request.provider@ == config.provider.name() && p.request.input_bytes == byte_len(
            text,
        ) && p.request.context_policy@ == LLM_CONTEXT_POLICY@ && (profile matches Some(x)
            ==> opt_text(p.request.style_profile) == Some(x.name@)),
{
    if let Ok(p) = r {
        let model = config.model->0@;
        let body = request_body(config.provider, model, instruction, profile, text);
        let e = choose|e: HttpEndpoint|
            p.address@ == e.address() && p.http@ == #[trigger] http_post(e, body);
        assert(p.http@.skip(p.http@.len() - body.len()) =~= body);
    }
}

/// The trimmed answer is the rewritten text; an answer without text is a failure.
pub proof fn law_answers_are_trimmed(
    request: LlmRequestRecord,
    answer: Result<Seq<char>, Seq<char>>,
    r: Result<RewriteSuccess, LlmRewriteRecord>,
)
    requires
        is_outcome(request, answer, r),
    ensures
        answer matches Ok(t) ==> if trim(t).len() > 0 {
            r matches Ok(s) && s.text@ == trim(t)
        } else {
            r is Err
        },
        answer matches Err(m) ==> r matches Err(record) && opt_text(record.error) == Some(m),
        r matches Err(record) ==> record.request == Some(request),
        r matches Ok(s) ==> s.record.request == Some(request) && s.record.error is None,
{
}

/// The answer of a provider is the string that its reply holds in the provider's place.
pub proof fn law_answers_come_from_their_place(provider: LlmProvider, response: String)
    ensures
        http_body(response@) matches Ok(body) ==> {
            let found = match provider {
                LlmProvider::Ollama => json_text_under(body, "response"@),
                LlmProvider::OpenAiCompatible => json_text_within(
                    body,
                    "choices"@,
                    0,
                    "message"@,
                    "content"@,
                ),
            };
            &&& found matches Ok(Some(text)) ==> reply_answer(provider, Ok(response)) == Ok::<
                Seq<char>,
                Seq<char>,
            >(text)
            &&& !(found matches Ok(Some(_))) ==> reply_answer(provider, Ok(response)) is Err
        },
        http_body(response@) is Err ==> reply_answer(provider, Ok(response)) is Err,
{
}

} // verus!

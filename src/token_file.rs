use vstd::prelude::*;

use crate::auth::{all_digits, digits_value, is_digit};
use crate::text::{decimal, decimal_chars, digit_char, push_all, string_of};
use crate::token::{map_of_pairs, AccessToken, TokenStore};

verus! {

// The token cache file is the JSON text `{"tokens":{"<name>":{"value":"<token>","expires":<n>},...}}`.

/// A token as read from the file: its name, its value and its expiry.
pub type FileEntry = (Seq<char>, Seq<char>, u64);

/// The fields of each stored token, by name.
pub open spec fn fields(m: Map<Seq<char>, AccessToken>) -> Map<Seq<char>, (Seq<char>, u64)> {
    Map::new(|k: Seq<char>| m.contains_key(k), |k: Seq<char>| (m[k].value@, m[k].expires))
}

/// The fields by name of entries read in order, a later entry replacing an earlier one.
pub open spec fn map_of_entries(es: Seq<FileEntry>) -> Map<Seq<char>, (Seq<char>, u64)>
    decreases es.len(),
{
    if es.len() == 0 {
        Map::empty()
    } else {
        let e = es.last();
        map_of_entries(es.drop_last()).insert(e.0, (e.1, e.2))
    }
}

pub open spec fn entry_of(p: (String, AccessToken)) -> FileEntry {
    (p.0@, p.1.value@, p.1.expires)
}

pub open spec fn entries_of(pairs: Seq<(String, AccessToken)>) -> Seq<FileEntry> {
    pairs.map_values(|p: (String, AccessToken)| entry_of(p))
}

// ---- writing ----

pub open spec fn json_char(c: char) -> Seq<char> {
    if c == '"' {
        seq!['\\', '"']
    } else if c == '\\' {
        seq!['\\', '\\']
    } else {
        seq![c]
    }
}

/// `s` with quotes and backslashes escaped.
pub open spec fn escaped_json(s: Seq<char>) -> Seq<char>
    decreases s.len(),
{
    if s.len() == 0 {
        Seq::empty()
    } else {
        json_char(s[0]) + escaped_json(s.skip(1))
    }
}

pub open spec fn quoted(s: Seq<char>) -> Seq<char> {
    seq!['"'] + escaped_json(s) + seq!['"']
}

pub open spec fn value_key() -> Seq<char> {
    seq!['v', 'a', 'l', 'u', 'e']
}

pub open spec fn expires_key() -> Seq<char> {
    seq!['e', 'x', 'p', 'i', 'r', 'e', 's']
}

pub open spec fn tokens_key() -> Seq<char> {
    seq!['t', 'o', 'k', 'e', 'n', 's']
}

/// `{"value":"<value>","expires":<n>}`
pub open spec fn token_text(value: Seq<char>, expires: u64) -> Seq<char> {
    seq!['{'] + quoted(value_key()) + seq![':'] + quoted(value) + seq![','] + quoted(expires_key())
        + seq![':'] + decimal(expires as nat) + seq!['}']
}

/// `"<name>":{...}`
pub open spec fn entry_text(e: FileEntry) -> Seq<char> {
    quoted(e.0) + seq![':'] + token_text(e.1, e.2)
}

/// Each entry preceded by a comma.
pub open spec fn tail_text(es: Seq<FileEntry>) -> Seq<char>
    decreases es.len(),
{
    if es.len() == 0 {
        Seq::empty()
    } else {
        tail_text(es.drop_last()) + seq![','] + entry_text(es.last())
    }
}

/// The entries separated by commas.
pub open spec fn entries_text(es: Seq<FileEntry>) -> Seq<char> {
    if es.len() == 0 {
        Seq::empty()
    } else {
        entry_text(es[0]) + tail_text(es.skip(1))
    }
}

/// The whole file for the given entries.
pub open spec fn file_text(es: Seq<FileEntry>) -> Seq<char> {
    seq!['{'] + quoted(tokens_key()) + seq![':', '{'] + entries_text(es) + seq!['}', '}']
}

// ---- reading ----

pub open spec fn is_json_space(c: char) -> bool {
    c == ' ' || c == '\n' || c == '\r' || c == '\t'
}

pub open spec fn skip_ws(s: Seq<char>) -> Seq<char>
    decreases s.len(),
{
    if s.len() > 0 && is_json_space(s[0]) {
        skip_ws(s.skip(1))
    } else {
        s
    }
}

/// After optional white space, the character `c`; what follows it.
pub open spec fn lit(s: Seq<char>, c: char) -> Option<Seq<char>> {
    let t = skip_ws(s);
    if t.len() > 0 && t[0] == c {
        Some(t.skip(1))
    } else {
        None
    }
}

/// The character an escape `\c` stands for.
pub open spec fn unescaped(c: char) -> Option<char> {
    if c == '"' {
        Some('"')
    } else if c == '\\' {
        Some('\\')
    } else if c == '/' {
        Some('/')
    } else if c == 'n' {
        Some('\n')
    } else if c == 't' {
        Some('\t')
    } else if c == 'r' {
        Some('\r')
    } else if c == 'b' {
        Some('\u{8}')
    } else if c == 'f' {
        Some('\u{c}')
    } else {
        None
    }
}

/// The rest of a string after its opening quote: its characters and what follows the
/// closing quote.
pub open spec fn str_body(s: Seq<char>) -> Option<(Seq<char>, Seq<char>)>
    decreases s.len(),
{
    if s.len() == 0 {
        None
    } else if s[0] == '"' {
        Some((Seq::empty(), s.skip(1)))
    } else if s[0] == '\\' {
        if s.len() < 2 {
            None
        } else {
            match unescaped(s[1]) {
                None => None,
                Some(c) => match str_body(s.skip(2)) {
                    Some((b, r)) => Some((seq![c] + b, r)),
                    None => None,
                },
            }
        }
    } else {
        match str_body(s.skip(1)) {
            Some((b, r)) => Some((seq![s[0]] + b, r)),
            None => None,
        }
    }
}

pub open spec fn json_str(s: Seq<char>) -> Option<(Seq<char>, Seq<char>)> {
    match lit(s, '"') {
        Some(t) => str_body(t),
        None => None,
    }
}

/// How many digits `s` starts with.
pub open spec fn lead_digits(s: Seq<char>) -> nat
    decreases s.len(),
{
    if s.len() > 0 && is_digit(s[0]) {
        1 + lead_digits(s.skip(1))
    } else {
        0
    }
}

pub open spec fn json_u64(s: Seq<char>) -> Option<(u64, Seq<char>)> {
    let t = skip_ws(s);
    let k = lead_digits(t);
    if k == 0 || digits_value(t.take(k as int)) > u64::MAX {
        None
    } else {
        Some((digits_value(t.take(k as int)) as u64, t.skip(k as int)))
    }
}

/// A key `"<name>"` and its colon.
pub open spec fn json_key(s: Seq<char>, name: Seq<char>) -> Option<Seq<char>> {
    match json_str(s) {
        Some((k, r)) => if k == name {
            lit(r, ':')
        } else {
            None
        },
        None => None,
    }
}

pub open spec fn json_token(s: Seq<char>) -> Option<((Seq<char>, u64), Seq<char>)> {
    match lit(s, '{') {
        None => None,
        Some(s1) => match json_key(s1, value_key()) {
            None => None,
            Some(s2) => match json_str(s2) {
                None => None,
                Some((v, s3)) => match lit(s3, ',') {
                    None => None,
                    Some(s4) => match json_key(s4, expires_key()) {
                        None => None,
                        Some(s5) => match json_u64(s5) {
                            None => None,
                            Some((n, s6)) => match lit(s6, '}') {
                                None => None,
                                Some(s7) => Some(((v, n), s7)),
                            },
                        },
                    },
                },
            },
        },
    }
}

pub open spec fn json_entry(s: Seq<char>) -> Option<(FileEntry, Seq<char>)> {
    match json_str(s) {
        None => None,
        Some((name, s1)) => match lit(s1, ':') {
            None => None,
            Some(s2) => match json_token(s2) {
                None => None,
                Some(((v, n), s3)) => Some(((name, v, n), s3)),
            },
        },
    }
}

/// Entries after the first: each `,` and entry, up to the closing brace; at most `fuel` more.
pub open spec fn entries_after(s: Seq<char>, fuel: nat) -> Option<(Seq<FileEntry>, Seq<char>)>
    decreases fuel,
{
    if fuel == 0 {
        None
    } else {
        match lit(s, '}') {
            Some(r) => Some((Seq::empty(), r)),
            None => match lit(s, ',') {
                None => None,
                Some(t) => match json_entry(t) {
                    None => None,
                    Some((e, r)) => match entries_after(r, (fuel - 1) as nat) {
                        Some((es, r2)) => Some((seq![e] + es, r2)),
                        None => None,
                    },
                },
            },
        }
    }
}

/// The entries of the token map, after its opening brace, and what follows its closing one.
pub open spec fn json_entries(s: Seq<char>, fuel: nat) -> Option<(Seq<FileEntry>, Seq<char>)> {
    match lit(s, '}') {
        Some(r) => Some((Seq::empty(), r)),
        None => match json_entry(s) {
            None => None,
            Some((e, r)) => match entries_after(r, fuel) {
                Some((es, r2)) => Some((seq![e] + es, r2)),
                None => None,
            },
        },
    }
}

/// The entries a token file holds, if it is one.
pub open spec fn parse_file(s: Seq<char>) -> Option<Seq<FileEntry>> {
    match lit(s, '{') {
        None => None,
        Some(s1) => match json_key(s1, tokens_key()) {
            None => None,
            Some(s2) => match lit(s2, '{') {
                None => None,
                Some(s3) => match json_entries(s3, s.len()) {
                    None => None,
                    Some((es, s4)) => match lit(s4, '}') {
                        None => None,
                        Some(s5) => if skip_ws(s5).len() == 0 {
                            Some(es)
                        } else {
                            None
                        },
                    },
                },
            },
        },
    }
}

// ---- what is written reads back ----

proof fn lemma_lit_first(c: char, r: Seq<char>)
    requires
        !is_json_space(c),
    ensures
        lit(seq![c] + r, c) == Some(r),
        skip_ws(seq![c] + r) == seq![c] + r,
{
    assert((seq![c] + r).skip(1) =~= r);
}

proof fn lemma_str_body(s: Seq<char>, r: Seq<char>)
    ensures
        str_body(escaped_json(s) + seq!['"'] + r) == Some((s, r)),
    decreases s.len(),
{
    let text = escaped_json(s) + seq!['"'] + r;
    if s.len() == 0 {
        assert(text =~= seq!['"'] + r);
        assert(text.skip(1) =~= r);
    } else {
        let c = s[0];
        let x = escaped_json(s.skip(1)) + seq!['"'] + r;
        lemma_str_body(s.skip(1), r);
        assert(text =~= json_char(c) + x);
        if c == '"' || c == '\\' {
            assert(text.skip(2) =~= x);
        } else {
            assert(text.skip(1) =~= x);
        }
        assert(seq![c] + s.skip(1) =~= s);
    }
}

proof fn lemma_json_str(s: Seq<char>, r: Seq<char>)
    ensures
        json_str(quoted(s) + r) == Some((s, r)),
        (quoted(s) + r)[0] == '"',
{
    assert(quoted(s) + r =~= seq!['"'] + (escaped_json(s) + seq!['"'] + r));
    lemma_lit_first('"', escaped_json(s) + seq!['"'] + r);
    lemma_str_body(s, r);
}

proof fn lemma_json_key(name: Seq<char>, r: Seq<char>)
    ensures
        json_key(quoted(name) + seq![':'] + r, name) == Some(r),
{
    assert(quoted(name) + seq![':'] + r =~= quoted(name) + (seq![':'] + r));
    lemma_json_str(name, seq![':'] + r);
    lemma_lit_first(':', r);
}

proof fn lemma_digit_char(k: nat)
    requires
        k < 10,
    ensures
        is_digit(digit_char(k)),
        (digit_char(k) as nat - '0' as nat) as nat == k,
{
}

proof fn lemma_decimal(n: nat)
    ensures
        decimal(n).len() > 0,
        all_digits(decimal(n)),
        digits_value(decimal(n)) == n,
    decreases n,
{
    lemma_digit_char(n % 10);
    if n >= 10 {
        lemma_decimal(n / 10);
        let d = decimal(n / 10);
        assert(decimal(n).drop_last() =~= d);
        assert(decimal(n).last() == digit_char(n % 10));
        assert(digits_value(decimal(n)) == digits_value(d) * 10 + (digit_char(n % 10) as nat
            - '0' as nat) as nat);
        assert(n == (n / 10) * 10 + n % 10) by (nonlinear_arith);
    } else {
        assert(decimal(n).drop_last() =~= Seq::<char>::empty());
        assert(decimal(n).last() == digit_char(n % 10));
        assert(digits_value(decimal(n)) == digits_value(Seq::<char>::empty()) * 10 + (digit_char(n % 10) as nat
            - '0' as nat) as nat);
    }
}

proof fn lemma_lead_digits(d: Seq<char>, r: Seq<char>)
    requires
        all_digits(d),
        r.len() == 0 || !is_digit(r[0]),
    ensures
        lead_digits(d + r) == d.len(),
    decreases d.len(),
{
    if d.len() == 0 {
        assert(d + r =~= r);
    } else {
        lemma_lead_digits(d.skip(1), r);
        assert((d + r).skip(1) =~= d.skip(1) + r);
    }
}

proof fn lemma_json_u64(n: u64, r: Seq<char>)
    requires
        r.len() == 0 || !is_digit(r[0]),
    ensures
        json_u64(decimal(n as nat) + r) == Some((n, r)),
{
    let d = decimal(n as nat);
    lemma_decimal(n as nat);
    assert(is_digit(d[0]));
    assert(!is_json_space((d + r)[0]));
    lemma_lead_digits(d, r);
    assert((d + r).take(d.len() as int) =~= d);
    assert((d + r).skip(d.len() as int) =~= r);
}

proof fn lemma_json_token(v: Seq<char>, n: u64, r: Seq<char>)
    ensures
        json_token(token_text(v, n) + r) == Some(((v, n), r)),
{
    let s7 = r;
    let s6 = seq!['}'] + s7;
    let s5 = decimal(n as nat) + s6;
    let s4 = quoted(expires_key()) + seq![':'] + s5;
    let s3 = seq![','] + s4;
    let s2 = quoted(v) + s3;
    let s1 = quoted(value_key()) + seq![':'] + s2;
    assert(token_text(v, n) + r =~= seq!['{'] + s1);
    lemma_lit_first('{', s1);
    lemma_json_key(value_key(), s2);
    lemma_json_str(v, s3);
    lemma_lit_first(',', s4);
    lemma_json_key(expires_key(), s5);
    lemma_json_u64(n, s6);
    lemma_lit_first('}', s7);
}

proof fn lemma_json_entry(e: FileEntry, r: Seq<char>)
    ensures
        json_entry(entry_text(e) + r) == Some((e, r)),
        (entry_text(e) + r)[0] == '"',
{
    let s2 = token_text(e.1, e.2) + r;
    assert(entry_text(e) + r =~= quoted(e.0) + (seq![':'] + s2));
    lemma_json_str(e.0, seq![':'] + s2);
    lemma_lit_first(':', s2);
    lemma_json_token(e.1, e.2, r);
}

proof fn lemma_tail_front(es: Seq<FileEntry>)
    requires
        es.len() > 0,
    ensures
        tail_text(es) == seq![','] + entry_text(es[0]) + tail_text(es.skip(1)),
    decreases es.len(),
{
    if es.len() == 1 {
        assert(es.drop_last() =~= Seq::<FileEntry>::empty());
        assert(es.skip(1) =~= Seq::<FileEntry>::empty());
        assert(tail_text(es) =~= seq![','] + entry_text(es[0]) + tail_text(es.skip(1)));
    } else {
        lemma_tail_front(es.drop_last());
        assert(es.drop_last().skip(1) =~= es.skip(1).drop_last());
        assert(es.skip(1).last() == es.last());
        assert(tail_text(es) =~= seq![','] + entry_text(es[0]) + tail_text(es.skip(1)));
    }
}

proof fn lemma_entries_after(es: Seq<FileEntry>, r: Seq<char>, fuel: nat)
    requires
        fuel > es.len(),
    ensures
        entries_after(tail_text(es) + seq!['}'] + r, fuel) == Some((es, r)),
    decreases es.len(),
{
    let text = tail_text(es) + seq!['}'] + r;
    if es.len() == 0 {
        assert(text =~= seq!['}'] + r);
        lemma_lit_first('}', r);
    } else {
        lemma_tail_front(es);
        let rest = tail_text(es.skip(1)) + seq!['}'] + r;
        let after_comma = entry_text(es[0]) + rest;
        assert(text =~= seq![','] + after_comma);
        lemma_lit_first(',', after_comma);
        lemma_json_entry(es[0], rest);
        lemma_entries_after(es.skip(1), r, (fuel - 1) as nat);
        assert(seq![es[0]] + es.skip(1) =~= es);
    }
}

proof fn lemma_tail_len(es: Seq<FileEntry>)
    ensures
        tail_text(es).len() >= es.len(),
    decreases es.len(),
{
    if es.len() > 0 {
        lemma_tail_len(es.drop_last());
    }
}

/// A file written for some entries reads back as exactly those entries.
proof fn lemma_parse_written(es: Seq<FileEntry>)
    ensures
        parse_file(file_text(es)) == Some(es),
{
    let text = file_text(es);
    let closing = seq!['}', '}'];
    let s4 = seq!['}'];
    let s3 = entries_text(es) + closing;
    let s2 = seq!['{'] + s3;
    let s1 = quoted(tokens_key()) + seq![':'] + s2;
    assert(text =~= seq!['{'] + s1);
    lemma_lit_first('{', s1);
    lemma_json_key(tokens_key(), s2);
    lemma_lit_first('{', s3);
    if es.len() == 0 {
        assert(s3 =~= seq!['}'] + s4);
        lemma_lit_first('}', s4);
    } else {
        lemma_tail_len(es.skip(1));
        let rest = tail_text(es.skip(1)) + seq!['}'] + s4;
        assert(s3 =~= entry_text(es[0]) + rest);
        lemma_json_entry(es[0], rest);
        assert(!is_json_space(s3[0]));
        lemma_entries_after(es.skip(1), s4, text.len());
        assert(seq![es[0]] + es.skip(1) =~= es);
    }
    lemma_lit_first('}', Seq::<char>::empty());
    assert(s4 =~= seq!['}'] + Seq::<char>::empty());
}

proof fn lemma_entries_fields(pairs: Seq<(String, AccessToken)>)
    ensures
        map_of_entries(entries_of(pairs)) == fields(map_of_pairs(pairs)),
    decreases pairs.len(),
{
    if pairs.len() == 0 {
        assert(map_of_entries(entries_of(pairs)) =~= fields(map_of_pairs(pairs)));
    } else {
        lemma_entries_fields(pairs.drop_last());
        assert(entries_of(pairs).drop_last() =~= entries_of(pairs.drop_last()));
        assert(map_of_entries(entries_of(pairs)) =~= fields(map_of_pairs(pairs)));
    }
}

/// Saving tokens and loading the file back gives every saved name again, each with a
/// token of the same value and expiry.
pub proof fn lemma_save_load_round_trip(pairs: Seq<(String, AccessToken)>)
    ensures
        parse_file(file_text(entries_of(pairs))) == Some(entries_of(pairs)),
        map_of_entries(entries_of(pairs)) == fields(map_of_pairs(pairs)),
{
    lemma_parse_written(entries_of(pairs));
    lemma_entries_fields(pairs);
}

// ---- writing, executable ----

proof fn lemma_escaped_push(a: Seq<char>, c: char)
    ensures
        escaped_json(a.push(c)) == escaped_json(a) + json_char(c),
    decreases a.len(),
{
    if a.len() == 0 {
        assert(a.push(c).skip(1) =~= Seq::<char>::empty());
        assert(a.push(c)[0] == c);
        assert(escaped_json(a.push(c)) == json_char(c) + escaped_json(Seq::<char>::empty()));
        assert(escaped_json(a.push(c)) =~= escaped_json(a) + json_char(c));
    } else {
        lemma_escaped_push(a.skip(1), c);
        assert(a.push(c).skip(1) =~= a.skip(1).push(c));
        assert(a.push(c)[0] == a[0]);
        assert(escaped_json(a.push(c)) == json_char(a[0]) + escaped_json(a.skip(1).push(c)));
        assert(escaped_json(a) == json_char(a[0]) + escaped_json(a.skip(1)));
        assert(escaped_json(a.push(c)) =~= escaped_json(a) + json_char(c));
    }
}

/// Appends `s` in quotes, with its quotes and backslashes escaped.
fn push_quoted(out: &mut Vec<char>, s: &Vec<char>)
    ensures
        final(out)@ == old(out)@ + quoted(s@),
{
    out.push('"');
    let mut i: usize = 0;
    while i < s.len()
        invariant
            i <= s@.len(),
            out@ == old(out)@ + seq!['"'] + escaped_json(s@.take(i as int)),
        decreases s@.len() - i,
    {
        let c = s[i];
        proof {
            assert(s@.take(i + 1) =~= s@.take(i as int).push(c));
            lemma_escaped_push(s@.take(i as int), c);
        }
        if c == '"' || c == '\\' {
            out.push('\\');
        }
        out.push(c);
        i = i + 1;
        assert(out@ =~= old(out)@ + seq!['"'] + escaped_json(s@.take(i as int)));
    }
    out.push('"');
    assert(s@.take(i as int) =~= s@);
    assert(out@ =~= old(out)@ + quoted(s@));
}

fn push_char(out: &mut Vec<char>, c: char)
    ensures
        final(out)@ == old(out)@ + seq![c],
{
    out.push(c);
    assert(out@ =~= old(out)@ + seq![c]);
}

fn push_token(out: &mut Vec<char>, t: &AccessToken)
    ensures
        final(out)@ == old(out)@ + token_text(t.value@, t.expires),
{
    let value_name = vec!['v', 'a', 'l', 'u', 'e'];
    let expires_name = vec!['e', 'x', 'p', 'i', 'r', 'e', 's'];
    assert(value_name@ =~= value_key());
    assert(expires_name@ =~= expires_key());
    let value = crate::text::chars_of(t.value.as_str());
    let digits = decimal_chars(t.expires);
    push_char(out, '{');
    push_quoted(out, &value_name);
    push_char(out, ':');
    push_quoted(out, &value);
    push_char(out, ',');
    push_quoted(out, &expires_name);
    push_char(out, ':');
    push_all(out, &digits);
    push_char(out, '}');
    assert(out@ =~= old(out)@ + token_text(t.value@, t.expires));
}

fn push_entry(out: &mut Vec<char>, p: &(String, AccessToken))
    ensures
        final(out)@ == old(out)@ + entry_text(entry_of(*p)),
{
    let name = crate::text::chars_of(p.0.as_str());
    push_quoted(out, &name);
    push_char(out, ':');
    push_token(out, &p.1);
    assert(out@ =~= old(out)@ + entry_text(entry_of(*p)));
}

/// The cache file's text for a store.
pub fn encode_tokens(store: &TokenStore) -> (r: String)
    ensures
        exists|p: Seq<(String, AccessToken)>|
            map_of_pairs(p) == store@ && r@ == file_text(entries_of(p)),
        parse_file(r@) matches Some(es) && map_of_entries(es) == fields(store@),
{
    let pairs = store.to_pairs();
    let ghost es = entries_of(pairs@);
    let tokens_name = vec!['t', 'o', 'k', 'e', 'n', 's'];
    assert(tokens_name@ =~= tokens_key());
    let mut out: Vec<char> = Vec::new();
    push_char(&mut out, '{');
    push_quoted(&mut out, &tokens_name);
    push_char(&mut out, ':');
    push_char(&mut out, '{');
    let ghost head = out@;
    assert(head =~= seq!['{'] + quoted(tokens_key()) + seq![':', '{']);
    if pairs.len() > 0 {
        push_entry(&mut out, &pairs[0]);
        let mut i: usize = 1;
        while i < pairs.len()
            invariant
                1 <= i <= pairs@.len(),
                es == entries_of(pairs@),
                es.len() == pairs@.len(),
                out@ == head + entry_text(es[0]) + tail_text(es.skip(1).take(i - 1)),
            decreases pairs@.len() - i,
        {
            push_char(&mut out, ',');
            push_entry(&mut out, &pairs[i]);
            proof {
                let before = es.skip(1).take(i - 1);
                let after = es.skip(1).take(i as int);
                assert(after.drop_last() =~= before);
                assert(after.last() == entry_of(pairs@[i as int]));
                assert(tail_text(after) == tail_text(before) + seq![','] + entry_text(after.last()));
            }
            i = i + 1;
            assert(out@ =~= head + entry_text(es[0]) + tail_text(es.skip(1).take(i - 1)));
        }
        assert(es.skip(1).take(i - 1) =~= es.skip(1));
    }
    push_char(&mut out, '}');
    push_char(&mut out, '}');
    assert(out@ =~= file_text(es));
    proof {
        lemma_save_load_round_trip(pairs@);
    }
    string_of(&out)
}

// ---- reading, executable ----

fn is_space(c: char) -> (r: bool)
    ensures
        r == is_json_space(c),
{
    c == ' ' || c == '\n' || c == '\r' || c == '\t'
}

fn skip_ws_at(s: &Vec<char>, i: usize) -> (j: usize)
    requires
        i <= s@.len(),
    ensures
        i <= j <= s@.len(),
        s@.skip(j as int) == skip_ws(s@.skip(i as int)),
{
    let mut j = i;
    while j < s.len() && is_space(s[j])
        invariant
            i <= j <= s@.len(),
            skip_ws(s@.skip(j as int)) == skip_ws(s@.skip(i as int)),
        decreases s@.len() - j,
    {
        assert(s@.skip(j as int)[0] == s@[j as int]);
        assert(s@.skip(j as int).skip(1) =~= s@.skip(j + 1));
        j = j + 1;
    }
    if j < s.len() {
        assert(s@.skip(j as int)[0] == s@[j as int]);
    }
    j
}

fn lit_at(s: &Vec<char>, i: usize, c: char) -> (r: Option<usize>)
    requires
        i <= s@.len(),
    ensures
        match r {
            Some(k) => i < k <= s@.len() && lit(s@.skip(i as int), c) == Some(s@.skip(k as int)),
            None => lit(s@.skip(i as int), c) is None,
        },
{
    let j = skip_ws_at(s, i);
    if j < s.len() && s[j] == c {
        assert(s@.skip(j as int)[0] == s@[j as int]);
        assert(s@.skip(j as int).skip(1) =~= s@.skip(j + 1));
        Some(j + 1)
    } else {
        if j < s.len() {
            assert(s@.skip(j as int)[0] == s@[j as int]);
        }
        None
    }
}

fn unescape(c: char) -> (r: Option<char>)
    ensures
        r == unescaped(c),
{
    if c == '"' {
        Some('"')
    } else if c == '\\' {
        Some('\\')
    } else if c == '/' {
        Some('/')
    } else if c == 'n' {
        Some('\n')
    } else if c == 't' {
        Some('\t')
    } else if c == 'r' {
        Some('\r')
    } else if c == 'b' {
        Some('\u{8}')
    } else if c == 'f' {
        Some('\u{c}')
    } else {
        None
    }
}

/// `o` with `p` put before the characters it read.
pub open spec fn after_prefix(p: Seq<char>, o: Option<(Seq<char>, Seq<char>)>) -> Option<(Seq<char>, Seq<char>)> {
    match o {
        Some((b, r)) => Some((p + b, r)),
        None => None,
    }
}

proof fn lemma_after_prefix(p: Seq<char>, c: char, o: Option<(Seq<char>, Seq<char>)>)
    ensures
        after_prefix(p, after_prefix(seq![c], o)) == after_prefix(p.push(c), o),
{
    if let Some((b, r)) = o {
        assert(p + (seq![c] + b) =~= p.push(c) + b);
    }
}

fn str_at(s: &Vec<char>, i: usize) -> (r: Option<(Vec<char>, usize)>)
    requires
        i <= s@.len(),
    ensures
        match r {
            Some((b, k)) => i < k <= s@.len() && json_str(s@.skip(i as int)) == Some(
                (b@, s@.skip(k as int)),
            ),
            None => json_str(s@.skip(i as int)) is None,
        },
{
    let start = match lit_at(s, i, '"') {
        Some(k) => k,
        None => return None,
    };
    let mut out: Vec<char> = Vec::new();
    let mut j = start;
    assert(out@ + Seq::<char>::empty() =~= out@);
    assert(after_prefix(out@, str_body(s@.skip(j as int))) == str_body(s@.skip(j as int))) by {
        if let Some((b, r)) = str_body(s@.skip(j as int)) {
            assert(out@ + b =~= b);
        }
    }
    while j < s.len()
        invariant
            i < start <= j <= s@.len(),
            json_str(s@.skip(i as int)) == str_body(s@.skip(start as int)),
            after_prefix(out@, str_body(s@.skip(j as int))) == str_body(s@.skip(start as int)),
        decreases s@.len() - j,
    {
        let c = s[j];
        let ghost t = s@.skip(j as int);
        assert(t[0] == c);
        if c == '"' {
            assert(t.skip(1) =~= s@.skip(j + 1));
            assert(out@ + Seq::<char>::empty() =~= out@);
            return Some((out, j + 1));
        } else if c == '\\' {
            if j + 1 >= s.len() {
                return None;
            }
            assert(t[1] == s@[j + 1]);
            match unescape(s[j + 1]) {
                None => {
                    return None;
                },
                Some(u) => {
                    proof {
                        assert(t.skip(2) =~= s@.skip(j + 2));
                        lemma_after_prefix(out@, u, str_body(s@.skip(j + 2)));
                    }
                    out.push(u);
                    j = j + 2;
                },
            }
        } else {
            proof {
                assert(t.skip(1) =~= s@.skip(j + 1));
                lemma_after_prefix(out@, c, str_body(s@.skip(j + 1)));
            }
            out.push(c);
            j = j + 1;
        }
    }
    assert(s@.skip(j as int).len() == 0);
    None
}

fn is_digit_char(c: char) -> (r: bool)
    ensures
        r == is_digit(c),
{
    '0' <= c && c <= '9'
}

proof fn lemma_lead_exact(t: Seq<char>, m: nat)
    requires
        m <= t.len(),
        all_digits(t.take(m as int)),
        m == t.len() || !is_digit(t[m as int]),
    ensures
        lead_digits(t) == m,
    decreases m,
{
    if m > 0 {
        assert(t.take(m as int)[0] == t[0]);
        assert forall|k: int| 0 <= k < m - 1 implies is_digit(#[trigger] t.skip(1).take(m - 1)[k]) by {
            assert(t.skip(1).take(m - 1)[k] == t.take(m as int)[k + 1]);
        }
        lemma_lead_exact(t.skip(1), (m - 1) as nat);
    }
}

proof fn lemma_lead_at_least(t: Seq<char>, m: nat)
    requires
        m <= t.len(),
        all_digits(t.take(m as int)),
    ensures
        lead_digits(t) >= m,
        all_digits(t.take(lead_digits(t) as int)),
        lead_digits(t) <= t.len(),
    decreases t.len(),
{
    if t.len() > 0 && is_digit(t[0]) {
        if m > 0 {
            assert forall|k: int| 0 <= k < m - 1 implies is_digit(#[trigger] t.skip(1).take(m - 1)[k]) by {
                assert(t.skip(1).take(m - 1)[k] == t.take(m as int)[k + 1]);
            }
            lemma_lead_at_least(t.skip(1), (m - 1) as nat);
        } else {
            lemma_lead_at_least(t.skip(1), 0);
        }
        let l = lead_digits(t.skip(1));
        assert forall|k: int| 0 <= k < l + 1 implies is_digit(#[trigger] t.take(l as int + 1)[k]) by {
            if k > 0 {
                assert(t.take(l as int + 1)[k] == t.skip(1).take(l as int)[k - 1]);
            }
        }
    } else {
        if m > 0 {
            assert(t.take(m as int)[0] == t[0]);
        }
    }
}

fn u64_at(s: &Vec<char>, i: usize) -> (r: Option<(u64, usize)>)
    requires
        i <= s@.len(),
    ensures
        match r {
            Some((n, k)) => i < k <= s@.len() && json_u64(s@.skip(i as int)) == Some(
                (n, s@.skip(k as int)),
            ),
            None => json_u64(s@.skip(i as int)) is None,
        },
{
    let j = skip_ws_at(s, i);
    let ghost t = s@.skip(j as int);
    let mut k = j;
    let mut value: u64 = 0;
    assert(t.take(0) =~= Seq::<char>::empty());
    while k < s.len() && is_digit_char(s[k])
        invariant
            i <= j <= k <= s@.len(),
            t == s@.skip(j as int),
            t == skip_ws(s@.skip(i as int)),
            all_digits(t.take(k - j)),
            value as nat == digits_value(t.take(k - j)),
        decreases s@.len() - k,
    {
        let c = s[k];
        let d = (c as u32 - '0' as u32) as u64;
        let ghost m = (k - j) as int;
        assert(t[m] == c);
        assert(t.take(m + 1).drop_last() =~= t.take(m));
        assert(t.take(m + 1).last() == c);
        assert(digits_value(t.take(m + 1)) == value * 10 + d);
        assert(all_digits(t.take(m + 1))) by {
            assert forall|x: int| 0 <= x < m + 1 implies is_digit(#[trigger] t.take(m + 1)[x]) by {
                if x < m {
                    assert(t.take(m + 1)[x] == t.take(m)[x]);
                }
            }
        }
        if value > (u64::MAX - d) / 10 {
            proof {
                assert(value * 10 + d > u64::MAX) by (nonlinear_arith)
                    requires
                        value > (u64::MAX - d) / 10,
                        d <= 9,
                ;
                lemma_lead_at_least(t, (m + 1) as nat);
                let l = lead_digits(t);
                crate::auth::lemma_digits_grow(t.take(l as int), m + 1);
                assert(t.take(l as int).take(m + 1) =~= t.take(m + 1));
            }
            return None;
        }
        value = value * 10 + d;
        k = k + 1;
    }
    proof {
        let m = (k - j) as nat;
        if k < s.len() {
            assert(t[m as int] == s@[k as int]);
        }
        lemma_lead_exact(t, m);
    }
    if k == j {
        return None;
    }
    Some((value, k))
}

fn chars_equal(a: &Vec<char>, b: &Vec<char>) -> (r: bool)
    ensures
        r == (a@ == b@),
{
    if a.len() != b.len() {
        return false;
    }
    let mut i: usize = 0;
    while i < a.len()
        invariant
            a@.len() == b@.len(),
            i <= a@.len(),
            forall|k: int| 0 <= k < i ==> a@[k] == b@[k],
        decreases a@.len() - i,
    {
        if a[i] != b[i] {
            return false;
        }
        i = i + 1;
    }
    assert(a@ =~= b@);
    true
}

fn key_at(s: &Vec<char>, i: usize, name: &Vec<char>) -> (r: Option<usize>)
    requires
        i <= s@.len(),
    ensures
        match r {
            Some(k) => i < k <= s@.len() && json_key(s@.skip(i as int), name@) == Some(
                s@.skip(k as int),
            ),
            None => json_key(s@.skip(i as int), name@) is None,
        },
{
    match str_at(s, i) {
        None => None,
        Some((k, j)) => {
            if chars_equal(&k, name) {
                lit_at(s, j, ':')
            } else {
                None
            }
        },
    }
}

fn token_at(s: &Vec<char>, i: usize) -> (r: Option<(Vec<char>, u64, usize)>)
    requires
        i <= s@.len(),
    ensures
        match r {
            Some((v, n, k)) => i < k <= s@.len() && json_token(s@.skip(i as int)) == Some(
                ((v@, n), s@.skip(k as int)),
            ),
            None => json_token(s@.skip(i as int)) is None,
        },
{
    let value_name = vec!['v', 'a', 'l', 'u', 'e'];
    let expires_name = vec!['e', 'x', 'p', 'i', 'r', 'e', 's'];
    assert(value_name@ =~= value_key());
    assert(expires_name@ =~= expires_key());
    let i1 = match lit_at(s, i, '{') {
        Some(k) => k,
        None => return None,
    };
    let i2 = match key_at(s, i1, &value_name) {
        Some(k) => k,
        None => return None,
    };
    let (v, i3) = match str_at(s, i2) {
        Some(x) => x,
        None => return None,
    };
    let i4 = match lit_at(s, i3, ',') {
        Some(k) => k,
        None => return None,
    };
    let i5 = match key_at(s, i4, &expires_name) {
        Some(k) => k,
        None => return None,
    };
    let (n, i6) = match u64_at(s, i5) {
        Some(x) => x,
        None => return None,
    };
    let i7 = match lit_at(s, i6, '}') {
        Some(k) => k,
        None => return None,
    };
    Some((v, n, i7))
}

/// A parsed entry: name, value and expiry.
pub type RawEntry = (Vec<char>, Vec<char>, u64);

pub open spec fn raw_view(e: RawEntry) -> FileEntry {
    (e.0@, e.1@, e.2)
}

fn entry_at(s: &Vec<char>, i: usize) -> (r: Option<(RawEntry, usize)>)
    requires
        i <= s@.len(),
    ensures
        match r {
            Some((e, k)) => i < k <= s@.len() && json_entry(s@.skip(i as int)) == Some(
                (raw_view(e), s@.skip(k as int)),
            ),
            None => json_entry(s@.skip(i as int)) is None,
        },
{
    let (name, i1) = match str_at(s, i) {
        Some(x) => x,
        None => return None,
    };
    let i2 = match lit_at(s, i1, ':') {
        Some(k) => k,
        None => return None,
    };
    match token_at(s, i2) {
        Some((v, n, k)) => Some(((name, v, n), k)),
        None => None,
    }
}

/// `o` with the entries `p` put before the ones it read.
pub open spec fn entries_prefix(p: Seq<FileEntry>, o: Option<(Seq<FileEntry>, Seq<char>)>) -> Option<
    (Seq<FileEntry>, Seq<char>),
> {
    match o {
        Some((es, r)) => Some((p + es, r)),
        None => None,
    }
}

pub open spec fn raw_views(es: Seq<RawEntry>) -> Seq<FileEntry> {
    es.map_values(|e: RawEntry| raw_view(e))
}

fn entries_at(s: &Vec<char>, i: usize) -> (r: Option<(Vec<RawEntry>, usize)>)
    requires
        0 < i <= s@.len(),
    ensures
        match r {
            Some((es, k)) => i < k <= s@.len() && json_entries(s@.skip(i as int), s@.len())
                == Some((raw_views(es@), s@.skip(k as int))),
            None => json_entries(s@.skip(i as int), s@.len()) is None,
        },
{
    let mut es: Vec<RawEntry> = Vec::new();
    if let Some(k) = lit_at(s, i, '}') {
        assert(raw_views(es@) =~= Seq::<FileEntry>::empty());
        return Some((es, k));
    }
    let (first, k0) = match entry_at(s, i) {
        Some(x) => x,
        None => return None,
    };
    es.push(first);
    let ghost fuel = s@.len();
    let mut k = k0;
    let mut count: usize = 0;
    assert(raw_views(es@) =~= seq![raw_view(first)]);
    assert(entries_prefix(Seq::empty(), entries_after(s@.skip(k0 as int), fuel)) == entries_after(
        s@.skip(k0 as int),
        fuel,
    )) by {
        if let Some((xs, r)) = entries_after(s@.skip(k0 as int), fuel) {
            assert(Seq::<FileEntry>::empty() + xs =~= xs);
        }
    }
    loop
        invariant
            0 < i < k0 <= k <= s@.len(),
            fuel == s@.len(),
            count <= k - k0,
            es@.len() == count + 1,
            raw_view(es@[0]) == raw_view(first),
            json_entries(s@.skip(i as int), fuel) == entries_prefix(
                seq![raw_view(first)],
                entries_after(s@.skip(k0 as int), fuel),
            ),
            entries_after(s@.skip(k0 as int), fuel) == entries_prefix(
                raw_views(es@).skip(1),
                entries_after(s@.skip(k as int), (fuel - count) as nat),
            ),
        decreases s@.len() - k,
    {
        let ghost f = (fuel - count) as nat;
        assert(f > 0);
        let ghost here = s@.skip(k as int);
        if let Some(k2) = lit_at(s, k, '}') {
            proof {
                assert(entries_after(here, f) == Some((Seq::<FileEntry>::empty(), s@.skip(k2 as int))));
                assert(raw_views(es@).skip(1) + Seq::<FileEntry>::empty() =~= raw_views(es@).skip(1));
                assert(seq![raw_view(first)] + raw_views(es@).skip(1) =~= raw_views(es@));
            }
            return Some((es, k2));
        }
        let k3 = match lit_at(s, k, ',') {
            Some(x) => x,
            None => return None,
        };
        let (e, k4) = match entry_at(s, k3) {
            Some(x) => x,
            None => return None,
        };
        proof {
            let tail = entries_after(s@.skip(k4 as int), (f - 1) as nat);
            assert(entries_after(here, f) == entries_prefix(seq![raw_view(e)], tail)) by {
                if let Some((xs, r)) = tail {
                    assert(seq![raw_view(e)] + xs =~= seq![raw_view(e)] + xs);
                }
            }
            assert(raw_views(es@.push(e)).skip(1) =~= raw_views(es@).skip(1) + seq![raw_view(e)]);
            if let Some((xs, r)) = tail {
                assert(raw_views(es@).skip(1) + (seq![raw_view(e)] + xs) =~= (raw_views(es@).skip(1)
                    + seq![raw_view(e)]) + xs);
            }
        }
        es.push(e);
        k = k4;
        count = count + 1;
    }
}

/// The tokens a cache file holds, if it is one.
pub fn decode_tokens(text: &str) -> (r: Option<TokenStore>)
    ensures
        match parse_file(text@) {
            Some(es) => r matches Some(st) && fields(st@) == map_of_entries(es),
            None => r is None,
        },
{
    let s = crate::text::chars_of(text);
    let tokens_name = vec!['t', 'o', 'k', 'e', 'n', 's'];
    assert(tokens_name@ =~= tokens_key());
    assert(s@.skip(0) =~= s@);
    let i1 = match lit_at(&s, 0, '{') {
        Some(k) => k,
        None => return None,
    };
    let i2 = match key_at(&s, i1, &tokens_name) {
        Some(k) => k,
        None => return None,
    };
    let i3 = match lit_at(&s, i2, '{') {
        Some(k) => k,
        None => return None,
    };
    let (raw, i4) = match entries_at(&s, i3) {
        Some(x) => x,
        None => return None,
    };
    let i5 = match lit_at(&s, i4, '}') {
        Some(k) => k,
        None => return None,
    };
    let end = skip_ws_at(&s, i5);
    if end != s.len() {
        return None;
    }
    assert(s@.skip(end as int).len() == 0);
    let mut pairs: Vec<(String, AccessToken)> = Vec::new();
    let mut j: usize = 0;
    while j < raw.len()
        invariant
            j <= raw@.len(),
            pairs@.len() == j,
            forall|x: int| 0 <= x < j ==> entry_of(#[trigger] pairs@[x]) == raw_view(raw@[x]),
        decreases raw@.len() - j,
    {
        let name = string_of(&raw[j].0);
        let value = string_of(&raw[j].1);
        pairs.push((name, AccessToken { value, expires: raw[j].2 }));
        j = j + 1;
    }
    assert(entries_of(pairs@) =~= raw_views(raw@));
    proof {
        lemma_entries_fields(pairs@);
    }
    Some(TokenStore::from_pairs(pairs))
}

} // verus!

use vstd::prelude::*;

verus! {

/// Relies on `<str as PartialEq>::eq`: two string slices are equal exactly when they hold the same characters.
#[verifier::external_body]
pub(crate) fn same_text(a: &str, b: &str) -> (r: bool)
    ensures
        r == (a@ == b@),
{
    a == b
}

/// Relies on `str::chars`: it yields the characters of the slice in order.
#[verifier::external_body]
pub(crate) fn chars_of(s: &str) -> (r: Vec<char>)
    ensures
        r@ == s@,
{
    s.chars().collect()
}

/// Relies on `String: FromIterator<char>`: the string holds the characters in order.
#[verifier::external_body]
pub(crate) fn string_of(chars: &Vec<char>) -> (r: String)
    ensures
        r@ == chars@,
{
    chars.iter().collect()
}

/// Appends `piece` to `out`.
pub(crate) fn push_all(out: &mut Vec<char>, piece: &Vec<char>)
    ensures
        final(out)@ == old(out)@ + piece@,
{
    let mut i: usize = 0;
    while i < piece.len()
        invariant
            i <= piece@.len(),
            out@ == old(out)@ + piece@.take(i as int),
        decreases piece@.len() - i,
    {
        out.push(piece[i]);
        i = i + 1;
        assert(piece@.take(i as int) =~= piece@.take(i - 1).push(piece@[i - 1]));
    }
    assert(piece@.take(i as int) =~= piece@);
}

pub open spec fn ellipsis() -> Seq<char> {
    seq!['.', '.', '.']
}

/// `s` cut to `max_len` characters: when longer, its first `max_len - 3` characters
/// (none when `max_len < 3`) followed by three dots.
pub open spec fn truncated(s: Seq<char>, max_len: nat) -> Seq<char> {
    if s.len() > max_len {
        let keep: nat = if max_len >= 3 {
            (max_len - 3) as nat
        } else {
            0
        };
        s.take(keep as int) + ellipsis()
    } else {
        s
    }
}

/// Shortens text for display, marking the cut with three dots.
pub fn truncate(s: &str, max_len: usize) -> (r: String)
    ensures
        r@ == truncated(s@, max_len as nat),
{
    let chars = chars_of(s);
    if chars.len() > max_len {
        let keep = max_len.saturating_sub(3);
        let mut out: Vec<char> = Vec::new();
        let mut i: usize = 0;
        while i < keep
            invariant
                keep < chars@.len(),
                i <= keep,
                out@ == chars@.take(i as int),
            decreases keep - i,
        {
            out.push(chars[i]);
            i = i + 1;
            assert(chars@.take(i as int) =~= chars@.take(i - 1).push(chars@[i - 1]));
        }
        let dots = vec!['.', '.', '.'];
        push_all(&mut out, &dots);
        assert(dots@ =~= ellipsis());
        string_of(&out)
    } else {
        string_of(&chars)
    }
}

/// The replacement of one character by [`html_escape`].
pub open spec fn escaped_char(c: char) -> Seq<char> {
    if c == '&' {
        seq!['&', 'a', 'm', 'p', ';']
    } else if c == '<' {
        seq!['&', 'l', 't', ';']
    } else if c == '>' {
        seq!['&', 'g', 't', ';']
    } else if c == '"' {
        seq!['&', 'q', 'u', 'o', 't', ';']
    } else if c == '\'' {
        seq!['&', '#', '3', '9', ';']
    } else {
        seq![c]
    }
}

/// Every character of `s` replaced by its escape, in order.
pub open spec fn escaped(s: Seq<char>) -> Seq<char>
    decreases s.len(),
{
    if s.len() == 0 {
        Seq::empty()
    } else {
        escaped(s.drop_last()) + escaped_char(s.last())
    }
}

fn escape_char(c: char) -> (r: Vec<char>)
    ensures
        r@ == escaped_char(c),
{
    let r = if c == '&' {
        vec!['&', 'a', 'm', 'p', ';']
    } else if c == '<' {
        vec!['&', 'l', 't', ';']
    } else if c == '>' {
        vec!['&', 'g', 't', ';']
    } else if c == '"' {
        vec!['&', 'q', 'u', 'o', 't', ';']
    } else if c == '\'' {
        vec!['&', '#', '3', '9', ';']
    } else {
        vec![c]
    };
    assert(r@ =~= escaped_char(c));
    r
}

/// Escapes the characters that HTML gives a meaning to.
pub fn html_escape(s: &str) -> (r: String)
    ensures
        r@ == escaped(s@),
{
    let chars = chars_of(s);
    let mut out: Vec<char> = Vec::new();
    let mut i: usize = 0;
    while i < chars.len()
        invariant
            i <= chars@.len(),
            out@ == escaped(chars@.take(i as int)),
        decreases chars@.len() - i,
    {
        let piece = escape_char(chars[i]);
        push_all(&mut out, &piece);
        i = i + 1;
        assert(chars@.take(i as int).drop_last() =~= chars@.take(i - 1));
    }
    assert(chars@.take(i as int) =~= chars@);
    string_of(&out)
}

/// The characters with the Unicode `White_Space` property, which `char::is_whitespace` tests.
pub open spec fn is_white_space(c: char) -> bool {
    ('\u{9}' <= c && c <= '\u{d}') || c == ' ' || c == '\u{85}' || c == '\u{a0}' || c
        == '\u{1680}' || ('\u{2000}' <= c && c <= '\u{200a}') || c == '\u{2028}' || c
        == '\u{2029}' || c == '\u{202f}' || c == '\u{205f}' || c == '\u{3000}'
}

fn white_space(c: char) -> (r: bool)
    ensures
        r == is_white_space(c),
{
    ('\u{9}' <= c && c <= '\u{d}') || c == ' ' || c == '\u{85}' || c == '\u{a0}' || c
        == '\u{1680}' || ('\u{2000}' <= c && c <= '\u{200a}') || c == '\u{2028}' || c
        == '\u{2029}' || c == '\u{202f}' || c == '\u{205f}' || c == '\u{3000}'
}

/// Drops markup: everything from a `<` to the next `>`; outside markup a line break
/// becomes a space when `breaks_to_space`.
pub open spec fn without_tags(s: Seq<char>, in_tag: bool, breaks_to_space: bool) -> Seq<char>
    decreases s.len(),
{
    if s.len() == 0 {
        Seq::empty()
    } else {
        let c = s[0];
        let rest = s.skip(1);
        if c == '<' {
            without_tags(rest, true, breaks_to_space)
        } else if c == '>' {
            without_tags(rest, false, breaks_to_space)
        } else if in_tag {
            without_tags(rest, in_tag, breaks_to_space)
        } else if breaks_to_space && (c == '\n' || c == '\r') {
            seq![' '] + without_tags(rest, in_tag, breaks_to_space)
        } else {
            seq![c] + without_tags(rest, in_tag, breaks_to_space)
        }
    }
}

fn strip_tags(s: &Vec<char>, breaks_to_space: bool) -> (r: Vec<char>)
    ensures
        r@ == without_tags(s@, false, breaks_to_space),
{
    let mut out: Vec<char> = Vec::new();
    let mut in_tag = false;
    let mut i: usize = 0;
    assert(s@.skip(0) =~= s@);
    assert(out@ + without_tags(s@, false, breaks_to_space) =~= without_tags(s@, false, breaks_to_space));
    while i < s.len()
        invariant
            i <= s@.len(),
            out@ + without_tags(s@.skip(i as int), in_tag, breaks_to_space) == without_tags(
                s@,
                false,
                breaks_to_space,
            ),
        decreases s@.len() - i,
    {
        let c = s[i];
        let ghost rest = s@.skip(i + 1);
        assert(s@.skip(i as int).skip(1) =~= rest);
        if c == '<' {
            in_tag = true;
        } else if c == '>' {
            in_tag = false;
        } else if in_tag {
        } else if breaks_to_space && (c == '\n' || c == '\r') {
            proof {
                assert(out@.push(' ') + without_tags(rest, in_tag, breaks_to_space) =~= out@ + (
                seq![' '] + without_tags(rest, in_tag, breaks_to_space)));
            }
            out.push(' ');
        } else {
            proof {
                assert(out@.push(c) + without_tags(rest, in_tag, breaks_to_space) =~= out@ + (seq![c]
                    + without_tags(rest, in_tag, breaks_to_space)));
            }
            out.push(c);
        }
        i = i + 1;
    }
    assert(s@.skip(i as int) =~= Seq::<char>::empty());
    assert(out@ + Seq::<char>::empty() =~= out@);
    out
}

/// Every occurrence of `pat` in `s`, read from the left without overlaps, replaced by `rep`.
pub open spec fn replaced(s: Seq<char>, pat: Seq<char>, rep: Seq<char>) -> Seq<char>
    recommends
        pat.len() > 0,
    decreases s.len(),
{
    if s.len() == 0 || pat.len() == 0 {
        s
    } else if pat.len() <= s.len() && s.take(pat.len() as int) == pat {
        rep + replaced(s.skip(pat.len() as int), pat, rep)
    } else {
        seq![s[0]] + replaced(s.skip(1), pat, rep)
    }
}

fn starts_at(s: &Vec<char>, i: usize, pat: &Vec<char>) -> (r: bool)
    requires
        i <= s@.len(),
    ensures
        r == (pat@.len() <= s@.len() - i && s@.skip(i as int).take(pat@.len() as int) == pat@),
{
    if pat.len() > s.len() - i {
        return false;
    }
    let n = s.len();
    let mut j: usize = 0;
    while j < pat.len()
        invariant
            n == s@.len(),
            i <= s@.len(),
            pat@.len() <= s@.len() - i,
            j <= pat@.len(),
            forall|k: int| 0 <= k < j ==> s@[i + k] == pat@[k],
        decreases pat@.len() - j,
    {
        if s[i + j] != pat[j] {
            assert(s@.skip(i as int).take(pat@.len() as int)[j as int] != pat@[j as int]);
            return false;
        }
        j = j + 1;
    }
    assert(s@.skip(i as int).take(pat@.len() as int) =~= pat@);
    true
}

/// Replaces every occurrence of `pat` by `rep`, as `str::replace` does.
fn replace_all(s: &Vec<char>, pat: &Vec<char>, rep: &Vec<char>) -> (r: Vec<char>)
    requires
        pat@.len() > 0,
    ensures
        r@ == replaced(s@, pat@, rep@),
{
    let mut out: Vec<char> = Vec::new();
    let mut i: usize = 0;
    assert(s@.skip(0) =~= s@);
    assert(out@ + replaced(s@, pat@, rep@) =~= replaced(s@, pat@, rep@));
    while i < s.len()
        invariant
            pat@.len() > 0,
            i <= s@.len(),
            out@ + replaced(s@.skip(i as int), pat@, rep@) == replaced(s@, pat@, rep@),
        decreases s@.len() - i,
    {
        let ghost tail = s@.skip(i as int);
        if starts_at(s, i, pat) {
            let ghost before = out@;
            push_all(&mut out, rep);
            assert(tail.skip(pat@.len() as int) =~= s@.skip(i + pat@.len()));
            assert(before + (rep@ + replaced(tail.skip(pat@.len() as int), pat@, rep@)) =~= out@
                + replaced(s@.skip(i + pat@.len()), pat@, rep@));
            i = i + pat.len();
        } else {
            let ghost before = out@;
            out.push(s[i]);
            assert(tail.skip(1) =~= s@.skip(i + 1));
            assert(before + (seq![tail[0]] + replaced(tail.skip(1), pat@, rep@)) =~= out@
                + replaced(s@.skip(i + 1), pat@, rep@));
            i = i + 1;
        }
    }
    assert(s@.skip(i as int) =~= Seq::<char>::empty());
    assert(out@ + Seq::<char>::empty() =~= out@);
    out
}

/// The words of `s` (runs of non-white-space) joined by single spaces. `state` is 0 before
/// the first word, 1 inside a word and 2 after a word.
pub open spec fn squeezed(s: Seq<char>, state: int) -> Seq<char>
    decreases s.len(),
{
    if s.len() == 0 {
        Seq::empty()
    } else {
        let c = s[0];
        let rest = s.skip(1);
        if is_white_space(c) {
            squeezed(rest, if state == 0 { 0 } else { 2 })
        } else if state == 2 {
            seq![' ', c] + squeezed(rest, 1)
        } else {
            seq![c] + squeezed(rest, 1)
        }
    }
}

fn squeeze(s: &Vec<char>) -> (r: Vec<char>)
    ensures
        r@ == squeezed(s@, 0),
{
    let mut out: Vec<char> = Vec::new();
    let mut state: u8 = 0;
    let mut i: usize = 0;
    assert(s@.skip(0) =~= s@);
    assert(out@ + squeezed(s@, 0) =~= squeezed(s@, 0));
    while i < s.len()
        invariant
            i <= s@.len(),
            state <= 2,
            out@ + squeezed(s@.skip(i as int), state as int) == squeezed(s@, 0),
        decreases s@.len() - i,
    {
        let c = s[i];
        let ghost before = out@;
        let ghost st = state as int;
        assert(s@.skip(i as int).skip(1) =~= s@.skip(i + 1));
        if white_space(c) {
            if state != 0 {
                state = 2;
            }
        } else {
            if state == 2 {
                out.push(' ');
            }
            out.push(c);
            state = 1;
            assert(before + (if st == 2 { seq![' ', c] } else { seq![c] } + squeezed(
                s@.skip(i + 1),
                1,
            )) =~= out@ + squeezed(s@.skip(i + 1), 1));
        }
        i = i + 1;
    }
    assert(s@.skip(i as int) =~= Seq::<char>::empty());
    assert(out@ + Seq::<char>::empty() =~= out@);
    out
}

/// The entity and escape replacements [`strip_html`] makes, in order.
pub open spec fn entity_table() -> Seq<(Seq<char>, Seq<char>)> {
    seq![
        (seq!['&', 'n', 'b', 's', 'p', ';'], seq![' ']),
        (seq!['&', 'l', 't', ';'], seq!['<']),
        (seq!['&', 'g', 't', ';'], seq!['>']),
        (seq!['&', 'a', 'm', 'p', ';'], seq!['&']),
        (seq!['&', 'q', 'u', 'o', 't', ';'], seq!['"']),
        (seq!['&', '#', '3', '9', ';'], seq!['\'']),
        (seq!['\\', '!'], seq!['!']),
        (seq!['\\', '?'], seq!['?']),
        (seq!['\\', '.'], seq!['.']),
    ]
}

/// `s` after the first `n` replacements of the table, each applied to the whole text in turn.
pub open spec fn replaced_by_table(s: Seq<char>, table: Seq<(Seq<char>, Seq<char>)>, n: nat) -> Seq<
    char,
>
    decreases n,
{
    if n == 0 || n > table.len() {
        s
    } else {
        let (pat, rep) = table[n - 1];
        replaced(replaced_by_table(s, table, (n - 1) as nat), pat, rep)
    }
}

/// Plain text of an HTML fragment: markup dropped, line breaks as spaces, common entities
/// and backslash escapes decoded, runs of white space collapsed to one space and trimmed.
pub open spec fn plain_text(s: Seq<char>) -> Seq<char> {
    squeezed(replaced_by_table(without_tags(s, false, true), entity_table(), 9), 0)
}

fn entity_pairs() -> (r: Vec<(Vec<char>, Vec<char>)>)
    ensures
        r@.len() == entity_table().len(),
        forall|k: int|
            0 <= k < r@.len() ==> (#[trigger] r@[k]).0@ == entity_table()[k].0 && r@[k].1@
                == entity_table()[k].1,
{
    let r = vec![
        (vec!['&', 'n', 'b', 's', 'p', ';'], vec![' ']),
        (vec!['&', 'l', 't', ';'], vec!['<']),
        (vec!['&', 'g', 't', ';'], vec!['>']),
        (vec!['&', 'a', 'm', 'p', ';'], vec!['&']),
        (vec!['&', 'q', 'u', 'o', 't', ';'], vec!['"']),
        (vec!['&', '#', '3', '9', ';'], vec!['\'']),
        (vec!['\\', '!'], vec!['!']),
        (vec!['\\', '?'], vec!['?']),
        (vec!['\\', '.'], vec!['.']),
    ];
    assert(r@[0].0@ =~= entity_table()[0].0 && r@[0].1@ =~= entity_table()[0].1);
    assert(r@[1].0@ =~= entity_table()[1].0 && r@[1].1@ =~= entity_table()[1].1);
    assert(r@[2].0@ =~= entity_table()[2].0 && r@[2].1@ =~= entity_table()[2].1);
    assert(r@[3].0@ =~= entity_table()[3].0 && r@[3].1@ =~= entity_table()[3].1);
    assert(r@[4].0@ =~= entity_table()[4].0 && r@[4].1@ =~= entity_table()[4].1);
    assert(r@[5].0@ =~= entity_table()[5].0 && r@[5].1@ =~= entity_table()[5].1);
    assert(r@[6].0@ =~= entity_table()[6].0 && r@[6].1@ =~= entity_table()[6].1);
    assert(r@[7].0@ =~= entity_table()[7].0 && r@[7].1@ =~= entity_table()[7].1);
    assert(r@[8].0@ =~= entity_table()[8].0 && r@[8].1@ =~= entity_table()[8].1);
    r
}

/// Reduces an HTML message body to one line of plain text.
pub fn strip_html(s: &str) -> (r: String)
    ensures
        r@ == plain_text(s@),
{
    let chars = chars_of(s);
    let mut text = strip_tags(&chars, true);
    let table = entity_pairs();
    let ghost start = text@;
    let mut k: usize = 0;
    while k < table.len()
        invariant
            table@.len() == entity_table().len(),
            forall|j: int|
                0 <= j < table@.len() ==> (#[trigger] table@[j]).0@ == entity_table()[j].0
                    && table@[j].1@ == entity_table()[j].1,
            k <= table@.len(),
            text@ == replaced_by_table(start, entity_table(), k as nat),
        decreases table@.len() - k,
    {
        assert(table@[k as int].0@.len() > 0);
        text = replace_all(&text, &table[k].0, &table[k].1);
        k = k + 1;
    }
    let out = squeeze(&text);
    string_of(&out)
}

/// The decimal digits of `n`.
pub open spec fn decimal(n: nat) -> Seq<char>
    decreases n,
{
    if n < 10 {
        seq![digit_char(n)]
    } else {
        decimal(n / 10).push(digit_char(n % 10))
    }
}

pub open spec fn digit_char(d: nat) -> char {
    if d == 0 { '0' } else if d == 1 { '1' } else if d == 2 { '2' } else if d == 3 { '3' }
    else if d == 4 { '4' } else if d == 5 { '5' } else if d == 6 { '6' } else if d == 7 { '7' }
    else if d == 8 { '8' } else { '9' }
}

fn digit(d: u64) -> (r: char)
    ensures
        r == digit_char(d as nat),
{
    if d == 0 { '0' } else if d == 1 { '1' } else if d == 2 { '2' } else if d == 3 { '3' }
    else if d == 4 { '4' } else if d == 5 { '5' } else if d == 6 { '6' } else if d == 7 { '7' }
    else if d == 8 { '8' } else { '9' }
}

pub(crate) fn decimal_chars(n: u64) -> (r: Vec<char>)
    ensures
        r@ == decimal(n as nat),
    decreases n,
{
    let c = digit(n % 10);
    if n < 10 {
        let r = vec![c];
        assert(r@ =~= decimal(n as nat));
        r
    } else {
        let mut r = decimal_chars(n / 10);
        r.push(c);
        r
    }
}

} // verus!

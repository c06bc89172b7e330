use vstd::prelude::*;

verus! {

/// Whether `c` is white space in the sense of Unicode's `White_Space`
/// property, as `char::is_whitespace` has it.
pub open spec fn is_blank(c: char) -> bool {
    ('\u{9}' <= c && c <= '\u{d}') || c == ' ' || c == '\u{85}' || c == '\u{a0}' || c
        == '\u{1680}' || ('\u{2000}' <= c && c <= '\u{200a}') || c == '\u{2028}' || c
        == '\u{2029}' || c == '\u{202f}' || c == '\u{205f}' || c == '\u{3000}'
}

pub fn char_is_blank(c: char) -> (r: bool)
    ensures
        r == is_blank(c),
{
    ('\u{9}' <= c && c <= '\u{d}') || c == ' ' || c == '\u{85}' || c == '\u{a0}' || c
        == '\u{1680}' || ('\u{2000}' <= c && c <= '\u{200a}') || c == '\u{2028}' || c
        == '\u{2029}' || c == '\u{202f}' || c == '\u{205f}' || c == '\u{3000}'
}

/// The number of white-space characters at the end of `s`.
pub open spec fn trailing_blanks(s: Seq<char>) -> nat
    decreases s.len(),
{
    if s.len() > 0 && is_blank(s.last()) {
        1 + trailing_blanks(s.drop_last())
    } else {
        0
    }
}

/// The number of white-space characters at the start of `s`.
pub open spec fn leading_blanks(s: Seq<char>) -> nat
    decreases s.len(),
{
    if s.len() > 0 && is_blank(s[0]) {
        1 + leading_blanks(s.drop_first())
    } else {
        0
    }
}

/// `s` without white space at its end.
pub open spec fn trim_end(s: Seq<char>) -> Seq<char> {
    s.subrange(0, s.len() - trailing_blanks(s))
}

/// `s` without white space at either end.
pub open spec fn trim(s: Seq<char>) -> Seq<char> {
    let t = trim_end(s);
    t.subrange(leading_blanks(t) as int, t.len() as int)
}

/// Counting trailing blanks from the end: once `k` blanks are known to end
/// `s`, the count is `k` more than that of what precedes them.
pub proof fn lemma_trailing_step(s: Seq<char>, k: int)
    requires
        0 <= k <= s.len(),
        forall|j: int| s.len() - k <= j < s.len() ==> is_blank(#[trigger] s[j]),
    ensures
        trailing_blanks(s) == k + trailing_blanks(s.subrange(0, s.len() - k)),
    decreases k,
{
    if k > 0 {
        assert(s.drop_last() =~= s.subrange(0, s.len() - 1));
        lemma_trailing_step(s.drop_last(), k - 1);
        assert(s.drop_last().subrange(0, s.drop_last().len() - (k - 1)) =~= s.subrange(
            0,
            s.len() - k,
        ));
    } else {
        assert(s.subrange(0, s.len() as int) =~= s);
    }
}

proof fn lemma_leading_step(s: Seq<char>, k: int)
    requires
        0 <= k <= s.len(),
        forall|j: int| 0 <= j < k ==> is_blank(#[trigger] s[j]),
    ensures
        leading_blanks(s) == k + leading_blanks(s.subrange(k, s.len() as int)),
    decreases k,
{
    if k > 0 {
        lemma_leading_step(s.drop_first(), k - 1);
        assert(s.drop_first().subrange(k - 1, s.drop_first().len() as int) =~= s.subrange(
            k,
            s.len() as int,
        ));
    } else {
        assert(s.subrange(0, s.len() as int) =~= s);
    }
}

/// The characters of `s` without white space at either end.
pub fn trim_chars(s: &str) -> (r: Vec<char>)
    ensures
        r@ == trim(s@),
{
    let n = s.unicode_len();
    let mut end: usize = n;
    while end > 0 && char_is_blank(s.get_char(end - 1))
        invariant
            end <= n,
            n == s@.len(),
            forall|j: int| end <= j < n ==> is_blank(#[trigger] s@[j]),
        decreases end,
    {
        end -= 1;
    }
    proof {
        lemma_trailing_step(s@, n - end);
        let rest = s@.subrange(0, end as int);
        if rest.len() > 0 {
            assert(rest.last() == s@[end - 1]);
        }
        assert(trailing_blanks(rest) == 0);
    }
    let mut start: usize = 0;
    while start < end && char_is_blank(s.get_char(start))
        invariant
            start <= end,
            end <= n,
            n == s@.len(),
            forall|j: int| 0 <= j < start ==> is_blank(#[trigger] s@[j]),
        decreases end - start,
    {
        start += 1;
    }
    let ghost t = trim_end(s@);
    proof {
        assert(t =~= s@.subrange(0, end as int));
        lemma_leading_step(t, start as int);
        let rest = t.subrange(start as int, t.len() as int);
        if rest.len() > 0 {
            assert(rest[0] == s@[start as int]);
        }
        assert(leading_blanks(rest) == 0);
    }
    let mut r: Vec<char> = Vec::new();
    let mut i = start;
    while i < end
        invariant
            start <= i <= end,
            end <= n,
            n == s@.len(),
            r@ =~= s@.subrange(start as int, i as int),
        decreases end - i,
    {
        r.push(s.get_char(i));
        i += 1;
    }
    proof {
        assert(r@ =~= trim(s@));
    }
    r
}

/// The length of the characters of `s` without white space at their end.
pub fn trim_end_len(s: &Vec<char>) -> (r: usize)
    ensures
        r == trim_end(s@).len(),
        r == s@.len() - trailing_blanks(s@),
{
    let n = s.len();
    let mut end: usize = n;
    while end > 0 && char_is_blank(s[end - 1])
        invariant
            end <= n,
            n == s@.len(),
            forall|j: int| end <= j < n ==> is_blank(#[trigger] s@[j]),
        decreases end,
    {
        end -= 1;
    }
    proof {
        lemma_trailing_step(s@, n - end);
        let rest = s@.subrange(0, end as int);
        if rest.len() > 0 {
            assert(rest.last() == s@[end - 1]);
        }
        assert(trailing_blanks(rest) == 0);
    }
    end
}

/// The white-space separated words of `s` found so far, and the word being
/// read at its end.
pub open spec fn words_acc(s: Seq<char>) -> (Seq<Seq<char>>, Seq<char>)
    decreases s.len(),
{
    if s.len() == 0 {
        (Seq::empty(), Seq::empty())
    } else {
        let (ws, cur) = words_acc(s.drop_last());
        if is_blank(s.last()) {
            if cur.len() > 0 {
                (ws.push(cur), Seq::empty())
            } else {
                (ws, cur)
            }
        } else {
            (ws, cur.push(s.last()))
        }
    }
}

/// The white-space separated words of `s`, none of them empty.
pub open spec fn words(s: Seq<char>) -> Seq<Seq<char>> {
    let (ws, cur) = words_acc(s);
    if cur.len() > 0 {
        ws.push(cur)
    } else {
        ws
    }
}

/// The white-space separated words of `s`.
pub fn split_words(s: &Vec<char>) -> (r: Vec<Vec<char>>)
    ensures
        r@.map_values(|w: Vec<char>| w@) == words(s@),
{
    let mut ws: Vec<Vec<char>> = Vec::new();
    let mut cur: Vec<char> = Vec::new();
    let mut i: usize = 0;
    while i < s.len()
        invariant
            i <= s@.len(),
            (ws@.map_values(|w: Vec<char>| w@), cur@) == words_acc(s@.subrange(0, i as int)),
        decreases s@.len() - i,
    {
        let ghost pre = s@.subrange(0, i as int);
        let ghost old_ws = ws@.map_values(|w: Vec<char>| w@);
        let c = s[i];
        assert(s@.subrange(0, i + 1).drop_last() =~= pre);
        if char_is_blank(c) {
            if cur.len() > 0 {
                let done = cur;
                cur = Vec::new();
                ws.push(done);
                assert(ws@.map_values(|w: Vec<char>| w@) =~= old_ws.push(done@));
            }
        } else {
            cur.push(c);
        }
        i += 1;
    }
    assert(s@.subrange(0, s@.len() as int) =~= s@);
    if cur.len() > 0 {
        let ghost old_ws = ws@.map_values(|w: Vec<char>| w@);
        ws.push(cur);
        assert(ws@.map_values(|w: Vec<char>| w@) =~= old_ws.push(cur@));
    }
    ws
}

/// Whether the characters of `w` are those of `lit`.
pub fn word_is(w: &Vec<char>, lit: &str) -> (r: bool)
    ensures
        r == (w@ == lit@),
{
    let n = lit.unicode_len();
    if w.len() != n {
        return false;
    }
    let mut i: usize = 0;
    while i < n
        invariant
            i <= n,
            n == lit@.len(),
            w@.len() == n,
            forall|j: int| 0 <= j < i ==> w@[j] == lit@[j],
        decreases n - i,
    {
        if w[i] != lit.get_char(i) {
            return false;
        }
        i += 1;
    }
    assert(w@ =~= lit@);
    true
}

/// The decimal digit `d` as a character.
pub open spec fn digit_char(d: int) -> char {
    if d == 0 {
        '0'
    } else if d == 1 {
        '1'
    } else if d == 2 {
        '2'
    } else if d == 3 {
        '3'
    } else if d == 4 {
        '4'
    } else if d == 5 {
        '5'
    } else if d == 6 {
        '6'
    } else if d == 7 {
        '7'
    } else if d == 8 {
        '8'
    } else {
        '9'
    }
}

/// `v` written in decimal, without leading zeros.
pub open spec fn decimal(v: u8) -> Seq<char> {
    if v < 10 {
        seq![digit_char(v as int)]
    } else if v < 100 {
        seq![digit_char((v / 10) as int), digit_char((v % 10) as int)]
    } else {
        seq![
            digit_char((v / 100) as int),
            digit_char(((v / 10) % 10) as int),
            digit_char((v % 10) as int),
        ]
    }
}

fn digit_to_char(d: u8) -> (r: char)
    requires
        d < 10,
    ensures
        r == digit_char(d as int),
{
    match d {
        0 => '0',
        1 => '1',
        2 => '2',
        3 => '3',
        4 => '4',
        5 => '5',
        6 => '6',
        7 => '7',
        8 => '8',
        _ => '9',
    }
}

/// Relies on `String::push`: the character is appended at the end.
#[verifier::external_body]
fn push_char(s: &mut String, c: char)
    ensures
        final(s)@ == old(s)@.push(c),
{
    s.push(c)
}

/// Relies on `String::push_str`: the text is appended at the end.
#[verifier::external_body]
pub fn push_text(s: &mut String, t: &str)
    ensures
        final(s)@ == old(s)@ + t@,
{
    s.push_str(t)
}

/// Appends the characters of `cs` to `s`.
pub fn push_chars(s: &mut String, cs: &Vec<char>)
    ensures
        final(s)@ == old(s)@ + cs@,
{
    let mut i: usize = 0;
    while i < cs.len()
        invariant
            i <= cs@.len(),
            s@ =~= old(s)@ + cs@.subrange(0, i as int),
        decreases cs@.len() - i,
    {
        push_char(s, cs[i]);
        i += 1;
    }
    assert(cs@.subrange(0, cs@.len() as int) =~= cs@);
}

/// `v` written in decimal.
pub fn decimal_string(v: u8) -> (r: String)
    ensures
        r@ == decimal(v),
{
    let mut s = String::new();
    if v >= 100 {
        push_char(&mut s, digit_to_char(v / 100));
    }
    if v >= 10 {
        push_char(&mut s, digit_to_char((v / 10) % 10));
    }
    push_char(&mut s, digit_to_char(v % 10));
    assert(s@ =~= decimal(v));
    s
}

pub open spec fn empty_number_message() -> Seq<char> {
    "cannot parse integer from empty string"@
}

pub open spec fn invalid_digit_message() -> Seq<char> {
    "invalid digit found in string"@
}

pub open spec fn too_large_message() -> Seq<char> {
    "number too large to fit in target type"@
}

pub open spec fn is_digit(c: char) -> bool {
    '0' <= c && c <= '9'
}

/// Reads the decimal digits of `body` from position `i` on, after `acc`
/// was read before them: the first character that is not a digit, or the
/// first digit that takes the number past 255, is an error.
pub open spec fn scan_u8(body: Seq<char>, i: int, acc: nat) -> Result<u8, Seq<char>>
    decreases body.len() - i,
{
    if i < 0 || i >= body.len() {
        Ok(acc as u8)
    } else if !is_digit(body[i]) {
        Err(invalid_digit_message())
    } else {
        let next = acc * 10 + (body[i] as int - '0' as int);
        if next > 255 {
            Err(too_large_message())
        } else {
            scan_u8(body, i + 1, next as nat)
        }
    }
}

/// `s` read as a decimal `u8`, with an optional leading `+`, as `str::parse`
/// reads it; an error carries the message of the parse error.
pub open spec fn parse_u8(s: Seq<char>) -> Result<u8, Seq<char>> {
    if s.len() == 0 {
        Err(empty_number_message())
    } else if s == seq!['+'] || s == seq!['-'] {
        Err(invalid_digit_message())
    } else if s[0] == '+' {
        scan_u8(s, 1, 0)
    } else {
        scan_u8(s, 0, 0)
    }
}

/// Reads `s` as a decimal `u8`, or gives the parse error's message.
pub fn parse_u8_chars(s: &Vec<char>) -> (r: Result<u8, String>)
    ensures
        r matches Ok(v) ==> parse_u8(s@) == Ok::<u8, Seq<char>>(v),
        r matches Err(m) ==> parse_u8(s@) == Err::<u8, Seq<char>>(m@),
{
    if s.len() == 0 {
        return Err("cannot parse integer from empty string".to_owned());
    }
    if s.len() == 1 && (s[0] == '+' || s[0] == '-') {
        assert(s@ =~= seq![s@[0]]);
        return Err("invalid digit found in string".to_owned());
    }
    proof {
        if s@ == seq!['+'] || s@ == seq!['-'] {
            assert(s@.len() == 1);
        }
    }
    let mut i: usize = if s[0] == '+' { 1 } else { 0 };
    let mut acc: u8 = 0;
    while i < s.len()
        invariant
            i <= s@.len(),
            parse_u8(s@) == scan_u8(s@, i as int, acc as nat),
        decreases s@.len() - i,
    {
        let c = s[i];
        if !('0' <= c && c <= '9') {
            return Err("invalid digit found in string".to_owned());
        }
        let d = (c as u32 - '0' as u32) as u8;
        if acc > 25 || (acc == 25 && d > 5) {
            return Err("number too large to fit in target type".to_owned());
        }
        acc = acc * 10 + d;
        i += 1;
    }
    Ok(acc)
}

} // verus!

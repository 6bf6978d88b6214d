//! Text handling: trimming, length and format checks, slugs and previews.
//!
//! Text is measured in two ways: `s.len()` of a sequence counts characters,
//! `byte_len` counts the bytes of its UTF-8 encoding. Length limits are in
//! bytes.

use vstd::prelude::*;
use vstd::string::*;
use crate::roles::Error;
use crate::seqs::{first_index, is_first, lemma_first_absent, lemma_first_found};

verus! {

/// The number of bytes in the UTF-8 encoding of `s`.
pub open spec fn byte_len(s: Seq<char>) -> nat {
    vstd::utf8::encode_utf8(s).len()
}

/// The characters with the Unicode property White_Space.
pub open spec fn is_space(c: char) -> bool {
    let n = c as u32;
    ||| 0x9 <= n <= 0xd
    ||| n == 0x20
    ||| n == 0x85
    ||| n == 0xa0
    ||| n == 0x1680
    ||| 0x2000 <= n <= 0x200a
    ||| n == 0x2028
    ||| n == 0x2029
    ||| n == 0x202f
    ||| n == 0x205f
    ||| n == 0x3000
}

pub open spec fn space() -> spec_fn(char) -> bool {
    |c: char| is_space(c)
}

pub open spec fn is_char(which: char) -> spec_fn(char) -> bool {
    |c: char| c == which
}

pub open spec fn is_not(p: spec_fn(char) -> bool) -> spec_fn(char) -> bool {
    |c: char| !p(c)
}

/// How many characters at the start of `s` satisfy `p`.
pub open spec fn lead(s: Seq<char>, p: spec_fn(char) -> bool) -> int {
    match first_index(s, is_not(p)) {
        Some(i) => i,
        None => s.len() as int,
    }
}

/// `s` without the characters at its start and at its end that satisfy `p`.
pub open spec fn strip(s: Seq<char>, p: spec_fn(char) -> bool) -> Seq<char> {
    if lead(s, p) == s.len() {
        Seq::empty()
    } else {
        s.subrange(lead(s, p), s.len() - lead(s.reverse(), p))
    }
}

/// `s` without leading and trailing white space.
pub open spec fn trimmed(s: Seq<char>) -> Seq<char> {
    strip(s, space())
}

/// The lower-case form of `s`.
pub uninterp spec fn lowercased(s: Seq<char>) -> Seq<char>;

/// The upper-case form of `s`.
pub uninterp spec fn uppercased(s: Seq<char>) -> Seq<char>;

/// `str::to_lowercase`: the result is the lower-case form of the argument,
/// which depends on the argument's characters alone.
#[verifier::external_body]
pub(crate) fn to_lowercase(s: &str) -> (lower: String)
    ensures
        lower@ == lowercased(s@),
{
    s.to_lowercase()
}

/// `str::to_uppercase`: the result is the upper-case form of the argument,
/// which depends on the argument's characters alone.
#[verifier::external_body]
pub(crate) fn to_uppercase(s: &str) -> (upper: String)
    ensures
        upper@ == uppercased(s@),
{
    s.to_uppercase()
}

/// `String::push`: appends one character to the end of the string.
#[verifier::external_body]
fn push_char(s: &mut String, c: char)
    ensures
        final(s)@ == old(s)@.push(c),
{
    s.push(c)
}

/// The characters of a string.
pub fn chars_of(s: &str) -> (chars: Vec<char>)
    ensures
        chars@ == s@,
{
    let mut chars: Vec<char> = Vec::new();
    for c in it: s.chars()
        invariant
            it.seq() == s@,
            chars@ =~= it.seq().take(it.index() as int),
    {
        chars.push(c);
    }
    assert(s@.take(s@.len() as int) =~= s@);
    chars
}

/// The string made of `chars[from..to]`.
pub fn text_of(chars: &Vec<char>, from: usize, to: usize) -> (s: String)
    requires
        from <= to <= chars@.len(),
    ensures
        s@ == chars@.subrange(from as int, to as int),
{
    let mut s = String::new();
    let mut i: usize = from;
    while i < to
        invariant
            from <= i <= to <= chars@.len(),
            s@ =~= chars@.subrange(from as int, i as int),
        decreases to - i,
    {
        push_char(&mut s, chars[i]);
        i += 1;
    }
    s
}

pub fn is_space_char(c: char) -> (b: bool)
    ensures
        b == is_space(c),
{
    let n: u32 = c as u32;
    (0x9 <= n && n <= 0xd) || n == 0x20 || n == 0x85 || n == 0xa0 || n == 0x1680 || (0x2000 <= n && n
        <= 0x200a) || n == 0x2028 || n == 0x2029 || n == 0x202f || n == 0x205f || n == 0x3000
}

/// The bounds of what `strip` keeps of `chars`.
fn strip_bounds<F: Fn(char) -> bool>(chars: &Vec<char>, test: F, Ghost(p): Ghost<spec_fn(char) -> bool>) -> (bounds: (
    usize,
    usize,
))
    requires
        forall|c: char| #[trigger] test.requires((c,)),
        forall|c: char, b: bool| #[trigger] test.ensures((c,), b) ==> b == p(c),
    ensures
        bounds.0 <= bounds.1 <= chars@.len(),
        chars@.subrange(bounds.0 as int, bounds.1 as int) == strip(chars@, p),
{
    let n: usize = chars.len();
    let mut start: usize = 0;
    while start < n && test(chars[start])
        invariant
            start <= n,
            n == chars@.len(),
            forall|c: char| #[trigger] test.requires((c,)),
            forall|c: char, b: bool| #[trigger] test.ensures((c,), b) ==> b == p(c),
            forall|j: int| 0 <= j < start ==> p(#[trigger] chars@[j]),
        decreases n - start,
    {
        start += 1;
    }
    if start == n {
        proof {
            lemma_first_absent(chars@, is_not(p));
            assert(chars@.subrange(n as int, n as int) =~= Seq::<char>::empty());
        }
        return (n, n);
    }
    proof {
        lemma_first_found(chars@, is_not(p), start as int);
    }
    let mut end: usize = n;
    while end > start + 1 && test(chars[end - 1])
        invariant
            start < end <= n,
            n == chars@.len(),
            !p(chars@[start as int]),
            forall|c: char| #[trigger] test.requires((c,)),
            forall|c: char, b: bool| #[trigger] test.ensures((c,), b) ==> b == p(c),
            forall|j: int| end <= j < n ==> p(#[trigger] chars@[j]),
        decreases end,
    {
        end -= 1;
    }
    proof {
        let r = chars@.reverse();
        assert(r.len() == n);
        assert(forall|k: int| 0 <= k < n ==> #[trigger] r[k] == chars@[n - 1 - k]);
        assert(!p(chars@[end - 1]));
        assert(is_first(r, is_not(p), n - end)) by {
            assert forall|k: int| 0 <= k < n - end implies !is_not(p)(#[trigger] r[k]) by {
                assert(p(chars@[n - 1 - k]));
            }
        }
        lemma_first_found(r, is_not(p), n - end);
    }
    (start, end)
}

/// The text without leading and trailing white space.
pub fn trim(s: &str) -> (t: String)
    ensures
        t@ == trimmed(s@),
{
    let chars = chars_of(s);
    let test = |c: char| -> (b: bool)
        ensures
            b == is_space(c),
        { is_space_char(c) };
    let (start, end) = strip_bounds(&chars, test, Ghost(space()));
    text_of(&chars, start, end)
}

// ---------------------------------------------------------------------
// Length and emptiness
// ---------------------------------------------------------------------

/// Refuses text of more than `max_len` bytes.
pub fn validate_length(value: &str, max_len: usize) -> (r: Result<(), Error>)
    ensures
        r == if byte_len(value@) > max_len {
            Err::<(), Error>(Error::InvalidInput)
        } else {
            Ok(())
        },
{
    if value.as_bytes().len() > max_len {
        return Err(Error::InvalidInput);
    }
    Ok(())
}

/// Refuses empty text.
pub fn validate_not_empty(value: &str) -> (r: Result<(), Error>)
    ensures
        r == if value@.len() == 0 {
            Err::<(), Error>(Error::InvalidInput)
        } else {
            Ok(())
        },
{
    if value.is_empty() {
        return Err(Error::InvalidInput);
    }
    Ok(())
}

/// Text that is neither empty nor longer than `max_len` bytes.
pub open spec fn filled_within(s: Seq<char>, max_len: int) -> bool {
    s.len() > 0 && byte_len(s) <= max_len
}

// ---------------------------------------------------------------------
// Email addresses
// ---------------------------------------------------------------------

/// Whether `c` occurs twice in a row in `s`.
pub open spec fn has_double(s: Seq<char>, c: char) -> bool {
    exists|i: int| 0 <= i < s.len() - 1 && #[trigger] s[i] == c && s[i + 1] == c
}

/// A part of an address: not empty, no dot at either end, no two dots in a
/// row.
pub open spec fn dots_in_place(part: Seq<char>) -> bool {
    &&& part.len() > 0
    &&& part[0] != '.'
    &&& part.last() != '.'
    &&& !has_double(part, '.')
}

/// What follows the last dot of `domain`; all of it where it has no dot.
pub open spec fn top_level(domain: Seq<char>) -> Seq<char> {
    domain.skip(domain.len() - lead(domain.reverse(), is_not(is_char('.'))))
}

/// The shape `local@domain.tld`: the local part is what stands before the
/// first `@`, at most 64 bytes; the domain is the rest, holds a dot, and
/// what follows its last dot has at least two bytes; in neither part does a
/// dot stand at an end or beside another dot.
pub open spec fn valid_email(s: Seq<char>) -> bool {
    match first_index(s, is_char('@')) {
        None => false,
        Some(at) => {
            let local = s.take(at);
            let domain = s.skip(at + 1);
            &&& dots_in_place(local)
            &&& byte_len(local) <= 64
            &&& dots_in_place(domain)
            &&& domain.contains('.')
            &&& byte_len(top_level(domain)) >= 2
        },
    }
}

/// Whether `chars[from..to]` is a part with its dots in place.
fn part_in_place(chars: &Vec<char>, from: usize, to: usize) -> (ok: bool)
    requires
        from <= to <= chars@.len(),
    ensures
        ok == dots_in_place(chars@.subrange(from as int, to as int)),
{
    let ghost part = chars@.subrange(from as int, to as int);
    if from == to {
        return false;
    }
    if chars[from] == '.' || chars[to - 1] == '.' {
        assert(part[0] == chars@[from as int]);
        assert(part.last() == chars@[to - 1]);
        return false;
    }
    assert(part[0] == chars@[from as int]);
    assert(part.last() == chars@[to - 1]);
    let mut i: usize = from;
    while i + 1 < to
        invariant
            from <= i < to <= chars@.len(),
            part == chars@.subrange(from as int, to as int),
            forall|j: int| 0 <= j < i - from ==> !(#[trigger] part[j] == '.' && part[j + 1] == '.'),
        decreases to - i,
    {
        if chars[i] == '.' && chars[i + 1] == '.' {
            assert(part[i - from] == '.' && part[i - from + 1] == '.');
            return false;
        }
        i += 1;
    }
    true
}

/// Accepts the addresses of the shape `local@domain.tld`.
pub fn validate_email(email: &str) -> (r: Result<(), Error>)
    ensures
        r == if valid_email(email@) {
            Ok::<(), Error>(())
        } else {
            Err(Error::InvalidInput)
        },
{
    let chars = chars_of(email);
    let n: usize = chars.len();
    let mut at: usize = 0;
    while at < n && chars[at] != '@'
        invariant
            at <= n,
            n == chars@.len(),
            forall|j: int| 0 <= j < at ==> #[trigger] chars@[j] != '@',
        decreases n - at,
    {
        at += 1;
    }
    if at == n {
        proof {
            lemma_first_absent(email@, is_char('@'));
        }
        return Err(Error::InvalidInput);
    }
    proof {
        lemma_first_found(email@, is_char('@'), at as int);
    }
    let ghost local = email@.take(at as int);
    let ghost domain = email@.skip(at + 1);
    assert(local =~= chars@.subrange(0, at as int));
    assert(domain =~= chars@.subrange(at + 1, n as int));
    if !part_in_place(&chars, 0, at) {
        return Err(Error::InvalidInput);
    }
    if email.substring_char(0, at).as_bytes().len() > 64 {
        return Err(Error::InvalidInput);
    }
    if !part_in_place(&chars, at + 1, n) {
        return Err(Error::InvalidInput);
    }
    // The last dot of the domain, seen from the end.
    let mut dot: usize = n;
    while dot > at + 1 && chars[dot - 1] != '.'
        invariant
            at + 1 <= dot <= n,
            n == chars@.len(),
            forall|j: int| dot <= j < n ==> #[trigger] chars@[j] != '.',
        decreases dot,
    {
        dot -= 1;
    }
    let ghost back = domain.reverse();
    proof {
        assert(back.len() == n - at - 1);
        assert(forall|k: int| 0 <= k < back.len() ==> #[trigger] back[k] == chars@[n - 1 - k]);
    }
    if dot == at + 1 {
        proof {
            assert forall|j: int| 0 <= j < domain.len() implies #[trigger] domain[j] != '.' by {
                assert(domain[j] == chars@[at + 1 + j]);
            }
            assert(!domain.contains('.'));
        }
        return Err(Error::InvalidInput);
    }
    proof {
        assert(domain[dot - 1 - (at + 1)] == '.');
        assert(domain.contains('.'));
        assert(is_first(back, is_not(is_not(is_char('.'))), n - dot)) by {
            assert(back[n - dot] == chars@[dot - 1]);
            assert forall|k: int| 0 <= k < n - dot implies !is_not(is_not(is_char('.')))(#[trigger] back[k]) by {
                assert(chars@[n - 1 - k] != '.');
            }
        }
        lemma_first_found(back, is_not(is_not(is_char('.'))), n - dot);
        assert(top_level(domain) =~= email@.subrange(dot as int, n as int));
    }
    if email.substring_char(dot, n).as_bytes().len() < 2 {
        return Err(Error::InvalidInput);
    }
    Ok(())
}

// ---------------------------------------------------------------------
// Invite codes
// ---------------------------------------------------------------------

/// The code alphabet: capital letters and digits without `0`, `O`, `1`, `I`.
pub open spec fn in_alphabet(c: char) -> bool {
    ||| ('A' <= c <= 'Z' && c != 'I' && c != 'O')
    ||| '2' <= c <= '9'
}

/// The shape `XXXX-XXXX-XXXX-XXXX` over the code alphabet.
pub open spec fn well_formed_code(s: Seq<char>) -> bool {
    &&& s.len() == 19
    &&& forall|i: int|
        0 <= i < 19 ==> if i % 5 == 4 {
            #[trigger] s[i] == '-'
        } else {
            in_alphabet(s[i])
        }
}

pub fn is_alphabet_char(c: char) -> (b: bool)
    ensures
        b == in_alphabet(c),
{
    (c >= 'A' && c <= 'Z' && c != 'I' && c != 'O') || (c >= '2' && c <= '9')
}

/// Accepts the codes of the shape `XXXX-XXXX-XXXX-XXXX`.
pub fn validate_invite_code_format(code: &str) -> (r: Result<(), Error>)
    ensures
        r == if well_formed_code(code@) {
            Ok::<(), Error>(())
        } else {
            Err(Error::InvalidInput)
        },
{
    let chars = chars_of(code);
    if chars.len() != 19 {
        return Err(Error::InvalidInput);
    }
    let mut i: usize = 0;
    while i < 19
        invariant
            i <= 19,
            chars@.len() == 19,
            chars@ == code@,
            forall|j: int|
                0 <= j < i ==> if j % 5 == 4 {
                    #[trigger] chars@[j] == '-'
                } else {
                    in_alphabet(chars@[j])
                },
        decreases 19 - i,
    {
        let c = chars[i];
        let ok = if i % 5 == 4 {
            c == '-'
        } else {
            is_alphabet_char(c)
        };
        if !ok {
            return Err(Error::InvalidInput);
        }
        i += 1;
    }
    Ok(())
}

// ---------------------------------------------------------------------
// Invite code generation
// ---------------------------------------------------------------------

/// The `k`-th character of the code alphabet.
pub open spec fn alphabet_char(k: int) -> char {
    "ABCDEFGHJKLMNPQRSTUVWXYZ23456789"@[k]
}

/// The code that sixteen draws give: each draw picks, by its remainder
/// modulo 32, one character of the alphabet; a dash stands after each group
/// of four.
pub open spec fn code_of(draws: Seq<u64>) -> Seq<char> {
    Seq::new(
        19,
        |i: int|
            if i % 5 == 4 {
                '-'
            } else {
                alphabet_char((draws[i - i / 5] % 32) as int)
            },
    )
}

/// Every generated code has the shape that `validate_invite_code_format`
/// accepts.
pub proof fn law_generated_codes_are_well_formed(draws: Seq<u64>)
    requires
        draws.len() == 16,
    ensures
        well_formed_code(code_of(draws)),
{
    reveal_strlit("ABCDEFGHJKLMNPQRSTUVWXYZ23456789");
    let code = code_of(draws);
    assert forall|i: int| 0 <= i < 19 implies if i % 5 == 4 {
        #[trigger] code[i] == '-'
    } else {
        in_alphabet(code[i])
    } by {
        if i % 5 != 4 {
            let k = (draws[i - i / 5] % 32) as int;
            assert(0 <= k < 32);
            assert(in_alphabet(alphabet_char(k)));
        }
    }
}

/// Builds an invite code from sixteen random draws.
pub fn invite_code_text(draws: &[u64; 16]) -> (code: String)
    ensures
        code@ == code_of(draws@),
{
    let alphabet = chars_of("ABCDEFGHJKLMNPQRSTUVWXYZ23456789");
    proof {
        reveal_strlit("ABCDEFGHJKLMNPQRSTUVWXYZ23456789");
    }
    let mut code = String::new();
    let mut i: usize = 0;
    while i < 19
        invariant
            i <= 19,
            alphabet@ == "ABCDEFGHJKLMNPQRSTUVWXYZ23456789"@,
            alphabet@.len() == 32,
            code@ =~= code_of(draws@).take(i as int),
        decreases 19 - i,
    {
        if i % 5 == 4 {
            push_char(&mut code, '-');
        } else {
            let k: usize = (draws[i - i / 5] % 32) as usize;
            push_char(&mut code, alphabet[k]);
        }
        i += 1;
    }
    proof {
        assert(code_of(draws@).take(19) =~= code_of(draws@));
    }
    code
}

// ---------------------------------------------------------------------
// Slugs
// ---------------------------------------------------------------------

/// `s` with each space replaced by a dash.
pub open spec fn dashed(s: Seq<char>) -> Seq<char> {
    s.map_values(
        |c: char|
            if c == ' ' {
                '-'
            } else {
                c
            },
    )
}

/// `s` with each run of dashes reduced to one dash.
pub open spec fn squeezed(s: Seq<char>) -> Seq<char>
    decreases s.len(),
{
    if s.len() == 0 {
        s
    } else {
        let before = squeezed(s.drop_last());
        if s.last() == '-' && before.len() > 0 && before.last() == '-' {
            before
        } else {
            before.push(s.last())
        }
    }
}

/// What is made of text in lower case: spaces turned into dashes, runs of
/// dashes reduced to one, no dash at either end.
pub open spec fn slug_from(lower: Seq<char>) -> Seq<char> {
    strip(squeezed(dashed(lower)), is_char('-'))
}

/// The slug of a raw name: trimmed, in lower case, spaces turned into
/// dashes, runs of dashes reduced to one, no dash at either end.
pub open spec fn slug_of(raw: Seq<char>) -> Seq<char> {
    slug_from(lowercased(trimmed(raw)))
}

/// Turns spaces into dashes, collapses consecutive dashes and removes
/// leading and trailing dashes.
pub fn slug_from_lowercase(lower: &str) -> (slug: String)
    ensures
        slug@ == slug_from(lower@),
{
    let chars = chars_of(lower);
    let ghost source = dashed(chars@);
    let mut out: Vec<char> = Vec::new();
    let n: usize = chars.len();
    let mut i: usize = 0;
    while i < n
        invariant
            i <= n,
            n == chars@.len(),
            source == dashed(chars@),
            out@ == squeezed(source.take(i as int)),
        decreases n - i,
    {
        let c = if chars[i] == ' ' {
            '-'
        } else {
            chars[i]
        };
        proof {
            let next = source.take(i + 1);
            assert(next.drop_last() =~= source.take(i as int));
            assert(next.last() == c);
        }
        let m: usize = out.len();
        if !(c == '-' && m > 0 && out[m - 1] == '-') {
            out.push(c);
        }
        i += 1;
    }
    proof {
        assert(source.take(n as int) =~= source);
    }
    let test = |c: char| -> (b: bool)
        ensures
            b == (c == '-'),
        { c == '-' };
    let (start, end) = strip_bounds(&out, test, Ghost(is_char('-')));
    text_of(&out, start, end)
}

/// Normalizes a slug: trimmed, lower case, spaces to dashes, consecutive
/// dashes collapsed, leading and trailing dashes removed.
pub fn normalize_slug(raw: &str) -> (slug: String)
    ensures
        slug@ == slug_of(raw@),
{
    let trimmed_raw = trim(raw);
    let lower = to_lowercase(trimmed_raw.as_str());
    slug_from_lowercase(lower.as_str())
}

// ---------------------------------------------------------------------
// Previews, short identities and composed text
// ---------------------------------------------------------------------

/// The first `max_chars` characters of `s`, followed by three dots where
/// `s` is longer.
pub open spec fn preview_of(s: Seq<char>, max_chars: int) -> Seq<char> {
    if s.len() > max_chars {
        s.take(max_chars) + "..."@
    } else {
        s
    }
}

/// Truncates a text to at most `max_chars` characters and appends "..." if
/// anything was cut.
pub fn truncate_preview(s: &str, max_chars: usize) -> (preview: String)
    ensures
        preview@ == preview_of(s@, max_chars as int),
{
    let chars = chars_of(s);
    let n: usize = chars.len();
    if n > max_chars {
        let mut preview = text_of(&chars, 0, max_chars);
        preview.append("...");
        assert(chars@.subrange(0, max_chars as int) =~= s@.take(max_chars as int));
        preview
    } else {
        let preview = text_of(&chars, 0, n);
        assert(chars@.subrange(0, n as int) =~= s@);
        preview
    }
}

/// 16 to the power `e`.
pub open spec fn pow16(e: nat) -> nat
    decreases e,
{
    if e == 0 {
        1
    } else {
        16 * pow16((e - 1) as nat)
    }
}

/// The character of a hexadecimal digit, in lower case.
pub open spec fn hex_char(digit: int) -> char {
    "0123456789abcdef"@[digit]
}

/// The first twelve hexadecimal digits of a 64-bit word.
pub open spec fn hex12(word: u64) -> Seq<char> {
    Seq::new(12, |k: int| hex_char((word as int / pow16((15 - k) as nat) as int) % 16))
}

/// A short form of an identity for audit lines: the first twelve
/// hexadecimal digits, then three dots.
pub open spec fn short_id(identity: crate::roles::Identity) -> Seq<char> {
    hex12(identity.w0) + "..."@
}

/// Formats an identity for audit lines.
pub fn id_short(identity: crate::roles::Identity) -> (short: String)
    ensures
        short@ == short_id(identity),
{
    let digits = chars_of("0123456789abcdef");
    proof {
        reveal_strlit("0123456789abcdef");
        assert(pow16(15) == 0x1000_0000_0000_0000) by {
            reveal_with_fuel(pow16, 16);
        }
    }
    let word: u64 = identity.w0;
    let mut short = String::new();
    let mut divisor: u64 = 0x1000_0000_0000_0000;
    let mut k: usize = 0;
    while k < 12
        invariant
            k <= 12,
            digits@ == "0123456789abcdef"@,
            digits@.len() == 16,
            divisor == pow16((15 - k) as nat),
            divisor >= 16,
            short@ =~= hex12(word).take(k as int),
        decreases 12 - k,
    {
        let digit: usize = ((word / divisor) % 16) as usize;
        push_char(&mut short, digits[digit]);
        proof {
            assert(pow16((15 - k) as nat) == 16 * pow16((15 - k - 1) as nat));
            assert(pow16(3) == 4096) by {
                reveal_with_fuel(pow16, 4);
            }
            lemma_pow16_grows(3, (15 - k - 1) as nat);
        }
        divisor = divisor / 16;
        k += 1;
    }
    short.append("...");
    proof {
        assert(hex12(word).take(12) =~= hex12(word));
    }
    short
}

proof fn lemma_pow16_grows(a: nat, b: nat)
    requires
        a <= b,
    ensures
        pow16(a) <= pow16(b),
    decreases b,
{
    if a < b {
        lemma_pow16_grows(a, (b - 1) as nat);
    }
}

/// `a` followed by `b`.
pub fn join2(a: &str, b: &str) -> (s: String)
    ensures
        s@ == a@ + b@,
{
    let mut s = String::from_str(a);
    s.append(b);
    s
}

/// `a`, `b` and `c` in a row.
pub fn join3(a: &str, b: &str, c: &str) -> (s: String)
    ensures
        s@ == a@ + b@ + c@,
{
    let mut s = String::from_str(a);
    s.append(b);
    s.append(c);
    s
}

/// `a`, `b`, `c` and `d` in a row.
pub fn join4(a: &str, b: &str, c: &str, d: &str) -> (s: String)
    ensures
        s@ == a@ + b@ + c@ + d@,
{
    let mut s = String::from_str(a);
    s.append(b);
    s.append(c);
    s.append(d);
    s
}

} // verus!

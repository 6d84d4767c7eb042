//! Text and bytes as sequences.
use vstd::prelude::*;
use vstd::string::*;

verus! {

/// The bytes that may be there.
pub open spec fn maybe_bytes(bytes: Option<Vec<u8>>) -> Option<Seq<u8>> {
    match bytes {
        Some(b) => Some(b@),
        None => None,
    }
}

/// The bytes of a result.
pub open spec fn result_bytes<E>(result: Result<Vec<u8>, E>) -> Result<Seq<u8>, E> {
    match result {
        Ok(b) => Ok(b@),
        Err(e) => Err(e),
    }
}

/// `String::push`: appends one character.
pub assume_specification[ String::push ](s: &mut String, c: char)
    ensures
        final(s)@ == old(s)@.push(c),
;

/// `String::from_utf8`: the text whose UTF-8 bytes are given, or `None` where they are not the
/// UTF-8 bytes of any text.
#[verifier::external_body]
pub(crate) fn from_utf8(bytes: Vec<u8>) -> (text: Option<String>)
    ensures
        match text {
            Some(s) => vstd::utf8::valid_utf8(bytes@) && s@ == vstd::utf8::decode_utf8(bytes@),
            None => !vstd::utf8::valid_utf8(bytes@),
        },
{
    String::from_utf8(bytes).ok()
}

/// What `String::from_utf8_lossy` makes of some bytes.
pub uninterp spec fn lossy_text(bytes: Seq<u8>) -> Seq<char>;

/// `String::from_utf8_lossy`: the text of the bytes, where what is not UTF-8 has been replaced.
/// Bytes that are UTF-8 throughout are not changed.
#[verifier::external_body]
pub(crate) fn from_utf8_lossy(bytes: &[u8]) -> (text: String)
    ensures
        text@ == lossy_text(bytes@),
        vstd::utf8::valid_utf8(bytes@) ==> text@ == vstd::utf8::decode_utf8(bytes@),
{
    String::from_utf8_lossy(bytes).to_string()
}

/// The text that is made of bytes which need not be UTF-8.
pub open spec fn text_of(bytes: Seq<u8>) -> Seq<char> {
    if vstd::utf8::valid_utf8(bytes) {
        vstd::utf8::decode_utf8(bytes)
    } else {
        lossy_text(bytes)
    }
}

/// The text of a text's bytes is that text.
pub proof fn law_text_of_bytes(s: Seq<char>)
    ensures
        text_of(vstd::utf8::encode_utf8(s)) == s,
{
    vstd::utf8::encode_utf8_valid_utf8(s);
    vstd::utf8::encode_utf8_decode_utf8(s);
}

/// Two texts with the same UTF-8 bytes are the same.
pub proof fn lemma_same_bytes_same_text(a: Seq<char>, b: Seq<char>)
    requires
        vstd::utf8::encode_utf8(a) == vstd::utf8::encode_utf8(b),
    ensures
        a == b,
{
    vstd::utf8::encode_utf8_decode_utf8(a);
    vstd::utf8::encode_utf8_decode_utf8(b);
}

/// The bytes of two texts put together are the bytes of the one, then those of the other.
pub proof fn lemma_bytes_of_concat(a: Seq<char>, b: Seq<char>)
    ensures
        vstd::utf8::encode_utf8(a + b) == vstd::utf8::encode_utf8(a) + vstd::utf8::encode_utf8(b),
    decreases a.len(),
{
    if a.len() == 0 {
        assert(a + b =~= b);
        assert(vstd::utf8::encode_utf8(a) =~= seq![]);
    } else {
        assert((a + b).drop_first() =~= a.drop_first() + b);
        assert((a + b)[0] == a[0]);
        lemma_bytes_of_concat(a.drop_first(), b);
        assert(vstd::utf8::encode_utf8(a + b) =~= vstd::utf8::encode_utf8(a)
            + vstd::utf8::encode_utf8(b));
    }
}

/// Only the empty text has no bytes.
pub proof fn lemma_empty_bytes(s: Seq<char>)
    ensures
        s.len() == 0 <==> vstd::utf8::encode_utf8(s).len() == 0,
        s.len() == 0 ==> vstd::utf8::encode_utf8(s) == Seq::<u8>::empty(),
{
    if s.len() > 0 {
        assert(vstd::utf8::encode_scalar(s[0] as u32).len() > 0);
    }
}

/// The bytes of a text without a zero character hold no zero byte.
pub proof fn lemma_no_zero_bytes(s: Seq<char>)
    requires
        !s.contains('\0'),
    ensures
        !vstd::utf8::encode_utf8(s).contains(0u8),
    decreases s.len(),
{
    if s.len() > 0 {
        let scalar = s[0] as u32;
        let rest = s.drop_first();
        assert(s.contains(s[0]));
        vstd::utf8::char_is_scalar(s[0]);
        vstd::utf8::char_u32_cast(s[0], scalar);
        assert(scalar != 0);
        assert(!rest.contains('\0')) by {
            if rest.contains('\0') {
                let i = choose|i: int| 0 <= i < rest.len() && rest[i] == '\0';
                assert(s[i + 1] == '\0');
            }
        }
        lemma_no_zero_bytes(rest);
        assert(0 < scalar <= 0x7F ==> (scalar & 0x7F) as u8 != 0) by (bit_vector);
        assert(forall|b: u8| #[trigger] (0x80u8 | b) != 0) by (bit_vector);
        assert(forall|b: u8| #[trigger] (0xC0u8 | b) != 0) by (bit_vector);
        assert(forall|b: u8| #[trigger] (0xE0u8 | b) != 0) by (bit_vector);
        assert(forall|b: u8| #[trigger] (0xF0u8 | b) != 0) by (bit_vector);
        let first = vstd::utf8::encode_scalar(scalar);
        assert forall|i: int| 0 <= i < first.len() implies first[i] != 0 by {}
        let bytes = vstd::utf8::encode_utf8(s);
        assert(bytes =~= first + vstd::utf8::encode_utf8(rest));
        if bytes.contains(0u8) {
            let i = choose|i: int| 0 <= i < bytes.len() && bytes[i] == 0;
            if i >= first.len() {
                assert(vstd::utf8::encode_utf8(rest)[i - first.len()] == 0);
            }
        }
    }
}

/// Bytes are split at their first zero in one way only.
pub proof fn lemma_split_at_zero(a: Seq<u8>, x: Seq<u8>, b: Seq<u8>, y: Seq<u8>)
    requires
        !a.contains(0u8),
        !b.contains(0u8),
        a + seq![0u8] + x == b + seq![0u8] + y,
    ensures
        a == b,
        x == y,
{
    let left = a + seq![0u8] + x;
    let right = b + seq![0u8] + y;
    assert(left[a.len() as int] == 0 && right[b.len() as int] == 0);
    if a.len() < b.len() {
        assert(b[a.len() as int] == right[a.len() as int]);
    }
    if b.len() < a.len() {
        assert(a[b.len() as int] == left[b.len() as int]);
    }
    assert(left.take(a.len() as int) =~= a);
    assert(right.take(b.len() as int) =~= b);
    assert(left.skip((a.len() + 1) as int) =~= x);
    assert(right.skip((b.len() + 1) as int) =~= y);
}

/// ASCII bytes are the UTF-8 bytes of a text.
pub proof fn lemma_ascii_is_utf8(bytes: Seq<u8>)
    requires
        forall|i: int| 0 <= i < bytes.len() ==> bytes[i] < 128,
    ensures
        vstd::utf8::valid_utf8(bytes),
{
    let chars = Seq::new(bytes.len(), |i: int| bytes[i] as char);
    assert(vstd::utf8::is_ascii_chars(chars));
    vstd::utf8::is_ascii_chars_encode_utf8(chars);
    assert(vstd::utf8::encode_utf8(chars) =~= bytes);
    vstd::utf8::encode_utf8_valid_utf8(chars);
}

/// Whether two byte strings are the same.
pub fn bytes_eq(a: &[u8], b: &[u8]) -> (same: bool)
    ensures
        same == (a@ == b@),
{
    if a.len() != b.len() {
        return false;
    }
    let mut i: usize = 0;
    while i < a.len()
        invariant
            i <= a@.len(),
            a@.len() == b@.len(),
            a@.take(i as int) == b@.take(i as int),
        decreases a@.len() - i,
    {
        if a[i] != b[i] {
            assert(a@[i as int] != b@[i as int]);
            return false;
        }
        assert(a@.take(i + 1) =~= a@.take(i as int).push(a@[i as int]));
        assert(b@.take(i + 1) =~= b@.take(i as int).push(b@[i as int]));
        i += 1;
    }
    assert(a@.take(i as int) =~= a@);
    assert(b@.take(i as int) =~= b@);
    true
}

/// Whether the bytes begin with `prefix`.
pub fn bytes_start_with(bytes: &[u8], prefix: &[u8]) -> (found: bool)
    ensures
        found == prefix@.is_prefix_of(bytes@),
{
    if bytes.len() < prefix.len() {
        return false;
    }
    let front = vstd::slice::slice_subrange(bytes, 0, prefix.len());
    bytes_eq(prefix, front)
}

/// Whether two texts are the same.
pub fn str_eq(a: &str, b: &str) -> (same: bool)
    ensures
        same == (a@ == b@),
{
    let same: bool = bytes_eq(a.as_bytes(), b.as_bytes());
    proof {
        if same {
            lemma_same_bytes_same_text(a@, b@);
        }
    }
    same
}

/// The decimal digits of a number.
pub open spec fn decimal(n: nat) -> Seq<char>
    decreases n,
{
    if n < 10 {
        seq![(48 + n) as char]
    } else {
        decimal(n / 10).push((48 + n % 10) as char)
    }
}

/// Appends the decimal digits of a number.
pub fn push_decimal(out: &mut String, n: usize)
    ensures
        final(out)@ == old(out)@ + decimal(n as nat),
    decreases n,
{
    if n >= 10 {
        push_decimal(out, n / 10);
    }
    let digit: u8 = 48 + (n % 10) as u8;
    out.push(digit as char);
}

/// The decimal digits of a number, with a minus sign where it is negative.
pub open spec fn signed_decimal(n: int) -> Seq<char> {
    if n < 0 {
        seq!['-'] + decimal((-n) as nat)
    } else {
        decimal(n as nat)
    }
}

/// Appends the decimal digits of a number, with a minus sign where it is negative.
pub fn push_signed_decimal(out: &mut String, n: i32)
    ensures
        final(out)@ == old(out)@ + signed_decimal(n as int),
{
    if n >= 0 {
        push_decimal(out, n as usize);
    } else {
        let ghost before = out@;
        out.push('-');
        let wide: i64 = n as i64;
        push_decimal(out, (-wide) as usize);
        assert(out@ =~= before + signed_decimal(n as int));
    }
}

/// The characters of a text.
pub fn to_chars(s: &str) -> (chars: Vec<char>)
    ensures
        chars@ == s@,
{
    let mut chars: Vec<char> = Vec::new();
    for c in it: s.chars()
        invariant
            chars@ == it.seq().take(it.index()),
            it.seq() == s@,
    {
        chars.push(c);
        assert(it.seq().take(it.index() + 1) =~= it.seq().take(it.index()).push(c));
    }
    assert(s@.take(s@.len() as int) =~= s@);
    chars
}

/// The text of some characters.
pub fn from_chars(chars: &[char]) -> (s: String)
    ensures
        s@ == chars@,
{
    let mut s = String::new();
    let mut i: usize = 0;
    while i < chars.len()
        invariant
            i <= chars@.len(),
            s@ == chars@.take(i as int),
        decreases chars@.len() - i,
    {
        s.push(chars[i]);
        i += 1;
        assert(chars@.take(i as int) =~= chars@.take(i - 1).push(chars@[i - 1]));
    }
    assert(chars@.take(chars@.len() as int) =~= chars@);
    s
}

/// The text that may be there.
pub open spec fn maybe_text(s: Option<&str>) -> Option<Seq<char>> {
    match s {
        Some(t) => Some(t@),
        None => None,
    }
}

/// The bytes of a slice that may be there.
pub open spec fn maybe_slice(s: Option<&[u8]>) -> Option<Seq<u8>> {
    match s {
        Some(t) => Some(t@),
        None => None,
    }
}

/// The texts of some strings.
pub open spec fn texts(strings: Seq<String>) -> Seq<Seq<char>> {
    strings.map_values(|s: String| s@)
}

/// Whether a character has the Unicode property `White_Space`.
pub open spec fn whitespace(c: char) -> bool {
    let n = c as u32;
    ||| 0x09 <= n <= 0x0D
    ||| n == 0x20
    ||| n == 0x85
    ||| n == 0xA0
    ||| n == 0x1680
    ||| 0x2000 <= n <= 0x200A
    ||| n == 0x2028
    ||| n == 0x2029
    ||| n == 0x202F
    ||| n == 0x205F
    ||| n == 0x3000
}

/// Whether a character has the Unicode property `White_Space`.
pub fn is_whitespace(c: char) -> (yes: bool)
    ensures
        yes == whitespace(c),
{
    let n: u32 = c as u32;
    (0x09 <= n && n <= 0x0D) || n == 0x20 || n == 0x85 || n == 0xA0 || n == 0x1680 || (0x2000 <= n
        && n <= 0x200A) || n == 0x2028 || n == 0x2029 || n == 0x202F || n == 0x205F || n == 0x3000
}

/// The characters that are cut off the ends of a text.
#[derive(Debug, Clone, Copy)]
pub enum Cut {
    Whitespace,
    Only(char),
}

impl Cut {
    pub open spec fn has(self, c: char) -> bool {
        match self {
            Cut::Whitespace => whitespace(c),
            Cut::Only(d) => c == d,
        }
    }

    fn test(self, c: char) -> (yes: bool)
        ensures
            yes == self.has(c),
    {
        match self {
            Cut::Whitespace => is_whitespace(c),
            Cut::Only(d) => c == d,
        }
    }
}

/// A text without such characters at its end.
pub open spec fn trimmed_end(s: Seq<char>, cut: Cut) -> Seq<char>
    decreases s.len(),
{
    if s.len() > 0 && cut.has(s.last()) {
        trimmed_end(s.drop_last(), cut)
    } else {
        s
    }
}

/// A text without such characters at its start.
pub open spec fn trimmed_start(s: Seq<char>, cut: Cut) -> Seq<char>
    decreases s.len(),
{
    if s.len() > 0 && cut.has(s[0]) {
        trimmed_start(s.drop_first(), cut)
    } else {
        s
    }
}

/// A text without such characters at either end.
pub open spec fn trimmed(s: Seq<char>, cut: Cut) -> Seq<char> {
    trimmed_start(trimmed_end(s, cut), cut)
}

/// Cuts such characters off the end.
pub fn trim_end(s: &[char], cut: Cut) -> (out: &[char])
    ensures
        out@ == trimmed_end(s@, cut),
{
    let mut n: usize = s.len();
    assert(s@.take(s@.len() as int) =~= s@);
    while n > 0 && cut.test(s[n - 1])
        invariant
            n <= s@.len(),
            trimmed_end(s@, cut) == trimmed_end(s@.take(n as int), cut),
        decreases n,
    {
        assert(s@.take(n as int).drop_last() =~= s@.take(n - 1));
        n -= 1;
    }
    let out = vstd::slice::slice_subrange(s, 0, n);
    assert(out@ =~= s@.take(n as int));
    out
}

/// Cuts such characters off both ends.
pub fn trim(s: &[char], cut: Cut) -> (out: &[char])
    ensures
        out@ == trimmed(s@, cut),
{
    let s = trim_end(s, cut);
    let mut i: usize = 0;
    assert(s@.skip(0) =~= s@);
    while i < s.len() && cut.test(s[i])
        invariant
            i <= s@.len(),
            trimmed_start(s@, cut) == trimmed_start(s@.skip(i as int), cut),
        decreases s@.len() - i,
    {
        assert(s@.skip(i as int).drop_first() =~= s@.skip(i + 1));
        i += 1;
    }
    let out = vstd::slice::slice_subrange(s, i, s.len());
    assert(out@ =~= s@.skip(i as int));
    out
}

/// Whether `pattern` stands at an index of a text.
pub open spec fn occurs_at(s: Seq<char>, pattern: Seq<char>, i: int) -> bool {
    0 <= i && i + pattern.len() <= s.len() && s.subrange(i, i + pattern.len()) == pattern
}

/// Whether `pattern` stands anywhere in a text.
pub open spec fn occurs(s: Seq<char>, pattern: Seq<char>) -> bool {
    exists|i: int| occurs_at(s, pattern, i)
}

/// Whether `pattern` stands at an index of a text.
fn stands_at(s: &[char], pattern: &[char], i: usize) -> (found: bool)
    ensures
        found == occurs_at(s@, pattern@, i as int),
{
    if i > s.len() || s.len() - i < pattern.len() {
        return false;
    }
    let len: usize = s.len();
    let mut j: usize = 0;
    while j < pattern.len()
        invariant
            s@.len() == len,
            i + pattern@.len() <= len,
            j <= pattern@.len(),
            forall|k: int| 0 <= k < j ==> s@[i + k] == pattern@[k],
        decreases pattern@.len() - j,
    {
        if s[i + j] != pattern[j] {
            assert(s@.subrange(i as int, i + pattern@.len())[j as int] == s@[i + j]);
            return false;
        }
        j += 1;
    }
    assert(s@.subrange(i as int, i + pattern@.len()) =~= pattern@);
    true
}

/// Whether `pattern` stands anywhere in a text.
pub fn contains(s: &[char], pattern: &[char]) -> (found: bool)
    ensures
        found == occurs(s@, pattern@),
{
    let mut i: usize = 0;
    while i < s.len()
        invariant
            i <= s@.len(),
            forall|k: int| 0 <= k < i ==> !occurs_at(s@, pattern@, k),
        decreases s@.len() - i,
    {
        if stands_at(s, pattern, i) {
            return true;
        }
        i += 1;
    }
    let found: bool = stands_at(s, pattern, s.len());
    proof {
        if occurs(s@, pattern@) {
            let k = choose|k: int| occurs_at(s@, pattern@, k);
            assert(k == s@.len());
        }
    }
    found
}

/// Whether `pattern` stands anywhere in a text.
pub fn str_contains(s: &str, pattern: &str) -> (found: bool)
    ensures
        found == occurs(s@, pattern@),
{
    let s = to_chars(s);
    let pattern = to_chars(pattern);
    contains(s.as_slice(), pattern.as_slice())
}

/// A text in which every `pattern`, taken from the left, is replaced.
pub open spec fn replaced(s: Seq<char>, pattern: Seq<char>, with: Seq<char>) -> Seq<char>
    decreases s.len(),
{
    if s.len() == 0 || pattern.len() == 0 {
        s
    } else if occurs_at(s, pattern, 0) {
        with + replaced(s.skip(pattern.len() as int), pattern, with)
    } else {
        seq![s[0]] + replaced(s.drop_first(), pattern, with)
    }
}

/// Replaces every `pattern`, taken from the left.
pub fn replace(s: &[char], pattern: &[char], with: &[char]) -> (out: Vec<char>)
    requires
        pattern@.len() > 0,
    ensures
        out@ == replaced(s@, pattern@, with@),
{
    let mut out: Vec<char> = Vec::new();
    let mut i: usize = 0;
    assert(s@.skip(0) =~= s@);
    while i < s.len()
        invariant
            pattern@.len() > 0,
            i <= s@.len(),
            replaced(s@, pattern@, with@) == out@ + replaced(s@.skip(i as int), pattern@, with@),
        decreases s@.len() - i,
    {
        let ghost rest = s@.skip(i as int);
        let ghost before = out@;
        if stands_at(s, pattern, i) {
            assert(rest.subrange(0, pattern@.len() as int) =~= s@.subrange(
                i as int,
                i + pattern@.len(),
            ));
            let mut with = vstd::slice::slice_to_vec(with);
            out.append(&mut with);
            i += pattern.len();
            assert(rest.skip(pattern@.len() as int) =~= s@.skip(i as int));
        } else {
            proof {
                if occurs_at(rest, pattern@, 0) {
                    assert(rest.subrange(0, pattern@.len() as int) =~= s@.subrange(
                        i as int,
                        i + pattern@.len(),
                    ));
                }
            }
            out.push(s[i]);
            i += 1;
            assert(rest.drop_first() =~= s@.skip(i as int));
        }
        assert(replaced(s@, pattern@, with@) =~= out@ + replaced(
            s@.skip(i as int),
            pattern@,
            with@,
        ));
    }
    assert(out@ + replaced(s@.skip(i as int), pattern@, with@) =~= out@);
    out
}

/// The length of the run at the start of a text that has no whitespace.
pub open spec fn word_len(s: Seq<char>) -> nat
    decreases s.len(),
{
    if s.len() == 0 || whitespace(s[0]) {
        0
    } else {
        1 + word_len(s.drop_first())
    }
}

/// The words of a text: its longest runs without whitespace.
pub open spec fn words(s: Seq<char>) -> Seq<Seq<char>>
    decreases s.len(),
{
    if s.len() == 0 {
        seq![]
    } else if whitespace(s[0]) {
        words(s.drop_first())
    } else if word_len(s) <= s.len() {
        seq![s.take(word_len(s) as int)] + words(s.skip(word_len(s) as int))
    } else {
        seq![]
    }
}

proof fn lemma_word_len(s: Seq<char>)
    ensures
        word_len(s) <= s.len(),
        forall|i: int| 0 <= i < word_len(s) ==> !whitespace(s[i]),
        word_len(s) < s.len() ==> whitespace(s[word_len(s) as int]),
    decreases s.len(),
{
    if s.len() > 0 && !whitespace(s[0]) {
        let t = s.drop_first();
        lemma_word_len(t);
        assert forall|i: int| 0 <= i < word_len(s) implies !whitespace(s[i]) by {
            if i > 0 {
                assert(t[i - 1] == s[i]);
            }
        }
    }
}

/// The words of a text.
pub fn split_whitespace(s: &[char]) -> (out: Vec<Vec<char>>)
    ensures
        out@.map_values(|w: Vec<char>| w@) == words(s@),
{
    let mut out: Vec<Vec<char>> = Vec::new();
    let mut i: usize = 0;
    assert(s@.skip(0) =~= s@);
    while i < s.len()
        invariant
            i <= s@.len(),
            words(s@) == out@.map_values(|w: Vec<char>| w@) + words(s@.skip(i as int)),
        decreases s@.len() - i,
    {
        let ghost rest = s@.skip(i as int);
        let ghost before = out@;
        if is_whitespace(s[i]) {
            i += 1;
            assert(rest.drop_first() =~= s@.skip(i as int));
        } else {
            let start: usize = i;
            while i < s.len() && !is_whitespace(s[i])
                invariant
                    start <= i <= s@.len(),
                    forall|k: int| start <= k < i ==> !whitespace(s@[k]),
                decreases s@.len() - i,
            {
                i += 1;
            }
            proof {
                lemma_word_len(rest);
                let n = word_len(rest);
                if n < i - start {
                    assert(rest[n as int] == s@[start + n]);
                }
                if n > i - start {
                    assert(rest[i - start] == s@[i as int]);
                }
                assert(n == i - start);
                assert(rest.skip(n as int) =~= s@.skip(i as int));
            }
            let word = vstd::slice::slice_to_vec(vstd::slice::slice_subrange(s, start, i));
            assert(word@ =~= rest.take(word_len(rest) as int));
            out.push(word);
            assert(out@.map_values(|w: Vec<char>| w@) =~= before.map_values(|w: Vec<char>| w@)
                + seq![word@]);
        }
        assert(words(s@) =~= out@.map_values(|w: Vec<char>| w@) + words(s@.skip(i as int)));
    }
    assert(words(s@) =~= out@.map_values(|w: Vec<char>| w@));
    out
}

/// The index of the first `c`, or the length where there is none.
pub open spec fn index_or_len(s: Seq<char>, c: char) -> nat
    decreases s.len(),
{
    if s.len() == 0 || s[0] == c {
        0
    } else {
        1 + index_or_len(s.drop_first(), c)
    }
}

proof fn lemma_index_or_len(s: Seq<char>, c: char)
    ensures
        index_or_len(s, c) <= s.len(),
        forall|i: int| 0 <= i < index_or_len(s, c) ==> s[i] != c,
        index_or_len(s, c) < s.len() ==> s[index_or_len(s, c) as int] == c,
    decreases s.len(),
{
    if s.len() > 0 && s[0] != c {
        let t = s.drop_first();
        lemma_index_or_len(t, c);
        assert forall|i: int| 0 <= i < index_or_len(s, c) implies s[i] != c by {
            if i > 0 {
                assert(t[i - 1] == s[i]);
            }
        }
    }
}

/// The index of the first `c` from `start` on, or the length where there is none.
fn find_char(s: &[char], start: usize, c: char) -> (i: usize)
    requires
        start <= s@.len(),
    ensures
        i - start == index_or_len(s@.skip(start as int), c),
        start <= i <= s@.len(),
        i < s@.len() ==> s@[i as int] == c,
{
    let mut i: usize = start;
    while i < s.len() && s[i] != c
        invariant
            start <= i <= s@.len(),
            forall|k: int| start <= k < i ==> s@[k] != c,
        decreases s@.len() - i,
    {
        i += 1;
    }
    proof {
        let rest = s@.skip(start as int);
        lemma_index_or_len(rest, c);
        let n = index_or_len(rest, c);
        if n < i - start {
            assert(rest[n as int] == s@[start + n]);
        }
        if n > i - start {
            assert(rest[i - start] == s@[i as int]);
        }
    }
    i
}

/// The pieces of a text between the characters `c`.
pub open spec fn pieces(s: Seq<char>, c: char) -> Seq<Seq<char>>
    decreases s.len(),
{
    let n = index_or_len(s, c);
    if n < s.len() {
        seq![s.take(n as int)] + pieces(s.skip(n as int + 1), c)
    } else {
        seq![s]
    }
}

/// The pieces of a text between the characters `c`.
pub fn split(s: &[char], c: char) -> (out: Vec<Vec<char>>)
    ensures
        out@.map_values(|w: Vec<char>| w@) == pieces(s@, c),
{
    let mut out: Vec<Vec<char>> = Vec::new();
    let mut start: usize = 0;
    let mut i: usize = find_char(s, 0, c);
    assert(s@.skip(0) =~= s@);
    while i < s.len()
        invariant
            start <= i <= s@.len(),
            i - start == index_or_len(s@.skip(start as int), c),
            pieces(s@, c) == out@.map_values(|w: Vec<char>| w@) + pieces(
                s@.skip(start as int),
                c,
            ),
        decreases s@.len() - i,
    {
        let ghost rest = s@.skip(start as int);
        let ghost before = out@;
        let piece = vstd::slice::slice_to_vec(vstd::slice::slice_subrange(s, start, i));
        assert(piece@ =~= rest.take(i - start));
        out.push(piece);
        assert(out@.map_values(|w: Vec<char>| w@) =~= before.map_values(|w: Vec<char>| w@)
            + seq![piece@]);
        assert(rest.skip(i - start + 1) =~= s@.skip(i + 1));
        start = i + 1;
        i = find_char(s, start, c);
        assert(pieces(s@, c) =~= out@.map_values(|w: Vec<char>| w@) + pieces(
            s@.skip(start as int),
            c,
        ));
    }
    let ghost before = out@;
    let piece = vstd::slice::slice_to_vec(vstd::slice::slice_subrange(s, start, s.len()));
    assert(piece@ =~= s@.skip(start as int));
    out.push(piece);
    assert(out@.map_values(|w: Vec<char>| w@) =~= before.map_values(|w: Vec<char>| w@)
        + seq![piece@]);
    out
}

/// A line without the carriage return that stands before its line feed.
pub open spec fn without_cr(line: Seq<char>) -> Seq<char> {
    if line.len() > 0 && line.last() == '\r' {
        line.drop_last()
    } else {
        line
    }
}

/// The lines of a text. A line ends with a line feed, which may follow a carriage return; the last
/// one need not end so.
pub open spec fn lines_of(s: Seq<char>) -> Seq<Seq<char>>
    decreases s.len(),
{
    let n = index_or_len(s, '\n');
    if s.len() == 0 {
        seq![]
    } else if n < s.len() {
        seq![without_cr(s.take(n as int))] + lines_of(s.skip(n as int + 1))
    } else {
        seq![s]
    }
}

/// The lines of a text.
pub fn lines(s: &[char]) -> (out: Vec<Vec<char>>)
    ensures
        out@.map_values(|w: Vec<char>| w@) == lines_of(s@),
{
    let mut out: Vec<Vec<char>> = Vec::new();
    let mut start: usize = 0;
    let mut i: usize = find_char(s, 0, '\n');
    assert(s@.skip(0) =~= s@);
    while i < s.len()
        invariant
            start <= i <= s@.len(),
            i < s@.len() ==> s@[i as int] == '\n',
            i - start == index_or_len(s@.skip(start as int), '\n'),
            lines_of(s@) == out@.map_values(|w: Vec<char>| w@) + lines_of(s@.skip(start as int)),
        decreases s@.len() - i,
    {
        let ghost rest = s@.skip(start as int);
        let ghost before = out@;
        let end: usize = if i > start && s[i - 1] == '\r' {
            i - 1
        } else {
            i
        };
        let line = vstd::slice::slice_to_vec(vstd::slice::slice_subrange(s, start, end));
        assert(rest.take(i - start).len() > 0 ==> rest.take(i - start).last() == s@[i - 1]);
        assert(line@ =~= without_cr(rest.take(i - start)));
        out.push(line);
        assert(out@.map_values(|w: Vec<char>| w@) =~= before.map_values(|w: Vec<char>| w@)
            + seq![line@]);
        assert(rest.skip(i - start + 1) =~= s@.skip(i + 1));
        start = i + 1;
        i = find_char(s, start, '\n');
        assert(lines_of(s@) =~= out@.map_values(|w: Vec<char>| w@) + lines_of(
            s@.skip(start as int),
        ));
    }
    if start < s.len() {
        let ghost before = out@;
        let line = vstd::slice::slice_to_vec(vstd::slice::slice_subrange(s, start, s.len()));
        assert(line@ =~= s@.skip(start as int));
        out.push(line);
        assert(out@.map_values(|w: Vec<char>| w@) =~= before.map_values(|w: Vec<char>| w@)
            + seq![line@]);
    } else {
        assert(out@.map_values(|w: Vec<char>| w@) =~= lines_of(s@));
    }
    out
}

/// What `str::to_lowercase` makes of a text.
pub uninterp spec fn lowercase(s: Seq<char>) -> Seq<char>;

/// A character in lower case where it is an ASCII letter.
pub open spec fn ascii_lower(c: char) -> char {
    if 'A' <= c <= 'Z' {
        (c as u32 + 32) as char
    } else {
        c
    }
}

/// A text in lower case.
pub open spec fn lower(s: Seq<char>) -> Seq<char> {
    if vstd::utf8::is_ascii_chars(s) {
        s.map_values(|c: char| ascii_lower(c))
    } else {
        lowercase(s)
    }
}

/// `str::to_lowercase`: the text in lower case, after Unicode. In an ASCII text the letters are
/// replaced one by one.
#[verifier::external_body]
pub(crate) fn to_lowercase(s: &str) -> (out: String)
    ensures
        out@ == lowercase(s@),
        vstd::utf8::is_ascii_chars(s@) ==> out@ == s@.map_values(|c: char| ascii_lower(c)),
{
    s.to_lowercase()
}

/// A text without such characters at its end, where it is known how far that goes.
proof fn lemma_trimmed_end(s: Seq<char>, n: int, cut: Cut)
    requires
        0 <= n <= s.len(),
        forall|i: int| n <= i < s.len() ==> cut.has(#[trigger] s[i]),
        n > 0 ==> !cut.has(s[n - 1]),
    ensures
        trimmed_end(s, cut) == s.take(n),
    decreases s.len(),
{
    if n < s.len() {
        assert(cut.has(s[s.len() - 1]));
        lemma_trimmed_end(s.drop_last(), n, cut);
        assert(s.drop_last().take(n) =~= s.take(n));
    } else {
        assert(s.take(n) =~= s);
    }
}

/// A text without such characters at its start, where it is known how far that goes.
proof fn lemma_trimmed_start(s: Seq<char>, n: int, cut: Cut)
    requires
        0 <= n <= s.len(),
        forall|i: int| 0 <= i < n ==> cut.has(#[trigger] s[i]),
        n < s.len() ==> !cut.has(s[n]),
    ensures
        trimmed_start(s, cut) == s.skip(n),
    decreases s.len(),
{
    if n > 0 {
        assert(cut.has(s[0]));
        let rest = s.drop_first();
        assert forall|i: int| 0 <= i < n - 1 implies cut.has(#[trigger] rest[i]) by {
            assert(rest[i] == s[i + 1]);
        }
        lemma_trimmed_start(rest, n - 1, cut);
        assert(rest.skip(n - 1) =~= s.skip(n));
    } else {
        assert(s.skip(0) =~= s);
    }
}

/// Trimming cuts off what is to be cut at both ends, and nothing in between.
pub proof fn law_trimming_cuts_both_ends(s: Seq<char>, from: int, to: int, cut: Cut)
    requires
        0 <= from < to <= s.len(),
        forall|i: int| 0 <= i < from ==> cut.has(#[trigger] s[i]),
        forall|i: int| to <= i < s.len() ==> cut.has(#[trigger] s[i]),
        !cut.has(s[from]),
        !cut.has(s[to - 1]),
    ensures
        trimmed(s, cut) == s.subrange(from, to),
        trimmed_end(s, cut) == s.subrange(0, to),
{
    lemma_trimmed_end(s, to, cut);
    lemma_trimmed_start(s.take(to), from, cut);
    assert(s.take(to).skip(from) =~= s.subrange(from, to));
    assert(s.take(to) =~= s.subrange(0, to));
}

/// The words of two texts with whitespace between them are the words of the one and then those of
/// the other; a text without whitespace is one word, and an empty one none.
pub proof fn law_whitespace_parts_words(a: Seq<char>, space: char, b: Seq<char>)
    requires
        whitespace(space),
    ensures
        words(a + seq![space] + b) == words(a) + words(b),
        a.len() > 0 && (forall|i: int| 0 <= i < a.len() ==> !whitespace(#[trigger] a[i]))
            ==> words(a) == seq![a],
        words(Seq::<char>::empty()).len() == 0,
    decreases a.len(),
{
    let s = a + seq![space] + b;
    if a.len() > 0 && (forall|i: int| 0 <= i < a.len() ==> !whitespace(#[trigger] a[i])) {
        lemma_word_len_is(a, a.len() as int);
        assert(a.take(a.len() as int) =~= a);
        assert(a.skip(a.len() as int) =~= seq![]);
        assert(!whitespace(a[0]));
        assert(words(Seq::<char>::empty()) =~= seq![]);
        assert(words(a) =~= seq![a]);
    }
    if a.len() == 0 {
        assert(s[0] == space);
        assert(s.drop_first() =~= b);
        assert(words(a) + words(b) =~= words(b));
    } else if whitespace(a[0]) {
        assert(s[0] == a[0]);
        assert(s.drop_first() =~= a.drop_first() + seq![space] + b);
        law_whitespace_parts_words(a.drop_first(), space, b);
    } else {
        let n = word_len(a) as int;
        lemma_word_len(a);
        lemma_word_len_of_front(a, seq![space] + b);
        assert(a + (seq![space] + b) =~= s);
        lemma_word_len(s);
        assert(s[0] == a[0]);
        assert(s.take(n) =~= a.take(n));
        assert(s.skip(n) =~= a.skip(n) + seq![space] + b);
        law_whitespace_parts_words(a.skip(n), space, b);
        assert(words(s) =~= seq![a.take(n)] + (words(a.skip(n)) + words(b)));
        assert(words(a) =~= seq![a.take(n)] + words(a.skip(n)));
    }
}

/// The length of a first word that is followed by whitespace or by nothing.
proof fn lemma_word_len_is(s: Seq<char>, n: int)
    requires
        0 <= n <= s.len(),
        forall|i: int| 0 <= i < n ==> !whitespace(#[trigger] s[i]),
        n < s.len() ==> whitespace(s[n]),
    ensures
        word_len(s) == n,
    decreases s.len(),
{
    if n > 0 {
        assert(!whitespace(s[0]));
        let rest = s.drop_first();
        assert forall|i: int| 0 <= i < n - 1 implies !whitespace(#[trigger] rest[i]) by {
            assert(rest[i] == s[i + 1]);
        }
        lemma_word_len_is(rest, n - 1);
    }
}

/// The first word does not change by what follows behind whitespace.
proof fn lemma_word_len_of_front(a: Seq<char>, rest: Seq<char>)
    requires
        rest.len() > 0,
        whitespace(rest[0]),
    ensures
        word_len(a + rest) == word_len(a),
    decreases a.len(),
{
    if a.len() == 0 {
        assert(a + rest =~= rest);
    } else if !whitespace(a[0]) {
        assert((a + rest).drop_first() =~= a.drop_first() + rest);
        lemma_word_len_of_front(a.drop_first(), rest);
    }
}

/// A text is cut at each separator: what stands before the first one is the first piece, and the
/// pieces of what stands behind it follow; without a separator the text is the one piece.
pub proof fn law_separators_part_pieces(a: Seq<char>, c: char, b: Seq<char>)
    requires
        !a.contains(c),
    ensures
        pieces(a + seq![c] + b, c) == seq![a] + pieces(b, c),
        pieces(a, c) == seq![a],
{
    let s = a + seq![c] + b;
    lemma_index_is(s, c, a.len() as int);
    lemma_index_is(a, c, a.len() as int);
    assert(s.take(a.len() as int) =~= a);
    assert(s.skip(a.len() as int + 1) =~= b);
}

/// The index of the first separator.
proof fn lemma_index_is(s: Seq<char>, c: char, n: int)
    requires
        0 <= n <= s.len(),
        !s.take(n).contains(c),
        n < s.len() ==> s[n] == c,
    ensures
        index_or_len(s, c) == n,
{
    lemma_index_or_len(s, c);
    let m = index_or_len(s, c) as int;
    if m < n {
        assert(s.take(n)[m] == s[m]);
    }
}

/// A line ends with a line feed, and a carriage return before it belongs to the end; what stands
/// behind the last line feed is a line too, unless there is nothing.
pub proof fn law_line_feeds_part_lines(a: Seq<char>, b: Seq<char>)
    requires
        !a.contains('\n'),
    ensures
        a.len() == 0 || a.last() != '\r' ==> lines_of(a + seq!['\n'] + b) == seq![a] + lines_of(b),
        lines_of(a.push('\r') + seq!['\n'] + b) == seq![a] + lines_of(b),
        a.len() > 0 ==> lines_of(a) == seq![a],
        lines_of(Seq::<char>::empty()).len() == 0,
{
    let s = a + seq!['\n'] + b;
    lemma_index_is(a, '\n', a.len() as int);
    assert(s.take(a.len() as int) =~= a);
    lemma_index_is(s, '\n', a.len() as int);
    assert(s.skip(a.len() as int + 1) =~= b);
    let r = a.push('\r');
    let t = r + seq!['\n'] + b;
    assert(t.take(r.len() as int) =~= r);
    assert(!r.contains('\n')) by {
        if r.contains('\n') {
            let i = choose|i: int| 0 <= i < r.len() && r[i] == '\n';
            if i < a.len() {
                assert(a[i] == '\n');
            }
        }
    }
    lemma_index_is(t, '\n', r.len() as int);
    assert(t.skip(r.len() as int + 1) =~= b);
    assert(r.drop_last() =~= a);
}

/// A number is written with the digits of its tenth and then its last one, and no digit stands
/// before a number below ten; a negative number has a minus sign before its amount.
pub proof fn law_decimals_go_digit_by_digit(n: nat, digit: nat)
    requires
        digit < 10,
    ensures
        n == 0 ==> decimal(digit) == seq![(48 + digit) as char],
        n > 0 ==> decimal(10 * n + digit) == decimal(n).push((48 + digit) as char),
        signed_decimal(n as int) == decimal(n),
        n > 0 ==> signed_decimal(-(n as int)) == seq!['-'] + decimal(n),
{
    if n > 0 {
        assert((10 * n + digit) / 10 == n);
        assert((10 * n + digit) % 10 == digit);
    }
}

} // verus!

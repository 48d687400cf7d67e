//! Text helpers: decimal and hexadecimal numerals, comparison, and the few
//! standard-library text routines the rest of the crate relies on.
use vstd::prelude::*;
use vstd::utf8::{decode_utf8, is_ascii_chars, valid_utf8};

verus! {

// ---------- Numerals ----------

/// The character of a decimal digit.
pub open spec fn digit_char(d: int) -> char {
    ('0' as int + d) as char
}

/// The decimal numeral of `n`, without leading zeros.
pub open spec fn decimal(n: nat) -> Seq<char>
    decreases n,
{
    if n < 10 {
        seq![digit_char(n as int)]
    } else {
        decimal(n / 10).push(digit_char((n % 10) as int))
    }
}

/// The decimal numeral of `n`, with blanks in front up to four characters.
pub open spec fn decimal4(n: nat) -> Seq<char> {
    (if n < 10 {
        "   "@
    } else if n < 100 {
        "  "@
    } else if n < 1000 {
        " "@
    } else {
        ""@
    }) + decimal(n)
}

/// The lowercase hexadecimal character of a nibble.
pub open spec fn hex_char(d: int) -> char {
    if d < 10 {
        ('0' as int + d) as char
    } else {
        ('a' as int + (d - 10)) as char
    }
}

/// A byte as two lowercase hexadecimal digits.
pub open spec fn hex_byte(b: u8) -> Seq<char> {
    seq![hex_char(b as int / 16), hex_char(b as int % 16)]
}

/// `true` / `false`.
pub open spec fn bool_text(b: bool) -> Seq<char> {
    if b {
        "true"@
    } else {
        "false"@
    }
}

/// The parts with `sep` between each two neighbours.
pub open spec fn join(parts: Seq<Seq<char>>, sep: Seq<char>) -> Seq<char>
    decreases parts.len(),
{
    if parts.len() == 0 {
        Seq::empty()
    } else if parts.len() == 1 {
        parts[0]
    } else {
        join(parts.drop_last(), sep) + sep + parts.last()
    }
}

/// The elements of a text list, by view.
pub open spec fn views(v: Seq<String>) -> Seq<Seq<char>> {
    v.map_values(|s: String| s@)
}

/// An optional text, by view.
pub open spec fn opt_view(s: Option<String>) -> Option<Seq<char>> {
    match s {
        Some(t) => Some(t@),
        None => None,
    }
}

/// A byte list the way a derived `Debug` prints it: `[78, 49]`.
pub open spec fn byte_list_text(data: Seq<u8>) -> Seq<char> {
    "["@ + join(data.map_values(|b: u8| decimal(b as nat)), ", "@) + "]"@
}

/// The bytes as two-digit hex, separated by blanks.
pub open spec fn hex_text(data: Seq<u8>) -> Seq<char> {
    join(data.map_values(|b: u8| hex_byte(b)), " "@)
}

/// The bytes as characters, with everything outside printable ASCII as a dot.
pub open spec fn printable(data: Seq<u8>) -> Seq<char> {
    data.map_values(|b: u8| printable_char(b))
}

pub open spec fn printable_char(b: u8) -> char {
    if 0x20 <= b < 0x7f {
        b as char
    } else {
        '.'
    }
}

/// Appending one character to a `String` puts it behind the characters that
/// are there already (`String::push`).
pub assume_specification[ String::push ](s: &mut String, c: char)
    ensures
        final(s)@ == old(s)@.push(c),
;

/// Appends the decimal numeral of `n`.
pub fn append_decimal(out: &mut String, n: u128)
    ensures
        final(out)@ == old(out)@ + decimal(n as nat),
    decreases n,
{
    if n >= 10 {
        append_decimal(out, n / 10);
    }
    let d: u8 = (n % 10) as u8;
    let c: char = (48 + d) as char;
    out.push(c);
}

/// Appends the decimal numeral of `n`, right-aligned in four characters.
pub fn append_decimal4(out: &mut String, n: u128)
    ensures
        final(out)@ == old(out)@ + decimal4(n as nat),
{
    out.append(
        if n < 10 {
            "   "
        } else if n < 100 {
            "  "
        } else if n < 1000 {
            " "
        } else {
            ""
        },
    );
    append_decimal(out, n);
}

fn nibble_char(d: u8) -> (c: char)
    requires
        d < 16,
    ensures
        c == hex_char(d as int),
{
    if d < 10 {
        (48 + d) as char
    } else {
        (97 + (d - 10)) as char
    }
}

fn append_hex_byte(out: &mut String, b: u8)
    ensures
        final(out)@ == old(out)@ + hex_byte(b),
{
    out.push(nibble_char(b / 16));
    out.push(nibble_char(b % 16));
}

/// Appends the bytes as blank-separated hex pairs.
pub fn append_hex(out: &mut String, data: &[u8])
    ensures
        final(out)@ == old(out)@ + hex_text(data@),
{
    let ghost parts = data@.map_values(|b: u8| hex_byte(b));
    let mut i: usize = 0;
    while i < data.len()
        invariant
            i <= data.len(),
            parts == data@.map_values(|b: u8| hex_byte(b)),
            out@ == old(out)@ + join(parts.take(i as int), " "@),
        decreases data.len() - i,
    {
        if i > 0 {
            out.append(" ");
        }
        append_hex_byte(out, data[i]);
        proof {
            assert(parts.take(i + 1).drop_last() =~= parts.take(i as int));
            assert(parts.take(i + 1).last() == hex_byte(data@[i as int]));
        }
        i = i + 1;
    }
    proof {
        assert(parts.take(i as int) =~= parts);
    }
}

/// Appends the bytes as a bracketed list of decimal numerals.
pub fn append_byte_list(out: &mut String, data: &[u8])
    ensures
        final(out)@ == old(out)@ + byte_list_text(data@),
{
    let ghost parts = data@.map_values(|b: u8| decimal(b as nat));
    out.append("[");
    let ghost start = out@;
    let mut i: usize = 0;
    while i < data.len()
        invariant
            i <= data.len(),
            parts == data@.map_values(|b: u8| decimal(b as nat)),
            out@ == start + join(parts.take(i as int), ", "@),
        decreases data.len() - i,
    {
        if i > 0 {
            out.append(", ");
        }
        append_decimal(out, data[i] as u128);
        proof {
            assert(parts.take(i + 1).drop_last() =~= parts.take(i as int));
            assert(parts.take(i + 1).last() == decimal(data@[i as int] as nat));
        }
        i = i + 1;
    }
    proof {
        assert(parts.take(i as int) =~= parts);
    }
    out.append("]");
}

/// Appends `true` or `false`.
pub fn append_bool(out: &mut String, b: bool)
    ensures
        final(out)@ == old(out)@ + bool_text(b),
{
    if b {
        out.append("true");
    } else {
        out.append("false");
    }
}

/// The printable form of a byte string.
pub fn printable_string(data: &[u8]) -> (r: String)
    ensures
        r@ == printable(data@),
{
    let mut out = String::new();
    let mut i: usize = 0;
    while i < data.len()
        invariant
            i <= data.len(),
            out@ == printable(data@).take(i as int),
        decreases data.len() - i,
    {
        let b: u8 = data[i];
        if 0x20 <= b && b < 0x7f {
            out.push(b as char);
        } else {
            out.push('.');
        }
        proof {
            assert(printable(data@).take(i + 1) =~= printable(data@).take(i as int).push(
                printable_char(data@[i as int]),
            ));
        }
        i = i + 1;
    }
    proof {
        assert(printable(data@).take(i as int) =~= printable(data@));
    }
    out
}

// ---------- Comparison ----------

/// Whether two byte strings are the same.
pub fn bytes_eq(a: &[u8], b: &[u8]) -> (r: bool)
    ensures
        r == (a@ == b@),
{
    if a.len() != b.len() {
        return false;
    }
    let mut i: usize = 0;
    while i < a.len()
        invariant
            i <= a.len(),
            a.len() == b.len(),
            forall|j: int| 0 <= j < i ==> a@[j] == b@[j],
        decreases a.len() - i,
    {
        if a[i] != b[i] {
            return false;
        }
        i = i + 1;
    }
    proof {
        assert(a@ =~= b@);
    }
    true
}

/// Whether two texts are the same.
pub fn str_eq(a: &str, b: &str) -> (r: bool)
    ensures
        r == (a@ == b@),
{
    proof {
        vstd::utf8::encode_utf8_decode_utf8(a@);
        vstd::utf8::encode_utf8_decode_utf8(b@);
    }
    bytes_eq(a.as_bytes(), b.as_bytes())
}

// ---------- Case and blanks ----------

/// An ASCII capital as its small letter; every other character as it is.
pub open spec fn ascii_lower_char(c: char) -> char {
    if 'A' <= c && c <= 'Z' {
        (c as int + 32) as char
    } else {
        c
    }
}

/// The text with its ASCII capitals as small letters.
pub open spec fn ascii_lower(s: Seq<char>) -> Seq<char> {
    s.map_values(|c: char| ascii_lower_char(c))
}

/// The characters with the Unicode property `White_Space`.
pub open spec fn white_space(c: char) -> bool {
    let n = c as int;
    ||| 0x09 <= n <= 0x0d
    ||| n == 0x20
    ||| n == 0x85
    ||| n == 0xa0
    ||| n == 0x1680
    ||| 0x2000 <= n <= 0x200a
    ||| n == 0x2028
    ||| n == 0x2029
    ||| n == 0x202f
    ||| n == 0x205f
    ||| n == 0x3000
}

/// The text without the blanks in front.
pub open spec fn trim_start(s: Seq<char>) -> Seq<char>
    decreases s.len(),
{
    if s.len() > 0 && white_space(s[0]) {
        trim_start(s.drop_first())
    } else {
        s
    }
}

/// The text without the blanks behind.
pub open spec fn trim_end(s: Seq<char>) -> Seq<char>
    decreases s.len(),
{
    if s.len() > 0 && white_space(s.last()) {
        trim_end(s.drop_last())
    } else {
        s
    }
}

/// The text without the blanks on either side.
pub open spec fn trimmed(s: Seq<char>) -> Seq<char> {
    trim_end(trim_start(s))
}

/// `str::trim` returns the text without leading and trailing characters of the
/// Unicode property `White_Space`.
pub assume_specification[ str::trim ](s: &str) -> (r: &str)
    ensures
        r@ == trimmed(s@),
;

/// What `str::to_lowercase` makes of a text that is not all ASCII.
pub uninterp spec fn unicode_lowercase(s: Seq<char>) -> Seq<char>;

/// The lowercase of a text: in ASCII the small letter for each capital.
pub open spec fn lowercase(s: Seq<char>) -> Seq<char> {
    if is_ascii_chars(s) {
        ascii_lower(s)
    } else {
        unicode_lowercase(s)
    }
}

/// `str::to_lowercase`: the lowercase of a text by the Unicode case mapping,
/// which takes each ASCII capital to its small letter and leaves the rest of
/// ASCII as it is. The mapping of other characters is left unsaid.
#[verifier::external_body]
pub(crate) fn to_lower(s: &str) -> (r: String)
    ensures
        r@ == (if is_ascii_chars(s@) {
            ascii_lower(s@)
        } else {
            unicode_lowercase(s@)
        }),
{
    s.to_lowercase()
}

/// The characters of a text.
fn chars_of(s: &str) -> (r: Vec<char>)
    ensures
        r@ == s@,
{
    let mut out: Vec<char> = Vec::new();
    for c in it: s.chars()
        invariant
            it.seq() == s@,
            out@ == s@.take(it.index()),
    {
        out.push(c);
        assert(out@ =~= s@.take(it.index() + 1));
    }
    assert(s@.take(s@.len() as int) =~= s@);
    out
}

fn lower_char(c: char) -> (r: char)
    ensures
        r == ascii_lower_char(c),
{
    if 'A' <= c && c <= 'Z' {
        (c as u8 + 32) as char
    } else {
        c
    }
}

/// Whether two texts agree once the ASCII capitals of both are small letters.
pub fn eq_ignore_case(a: &str, b: &str) -> (r: bool)
    ensures
        r == (ascii_lower(a@) == ascii_lower(b@)),
{
    let x = chars_of(a);
    let y = chars_of(b);
    if x.len() != y.len() {
        assert(ascii_lower(a@).len() != ascii_lower(b@).len());
        return false;
    }
    let mut i: usize = 0;
    while i < x.len()
        invariant
            i <= x.len(),
            x.len() == y.len(),
            x@ == a@,
            y@ == b@,
            forall|j: int| 0 <= j < i ==> ascii_lower(a@)[j] == ascii_lower(b@)[j],
        decreases x.len() - i,
    {
        if lower_char(x[i]) != lower_char(y[i]) {
            assert(ascii_lower(a@)[i as int] != ascii_lower(b@)[i as int]);
            return false;
        }
        i = i + 1;
    }
    assert(ascii_lower(a@) =~= ascii_lower(b@));
    true
}

/// Whether `part` occurs in `s` as a run of neighbouring characters.
pub open spec fn has_part(s: Seq<char>, part: Seq<char>) -> bool {
    exists|i: int|
        0 <= i && i + part.len() <= s.len() && #[trigger] s.subrange(i, i + part.len()) == part
}

/// Whether `part` stands in `s` from character `at` on.
fn part_at(s: &Vec<char>, part: &Vec<char>, at: usize) -> (r: bool)
    requires
        at + part@.len() <= s@.len(),
    ensures
        r == (s@.subrange(at as int, at + part@.len()) == part@),
{
    let len: usize = s.len();
    let mut j: usize = 0;
    while j < part.len()
        invariant
            j <= part.len(),
            at + part@.len() <= s@.len() == len,
            forall|k: int| 0 <= k < j ==> s@[at + k] == part@[k],
        decreases part.len() - j,
    {
        if s[at + j] != part[j] {
            assert(s@.subrange(at as int, at + part@.len())[j as int] != part@[j as int]);
            return false;
        }
        j = j + 1;
    }
    assert(s@.subrange(at as int, at + part@.len()) =~= part@);
    true
}

/// Whether a text occurs in another.
pub fn contains_part(s: &str, part: &str) -> (r: bool)
    ensures
        r == has_part(s@, part@),
{
    let x = chars_of(s);
    let y = chars_of(part);
    if y.len() > x.len() {
        return false;
    }
    let last: usize = x.len() - y.len();
    let mut i: usize = 0;
    while i <= last
        invariant
            i <= last + 1,
            last + y@.len() == x@.len(),
            x@ == s@,
            y@ == part@,
            forall|k: int|
                0 <= k < i ==> #[trigger] s@.subrange(k, k + part@.len()) != part@,
        decreases last + 1 - i,
    {
        if part_at(&x, &y, i) {
            return true;
        }
        if i == last {
            return false;
        }
        i = i + 1;
    }
    false
}

/// The digits and points in front.
pub open spec fn number_prefix(s: Seq<char>) -> Seq<char>
    decreases s.len(),
{
    if s.len() > 0 && ('0' <= s[0] && s[0] <= '9' || s[0] == '.') {
        seq![s[0]] + number_prefix(s.drop_first())
    } else {
        seq![]
    }
}

/// The digits and points in front of a text.
pub fn leading_number(s: &str) -> (r: String)
    ensures
        r@ == number_prefix(s@),
{
    let mut out = String::new();
    let mut open = true;
    assert(s@.skip(0) =~= s@);
    assert(out@ + number_prefix(s@) =~= number_prefix(s@));
    for c in it: s.chars()
        invariant
            it.seq() == s@,
            out@ + (if open {
                number_prefix(s@.skip(it.index()))
            } else {
                seq![]
            }) == number_prefix(s@),
    {
        proof {
            let rest = s@.skip(it.index());
            assert(rest[0] == c);
            assert(rest.drop_first() =~= s@.skip(it.index() + 1));
        }
        if open && ('0' <= c && c <= '9' || c == '.') {
            let ghost before = out@;
            out.push(c);
            proof {
                let tail = number_prefix(s@.skip(it.index() + 1));
                assert(before + (seq![c] + tail) =~= before.push(c) + tail);
            }
        } else {
            open = false;
        }
    }
    out
}

/// The text without its commas.
pub fn without_commas(s: &str) -> (r: String)
    ensures
        r@ == s@.filter(|c: char| c != ','),
{
    let mut out = String::new();
    let ghost keep = |c: char| c != ',';
    proof {
        reveal(Seq::filter);
        assert(s@.take(0).filter(keep) =~= seq![]);
    }
    for c in it: s.chars()
        invariant
            it.seq() == s@,
            keep == |c: char| c != ',',
            out@ == s@.take(it.index()).filter(keep),
    {
        proof {
            reveal(Seq::filter);
            let k = it.index();
            assert(s@.take(k + 1) =~= s@.take(k).push(c));
            assert(s@.take(k + 1).drop_last() =~= s@.take(k));
        }
        if c != ',' {
            out.push(c);
        }
    }
    proof {
        assert(s@.take(s@.len() as int) =~= s@);
    }
    out
}

// ---------- Formatting done by the standard library ----------

/// What `String::from_utf8_lossy` makes of a byte string that is not UTF-8.
pub uninterp spec fn utf8_repaired(bytes: Seq<u8>) -> Seq<char>;

/// The text of a byte string: the one it encodes where it is UTF-8.
pub open spec fn utf8_lossy(bytes: Seq<u8>) -> Seq<char> {
    if valid_utf8(bytes) {
        decode_utf8(bytes)
    } else {
        utf8_repaired(bytes)
    }
}

/// `String::from_utf8_lossy`: bytes that are valid UTF-8 give the text they
/// encode; others give a text with replacement characters, which is left
/// unsaid.
#[verifier::external_body]
pub(crate) fn lossy_string(bytes: &[u8]) -> (r: String)
    ensures
        r@ == (if valid_utf8(bytes@) {
            decode_utf8(bytes@)
        } else {
            utf8_repaired(bytes@)
        }),
{
    String::from_utf8_lossy(bytes).into_owned()
}

/// Whether a text is printable ASCII without quotes and backslashes.
pub open spec fn is_plain(s: Seq<char>) -> bool {
    forall|i: int|
        0 <= i < s.len() ==> ' ' <= #[trigger] s[i] && s[i] <= '~' && s[i] != '"' && s[i] != '\''
            && s[i] != '\\'
}

/// What the `Debug` formatting prints of a text that is not plain.
pub uninterp spec fn debug_escaped(s: Seq<char>) -> Seq<char>;

/// What the `Debug` formatting of a text prints: of a plain one, the text in
/// double quotes.
pub open spec fn debug_text(s: Seq<char>) -> Seq<char> {
    if is_plain(s) {
        seq!['"'] + s + seq!['"']
    } else {
        debug_escaped(s)
    }
}

/// The `Debug` formatting of `str`: the text in double quotes, with escapes. In
/// printable ASCII without quotes and backslashes nothing is escaped. Which
/// other characters are escaped, and how, is left unsaid.
#[verifier::external_body]
pub(crate) fn debug_string(s: &str) -> (r: String)
    ensures
        r@ == (if is_plain(s@) {
            seq!['"'] + s@ + seq!['"']
        } else {
            debug_escaped(s@)
        }),
{
    format!("{:?}", s)
}

/// What the `Debug` formatting of a duration of `nanos` nanoseconds prints.
pub uninterp spec fn duration_text(nanos: u64) -> Seq<char>;

/// The `Debug` formatting of `std::time::Duration`, which prints the duration
/// in the largest fitting unit. The unit and the digits are left unsaid.
#[verifier::external_body]
pub(crate) fn duration_string(nanos: u64) -> (r: String)
    ensures
        r@ == duration_text(nanos),
{
    format!("{:?}", std::time::Duration::from_nanos(nanos))
}

/// The number that decimal digits denote.
pub open spec fn numeral_value(s: Seq<char>) -> nat
    decreases s.len(),
{
    if s.len() == 0 {
        0
    } else {
        (numeral_value(s.drop_last()) * 10 + (s.last() as int - '0' as int)) as nat
    }
}

/// A decimal numeral is made of digits, denotes its number, and has no needless
/// zero in front.
pub proof fn law_decimal(n: nat)
    ensures
        decimal(n).len() > 0,
        forall|i: int| 0 <= i < decimal(n).len() ==> '0' <= #[trigger] decimal(n)[i] <= '9',
        numeral_value(decimal(n)) == n,
        n > 0 ==> decimal(n)[0] != '0',
    decreases n,
{
    if n >= 10 {
        law_decimal(n / 10);
        assert(decimal(n).drop_last() =~= decimal(n / 10));
        assert forall|i: int| 0 <= i < decimal(n).len() implies '0' <= #[trigger] decimal(n)[i]
            <= '9' by {
            if i < decimal(n / 10).len() {
                assert(decimal(n)[i] == decimal(n / 10)[i]);
            }
        }
        assert(decimal(n)[0] == decimal(n / 10)[0]);
    } else {
        reveal_with_fuel(numeral_value, 2);
        assert(decimal(n).drop_last() =~= seq![]);
    }
}

/// A byte in hex is two characters, each a digit or a letter from a to f, which
/// denote it.
pub proof fn law_hex_byte(b: u8)
    ensures
        ({
            let value = |c: char|
                if '0' <= c && c <= '9' {
                    c as int - '0' as int
                } else {
                    c as int - 'a' as int + 10
                };
            let h = hex_byte(b);
            &&& h.len() == 2
            &&& forall|i: int|
                0 <= i < 2 ==> '0' <= #[trigger] h[i] && h[i] <= '9' || 'a' <= h[i] && h[i] <= 'f'
            &&& 16 * value(h[0]) + value(h[1]) == b
        }),
{
}

/// The printable form of bytes keeps their number, keeps every printable
/// character, and shows a dot for every other.
pub proof fn law_printable(data: Seq<u8>, i: int)
    requires
        0 <= i < data.len(),
    ensures
        printable(data).len() == data.len(),
        32 <= data[i] <= 126 ==> printable(data)[i] as int == data[i] as int,
        !(32 <= data[i] <= 126) ==> printable(data)[i] == '.',
{
}

/// The parts of a joined text follow each other with the separator between each
/// two.
pub proof fn law_join(parts: Seq<Seq<char>>, part: Seq<char>, sep: Seq<char>)
    ensures
        join(Seq::<Seq<char>>::empty(), sep) == Seq::<char>::empty(),
        join(seq![part], sep) == part,
        parts.len() > 0 ==> join(parts.push(part), sep) == join(parts, sep) + sep + part,
{
    if parts.len() > 0 {
        assert(parts.push(part).drop_last() =~= parts);
    }
}

/// A number in a column of four fills it from the right, with blanks in front,
/// and takes more room only where it has more than four digits.
pub proof fn law_column(n: nat)
    ensures
        ({
            let t = decimal4(n);
            let k = t.len() - decimal(n).len();
            &&& t.len() == (if n < 10_000 {
                4
            } else {
                decimal(n).len()
            })
            &&& 0 <= k
            &&& t.skip(k) == decimal(n)
            &&& forall|i: int| 0 <= i < k ==> #[trigger] t[i] == ' '
        }),
{
    reveal_with_fuel(decimal, 5);
    reveal_strlit("   ");
    reveal_strlit("  ");
    reveal_strlit(" ");
    reveal_strlit("");
    let t = decimal4(n);
    let k = t.len() - decimal(n).len();
    assert(t.skip(k) =~= decimal(n));
    if n >= 10_000 {
        assert(""@ =~= Seq::<char>::empty());
        assert(t =~= decimal(n));
    }
}

/// The two truth values by their names.
pub proof fn law_truth_names()
    ensures
        bool_text(true) == "true"@,
        bool_text(false) == "false"@,
{
}

/// A text contains what it is made of, wherever it stands, and nothing that is
/// longer than the text.
pub proof fn law_contains(a: Seq<char>, part: Seq<char>, b: Seq<char>, s: Seq<char>)
    ensures
        has_part(a + part + b, part),
        part.len() > s.len() ==> !has_part(s, part),
        has_part(s, part) ==> exists|x: Seq<char>, y: Seq<char>| s == #[trigger] (x + part + y),
{
    let t = a + part + b;
    let at = a.len() as int;
    assert(t.subrange(at, at + part.len()) =~= part);
    if has_part(s, part) {
        let i = choose|i: int|
            0 <= i && i + part.len() <= s.len() && #[trigger] s.subrange(i, i + part.len()) == part;
        let x = s.take(i);
        let y = s.skip(i + part.len());
        assert(s =~= x + part + y);
    }
}

/// Bytes in hex stand in their order, two digits each, with one blank between
/// each two.
pub proof fn law_hex_text(data: Seq<u8>, b: u8)
    ensures
        hex_text(Seq::<u8>::empty()) == Seq::<char>::empty(),
        hex_text(seq![b]) == hex_byte(b),
        data.len() > 0 ==> hex_text(data.push(b)) == hex_text(data).push(' ') + hex_byte(b),
{
    reveal_strlit(" ");
    let f = |x: u8| hex_byte(x);
    assert(Seq::<u8>::empty().map_values(f) =~= Seq::<Seq<char>>::empty());
    assert(seq![b].map_values(f) =~= seq![hex_byte(b)]);
    assert(data.push(b).map_values(f) =~= data.map_values(f).push(hex_byte(b)));
    law_join(data.map_values(f), hex_byte(b), " "@);
    if data.len() > 0 {
        assert(hex_text(data) + " "@ =~= hex_text(data).push(' '));
    }
}

/// What counts as blank: the five controls from tab to carriage return, the next
/// line, and the spaces and separators of Unicode.
pub proof fn law_blanks(c: char)
    ensures
        ({
            let n = c as int;
            let control = n == 9 || n == 10 || n == 11 || n == 12 || n == 13 || n == 133;
            let space = n == 32 || n == 160 || n == 5_760 || 8_192 <= n < 8_203 || n == 8_239 || n
                == 8_287 || n == 12_288;
            let separator = n == 8_232 || n == 8_233;
            white_space(c) <==> control || space || separator
        }),
{
}

/// A trimmed text is what is left when blanks are taken off both ends, and all of
/// them are: it neither begins nor ends with one.
pub proof fn law_trimmed(s: Seq<char>)
    ensures
        ({
            let t = trimmed(s);
            let k = s.len() - trim_start(s).len();
            &&& 0 <= k <= k + t.len() <= s.len()
            &&& t == s.subrange(k, k + t.len())
            &&& forall|i: int|
                0 <= i < k || k + t.len() <= i < s.len() ==> white_space(#[trigger] s[i])
            &&& t.len() > 0 ==> !white_space(t[0]) && !white_space(t.last())
        }),
{
    let f = trim_start(s);
    let t = trimmed(s);
    let k = s.len() - f.len();
    lemma_trim_start(s);
    lemma_trim_end(f);
    assert(t =~= s.subrange(k, k + t.len()));
    assert forall|i: int| k + t.len() <= i < s.len() implies white_space(#[trigger] s[i]) by {
        assert(s[i] == f[i - k]);
    }
}

proof fn lemma_trim_start(s: Seq<char>)
    ensures
        ({
            let f = trim_start(s);
            let k = s.len() - f.len();
            &&& 0 <= k
            &&& f == s.skip(k)
            &&& forall|i: int| 0 <= i < k ==> white_space(#[trigger] s[i])
            &&& f.len() > 0 ==> !white_space(f[0])
        }),
    decreases s.len(),
{
    let f = trim_start(s);
    if s.len() > 0 && white_space(s[0]) {
        let rest = s.drop_first();
        lemma_trim_start(rest);
        let k = s.len() - f.len();
        assert(f =~= s.skip(k));
        assert forall|i: int| 0 <= i < k implies white_space(#[trigger] s[i]) by {
            if i > 0 {
                assert(s[i] == rest[i - 1]);
            }
        }
    } else {
        assert(s.skip(0) =~= s);
    }
}

proof fn lemma_trim_end(s: Seq<char>)
    ensures
        ({
            let t = trim_end(s);
            &&& t.len() <= s.len()
            &&& t == s.take(t.len() as int)
            &&& forall|i: int| t.len() <= i < s.len() ==> white_space(#[trigger] s[i])
            &&& t.len() > 0 ==> !white_space(t.last())
        }),
    decreases s.len(),
{
    let t = trim_end(s);
    if s.len() > 0 && white_space(s.last()) {
        let rest = s.drop_last();
        lemma_trim_end(rest);
        assert(t =~= s.take(t.len() as int));
        assert forall|i: int| t.len() <= i < s.len() implies white_space(#[trigger] s[i]) by {
            if i < rest.len() {
                assert(s[i] == rest[i]);
            }
        }
    } else {
        assert(s.take(s.len() as int) =~= s);
    }
}

} // verus!

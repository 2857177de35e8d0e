use vstd::prelude::*;

verus! {

/// Whether a character has the Unicode `White_Space` property, which is what
/// `char::is_whitespace` tests: the controls from tab to carriage return, the
/// space, next line, no-break space, ogham space mark, the spaces from en
/// quad to hair space, the line and paragraph separators, the narrow
/// no-break space, the medium mathematical space and the ideographic space.
pub open spec fn white_space(c: char) -> bool {
    let n = c as u32;
    ||| 0x09 <= n <= 0x0d
    ||| n == 0x20
    ||| n == 0x85
    ||| n == 0xa0
    ||| n == 0x1680
    ||| 0x2000 <= n <= 0x200a
    ||| n == 0x2028
    ||| n == 0x2029
    ||| n == 0x202f
    ||| n == 0x205f
    ||| n == 0x3000
}

/// Whether a character is white space.
pub fn is_white_space(c: char) -> (b: bool)
    ensures
        b == white_space(c),
{
    let n = c as u32;
    (0x09 <= n && n <= 0x0d) || n == 0x20 || n == 0x85 || n == 0xa0 || n == 0x1680 || (0x2000
        <= n && n <= 0x200a) || n == 0x2028 || n == 0x2029 || n == 0x202f || n == 0x205f || n
        == 0x3000
}

/// The first position at or after `i` that holds no white space, or the
/// length of `s` where there is none.
pub open spec fn skip_space(s: Seq<char>, i: int) -> int
    decreases s.len() - i,
{
    if i >= s.len() {
        s.len() as int
    } else if white_space(s[i]) {
        skip_space(s, i + 1)
    } else {
        i
    }
}

/// The first position at or after `i` that holds white space, or the length
/// of `s` where there is none.
pub open spec fn skip_word(s: Seq<char>, i: int) -> int
    decreases s.len() - i,
{
    if i >= s.len() {
        s.len() as int
    } else if white_space(s[i]) {
        i
    } else {
        skip_word(s, i + 1)
    }
}

/// The second of the non-empty runs of non-white-space characters of `s`, if
/// it has two.
pub open spec fn second_word(s: Seq<char>) -> Option<Seq<char>> {
    let c = skip_space(s, skip_word(s, skip_space(s, 0)));
    if c >= s.len() {
        None
    } else {
        Some(s.subrange(c, skip_word(s, c)))
    }
}

/// Whether a chat text asks for a whisper: it begins with a backslash and a `w`.
pub open spec fn whisper_prefix(s: Seq<char>) -> bool {
    s.len() >= 2 && s[0] == '\\' && s[1] == 'w'
}

/// The decimal digit character of a value below ten.
pub open spec fn digit_char(d: nat) -> char {
    (d + 48) as char
}

/// The decimal digits of a natural number, most significant first, with no
/// leading zeros.
pub open spec fn digits(n: nat) -> Seq<char>
    decreases n,
{
    if n < 10 {
        seq![digit_char(n)]
    } else {
        digits(n / 10).push(digit_char(n % 10))
    }
}

/// The decimal text of an integer, with a leading minus sign when it is negative.
pub open spec fn decimal(n: int) -> Seq<char> {
    if n < 0 {
        seq!['-'] + digits((-n) as nat)
    } else {
        digits(n as nat)
    }
}

fn skip_space_from(s: &str, len: usize, i: usize) -> (r: usize)
    requires
        len == s@.len(),
        i <= len,
    ensures
        r as int == skip_space(s@, i as int),
        i <= r <= len,
{
    let mut j = i;
    while j < len
        invariant
            len == s@.len(),
            i <= j <= len,
            skip_space(s@, j as int) == skip_space(s@, i as int),
        ensures
            i <= j <= len,
            skip_space(s@, j as int) == skip_space(s@, i as int),
            skip_space(s@, j as int) == j,
        decreases len - j,
    {
        if !is_white_space(s.get_char(j)) {
            break;
        }
        j = j + 1;
    }
    j
}

fn skip_word_from(s: &str, len: usize, i: usize) -> (r: usize)
    requires
        len == s@.len(),
        i <= len,
    ensures
        r as int == skip_word(s@, i as int),
        i <= r <= len,
{
    let mut j = i;
    while j < len
        invariant
            len == s@.len(),
            i <= j <= len,
            skip_word(s@, j as int) == skip_word(s@, i as int),
        ensures
            i <= j <= len,
            skip_word(s@, j as int) == skip_word(s@, i as int),
            skip_word(s@, j as int) == j,
        decreases len - j,
    {
        if is_white_space(s.get_char(j)) {
            break;
        }
        j = j + 1;
    }
    j
}

/// The second whitespace-separated word of a text, as
/// `split_whitespace().nth(1)` finds it.
pub fn second_word_of(s: &str) -> (w: Option<&str>)
    ensures
        match second_word(s@) {
            None => w is None,
            Some(x) => w is Some && w.unwrap()@ == x,
        },
{
    let len = s.unicode_len();
    let a = skip_space_from(s, len, 0);
    let b = skip_word_from(s, len, a);
    let c = skip_space_from(s, len, b);
    if c >= len {
        None
    } else {
        let d = skip_word_from(s, len, c);
        Some(s.substring_char(c, d))
    }
}

/// Whether a chat text begins with the whisper marker `\w`.
pub fn is_whisper(s: &str) -> (b: bool)
    ensures
        b == whisper_prefix(s@),
{
    let len = s.unicode_len();
    len >= 2 && s.get_char(0) == '\\' && s.get_char(1) == 'w'
}

fn digit_str(d: u32) -> (s: &'static str)
    requires
        d < 10,
    ensures
        s@ == seq![digit_char(d as nat)],
{
    if d == 0 {
        proof { reveal_strlit("0"); }
        "0"
    } else if d == 1 {
        proof { reveal_strlit("1"); }
        "1"
    } else if d == 2 {
        proof { reveal_strlit("2"); }
        "2"
    } else if d == 3 {
        proof { reveal_strlit("3"); }
        "3"
    } else if d == 4 {
        proof { reveal_strlit("4"); }
        "4"
    } else if d == 5 {
        proof { reveal_strlit("5"); }
        "5"
    } else if d == 6 {
        proof { reveal_strlit("6"); }
        "6"
    } else if d == 7 {
        proof { reveal_strlit("7"); }
        "7"
    } else if d == 8 {
        proof { reveal_strlit("8"); }
        "8"
    } else {
        proof { reveal_strlit("9"); }
        "9"
    }
}

fn digits_text(n: u32) -> (s: String)
    ensures
        s@ == digits(n as nat),
    decreases n,
{
    if n < 10 {
        String::from_str(digit_str(n))
    } else {
        let mut s = digits_text(n / 10);
        s.append(digit_str(n % 10));
        s
    }
}

/// The decimal text of a 32-bit integer, as `Display` and `Debug` write it.
pub fn decimal_text(n: i32) -> (s: String)
    ensures
        s@ == decimal(n as int),
{
    if n < 0 {
        let m: u32 = (0i64 - n as i64) as u32;
        let mut s = String::from_str("-");
        proof { reveal_strlit("-"); }
        let rest = digits_text(m);
        s.append(rest.as_str());
        s
    } else {
        digits_text(n as u32)
    }
}

/// A text asks for a whisper exactly when its first two characters are the
/// two characters of `\w`; in particular a text that does not begin with a
/// backslash is never a whisper.
pub proof fn law_whisper_marker_is_the_prefix(s: Seq<char>)
    ensures
        whisper_prefix(s) <==> (s.len() >= 2 && s.take(2) == "\\w"@),
        s.len() == 0 || s[0] != '\\' ==> !whisper_prefix(s),
        s.len() < 2 || s[1] != 'w' ==> !whisper_prefix(s),
{
    reveal_strlit("\\w");
    if s.len() >= 2 && s.take(2) == "\\w"@ {
        assert(s[0] == s.take(2)[0] && s[1] == s.take(2)[1]);
    }
    if whisper_prefix(s) {
        assert(s.take(2) =~= "\\w"@);
    }
}

/// The number that a run of decimal digit characters spells, each character
/// counting for its code less that of `0`, most significant first.
pub open spec fn read_digits(s: Seq<char>) -> int
    decreases s.len(),
{
    if s.len() == 0 {
        0
    } else {
        read_digits(s.drop_last()) * 10 + (s.last() as int - '0' as int)
    }
}

/// The number that a decimal text spells, with an optional leading minus sign.
pub open spec fn read_decimal(s: Seq<char>) -> int {
    if s.len() > 0 && s[0] == '-' {
        -read_digits(s.drop_first())
    } else {
        read_digits(s)
    }
}

proof fn lemma_digits_read_back(n: nat)
    ensures
        read_digits(digits(n)) == n,
        digits(n).len() > 0,
        forall|i: int| 0 <= i < digits(n).len() ==> '0' <= #[trigger] digits(n)[i] <= '9',
        n > 0 ==> digits(n)[0] != '0',
    decreases n,
{
    if n >= 10 {
        lemma_digits_read_back(n / 10);
        let d = digits(n);
        assert(d.drop_last() =~= digits(n / 10));
        assert(d.last() == digit_char(n % 10));
        assert(digit_char(n % 10) as int == (n % 10) + 48);
        assert(read_digits(d) == read_digits(digits(n / 10)) * 10 + (n % 10));
        assert forall|i: int| 0 <= i < d.len() implies '0' <= #[trigger] d[i] <= '9' by {
            if i < d.len() - 1 {
                assert(d[i] == digits(n / 10)[i]);
            }
        }
        assert(d[0] == digits(n / 10)[0]);
    } else {
        assert(digits(n).drop_last() =~= Seq::<char>::empty());
        assert(digit_char(n) as int == n + 48);
        assert(read_digits(digits(n)) == read_digits(Seq::<char>::empty()) * 10 + (n as int));
    }
}

/// The decimal text of every integer reads back as that integer: its
/// characters are a minus sign only where the integer is negative, and
/// otherwise the digits `0` to `9`, each standing for its code less that of
/// `0`, with no leading zero.
pub proof fn law_decimal_reads_back(n: int)
    ensures
        read_decimal(decimal(n)) == n,
        (decimal(n)[0] == '-') == (n < 0),
        forall|i: int|
            0 <= i < decimal(n).len() && !(i == 0 && n < 0) ==> '0' <= #[trigger] decimal(n)[i]
                <= '9',
        decimal(n).len() > 1 && decimal(n)[0] != '-' ==> decimal(n)[0] != '0',
{
    if n < 0 {
        lemma_digits_read_back((-n) as nat);
        let t = decimal(n);
        assert(t.drop_first() =~= digits((-n) as nat));
        assert forall|i: int| 0 <= i < t.len() && !(i == 0 && n < 0) implies '0' <= #[trigger] t[i]
            <= '9' by {
            assert(t[i] == digits((-n) as nat)[i - 1]);
        }
    } else {
        lemma_digits_read_back(n as nat);
        if n == 0 {
            assert(decimal(n) =~= seq!['0']);
        }
    }
}

} // verus!

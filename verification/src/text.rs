//! Character-level helpers on strings, specified over `Seq<char>`.

use vstd::prelude::*;

verus! {

/// The views of a sequence of owned strings.
pub open spec fn views(items: Seq<String>) -> Seq<Seq<char>> {
    Seq::new(items.len(), |i: int| items[i]@)
}

/// The views of a sequence of borrowed strings.
pub open spec fn str_views(items: Seq<&str>) -> Seq<Seq<char>> {
    Seq::new(items.len(), |i: int| items[i]@)
}

/// Whether `s` begins with the characters of `prefix`.
pub open spec fn starts_with(s: Seq<char>, prefix: Seq<char>) -> bool {
    prefix.len() <= s.len() && s.subrange(0, prefix.len() as int) == prefix
}

/// `s` with every leading repetition of `prefix` removed.
pub open spec fn trim_start(s: Seq<char>, prefix: Seq<char>) -> Seq<char>
    decreases s.len(),
{
    if prefix.len() > 0 && starts_with(s, prefix) {
        trim_start(s.skip(prefix.len() as int), prefix)
    } else {
        s
    }
}

/// `s` with every trailing occurrence of `c` removed.
pub open spec fn trim_end(s: Seq<char>, c: char) -> Seq<char>
    decreases s.len(),
{
    if s.len() > 0 && s.last() == c {
        trim_end(s.drop_last(), c)
    } else {
        s
    }
}

/// The position of the first `c` in `s`, or the length of `s` if there is none.
pub open spec fn first_index(s: Seq<char>, c: char) -> int
    decreases s.len(),
{
    if s.len() == 0 || s[0] == c {
        0
    } else {
        1 + first_index(s.skip(1), c)
    }
}

/// The two sides of the first `c` in `s`, if `s` holds one.
pub open spec fn split_once(s: Seq<char>, c: char) -> Option<(Seq<char>, Seq<char>)> {
    let i = first_index(s, c);
    if i < s.len() {
        Some((s.take(i), s.skip(i + 1)))
    } else {
        None
    }
}

/// `first_index` is the least position that holds `c`.
pub proof fn lemma_first_index(s: Seq<char>, c: char)
    ensures
        0 <= first_index(s, c) <= s.len(),
        first_index(s, c) < s.len() ==> s[first_index(s, c)] == c,
        forall|k: int| 0 <= k < first_index(s, c) ==> s[k] != c,
    decreases s.len(),
{
    if s.len() == 0 || s[0] == c {
    } else {
        let t = s.skip(1);
        lemma_first_index(t, c);
        assert forall|k: int| 0 <= k < first_index(s, c) implies s[k] != c by {
            if k > 0 {
                assert(t[k - 1] == s[k]);
            }
        }
    }
}

/// A position that holds `c` and has no `c` before it is `first_index`.
pub proof fn lemma_first_index_unique(s: Seq<char>, c: char, i: int)
    requires
        0 <= i <= s.len(),
        i < s.len() ==> s[i] == c,
        forall|k: int| 0 <= k < i ==> s[k] != c,
    ensures
        first_index(s, c) == i,
{
    lemma_first_index(s, c);
    let j = first_index(s, c);
    if j < i {
        assert(s[j] != c);
    }
}

/// The items of `parts` in order, with `sep` between neighbours.
pub open spec fn join(parts: Seq<Seq<char>>, sep: Seq<char>) -> Seq<char>
    decreases parts.len(),
{
    if parts.len() == 0 {
        Seq::empty()
    } else if parts.len() == 1 {
        parts[0]
    } else {
        join(parts.drop_last(), sep) + sep + parts.last()
    }
}

/// Joining one more item appends the separator, unless it is the first, and the item.
pub proof fn lemma_join_push(parts: Seq<Seq<char>>, sep: Seq<char>, item: Seq<char>)
    ensures
        join(parts.push(item), sep) == if parts.len() == 0 {
            item
        } else {
            join(parts, sep) + sep + item
        },
{
    let all = parts.push(item);
    assert(all.drop_last() =~= parts);
    assert(all.last() == item);
    if parts.len() == 0 {
        assert(all[0] == item);
    }
}


/// Compares two strings character by character.
pub fn str_eq(a: &str, b: &str) -> (r: bool)
    ensures
        r == (a@ == b@),
{
    let n: usize = a.unicode_len();
    if b.unicode_len() != n {
        return false;
    }
    let mut i: usize = 0;
    while i < n
        invariant
            i <= n,
            n == a@.len(),
            n == b@.len(),
            forall|k: int| 0 <= k < i ==> a@[k] == b@[k],
        decreases n - i,
    {
        if a.get_char(i) != b.get_char(i) {
            return false;
        }
        i += 1;
    }
    assert(a@ =~= b@);
    true
}

/// Tells whether `s` begins with `prefix`.
pub fn has_prefix(s: &str, prefix: &str) -> (r: bool)
    ensures
        r == starts_with(s@, prefix@),
{
    let n: usize = prefix.unicode_len();
    if s.unicode_len() < n {
        return false;
    }
    str_eq(s.substring_char(0, n), prefix)
}

/// Removes every leading repetition of `prefix` from `s`.
pub fn trim_start_matches<'a>(s: &'a str, prefix: &str) -> (r: &'a str)
    ensures
        r@ == trim_start(s@, prefix@),
{
    let n: usize = prefix.unicode_len();
    let len: usize = s.unicode_len();
    let mut rest: &'a str = s;
    let mut left: usize = len;
    if n == 0 {
        return s;
    }
    while has_prefix(rest, prefix)
        invariant
            n == prefix@.len(),
            n > 0,
            left == rest@.len(),
            trim_start(rest@, prefix@) == trim_start(s@, prefix@),
        decreases left,
    {
        rest = rest.substring_char(n, left);
        left = left - n;
    }
    rest
}

/// Removes every trailing `c` from `s`.
pub fn trim_end_matches<'a>(s: &'a str, c: char) -> (r: &'a str)
    ensures
        r@ == trim_end(s@, c),
{
    let mut end: usize = s.unicode_len();
    assert(s@.take(end as int) =~= s@);
    while end > 0 && s.get_char(end - 1) == c
        invariant
            end <= s@.len(),
            trim_end(s@.take(end as int), c) == trim_end(s@, c),
        decreases end,
    {
        assert(s@.take(end as int).drop_last() =~= s@.take(end as int - 1));
        end = end - 1;
    }
    s.substring_char(0, end)
}

/// Finds the first `c` in `s`.
pub fn find_char(s: &str, c: char) -> (r: usize)
    ensures
        r == first_index(s@, c),
{
    let n: usize = s.unicode_len();
    let mut i: usize = 0;
    while i < n && s.get_char(i) != c
        invariant
            i <= n,
            n == s@.len(),
            forall|k: int| 0 <= k < i ==> s@[k] != c,
        decreases n - i,
    {
        i += 1;
    }
    proof {
        lemma_first_index_unique(s@, c, i as int);
    }
    i
}

/// Splits `s` at its first `c`, which belongs to neither side.
pub fn split_at_char<'a>(s: &'a str, c: char) -> (r: Option<(&'a str, &'a str)>)
    ensures
        match r {
            Some((left, right)) => split_once(s@, c) == Some((left@, right@)),
            None => split_once(s@, c) is None,
        },
{
    let n: usize = s.unicode_len();
    let i: usize = find_char(s, c);
    proof {
        lemma_first_index(s@, c);
    }
    if i < n {
        Some((s.substring_char(0, i), s.substring_char(i + 1, n)))
    } else {
        None
    }
}

/// Joins the strings of `parts` with `sep` between neighbours.
pub fn join_strings(parts: &Vec<String>, sep: &str) -> (r: String)
    ensures
        r@ == join(views(parts@), sep@),
{
    let mut out = String::new();
    let mut i: usize = 0;
    let n: usize = parts.len();
    assert(views(parts@).take(0) =~= Seq::<Seq<char>>::empty());
    while i < n
        invariant
            i <= n,
            n == parts@.len(),
            out@ == join(views(parts@).take(i as int), sep@),
        decreases n - i,
    {
        proof {
            lemma_join_push(views(parts@).take(i as int), sep@, parts@[i as int]@);
            assert(views(parts@).take(i as int).push(parts@[i as int]@) =~= views(parts@).take(
                i as int + 1,
            ));
        }
        if i > 0 {
            out.append(sep);
        }
        out.append(parts[i].as_str());
        i += 1;
    }
    assert(views(parts@).take(n as int) =~= views(parts@));
    out
}

/// Copies the strings of `first`, then those of `second`, into one list.
pub fn concat_strings(first: &Vec<String>, second: &Vec<String>) -> (r: Vec<String>)
    ensures
        views(r@) == views(first@) + views(second@),
{
    let mut out: Vec<String> = Vec::new();
    let mut i: usize = 0;
    while i < first.len()
        invariant
            i <= first@.len(),
            out@.len() == i,
            forall|k: int| 0 <= k < i ==> (#[trigger] out@[k])@ == first@[k]@,
        decreases first@.len() - i,
    {
        out.push(String::from_str(first[i].as_str()));
        i += 1;
    }
    let mut j: usize = 0;
    while j < second.len()
        invariant
            j <= second@.len(),
            out@.len() == first@.len() + j,
            forall|k: int| 0 <= k < first@.len() ==> (#[trigger] out@[k])@ == first@[k]@,
            forall|k: int| 0 <= k < j ==> (#[trigger] out@[first@.len() + k])@ == second@[k]@,
        decreases second@.len() - j,
    {
        out.push(String::from_str(second[j].as_str()));
        j += 1;
    }
    assert(views(out@) =~= views(first@) + views(second@)) by {
        assert forall|k: int| 0 <= k < out@.len() implies views(out@)[k] == (views(first@) + views(
            second@,
        ))[k] by {
            if k >= first@.len() {
                assert(out@[first@.len() + (k - first@.len())]@ == second@[k - first@.len()]@);
            }
        }
    }
    out
}

/// The decimal digit for `d`, which is below ten.
pub open spec fn digit(d: nat) -> char {
    if d == 0 {
        '0'
    } else if d == 1 {
        '1'
    } else if d == 2 {
        '2'
    } else if d == 3 {
        '3'
    } else if d == 4 {
        '4'
    } else if d == 5 {
        '5'
    } else if d == 6 {
        '6'
    } else if d == 7 {
        '7'
    } else if d == 8 {
        '8'
    } else {
        '9'
    }
}

/// Whether `c` is a decimal digit.
pub open spec fn is_digit(c: char) -> bool {
    '0' <= c <= '9'
}

/// The value of a decimal digit.
pub open spec fn digit_value(c: char) -> nat {
    (c as int - '0' as int) as nat
}

/// `n` in decimal, without sign or leading zeros.
pub open spec fn decimal(n: nat) -> Seq<char>
    decreases n,
{
    if n < 10 {
        seq![digit(n)]
    } else {
        decimal(n / 10).push(digit(n % 10))
    }
}

/// The number that a sequence of decimal digits stands for.
pub open spec fn number(digits: Seq<char>) -> nat
    decreases digits.len(),
{
    if digits.len() == 0 {
        0
    } else {
        number(digits.drop_last()) * 10 + digit_value(digits.last())
    }
}

/// Whether every character of `s` is a decimal digit.
pub open spec fn all_digits(s: Seq<char>) -> bool {
    forall|i: int| 0 <= i < s.len() ==> is_digit(#[trigger] s[i])
}

/// The number that `s` denotes as an unsigned 32-bit integer: an optional
/// `+`, then one or more decimal digits whose value fits.
pub open spec fn parse_u32_spec(s: Seq<char>) -> Option<u32> {
    let digits = if s.len() > 0 && s[0] == '+' {
        s.skip(1)
    } else {
        s
    };
    if digits.len() > 0 && all_digits(digits) && number(digits) <= u32::MAX {
        Some(number(digits) as u32)
    } else {
        None
    }
}

/// A decimal is made of digits and reads back as the number it was made from.
pub proof fn lemma_decimal(n: nat)
    ensures
        decimal(n).len() > 0,
        all_digits(decimal(n)),
        number(decimal(n)) == n,
    decreases n,
{
    if n < 10 {
        assert(decimal(n).drop_last() =~= Seq::<char>::empty());
        assert(number(decimal(n).drop_last()) == 0);
        assert(digit_value(digit(n)) == n);
    } else {
        lemma_decimal(n / 10);
        let d = decimal(n);
        assert(d.drop_last() =~= decimal(n / 10));
        assert(d.last() == digit(n % 10));
        assert(digit_value(digit(n % 10)) == n % 10);
        assert forall|i: int| 0 <= i < d.len() implies is_digit(#[trigger] d[i]) by {
            if i < d.len() - 1 {
                assert(d[i] == decimal(n / 10)[i]);
            }
        }
    }
}

/// Parsing the decimal of a number gives the number back.
pub proof fn lemma_parse_decimal(n: u32)
    ensures
        parse_u32_spec(decimal(n as nat)) == Some(n),
{
    lemma_decimal(n as nat);
}

/// The number of a prefix of digits is at most the number of the whole.
pub proof fn lemma_number_prefix(digits: Seq<char>, len: int)
    requires
        0 <= len <= digits.len(),
    ensures
        number(digits.take(len)) <= number(digits),
    decreases digits.len() - len,
{
    if len < digits.len() {
        lemma_number_prefix(digits, len + 1);
        assert(digits.take(len + 1).drop_last() =~= digits.take(len));
    } else {
        assert(digits.take(len) =~= digits);
    }
}

/// The digit for `d` as a string.
fn digit_str(d: u32) -> (r: &'static str)
    requires
        d < 10,
    ensures
        r@ == seq![digit(d as nat)],
{
    proof {
        reveal_strlit("0");
        reveal_strlit("1");
        reveal_strlit("2");
        reveal_strlit("3");
        reveal_strlit("4");
        reveal_strlit("5");
        reveal_strlit("6");
        reveal_strlit("7");
        reveal_strlit("8");
        reveal_strlit("9");
    }
    let r = if d == 0 {
        "0"
    } else if d == 1 {
        "1"
    } else if d == 2 {
        "2"
    } else if d == 3 {
        "3"
    } else if d == 4 {
        "4"
    } else if d == 5 {
        "5"
    } else if d == 6 {
        "6"
    } else if d == 7 {
        "7"
    } else if d == 8 {
        "8"
    } else {
        "9"
    };
    assert(r@ =~= seq![digit(d as nat)]);
    r
}

/// Writes `n` in decimal.
pub fn decimal_string(n: u32) -> (r: String)
    ensures
        r@ == decimal(n as nat),
    decreases n,
{
    if n < 10 {
        String::from_str(digit_str(n))
    } else {
        let mut out = decimal_string(n / 10);
        out.append(digit_str(n % 10));
        assert(out@ =~= decimal(n as nat));
        out
    }
}

/// Reads an unsigned 32-bit integer: an optional `+`, then decimal digits.
pub fn parse_u32(s: &str) -> (r: Option<u32>)
    ensures
        r == parse_u32_spec(s@),
{
    let len: usize = s.unicode_len();
    let start: usize = if len > 0 && s.get_char(0) == '+' {
        1
    } else {
        0
    };
    if start == len {
        return None;
    }
    let ghost digits = s@.skip(start as int);
    assert(s@.skip(0) =~= s@);
    let mut value: u32 = 0;
    let mut i: usize = start;
    assert(digits.take(0) =~= Seq::<char>::empty());
    while i < len
        invariant
            start <= i <= len,
            len == s@.len(),
            digits == s@.skip(start as int),
            digits == if s@.len() > 0 && s@[0] == '+' {
                s@.skip(1)
            } else {
                s@
            },
            all_digits(digits.take(i - start)),
            value == number(digits.take(i - start)),
        decreases len - i,
    {
        let c: char = s.get_char(i);
        let ghost upto = digits.take(i - start + 1);
        assert(upto.drop_last() =~= digits.take(i - start));
        assert(upto.last() == c);
        if c < '0' || c > '9' {
            assert(!is_digit(digits[i - start]));
            return None;
        }
        let d: u32 = c as u32 - '0' as u32;
        assert(d == digit_value(c));
        if value > (u32::MAX - d) / 10 {
            proof {
                lemma_number_prefix(digits, i - start + 1);
            }
            return None;
        }
        value = value * 10 + d;
        assert forall|k: int| 0 <= k < upto.len() implies is_digit(#[trigger] upto[k]) by {
            if k < upto.len() - 1 {
                assert(upto[k] == digits.take(i - start)[k]);
            }
        }
        i += 1;
    }
    assert(digits.take(len - start) =~= digits);
    Some(value)
}

/// The maximal runs of characters other than spaces in `s`, in order.
pub open spec fn words(s: Seq<char>) -> Seq<Seq<char>>
    decreases s.len(),
{
    if s.len() == 0 {
        Seq::empty()
    } else {
        let i = first_index(s, ' ');
        let rest = if 0 <= i < s.len() {
            words(s.skip(i + 1))
        } else {
            Seq::empty()
        };
        if i == 0 {
            rest
        } else {
            seq![s.take(i)] + rest
        }
    }
}

/// Splits `line` at spaces and drops the empty pieces.
pub fn split_words<'a>(line: &'a str) -> (r: Vec<&'a str>)
    ensures
        str_views(r@) == words(line@),
{
    let mut out: Vec<&'a str> = Vec::new();
    let mut rest: &'a str = line;
    let mut left: usize = line.unicode_len();
    assert(str_views(out@) =~= Seq::<Seq<char>>::empty());
    while left > 0
        invariant
            left == rest@.len(),
            str_views(out@) + words(rest@) == words(line@),
        decreases left,
    {
        let i: usize = find_char(rest, ' ');
        let ghost before = str_views(out@);
        let ghost tail = if i < left {
            words(rest@.skip(i + 1))
        } else {
            Seq::<Seq<char>>::empty()
        };
        proof {
            lemma_first_index(rest@, ' ');
        }
        if i > 0 {
            out.push(rest.substring_char(0, i));
            assert(str_views(out@) =~= before + seq![rest@.take(i as int)]);
            assert(before + (seq![rest@.take(i as int)] + tail) =~= (before + seq![
                rest@.take(i as int),
            ]) + tail);
        }
        if i < left {
            rest = rest.substring_char(i + 1, left);
            left = left - i - 1;
        } else {
            rest = rest.substring_char(left, left);
            left = 0;
            assert(words(rest@) =~= Seq::<Seq<char>>::empty());
        }
    }
    assert(str_views(out@) + Seq::<Seq<char>>::empty() =~= str_views(out@));
    out
}

/// Whether `c` does not occur in `s`.
pub open spec fn free_of(s: Seq<char>, c: char) -> bool {
    forall|i: int| 0 <= i < s.len() ==> #[trigger] s[i] != c
}

/// A sequence splits in one way only at a `c` that has no `c` after it.
pub proof fn lemma_split_at_last(
    left: Seq<char>,
    right: Seq<char>,
    other_left: Seq<char>,
    other_right: Seq<char>,
    c: char,
)
    requires
        left + seq![c] + right == other_left + seq![c] + other_right,
        free_of(right, c),
        free_of(other_right, c),
    ensures
        left == other_left,
        right == other_right,
{
    let whole = left + seq![c] + right;
    let other = other_left + seq![c] + other_right;
    assert(whole.len() == left.len() + 1 + right.len());
    assert(other.len() == other_left.len() + 1 + other_right.len());
    if right.len() < other_right.len() {
        let p = left.len() as int;
        assert(whole[p] == c);
        assert(other[p] == other_right[p - other_left.len() - 1]);
    }
    if other_right.len() < right.len() {
        let p = other_left.len() as int;
        assert(other[p] == c);
        assert(whole[p] == right[p - left.len() - 1]);
    }
    assert(left =~= other_left) by {
        assert forall|i: int| 0 <= i < left.len() implies left[i] == other_left[i] by {
            assert(whole[i] == left[i]);
            assert(other[i] == other_left[i]);
        }
    }
    assert(right =~= other_right) by {
        assert forall|i: int| 0 <= i < right.len() implies right[i] == other_right[i] by {
            assert(whole[left.len() + 1 + i] == right[i]);
            assert(other[left.len() + 1 + i] == other_right[i]);
        }
    }
}

/// A sequence splits in one way only at a `c` that has no `c` before it.
pub proof fn lemma_split_at_first(
    left: Seq<char>,
    right: Seq<char>,
    other_left: Seq<char>,
    other_right: Seq<char>,
    c: char,
)
    requires
        left + seq![c] + right == other_left + seq![c] + other_right,
        free_of(left, c),
        free_of(other_left, c),
    ensures
        left == other_left,
        right == other_right,
{
    let whole = left + seq![c] + right;
    let other = other_left + seq![c] + other_right;
    assert(whole.len() == left.len() + 1 + right.len());
    assert(other.len() == other_left.len() + 1 + other_right.len());
    if left.len() < other_left.len() {
        let p = left.len() as int;
        assert(whole[p] == c);
        assert(other[p] == other_left[p]);
    }
    if other_left.len() < left.len() {
        let p = other_left.len() as int;
        assert(other[p] == c);
        assert(whole[p] == left[p]);
    }
    assert(left =~= other_left) by {
        assert forall|i: int| 0 <= i < left.len() implies left[i] == other_left[i] by {
            assert(whole[i] == left[i]);
            assert(other[i] == other_left[i]);
        }
    }
    assert(right =~= other_right) by {
        assert forall|i: int| 0 <= i < right.len() implies right[i] == other_right[i] by {
            assert(whole[left.len() + 1 + i] == right[i]);
            assert(other[left.len() + 1 + i] == other_right[i]);
        }
    }
}

/// Joining items that are not empty gives nothing empty, and joining
/// two or more puts a separator in.
pub proof fn lemma_join_shape(parts: Seq<Seq<char>>, sep: char)
    requires
        forall|i: int| 0 <= i < parts.len() ==> (#[trigger] parts[i]).len() > 0,
    ensures
        parts.len() > 0 ==> join(parts, seq![sep]).len() > 0,
        parts.len() > 1 ==> !free_of(join(parts, seq![sep]), sep),
    decreases parts.len(),
{
    if parts.len() > 1 {
        let init = parts.drop_last();
        lemma_join_shape(init, sep);
        let whole = join(parts, seq![sep]);
        assert(whole[join(init, seq![sep]).len() as int] == sep);
    }
}

/// Items that hold no separator and are not empty can be read back from
/// their joining: two such lists with the same joining are the same.
pub proof fn lemma_join_injective(first: Seq<Seq<char>>, second: Seq<Seq<char>>, sep: char)
    requires
        forall|i: int| 0 <= i < first.len() ==> (#[trigger] first[i]).len() > 0 && free_of(first[i], sep),
        forall|i: int|
            0 <= i < second.len() ==> (#[trigger] second[i]).len() > 0 && free_of(second[i], sep),
        join(first, seq![sep]) == join(second, seq![sep]),
    ensures
        first == second,
    decreases first.len(),
{
    lemma_join_shape(first, sep);
    lemma_join_shape(second, sep);
    if first.len() == 0 || second.len() == 0 {
        assert(first =~= second);
    } else if first.len() == 1 || second.len() == 1 {
        assert(free_of(first[0], sep));
        assert(free_of(second[0], sep));
        assert(first =~= second);
    } else {
        lemma_split_at_last(
            join(first.drop_last(), seq![sep]),
            first.last(),
            join(second.drop_last(), seq![sep]),
            second.last(),
            sep,
        );
        lemma_join_injective(first.drop_last(), second.drop_last(), sep);
        assert(first =~= first.drop_last().push(first.last()));
        assert(second =~= second.drop_last().push(second.last()));
    }
}

/// Numbers with the same decimal are the same.
pub proof fn lemma_decimal_injective(m: nat, n: nat)
    requires
        decimal(m) == decimal(n),
    ensures
        m == n,
{
    lemma_decimal(m);
    lemma_decimal(n);
}

/// Puts `subject` between `opening` and a closing backtick.
pub fn quoted(opening: &str, subject: &str) -> (r: String)
    ensures
        r@ == opening@ + subject@ + "`"@,
{
    let mut out = String::from_str(opening);
    out.append(subject);
    out.append("`");
    out
}

} // verus!

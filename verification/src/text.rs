//! Character-sequence utilities underneath the persistence codec: splitting
//! and joining fields on a delimiter character, decimal rendering and parsing
//! of numbers, and the boolean tokens.
use vstd::prelude::*;

verus! {

/// True when `s` does not contain the character `sep`.
pub open spec fn sep_free(s: Seq<char>, sep: char) -> bool {
    !s.contains(sep)
}

/// The views of a sequence of strings.
pub open spec fn views_of(v: Seq<String>) -> Seq<Seq<char>> {
    Seq::new(v.len(), |i: int| v[i]@)
}

/// The fields of `s` delimited by `sep`, in order. Splitting never yields an
/// empty field list: the empty string has the single field `""`.
pub open spec fn split_seq(s: Seq<char>, sep: char) -> Seq<Seq<char>>
    decreases s.len(),
{
    if s.len() == 0 {
        seq![s]
    } else {
        let rest = split_seq(s.drop_last(), sep);
        if s.last() == sep {
            rest.push(Seq::empty())
        } else {
            rest.update(rest.len() - 1, rest.last().push(s.last()))
        }
    }
}

/// The fields of `parts` joined with the single character `sep` between
/// consecutive fields; no leading or trailing separator.
pub open spec fn join_seq(parts: Seq<Seq<char>>, sep: char) -> Seq<char>
    decreases parts.len(),
{
    if parts.len() == 0 {
        Seq::empty()
    } else if parts.len() == 1 {
        parts[0]
    } else {
        join_seq(parts.drop_last(), sep) + seq![sep] + parts.last()
    }
}

/// Splitting always yields at least one field.
pub proof fn lemma_split_len(s: Seq<char>, sep: char)
    ensures
        split_seq(s, sep).len() >= 1,
    decreases s.len(),
{
    if s.len() > 0 {
        lemma_split_len(s.drop_last(), sep);
    }
}

/// A string free of the separator is a single field.
pub proof fn lemma_split_sep_free(s: Seq<char>, sep: char)
    requires
        sep_free(s, sep),
    ensures
        split_seq(s, sep) == seq![s],
    decreases s.len(),
{
    if s.len() == 0 {
    } else {
        assert(s[s.len() - 1] == s.last());
        assert(s.last() != sep);
        assert(sep_free(s.drop_last(), sep)) by {
            if s.drop_last().contains(sep) {
                let i = choose|i: int| 0 <= i < s.drop_last().len() && s.drop_last()[i] == sep;
                assert(s[i] == sep);
            }
        }
        lemma_split_sep_free(s.drop_last(), sep);
        let rest = split_seq(s.drop_last(), sep);
        assert(rest.last().push(s.last()) =~= s) by {
            assert(rest.last() == s.drop_last());
        }
        assert(split_seq(s, sep) =~~= seq![s]);
    }
}

/// Appending a separator appends one empty field.
pub proof fn lemma_split_append_sep(x: Seq<char>, sep: char)
    ensures
        split_seq(x + seq![sep], sep) == split_seq(x, sep).push(Seq::<char>::empty()),
{
    let s = x + seq![sep];
    assert(s.len() == x.len() + 1);
    assert(s.last() == sep);
    assert(s.drop_last() =~= x);
    assert(split_seq(s, sep) =~~= split_seq(x, sep).push(Seq::<char>::empty()));
}

/// Appending separator-free text extends the last field.
pub proof fn lemma_split_append_free(x: Seq<char>, b: Seq<char>, sep: char)
    requires
        sep_free(b, sep),
    ensures
        split_seq(x + b, sep) == split_seq(x, sep).update(
            split_seq(x, sep).len() - 1,
            split_seq(x, sep).last() + b,
        ),
    decreases b.len(),
{
    lemma_split_len(x, sep);
    let r = split_seq(x, sep);
    if b.len() == 0 {
        assert(x + b =~= x);
        assert(r.last() + b =~= r.last());
        assert(r.update(r.len() - 1, r.last() + b) =~~= r);
    } else {
        let c = b.last();
        let b0 = b.drop_last();
        assert(b[b.len() - 1] == c);
        assert(c != sep);
        assert(sep_free(b0, sep)) by {
            if b0.contains(sep) {
                let i = choose|i: int| 0 <= i < b0.len() && b0[i] == sep;
                assert(b[i] == sep);
            }
        }
        lemma_split_append_free(x, b0, sep);
        let s = x + b;
        assert(s.len() > 0);
        assert(s.last() == c);
        assert(s.drop_last() =~= x + b0);
        let mid = split_seq(x + b0, sep);
        assert(mid == r.update(r.len() - 1, r.last() + b0));
        assert(mid.len() == r.len());
        assert(mid.last() == r.last() + b0);
        assert(split_seq(s, sep) == mid.update(mid.len() - 1, mid.last().push(c)));
        assert(mid.last().push(c) =~= r.last() + b);
        assert(mid.update(mid.len() - 1, mid.last().push(c)) =~~= r.update(
            r.len() - 1,
            r.last() + b,
        ));
    }
}

/// Splitting inverts joining, provided every field is free of the separator.
pub proof fn lemma_split_join(parts: Seq<Seq<char>>, sep: char)
    requires
        parts.len() >= 1,
        forall|i: int| 0 <= i < parts.len() ==> sep_free(#[trigger] parts[i], sep),
    ensures
        split_seq(join_seq(parts, sep), sep) == parts,
    decreases parts.len(),
{
    if parts.len() == 1 {
        lemma_split_sep_free(parts[0], sep);
        assert(join_seq(parts, sep) == parts[0]);
        assert(split_seq(parts[0], sep) =~~= parts);
    } else {
        let front = parts.drop_last();
        let x = join_seq(front, sep);
        let b = parts.last();
        assert(forall|i: int| 0 <= i < front.len() ==> sep_free(#[trigger] front[i], sep)) by {
            assert(forall|i: int|
                0 <= i < front.len() ==> #[trigger] front[i] == parts[i] && sep_free(
                    parts[i],
                    sep,
                ));
        }
        lemma_split_join(front, sep);
        assert(join_seq(parts, sep) == x + seq![sep] + b);
        assert(x + seq![sep] + b =~= (x + seq![sep]) + b);
        assert(sep_free(b, sep));
        lemma_split_append_free(x + seq![sep], b, sep);
        lemma_split_append_sep(x, sep);
        let r2 = split_seq(x + seq![sep], sep);
        assert(r2 == front.push(Seq::<char>::empty()));
        assert(r2.len() == front.len() + 1);
        assert(r2.last() =~= Seq::<char>::empty());
        assert(r2.last() + b =~= b);
        assert(split_seq((x + seq![sep]) + b, sep) == r2.update(r2.len() - 1, r2.last() + b));
        assert(r2.update(r2.len() - 1, r2.last() + b) =~~= parts);
    }
}

/// Joining fields free of some character, with a different separator,
/// yields text free of that character.
pub proof fn lemma_join_free(parts: Seq<Seq<char>>, sep: char, other: char)
    requires
        sep != other,
        forall|i: int| 0 <= i < parts.len() ==> sep_free(#[trigger] parts[i], other),
    ensures
        sep_free(join_seq(parts, sep), other),
    decreases parts.len(),
{
    if parts.len() == 0 {
        if join_seq(parts, sep).contains(other) {
            let k = choose|k: int|
                0 <= k < join_seq(parts, sep).len() && join_seq(parts, sep)[k] == other;
        }
    } else if parts.len() == 1 {
        assert(parts[0] == join_seq(parts, sep));
    } else {
        let front = parts.drop_last();
        assert(forall|i: int|
            0 <= i < front.len() ==> sep_free(#[trigger] front[i], other)) by {
            assert(forall|i: int|
                0 <= i < front.len() ==> #[trigger] front[i] == parts[i] && sep_free(
                    parts[i],
                    other,
                ));
        }
        lemma_join_free(front, sep, other);
        let x = join_seq(front, sep);
        let j = join_seq(parts, sep);
        assert(j == x + seq![sep] + parts.last());
        if j.contains(other) {
            let k = choose|k: int| 0 <= k < j.len() && j[k] == other;
            if k < x.len() {
                assert(x[k] == other);
                assert(x.contains(other));
            } else if k == x.len() {
                assert(j[k] == sep);
            } else {
                assert(parts.last()[k - x.len() - 1] == other);
                assert(parts.last().contains(other));
                assert(parts[parts.len() - 1] == parts.last());
            }
        }
    }
}

/// Joining at least two fields yields at least one separator per boundary.
pub proof fn lemma_join_len(parts: Seq<Seq<char>>, sep: char)
    ensures
        parts.len() >= 2 ==> join_seq(parts, sep).len() >= parts.len() - 1,
    decreases parts.len(),
{
    if parts.len() >= 2 {
        lemma_join_len(parts.drop_last(), sep);
    }
}

/// True when no two of the strings are equal.
pub open spec fn unique_names(s: Seq<Seq<char>>) -> bool {
    forall|i: int, j: int| 0 <= i < j < s.len() ==> s[i] != s[j]
}

/// True when one of the strings holds the same characters as `name`.
pub fn contains_name(names: &Vec<String>, name: &String) -> (r: bool)
    ensures
        r == views_of(names@).contains(name@),
{
    let mut i: usize = 0;
    while i < names.len()
        invariant
            i <= names.len(),
            forall|k: int| 0 <= k < i ==> views_of(names@)[k] != name@,
        decreases names.len() - i,
    {
        if names[i] == *name {
            proof {
                assert(views_of(names@)[i as int] == name@);
            }
            return true;
        }
        i = i + 1;
    }
    proof {
        if views_of(names@).contains(name@) {
            let k = choose|k: int|
                0 <= k < views_of(names@).len() && views_of(names@)[k] == name@;
            assert(views_of(names@)[k] != name@);
        }
    }
    false
}

/// True when `s` contains the character `c`.
pub fn contains_char(s: &str, c: char) -> (r: bool)
    ensures
        r == s@.contains(c),
{
    let len: usize = s.unicode_len();
    let mut i: usize = 0;
    while i < len
        invariant
            i <= len,
            len == s@.len(),
            forall|k: int| 0 <= k < i ==> s@[k] != c,
        decreases len - i,
    {
        if s.get_char(i) == c {
            proof {
                assert(s@.contains(c)) by {
                    assert(s@[i as int] == c);
                }
            }
            return true;
        }
        i = i + 1;
    }
    proof {
        if s@.contains(c) {
            let k = choose|k: int| 0 <= k < s@.len() && s@[k] == c;
            assert(s@[k] != c);
        }
    }
    false
}

/// True when no two of the strings hold the same characters.
pub fn names_unique(names: &Vec<String>) -> (r: bool)
    ensures
        r == unique_names(views_of(names@)),
{
    let ghost v = views_of(names@);
    let mut i: usize = 0;
    while i < names.len()
        invariant
            i <= names.len(),
            v == views_of(names@),
            forall|a: int, b: int| 0 <= a < b < v.len() && a < i ==> v[a] != v[b],
        decreases names.len() - i,
    {
        let mut j: usize = i + 1;
        while j < names.len()
            invariant
                i < j <= names.len(),
                v == views_of(names@),
                forall|b: int| i < b < j ==> v[i as int] != v[b],
            decreases names.len() - j,
        {
            if names[i] == names[j] {
                proof {
                    assert(v[i as int] == v[j as int]);
                }
                return false;
            }
            j = j + 1;
        }
        i = i + 1;
    }
    true
}

/// Splits `s` at every occurrence of `sep`, returning the fields in order.
pub fn split_on(s: &str, sep: char) -> (r: Vec<String>)
    ensures
        views_of(r@) == split_seq(s@, sep),
        r@.len() >= 1,
{
    let len: usize = s.unicode_len();
    let mut fields: Vec<String> = Vec::new();
    let mut start: usize = 0;
    let mut i: usize = 0;
    proof {
        assert(s@.take(0) =~= Seq::<char>::empty());
        assert(s@.subrange(0, 0) =~= Seq::<char>::empty());
        assert(split_seq(s@.take(0), sep) =~~= views_of(fields@).push(s@.subrange(0, 0)));
    }
    while i < len
        invariant
            start <= i <= len,
            len == s@.len(),
            split_seq(s@.take(i as int), sep) == views_of(fields@).push(
                s@.subrange(start as int, i as int),
            ),
        decreases len - i,
    {
        let c = s.get_char(i);
        proof {
            assert(s@.take(i + 1).drop_last() =~= s@.take(i as int));
            assert(s@.take(i + 1).last() == s@[i as int]);
        }
        if c == sep {
            let field = s.substring_char(start, i).to_owned();
            fields.push(field);
            proof {
                lemma_split_len(s@.take(i as int), sep);
                assert(s@.subrange(i + 1, i + 1) =~= Seq::<char>::empty());
                assert(split_seq(s@.take(i + 1), sep) =~~= views_of(fields@).push(
                    s@.subrange(i + 1, i + 1),
                ));
            }
            start = i + 1;
        } else {
            proof {
                lemma_split_len(s@.take(i as int), sep);
                let prev = views_of(fields@).push(s@.subrange(start as int, i as int));
                assert(prev.last() == s@.subrange(start as int, i as int));
                assert(prev.last().push(s@[i as int]) =~= s@.subrange(start as int, i + 1));
                assert(prev.update(prev.len() - 1, prev.last().push(s@[i as int])) =~~= views_of(
                    fields@,
                ).push(s@.subrange(start as int, i + 1)));
            }
        }
        i = i + 1;
    }
    let field = s.substring_char(start, len).to_owned();
    fields.push(field);
    proof {
        assert(s@.take(len as int) =~= s@);
        assert(views_of(fields@.drop_last()).push(s@.subrange(start as int, len as int))
            =~~= views_of(fields@));
        assert(fields@.drop_last().push(fields@.last()) =~= fields@);
    }
    fields
}

/// Joins the fields with the one-character separator `sep`.
pub fn join_with(parts: &Vec<String>, sep: &str) -> (r: String)
    requires
        sep@.len() == 1,
    ensures
        r@ == join_seq(views_of(parts@), sep@[0]),
{
    let ghost c: char = sep@[0];
    let ghost pv: Seq<Seq<char>> = views_of(parts@);
    let mut out = String::new();
    let mut i: usize = 0;
    proof {
        assert(join_seq(pv.take(0), c) =~= Seq::<char>::empty());
    }
    while i < parts.len()
        invariant
            i <= parts.len(),
            sep@.len() == 1,
            c == sep@[0],
            pv == views_of(parts@),
            out@ == join_seq(pv.take(i as int), c),
        decreases parts.len() - i,
    {
        if i > 0 {
            out.append(sep);
            proof {
                assert(sep@ =~= seq![c]);
            }
        }
        out.append(parts[i].as_str());
        proof {
            assert(pv.take(i + 1).drop_last() =~= pv.take(i as int));
            assert(pv.take(i + 1).last() == pv[i as int]);
            assert(pv[i as int] == parts@[i as int]@);
            if i == 0 {
                assert(pv.take(1)[0] == pv[0]);
                assert(out@ == join_seq(pv.take(1), c));
            }
        }
        i = i + 1;
    }
    proof {
        assert(pv.take(parts.len() as int) =~= pv);
    }
    out
}

/// Splits a line of delimiter-separated data into its fields.
pub fn read_csv_line(line: String) -> (r: Vec<String>)
    ensures
        views_of(r@) == split_seq(line@, '|'),
        r@.len() >= 1,
{
    split_on(line.as_str(), '|')
}

// ---- decimal numbers -----------------------------------------------------

/// True for the ten decimal digit characters.
pub open spec fn is_digit(c: char) -> bool {
    c == '0' || c == '1' || c == '2' || c == '3' || c == '4' || c == '5' || c == '6' || c == '7'
        || c == '8' || c == '9'
}

/// The numeric value of a digit character.
pub open spec fn digit_val(c: char) -> nat {
    if c == '0' {
        0
    } else if c == '1' {
        1
    } else if c == '2' {
        2
    } else if c == '3' {
        3
    } else if c == '4' {
        4
    } else if c == '5' {
        5
    } else if c == '6' {
        6
    } else if c == '7' {
        7
    } else if c == '8' {
        8
    } else {
        9
    }
}

/// The digit character of a value below ten.
pub open spec fn digit_char(d: nat) -> char {
    if d == 0 {
        '0'
    } else if d == 1 {
        '1'
    } else if d == 2 {
        '2'
    } else if d == 3 {
        '3'
    } else if d == 4 {
        '4'
    } else if d == 5 {
        '5'
    } else if d == 6 {
        '6'
    } else if d == 7 {
        '7'
    } else if d == 8 {
        '8'
    } else {
        '9'
    }
}

/// True when every character of `s` is a decimal digit.
pub open spec fn all_digits(s: Seq<char>) -> bool {
    forall|i: int| 0 <= i < s.len() ==> is_digit(#[trigger] s[i])
}

/// The decimal rendering of `n`, most significant digit first, no leading
/// zeros (except for the single digit of zero itself).
pub open spec fn dec_rep(n: nat) -> Seq<char>
    decreases n,
{
    if n < 10 {
        seq![digit_char(n)]
    } else {
        dec_rep(n / 10).push(digit_char(n % 10))
    }
}

/// The numeric value of a digit string.
pub open spec fn dec_val(s: Seq<char>) -> nat
    decreases s.len(),
{
    if s.len() == 0 {
        0
    } else {
        dec_val(s.drop_last()) * 10 + digit_val(s.last())
    }
}

/// Parsing a decimal rendering recovers the number; the rendering is one or
/// more digit characters.
pub proof fn lemma_dec_rep_val(n: nat)
    ensures
        dec_val(dec_rep(n)) == n,
        all_digits(dec_rep(n)),
        dec_rep(n).len() >= 1,
    decreases n,
{
    if n < 10 {
        let s = dec_rep(n);
        assert(s.len() == 1);
        assert(s.last() == digit_char(n));
        assert(s.drop_last() =~= Seq::<char>::empty());
        assert(dec_val(s.drop_last()) == 0);
        assert(dec_val(s) == 0 * 10 + digit_val(digit_char(n)));
    } else {
        lemma_dec_rep_val(n / 10);
        let s = dec_rep(n);
        let front = dec_rep(n / 10);
        assert(s.drop_last() =~= front);
        assert(s.last() == digit_char(n % 10));
        assert(digit_val(digit_char(n % 10)) == n % 10);
        assert(dec_val(s) == dec_val(front) * 10 + n % 10);
        assert(n / 10 * 10 + n % 10 == n) by {
            vstd::arithmetic::div_mod::lemma_fundamental_div_mod(n as int, 10);
        }
    }
}

/// The value of a prefix never exceeds the value of the whole digit string.
pub proof fn lemma_dec_val_prefix(s: Seq<char>, j: int)
    requires
        0 <= j <= s.len(),
    ensures
        dec_val(s.take(j)) <= dec_val(s),
    decreases s.len() - j,
{
    if j == s.len() {
        assert(s.take(j) =~= s);
    } else {
        assert(s.take(j + 1).drop_last() =~= s.take(j));
        assert(s.take(j + 1).last() == s[j]);
        assert(dec_val(s.take(j)) * 10 >= dec_val(s.take(j))) by (nonlinear_arith);
        assert(dec_val(s.take(j)) <= dec_val(s.take(j + 1)));
        lemma_dec_val_prefix(s, j + 1);
    }
}

/// The one-character string of a digit below ten.
fn digit_str(d: usize) -> (r: &'static str)
    requires
        d < 10,
    ensures
        r@ == seq![digit_char(d as nat)],
{
    proof {
        reveal_strlit("0");
        reveal_strlit("1");
        reveal_strlit("2");
        reveal_strlit("3");
        reveal_strlit("4");
        reveal_strlit("5");
        reveal_strlit("6");
        reveal_strlit("7");
        reveal_strlit("8");
        reveal_strlit("9");
    }
    let r: &'static str = if d == 0 {
        "0"
    } else if d == 1 {
        "1"
    } else if d == 2 {
        "2"
    } else if d == 3 {
        "3"
    } else if d == 4 {
        "4"
    } else if d == 5 {
        "5"
    } else if d == 6 {
        "6"
    } else if d == 7 {
        "7"
    } else if d == 8 {
        "8"
    } else {
        "9"
    };
    proof {
        assert(r@ =~= seq![digit_char(d as nat)]);
    }
    r
}

/// Renders `n` in decimal.
pub fn usize_to_string(n: usize) -> (r: String)
    ensures
        r@ == dec_rep(n as nat),
    decreases n,
{
    if n < 10 {
        let s: String = digit_str(n).to_owned();
        s
    } else {
        let mut s = usize_to_string(n / 10);
        s.append(digit_str(n % 10));
        proof {
            assert(s@ =~= dec_rep(n as nat));
        }
        s
    }
}

/// The numeric value of a digit character, or none.
fn char_digit(c: char) -> (r: Option<usize>)
    ensures
        is_digit(c) ==> r == Some(digit_val(c) as usize),
        !is_digit(c) ==> r is None,
{
    if c == '0' {
        Some(0)
    } else if c == '1' {
        Some(1)
    } else if c == '2' {
        Some(2)
    } else if c == '3' {
        Some(3)
    } else if c == '4' {
        Some(4)
    } else if c == '5' {
        Some(5)
    } else if c == '6' {
        Some(6)
    } else if c == '7' {
        Some(7)
    } else if c == '8' {
        Some(8)
    } else if c == '9' {
        Some(9)
    } else {
        None
    }
}

/// Parses a non-empty string of decimal digits, rejecting the empty string,
/// any non-digit character, and any value that does not fit in `usize`.
pub fn parse_usize(s: &str) -> (r: Option<usize>)
    ensures
        r matches Some(n) ==> s@.len() >= 1 && all_digits(s@) && dec_val(s@) == n,
        r is None ==> s@.len() == 0 || !all_digits(s@) || dec_val(s@) > usize::MAX,
{
    let len: usize = s.unicode_len();
    if len == 0 {
        return None;
    }
    let mut acc: usize = 0;
    let mut i: usize = 0;
    proof {
        assert(s@.take(0) =~= Seq::<char>::empty());
    }
    while i < len
        invariant
            i <= len,
            len == s@.len(),
            all_digits(s@.take(i as int)),
            acc == dec_val(s@.take(i as int)),
        decreases len - i,
    {
        let c = s.get_char(i);
        proof {
            assert(s@.take(i + 1).drop_last() =~= s@.take(i as int));
            assert(s@.take(i + 1).last() == s@[i as int]);
        }
        let d = match char_digit(c) {
            Some(d) => d,
            None => {
                proof {
                    assert(!is_digit(s@[i as int]));
                }
                return None;
            },
        };
        if acc > (usize::MAX - d) / 10 {
            proof {
                assert(dec_val(s@.take(i + 1)) == acc * 10 + d);
                assert(acc * 10 + d > usize::MAX) by (nonlinear_arith)
                    requires
                        acc > (usize::MAX - d) / 10,
                        d < 10,
                ;
                lemma_dec_val_prefix(s@, i + 1);
            }
            return None;
        }
        proof {
            assert(acc * 10 + d <= usize::MAX) by (nonlinear_arith)
                requires
                    acc <= (usize::MAX - d) / 10,
                    d < 10,
            ;
        }
        acc = acc * 10 + d;
        i = i + 1;
    }
    proof {
        assert(s@.take(len as int) =~= s@);
    }
    Some(acc)
}

// ---- boolean tokens ------------------------------------------------------

/// The token of a boolean.
pub open spec fn bool_seq(b: bool) -> Seq<char> {
    if b {
        "true"@
    } else {
        "false"@
    }
}

/// What parsing a boolean token yields.
pub open spec fn parse_bool_seq(s: Seq<char>) -> Option<bool> {
    if s == "true"@ {
        Some(true)
    } else if s == "false"@ {
        Some(false)
    } else {
        None
    }
}

/// A digit string contains neither the field nor the line delimiter.
pub proof fn lemma_digits_sep_free(s: Seq<char>)
    requires
        all_digits(s),
    ensures
        sep_free(s, '|'),
        sep_free(s, '\n'),
{
    if s.contains('|') {
        let i = choose|i: int| 0 <= i < s.len() && s[i] == '|';
        assert(is_digit(s[i]));
    }
    if s.contains('\n') {
        let i = choose|i: int| 0 <= i < s.len() && s[i] == '\n';
        assert(is_digit(s[i]));
    }
}

/// The boolean tokens are non-empty and free of both delimiters.
pub proof fn lemma_bool_token_free(b: bool)
    ensures
        bool_seq(b).len() > 0,
        sep_free(bool_seq(b), '|'),
        sep_free(bool_seq(b), '\n'),
{
    reveal_strlit("true");
    reveal_strlit("false");
    assert("true"@ =~= seq!['t', 'r', 'u', 'e']);
    assert("false"@ =~= seq!['f', 'a', 'l', 's', 'e']);
}

/// The two boolean tokens differ.
pub proof fn lemma_bool_tokens_distinct()
    ensures
        "true"@ != "false"@,
{
    reveal_strlit("true");
    reveal_strlit("false");
    assert("true"@.len() != "false"@.len());
}

/// Parsing a boolean token recovers the boolean.
pub proof fn lemma_bool_round_trip(b: bool)
    ensures
        parse_bool_seq(bool_seq(b)) == Some(b),
{
    reveal_strlit("true");
    reveal_strlit("false");
    assert("true"@.len() != "false"@.len());
}

/// The token of a boolean.
pub fn bool_to_str(b: bool) -> (r: &'static str)
    ensures
        r@ == bool_seq(b),
{
    if b {
        "true"
    } else {
        "false"
    }
}

/// True when the two strings hold the same characters.
pub fn str_eq(a: &str, b: &str) -> (r: bool)
    ensures
        r == (a@ == b@),
{
    let x: String = a.to_owned();
    let y: String = b.to_owned();
    x == y
}

/// Parses a boolean token.
pub fn parse_bool(s: &str) -> (r: Option<bool>)
    ensures
        r == parse_bool_seq(s@),
{
    if str_eq(s, "true") {
        Some(true)
    } else if str_eq(s, "false") {
        Some(false)
    } else {
        None
    }
}

} // verus!

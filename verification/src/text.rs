//! Small verified text utilities the rest of the library is built on:
//! decimal rendering and parsing, substring search, and splitting on spaces.

use vstd::prelude::*;

verus! {

// ---------------------------------------------------------------------------
// Decimal rendering
// ---------------------------------------------------------------------------

/// The character for one decimal digit value.
pub open spec fn digit_char(d: nat) -> char {
    if d == 0 {
        '0'
    } else if d == 1 {
        '1'
    } else if d == 2 {
        '2'
    } else if d == 3 {
        '3'
    } else if d == 4 {
        '4'
    } else if d == 5 {
        '5'
    } else if d == 6 {
        '6'
    } else if d == 7 {
        '7'
    } else if d == 8 {
        '8'
    } else {
        '9'
    }
}

/// The usual decimal rendering of a number, most significant digit first,
/// without leading zeros (`0` renders as `"0"`).
pub open spec fn dec_digits(n: nat) -> Seq<char>
    decreases n,
{
    if n < 10 {
        seq![digit_char(n)]
    } else {
        dec_digits(n / 10).push(digit_char(n % 10))
    }
}

/// A one-character string for one decimal digit value.
fn digit_str(d: u64) -> (r: &'static str)
    requires
        d < 10,
    ensures
        r@ == seq![digit_char(d as nat)],
{
    proof {
        reveal_strlit("0");
        reveal_strlit("1");
        reveal_strlit("2");
        reveal_strlit("3");
        reveal_strlit("4");
        reveal_strlit("5");
        reveal_strlit("6");
        reveal_strlit("7");
        reveal_strlit("8");
        reveal_strlit("9");
    }
    let r: &'static str = if d == 0 {
        "0"
    } else if d == 1 {
        "1"
    } else if d == 2 {
        "2"
    } else if d == 3 {
        "3"
    } else if d == 4 {
        "4"
    } else if d == 5 {
        "5"
    } else if d == 6 {
        "6"
    } else if d == 7 {
        "7"
    } else if d == 8 {
        "8"
    } else {
        "9"
    };
    proof {
        assert(r@ =~= seq![digit_char(d as nat)]);
    }
    r
}

/// Renders a number in decimal.
pub fn u64_to_dec(n: u64) -> (s: String)
    ensures
        s@ == dec_digits(n as nat),
    decreases n,
{
    if n < 10 {
        digit_str(n).to_owned()
    } else {
        let mut s = u64_to_dec(n / 10);
        s.append(digit_str(n % 10));
        proof {
            assert(s@ =~= dec_digits(n as nat));
        }
        s
    }
}

/// Renders a number in decimal.
pub fn usize_to_dec(n: usize) -> (s: String)
    ensures
        s@ == dec_digits(n as nat),
{
    u64_to_dec(n as u64)
}

/// Relies on `String::push`: it appends exactly the given character.
#[verifier::external_body]
pub(crate) fn push_char(s: &mut String, c: char)
    ensures
        final(s)@ == old(s)@.push(c),
{
    s.push(c);
}

/// The character for one decimal digit value.
pub(crate) fn digit_char_of(d: u32) -> (c: char)
    requires
        d < 10,
    ensures
        c == digit_char(d as nat),
{
    if d == 0 {
        '0'
    } else if d == 1 {
        '1'
    } else if d == 2 {
        '2'
    } else if d == 3 {
        '3'
    } else if d == 4 {
        '4'
    } else if d == 5 {
        '5'
    } else if d == 6 {
        '6'
    } else if d == 7 {
        '7'
    } else if d == 8 {
        '8'
    } else {
        '9'
    }
}

// ---------------------------------------------------------------------------
// Decimal parsing
// ---------------------------------------------------------------------------

/// Whether the character is a decimal digit.
pub open spec fn is_digit(c: char) -> bool {
    '0' <= c && c <= '9'
}

/// The value of one decimal digit character.
pub open spec fn digit_val(c: char) -> nat {
    (c as nat - '0' as nat) as nat
}

/// Whether every character of the text is a decimal digit.
pub open spec fn all_digits(s: Seq<char>) -> bool {
    forall|i: int| 0 <= i < s.len() ==> is_digit(#[trigger] s[i])
}

/// The number a string of decimal digits denotes.
pub open spec fn dec_value(s: Seq<char>) -> nat
    decreases s.len(),
{
    if s.len() == 0 {
        0
    } else {
        dec_value(s.drop_last()) * 10 + digit_val(s.last())
    }
}

/// Parses an unsigned decimal number: the whole text must be one or more
/// digits and the value must fit.
pub fn parse_u64(s: &str) -> (r: Option<u64>)
    ensures
        r is Some <==> s@.len() > 0 && all_digits(s@) && dec_value(s@) <= u64::MAX,
        r matches Some(n) ==> n == dec_value(s@),
{
    let len = s.unicode_len();
    if len == 0 {
        return None;
    }
    let mut acc: u64 = 0;
    let mut i: usize = 0;
    while i < len
        invariant
            0 <= i <= len,
            len == s@.len(),
            all_digits(s@.take(i as int)),
            acc == dec_value(s@.take(i as int)),
        decreases len - i,
    {
        let c = s.get_char(i);
        if c < '0' || c > '9' {
            proof {
                assert(!is_digit(s@[i as int]));
            }
            return None;
        }
        let d: u64 = (c as u32 as u64) - ('0' as u32 as u64);
        if acc > (u64::MAX - d) / 10 {
            proof {
                lemma_dec_value_extend_overflows(s@, i as int, acc as nat, d as nat);
            }
            return None;
        }
        proof {
            assert(s@.take(i + 1 as int).drop_last() =~= s@.take(i as int));
            assert(s@.take(i + 1 as int).last() == s@[i as int]);
        }
        acc = acc * 10 + d;
        i += 1;
    }
    proof {
        assert(s@.take(len as int) =~= s@);
    }
    Some(acc)
}

/// If a prefix already denotes more than (`u64::MAX` - next digit) / 10,
/// the whole digit string denotes more than `u64::MAX`.
proof fn lemma_dec_value_extend_overflows(s: Seq<char>, i: int, acc: nat, d: nat)
    requires
        0 <= i < s.len(),
        all_digits(s.take(i)),
        is_digit(s[i]),
        acc == dec_value(s.take(i)),
        d == digit_val(s[i]),
        acc * 10 + d > u64::MAX,
    ensures
        !(all_digits(s) && dec_value(s) <= u64::MAX),
{
    if all_digits(s) {
        lemma_dec_value_prefix_le(s, i + 1);
        assert(s.take(i + 1).drop_last() =~= s.take(i));
        assert(s.take(i + 1).last() == s[i]);
        assert(dec_value(s.take(i + 1)) == acc * 10 + d);
    }
}

/// A digit string denotes at least what any of its prefixes denotes.
proof fn lemma_dec_value_prefix_le(s: Seq<char>, i: int)
    requires
        0 <= i <= s.len(),
        all_digits(s),
    ensures
        dec_value(s.take(i)) <= dec_value(s),
    decreases s.len() - i,
{
    if i < s.len() {
        lemma_dec_value_prefix_le(s, i + 1);
        assert(s.take(i + 1).drop_last() =~= s.take(i));
        assert(dec_value(s.take(i + 1)) == dec_value(s.take(i)) * 10 + digit_val(s.take(
            i + 1,
        ).last()));
    } else {
        assert(s.take(i) =~= s);
    }
}

// ---------------------------------------------------------------------------
// Substring search
// ---------------------------------------------------------------------------

/// Whether `needle` occurs in `hay` starting at character position `i`.
pub open spec fn occurs_at(hay: Seq<char>, needle: Seq<char>, i: int) -> bool {
    &&& 0 <= i
    &&& i + needle.len() <= hay.len()
    &&& hay.subrange(i, i + needle.len()) == needle
}

/// The first character position where `needle` occurs in `hay`, if any.
pub fn find_sub(hay: &str, needle: &str) -> (r: Option<usize>)
    ensures
        r matches Some(i) ==> occurs_at(hay@, needle@, i as int) && forall|j: int|
            0 <= j < i ==> !occurs_at(hay@, needle@, j),
        r is None ==> forall|j: int| !occurs_at(hay@, needle@, j),
{
    let hay_len = hay.unicode_len();
    let needle_len = needle.unicode_len();
    if needle_len > hay_len {
        return None;
    }
    let mut i: usize = 0;
    while i <= hay_len - needle_len
        invariant
            0 <= i,
            i <= hay_len,
            hay_len == hay@.len(),
            needle_len == needle@.len(),
            needle_len <= hay_len,
            forall|j: int| 0 <= j < i ==> !occurs_at(hay@, needle@, j),
        decreases hay_len - i,
    {
        let mut k: usize = 0;
        let mut all_eq = true;
        while k < needle_len
            invariant
                0 <= k <= needle_len,
                i + needle_len <= hay_len,
                hay_len == hay@.len(),
                needle_len == needle@.len(),
                all_eq <==> (forall|m: int| 0 <= m < k ==> hay@[i + m] == needle@[m]),
            decreases needle_len - k,
        {
            let hc = hay.get_char(i + k);
            let nc = needle.get_char(k);
            if hc != nc {
                all_eq = false;
                proof {
                    assert(hay@[i + k as int] != needle@[k as int]);
                }
                k = needle_len;
            } else {
                k += 1;
            }
        }
        if all_eq {
            proof {
                assert(hay@.subrange(i as int, i + needle@.len()) =~= needle@);
            }
            return Some(i);
        }
        proof {
            assert(!occurs_at(hay@, needle@, i as int));
        }
        i += 1;
    }
    proof {
        assert(forall|j: int| #![auto] !occurs_at(hay@, needle@, j)) by {
            assert(forall|j: int|
                occurs_at(hay@, needle@, j) ==> 0 <= j && j + needle@.len() <= hay@.len());
        }
    }
    None
}

// ---------------------------------------------------------------------------
// Splitting on single spaces
// ---------------------------------------------------------------------------

/// The pieces of the text between single space characters, in order.
/// Splitting the empty text yields one empty piece, and consecutive spaces
/// yield empty pieces, as the splitting of the standard library does.
pub open spec fn split_spaces(s: Seq<char>) -> Seq<Seq<char>>
    decreases s.len(),
{
    if s.len() == 0 {
        seq![Seq::<char>::empty()]
    } else if s.last() == ' ' {
        split_spaces(s.drop_last()).push(Seq::<char>::empty())
    } else {
        let rest = split_spaces(s.drop_last());
        rest.update(rest.len() - 1, rest.last().push(s.last()))
    }
}

/// The split of any text has at least one piece.
pub proof fn lemma_split_spaces_len(s: Seq<char>)
    ensures
        split_spaces(s).len() >= 1,
    decreases s.len(),
{
    if s.len() > 0 {
        lemma_split_spaces_len(s.drop_last());
    }
}

/// Splits the text on single space characters.
pub fn split_on_spaces(s: &str) -> (r: Vec<String>)
    ensures
        r.deep_view() == split_spaces(s@),
{
    let len = s.unicode_len();
    let mut pieces: Vec<String> = Vec::new();
    let mut start: usize = 0;
    let mut i: usize = 0;
    while i < len
        invariant
            0 <= start <= i <= len,
            len == s@.len(),
            split_spaces(s@.take(i as int)) =~~= pieces.deep_view().push(
                s@.subrange(start as int, i as int),
            ),
        decreases len - i,
    {
        let ghost prev = s@.take(i as int);
        proof {
            assert(s@.take(i + 1).drop_last() =~= prev);
            assert(s@.take(i + 1).last() == s@[i as int]);
            lemma_split_spaces_len(prev);
        }
        let c = s.get_char(i);
        if c == ' ' {
            let piece = s.substring_char(start, i).to_owned();
            let ghost old_dv = pieces.deep_view();
            pieces.push(piece);
            proof {
                assert(pieces.deep_view() =~~= old_dv.push(piece@));
                assert(split_spaces(s@.take(i + 1)) =~~= pieces.deep_view().push(
                    s@.subrange(i + 1, i + 1),
                ));
            }
            start = i + 1;
        } else {
            proof {
                let parts = split_spaces(prev);
                assert(parts.last() == s@.subrange(start as int, i as int));
                assert(s@.subrange(start as int, i as int).push(s@[i as int]) =~= s@.subrange(
                    start as int,
                    i + 1,
                ));
                assert(split_spaces(s@.take(i + 1)) =~~= pieces.deep_view().push(
                    s@.subrange(start as int, i + 1),
                ));
            }
        }
        i += 1;
    }
    let piece = s.substring_char(start, len).to_owned();
    let ghost old_dv = pieces.deep_view();
    pieces.push(piece);
    proof {
        assert(s@.take(len as int) =~= s@);
        assert(pieces.deep_view() =~~= old_dv.push(piece@));
    }
    pieces
}

// ---------------------------------------------------------------------------
// Joining with single spaces
// ---------------------------------------------------------------------------

/// The pieces joined into one text with a single space between neighbours.
pub open spec fn join_spaces(list: Seq<Seq<char>>) -> Seq<char>
    decreases list.len(),
{
    if list.len() == 0 {
        Seq::<char>::empty()
    } else if list.len() == 1 {
        list[0]
    } else {
        join_spaces(list.drop_last()) + seq![' '] + list.last()
    }
}

/// Joins the strings with a single space between neighbours.
pub fn join_with_spaces(list: &Vec<String>) -> (r: String)
    ensures
        r@ == join_spaces(list.deep_view()),
{
    let mut r = String::new();
    let ghost dv = list.deep_view();
    proof {
        reveal_strlit(" ");
        assert(r@ =~= join_spaces(dv.take(0)));
    }
    let mut i: usize = 0;
    while i < list.len()
        invariant
            0 <= i <= list.len(),
            dv == list.deep_view(),
            dv.len() == list.len(),
            forall|j: int| 0 <= j < list.len() ==> dv[j] == #[trigger] list@[j]@,
            r@ == join_spaces(dv.take(i as int)),
        decreases list.len() - i,
    {
        proof {
            reveal_strlit(" ");
            assert(dv.take(i + 1).drop_last() =~= dv.take(i as int));
            assert(dv.take(i + 1).last() == dv[i as int]);
        }
        if i != 0 {
            r.append(" ");
        }
        r.append(list[i].as_str());
        proof {
            assert(r@ =~= join_spaces(dv.take(i + 1)));
        }
        i += 1;
    }
    proof {
        assert(dv.take(list.len() as int) =~= dv);
    }
    r
}

} // verus!

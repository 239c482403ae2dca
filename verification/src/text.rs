//! Small building blocks for texts: appending a character, decimal digits,
//! the order of two texts, the last place of a character.
use vstd::prelude::*;

verus! {

/// Appends one character to a `String`. Wraps `String::push`, which adds the
/// character at the end and leaves the rest as it was.
#[verifier::external_body]
pub(crate) fn push_char(text: &mut String, c: char)
    ensures
        final(text)@ == old(text)@.push(c),
{
    text.push(c)
}

/// The character of a decimal digit.
pub open spec fn digit_char(d: nat) -> char
    recommends
        d < 10,
{
    if d == 0 {
        '0'
    } else if d == 1 {
        '1'
    } else if d == 2 {
        '2'
    } else if d == 3 {
        '3'
    } else if d == 4 {
        '4'
    } else if d == 5 {
        '5'
    } else if d == 6 {
        '6'
    } else if d == 7 {
        '7'
    } else if d == 8 {
        '8'
    } else {
        '9'
    }
}

/// A number written in base ten, without sign and without leading zeros.
pub open spec fn decimal(n: nat) -> Seq<char>
    decreases n,
{
    if n < 10 {
        seq![digit_char(n)]
    } else {
        decimal(n / 10).push(digit_char(n % 10))
    }
}

fn digit(d: u64) -> (c: char)
    requires
        d < 10,
    ensures
        c == digit_char(d as nat),
{
    if d == 0 {
        '0'
    } else if d == 1 {
        '1'
    } else if d == 2 {
        '2'
    } else if d == 3 {
        '3'
    } else if d == 4 {
        '4'
    } else if d == 5 {
        '5'
    } else if d == 6 {
        '6'
    } else if d == 7 {
        '7'
    } else if d == 8 {
        '8'
    } else {
        '9'
    }
}

/// Writes `n` in base ten.
pub fn to_decimal(n: u64) -> (r: String)
    ensures
        r@ == decimal(n as nat),
    decreases n,
{
    if n < 10 {
        let mut out = String::new();
        push_char(&mut out, digit(n));
        assert(out@ =~= decimal(n as nat));
        out
    } else {
        let mut out = to_decimal(n / 10);
        push_char(&mut out, digit(n % 10));
        out
    }
}

/// A decimal number is never empty and holds digits only.
pub proof fn lemma_decimal_digits(n: nat)
    ensures
        decimal(n).len() >= 1,
        forall|i: int| 0 <= i < decimal(n).len() ==> '0' <= #[trigger] decimal(n)[i] <= '9',
    decreases n,
{
    if n >= 10 {
        lemma_decimal_digits(n / 10);
    }
}

/// Texts written one after the other, with `sep` between them.
pub open spec fn joined_with(parts: Seq<Seq<char>>, sep: Seq<char>) -> Seq<char>
    decreases parts.len(),
{
    if parts.len() == 0 {
        Seq::empty()
    } else if parts.len() == 1 {
        parts[0]
    } else {
        joined_with(parts.drop_last(), sep) + sep + parts.last()
    }
}

/// The views of a list of texts.
pub open spec fn views_of(parts: Seq<String>) -> Seq<Seq<char>> {
    Seq::new(parts.len(), |i: int| parts[i]@)
}

/// Writes the texts one after the other, with `sep` between them.
pub fn join_with(parts: &Vec<String>, sep: &str) -> (r: String)
    ensures
        r@ == joined_with(views_of(parts@), sep@),
{
    let mut out = String::new();
    let ghost all = views_of(parts@);
    let mut i: usize = 0;
    while i < parts.len()
        invariant
            i <= parts.len(),
            all == views_of(parts@),
            out@ == joined_with(all.take(i as int), sep@),
        decreases parts.len() - i,
    {
        if i > 0 {
            out.append(sep);
        }
        out.append(parts[i].as_str());
        proof {
            let next = all.take(i + 1);
            assert(next.drop_last() =~= all.take(i as int));
            assert(next.last() == parts@[i as int]@);
            if i == 0 {
                assert(out@ =~= parts@[0]@);
            }
        }
        i += 1;
    }
    assert(all.take(i as int) =~= all);
    out
}

/// `a` comes before `b` in the order of a dictionary, characters compared by
/// their code points: at the first place where the two differ `a` has the
/// smaller character, or `a` ends there and `b` goes on.
pub open spec fn lex_less(a: Seq<char>, b: Seq<char>) -> bool {
    exists|k: int|
        0 <= k <= a.len() && k <= b.len() && #[trigger] a.take(k) == b.take(k) && k < b.len() && (k
            == a.len() || a[k] < b[k])
}

/// Whether `a` comes strictly before `b` in dictionary order.
pub fn text_less(a: &str, b: &str) -> (r: bool)
    ensures
        r == lex_less(a@, b@),
{
    let la = a.unicode_len();
    let lb = b.unicode_len();
    let mut i: usize = 0;
    while i < la && i < lb
        invariant
            la == a@.len(),
            lb == b@.len(),
            i <= la,
            i <= lb,
            a@.take(i as int) == b@.take(i as int),
        decreases la - i,
    {
        let ca = a.get_char(i);
        let cb = b.get_char(i);
        if ca != cb {
            proof {
                if ca < cb {
                    assert(a@.take(i as int) == b@.take(i as int));
                } else {
                    assert forall|k: int|
                        0 <= k <= a@.len() && k <= b@.len() && #[trigger] a@.take(k) == b@.take(k)
                            && k < b@.len() implies !(k == a@.len() || a@[k] < b@[k]) by {
                        if k > i {
                            assert(a@.take(k)[i as int] == b@.take(k)[i as int]);
                        } else if k < i {
                            assert(a@.take(i as int)[k] == b@.take(i as int)[k]);
                        }
                    }
                }
            }
            return ca < cb;
        }
        assert(a@.take(i + 1) =~= a@.take(i as int).push(ca));
        assert(b@.take(i + 1) =~= b@.take(i as int).push(cb));
        i += 1;
    }
    proof {
        if i < lb {
            assert(i == la);
            assert(a@.take(i as int) == b@.take(i as int));
        } else {
            assert forall|k: int|
                0 <= k <= a@.len() && k <= b@.len() && #[trigger] a@.take(k) == b@.take(k) && k
                    < b@.len() implies !(k == a@.len() || a@[k] < b@[k]) by {
                assert(a@.take(i as int)[k] == b@.take(i as int)[k]);
            }
        }
    }
    i < lb
}

/// Where `c` stands last in `text`, or -1 where it does not occur.
pub open spec fn last_index_of(text: Seq<char>, c: char) -> int
    decreases text.len(),
{
    if text.len() == 0 {
        -1
    } else if text.last() == c {
        text.len() - 1
    } else {
        last_index_of(text.drop_last(), c)
    }
}

/// `last_index_of` names an occurrence of `c` after which none follows.
pub proof fn lemma_last_index_of(text: Seq<char>, c: char)
    ensures
        -1 <= last_index_of(text, c) < text.len(),
        last_index_of(text, c) >= 0 ==> text[last_index_of(text, c)] == c,
        forall|i: int| last_index_of(text, c) < i < text.len() ==> #[trigger] text[i] != c,
    decreases text.len(),
{
    if text.len() > 0 && text.last() != c {
        lemma_last_index_of(text.drop_last(), c);
        assert forall|i: int| last_index_of(text, c) < i < text.len() implies #[trigger] text[i]
            != c by {
            if i < text.len() - 1 {
                assert(text.drop_last()[i] == text[i]);
            }
        }
    }
}

/// Finds where `c` stands last in `text`.
pub fn find_last(text: &str, c: char) -> (r: Option<usize>)
    ensures
        match r {
            Some(i) => i as int == last_index_of(text@, c),
            None => last_index_of(text@, c) == -1,
        },
{
    let n = text.unicode_len();
    let mut found: Option<usize> = None;
    let mut i: usize = 0;
    for x in it: text.chars()
        invariant
            it.seq() == text@,
            n == text@.len(),
            i == it.index(),
            match found {
                Some(j) => j as int == last_index_of(text@.take(i as int), c),
                None => last_index_of(text@.take(i as int), c) == -1,
            },
    {
        assert(text@.take(i + 1).drop_last() =~= text@.take(i as int));
        if x == c {
            found = Some(i);
        }
        i += 1;
    }
    assert(text@.take(i as int) =~= text@);
    found
}

} // verus!

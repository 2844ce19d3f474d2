//! Strings as sequences of characters, and the few operations on them that
//! the rest of the crate is built from.

use vstd::prelude::*;

verus! {

/// Appends one character to a string.
///
/// Trusted: the body is one call of `String::push`, which the standard
/// library documents as appending the given character to the end of the
/// string. The contract says that and nothing more.
#[verifier::external_body]
pub(crate) fn push_char(s: &mut String, c: char)
    ensures
        final(s)@ == old(s)@.push(c),
{
    s.push(c)
}

/// The characters of a string, in order.
pub fn chars_of(s: &str) -> (v: Vec<char>)
    ensures
        v@ == s@,
{
    let mut v: Vec<char> = Vec::new();
    for c in it: s.chars()
        invariant
            v@ == it.seq().take(it.index() as int),
            it.seq() == s@,
    {
        v.push(c);
    }
    v
}

/// The string made of the given characters, in order.
pub fn string_of(chars: &Vec<char>) -> (s: String)
    ensures
        s@ == chars@,
{
    let mut s = String::new();
    let mut i: usize = 0;
    while i < chars.len()
        invariant
            i <= chars.len(),
            s@ == chars@.take(i as int),
        decreases chars.len() - i,
    {
        push_char(&mut s, chars[i]);
        i += 1;
    }
    s
}

/// Appends all of `more` to `out`.
pub fn extend_chars(out: &mut Vec<char>, more: &Vec<char>)
    ensures
        final(out)@ == old(out)@ + more@,
{
    let mut i: usize = 0;
    while i < more.len()
        invariant
            i <= more.len(),
            out@ == old(out)@ + more@.take(i as int),
        decreases more.len() - i,
    {
        out.push(more[i]);
        i += 1;
    }
}

/// Whether `word` stands in `text` at index `at`.
pub open spec fn occurs_at(text: Seq<char>, at: int, word: Seq<char>) -> bool {
    &&& 0 <= at
    &&& at + word.len() <= text.len()
    &&& text.subrange(at, at + word.len()) == word
}

/// Tests whether `word` stands in `text` at index `at`.
pub fn stands_at(text: &Vec<char>, at: usize, word: &Vec<char>) -> (found: bool)
    ensures
        found == occurs_at(text@, at as int, word@),
{
    if at > text.len() || word.len() > text.len() - at {
        return false;
    }
    let mut k: usize = 0;
    while k < word.len()
        invariant
            k <= word.len(),
            at + word.len() <= text.len(),
            forall|j: int| 0 <= j < k ==> text@[at + j] == word@[j],
        decreases word.len() - k,
    {
        if text[at + k] != word[k] {
            assert(text@.subrange(at as int, at + word.len())[k as int] != word@[k as int]);
            return false;
        }
        k += 1;
    }
    assert(text@.subrange(at as int, at + word.len()) =~= word@);
    true
}

/// Whether two strings hold the same characters.
pub fn same_chars(a: &Vec<char>, b: &Vec<char>) -> (same: bool)
    ensures
        same == (a@ == b@),
{
    if a.len() != b.len() {
        return false;
    }
    let same = stands_at(a, 0, b);
    assert(a@.subrange(0, a@.len() as int) =~= a@);
    same
}

/// The ten decimal digits, in order.
pub open spec fn digits() -> Seq<char> {
    seq!['0', '1', '2', '3', '4', '5', '6', '7', '8', '9']
}

/// The decimal numeral of a natural number, without sign or leading zeros.
pub open spec fn decimal(n: nat) -> Seq<char>
    decreases n,
{
    if n < 10 {
        seq![digits()[n as int]]
    } else {
        decimal(n / 10).push(digits()[(n % 10) as int])
    }
}

/// The character that stands for a digit below ten.
fn digit_char(d: u64) -> (c: char)
    requires
        d < 10,
    ensures
        c == digits()[d as int],
{
    if d == 0 {
        '0'
    } else if d == 1 {
        '1'
    } else if d == 2 {
        '2'
    } else if d == 3 {
        '3'
    } else if d == 4 {
        '4'
    } else if d == 5 {
        '5'
    } else if d == 6 {
        '6'
    } else if d == 7 {
        '7'
    } else if d == 8 {
        '8'
    } else {
        '9'
    }
}

/// Appends the decimal numeral of `n` to `out`.
pub fn push_decimal(out: &mut Vec<char>, n: u64)
    ensures
        final(out)@ == old(out)@ + decimal(n as nat),
    decreases n,
{
    if n >= 10 {
        push_decimal(out, n / 10);
    }
    out.push(digit_char(n % 10));
}

/// The pieces into which the separator cuts a string. There is one piece more
/// than there are separators; a piece is empty where two separators meet, and
/// where the string begins or ends with one. The empty string is one empty
/// piece.
pub open spec fn split(s: Seq<char>, sep: char) -> Seq<Seq<char>>
    decreases s.len(),
{
    if s.len() == 0 {
        seq![Seq::empty()]
    } else {
        let before = split(s.drop_last(), sep);
        if s.last() == sep {
            before.push(Seq::empty())
        } else {
            before.drop_last().push(before.last().push(s.last()))
        }
    }
}

/// The pieces in a row, with the separator between each two of them.
pub open spec fn joined(pieces: Seq<Seq<char>>, sep: char) -> Seq<char>
    decreases pieces.len(),
{
    if pieces.len() == 0 {
        Seq::empty()
    } else if pieces.len() == 1 {
        pieces[0]
    } else {
        joined(pieces.drop_last(), sep) + seq![sep] + pieces.last()
    }
}

/// Cuts a string at every separator.
pub fn split_on(s: &str, sep: char) -> (pieces: Vec<String>)
    ensures
        pieces.deep_view() == split(s@, sep),
{
    let chars = chars_of(s);
    let mut pieces: Vec<String> = Vec::new();
    let mut piece: Vec<char> = Vec::new();
    let mut i: usize = 0;
    while i < chars.len()
        invariant
            i <= chars.len(),
            chars@ == s@,
            pieces.deep_view().push(piece@) == split(s@.take(i as int), sep),
        decreases chars.len() - i,
    {
        let ghost done = pieces.deep_view();
        let ghost before = split(s@.take(i as int), sep);
        assert(s@.take(i + 1).drop_last() =~= s@.take(i as int));
        assert(before.last() == piece@);
        assert(before.drop_last() =~= done);
        if chars[i] == sep {
            pieces.push(string_of(&piece));
            piece = Vec::new();
            assert(pieces.deep_view() =~= done.push(before.last()));
        } else {
            piece.push(chars[i]);
        }
        assert(pieces.deep_view().push(piece@) =~= split(s@.take(i + 1), sep));
        i += 1;
    }
    assert(s@.take(chars.len() as int) =~= s@);
    let ghost done = pieces.deep_view();
    pieces.push(string_of(&piece));
    assert(pieces.deep_view() =~= done.push(piece@));
    pieces
}

/// Puts the pieces in a row, with the separator between each two of them.
pub fn join(pieces: &Vec<String>, sep: char) -> (s: String)
    ensures
        s@ == joined(pieces.deep_view(), sep),
{
    let mut out: Vec<char> = Vec::new();
    let mut i: usize = 0;
    while i < pieces.len()
        invariant
            i <= pieces.len(),
            out@ == joined(pieces.deep_view().take(i as int), sep),
        decreases pieces.len() - i,
    {
        let ghost done = pieces.deep_view().take(i + 1);
        assert(done.drop_last() =~= pieces.deep_view().take(i as int));
        assert(done.last() == pieces[i as int]@);
        if i > 0 {
            out.push(sep);
        }
        extend_chars(&mut out, &chars_of(pieces[i].as_str()));
        assert(out@ =~= joined(done, sep));
        i += 1;
    }
    assert(pieces.deep_view().take(pieces.len() as int) =~= pieces.deep_view());
    string_of(&out)
}

/// Behind a string that ends with the separator, a piece without separator
/// is a piece of its own.
pub proof fn lemma_split_last_piece(head: Seq<char>, piece: Seq<char>, sep: char)
    requires
        !piece.contains(sep),
    ensures
        split(head + seq![sep] + piece, sep) == split(head, sep).push(piece),
    decreases piece.len(),
{
    let whole = head + seq![sep] + piece;
    if piece.len() == 0 {
        assert(whole.drop_last() =~= head);
        assert(piece =~= Seq::empty());
    } else {
        let shorter = piece.drop_last();
        assert forall|c: char| shorter.contains(c) implies piece.contains(c) by {
            let k = choose|k: int| 0 <= k < shorter.len() && shorter[k] == c;
            assert(piece[k] == c);
        }
        lemma_split_last_piece(head, shorter, sep);
        assert(whole.drop_last() =~= head + seq![sep] + shorter);
        assert(piece[piece.len() - 1] == piece.last());
        assert(whole.last() != sep);
        assert(split(head, sep).push(shorter).drop_last() =~= split(head, sep));
        assert(shorter.push(piece.last()) =~= piece);
    }
}

/// A string without separator is one piece.
pub proof fn lemma_split_one_piece(piece: Seq<char>, sep: char)
    requires
        !piece.contains(sep),
    ensures
        split(piece, sep) == seq![piece],
    decreases piece.len(),
{
    if piece.len() > 0 {
        let shorter = piece.drop_last();
        assert forall|c: char| shorter.contains(c) implies piece.contains(c) by {
            let k = choose|k: int| 0 <= k < shorter.len() && shorter[k] == c;
            assert(piece[k] == c);
        }
        lemma_split_one_piece(shorter, sep);
        assert(piece[piece.len() - 1] == piece.last());
        assert(shorter.push(piece.last()) =~= piece);
        assert(seq![shorter].drop_last().push(piece) =~= seq![piece]);
    } else {
        assert(piece =~= Seq::empty());
    }
}

/// Cutting undoes joining: pieces that hold no separator, at least one of
/// them, come back as they were.
pub proof fn lemma_split_joined(pieces: Seq<Seq<char>>, sep: char)
    requires
        pieces.len() > 0,
        forall|i: int| 0 <= i < pieces.len() ==> !(#[trigger] pieces[i]).contains(sep),
    ensures
        split(joined(pieces, sep), sep) == pieces,
    decreases pieces.len(),
{
    if pieces.len() == 1 {
        lemma_split_one_piece(pieces[0], sep);
        assert(seq![pieces[0]] =~= pieces);
    } else {
        lemma_split_joined(pieces.drop_last(), sep);
        lemma_split_last_piece(joined(pieces.drop_last(), sep), pieces.last(), sep);
        assert(pieces.drop_last().push(pieces.last()) =~= pieces);
    }
}

} // verus!

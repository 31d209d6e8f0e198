//! Character-level helpers shared by the codec and the hash entity:
//! conversions between `str`, `String` and `Vec<char>`, splitting on a
//! delimiter, and rendering bytes as hexadecimal or decimal text.
use vstd::prelude::*;
use vstd::string::*;
use vstd::utf8::*;

verus! {

/// The sixteen lowercase hexadecimal digits, in order.
pub const HEX_DIGITS: &'static str = "0123456789abcdef";

/// The ten decimal digits, in order.
pub const DECIMAL_DIGITS: &'static str = "0123456789";

/// Splits `s` at every occurrence of `d`, keeping empty pieces; the result
/// always has one more piece than `s` has occurrences of `d`.
pub open spec fn split_on(s: Seq<char>, d: char) -> Seq<Seq<char>>
    decreases s.len(),
{
    if s.len() == 0 {
        seq![Seq::<char>::empty()]
    } else {
        let init = split_on(s.drop_last(), d);
        if s.last() == d {
            init.push(Seq::<char>::empty())
        } else {
            init.update(init.len() - 1, init.last().push(s.last()))
        }
    }
}

/// `true` when `c` never occurs in `s`.
pub open spec fn free_of(s: Seq<char>, c: char) -> bool {
    forall|i: int| 0 <= i < s.len() ==> s[i] != c
}

/// Lowercase hexadecimal digit for a value below sixteen.
pub open spec fn hex_digit(n: int) -> char {
    HEX_DIGITS@[n]
}

/// Two lowercase hexadecimal digits per byte, most significant first.
pub open spec fn hex_of(b: Seq<u8>) -> Seq<char>
    decreases b.len(),
{
    if b.len() == 0 {
        Seq::empty()
    } else {
        hex_of(b.drop_last()) + seq![hex_digit((b.last() / 16) as int), hex_digit((b.last() % 16) as int)]
    }
}

/// Decimal digit for a value below ten.
pub open spec fn decimal_digit(n: int) -> char {
    DECIMAL_DIGITS@[n]
}

/// A byte written in decimal, without leading zeros.
pub open spec fn decimal_of(n: u8) -> Seq<char> {
    if n < 10 {
        seq![decimal_digit(n as int)]
    } else if n < 100 {
        seq![decimal_digit((n / 10) as int), decimal_digit((n % 10) as int)]
    } else {
        seq![decimal_digit((n / 100) as int), decimal_digit(((n / 10) % 10) as int), decimal_digit((n % 10) as int)]
    }
}

/// Bytes in decimal, separated by `", "`.
pub open spec fn decimal_list(b: Seq<u8>) -> Seq<char>
    decreases b.len(),
{
    if b.len() == 0 {
        Seq::empty()
    } else if b.len() == 1 {
        decimal_of(b[0])
    } else {
        decimal_list(b.drop_last()) + ", "@ + decimal_of(b.last())
    }
}

pub proof fn lemma_split_on_nonempty(s: Seq<char>, d: char)
    ensures
        split_on(s, d).len() >= 1,
    decreases s.len(),
{
    if s.len() > 0 {
        lemma_split_on_nonempty(s.drop_last(), d);
    }
}

/// Appending text free of the delimiter extends the last piece only.
pub proof fn lemma_split_on_append_plain(p: Seq<char>, t: Seq<char>, d: char)
    requires
        free_of(t, d),
    ensures
        split_on(p + t, d).len() == split_on(p, d).len(),
        split_on(p + t, d) == split_on(p, d).update(
            split_on(p, d).len() - 1,
            split_on(p, d).last() + t,
        ),
    decreases t.len(),
{
    lemma_split_on_nonempty(p, d);
    if t.len() == 0 {
        assert(p + t =~= p);
        assert(split_on(p, d).last() + t =~= split_on(p, d).last());
        assert(split_on(p, d).update(split_on(p, d).len() - 1, split_on(p, d).last())
            =~= split_on(p, d));
    } else {
        let t0 = t.drop_last();
        assert(free_of(t0, d)) by {
            assert forall|i: int| 0 <= i < t0.len() implies t0[i] != d by {
                assert(t0[i] == t[i]);
            }
        }
        lemma_split_on_append_plain(p, t0, d);
        assert((p + t).drop_last() =~= p + t0);
        assert((p + t).last() == t.last());
        assert(t.last() != d) by {
            assert(t[t.len() - 1] != d);
        }
        lemma_split_on_nonempty(p + t0, d);
        let whole = split_on(p, d);
        let init = split_on(p + t0, d);
        assert(init == whole.update(whole.len() - 1, whole.last() + t0));
        assert(init.last() == whole.last() + t0);
        assert(split_on(p + t, d) == init.update(init.len() - 1, init.last().push(t.last())));
        assert(whole.last() + t0 + seq![t.last()] =~= whole.last() + t);
        assert((whole.last() + t0).push(t.last()) =~= whole.last() + t);
        assert(split_on(p + t, d) =~= whole.update(whole.len() - 1, whole.last() + t));
    }
}

/// Appending the delimiter and then delimiter-free text opens one new piece.
pub proof fn lemma_split_on_append_piece(p: Seq<char>, t: Seq<char>, d: char)
    requires
        free_of(t, d),
    ensures
        split_on(p + seq![d] + t, d) == split_on(p, d).push(t),
{
    let q = p + seq![d];
    assert(q.drop_last() =~= p);
    assert(split_on(q, d) == split_on(p, d).push(Seq::<char>::empty()));
    lemma_split_on_append_plain(q, t, d);
    assert(Seq::<char>::empty() + t =~= t);
    assert(split_on(q, d).update(split_on(q, d).len() - 1, split_on(q, d).last() + t)
        =~= split_on(p, d).push(t));
}

/// Joins pieces back together with `d` between neighbours.
pub open spec fn join_on(parts: Seq<Seq<char>>, d: char) -> Seq<char>
    decreases parts.len(),
{
    if parts.len() == 0 {
        Seq::empty()
    } else if parts.len() == 1 {
        parts[0]
    } else {
        join_on(parts.drop_last(), d) + seq![d] + parts.last()
    }
}

/// Joining the pieces of a split restores the text.
pub proof fn lemma_join_split(s: Seq<char>, d: char)
    ensures
        join_on(split_on(s, d), d) == s,
    decreases s.len(),
{
    if s.len() == 0 {
        assert(join_on(split_on(s, d), d) =~= s);
    } else {
        let s0 = s.drop_last();
        let c = s.last();
        let init = split_on(s0, d);
        lemma_join_split(s0, d);
        lemma_split_on_nonempty(s0, d);
        if c == d {
            let parts = init.push(Seq::<char>::empty());
            assert(parts.drop_last() =~= init);
            assert(join_on(parts, d) =~= s0 + seq![d] + Seq::<char>::empty());
            assert(s0 + seq![d] + Seq::<char>::empty() =~= s);
        } else {
            let parts = init.update(init.len() - 1, init.last().push(c));
            if init.len() == 1 {
                assert(join_on(parts, d) == parts[0]);
                assert(parts[0] =~= s);
            } else {
                assert(parts.drop_last() =~= init.drop_last());
                assert(join_on(parts, d) == join_on(init.drop_last(), d) + seq![d] + init.last().push(c));
                assert(join_on(init, d) == join_on(init.drop_last(), d) + seq![d] + init.last());
                assert(join_on(init.drop_last(), d) + seq![d] + init.last().push(c) =~= s0.push(c));
                assert(s0.push(c) =~= s);
            }
        }
    }
}

/// Relies on `String::push`: appends one character.
#[verifier::external_body]
pub(crate) fn push_char(s: &mut String, c: char)
    ensures
        final(s)@ == old(s)@.push(c),
{
    s.push(c)
}

/// The characters of `s`, in order.
pub fn chars_of(s: &str) -> (r: Vec<char>)
    ensures
        r@ == s@,
{
    let n = s.unicode_len();
    let mut r: Vec<char> = Vec::new();
    let mut i: usize = 0;
    while i < n
        invariant
            n == s@.len(),
            i <= n,
            r@ == s@.take(i as int),
        decreases n - i,
    {
        let c = s.get_char(i);
        r.push(c);
        assert(s@.take(i as int + 1) =~= s@.take(i as int).push(c));
        i = i + 1;
    }
    assert(s@.take(n as int) =~= s@);
    r
}

/// A `String` holding the given characters.
pub fn string_of(v: &Vec<char>) -> (r: String)
    ensures
        r@ == v@,
{
    let mut r = String::new();
    let mut i: usize = 0;
    while i < v.len()
        invariant
            i <= v.len(),
            r@ == v@.take(i as int),
        decreases v.len() - i,
    {
        push_char(&mut r, v[i]);
        assert(v@.take(i as int + 1) =~= v@.take(i as int).push(v@[i as int]));
        i = i + 1;
    }
    assert(v@.take(v.len() as int) =~= v@);
    r
}

/// Whether two character sequences are equal.
pub fn same_chars(a: &Vec<char>, b: &Vec<char>) -> (r: bool)
    ensures
        r == (a@ == b@),
{
    if a.len() != b.len() {
        return false;
    }
    let mut i: usize = 0;
    while i < a.len()
        invariant
            a.len() == b.len(),
            i <= a.len(),
            forall|j: int| 0 <= j < i ==> a@[j] == b@[j],
        decreases a.len() - i,
    {
        if a[i] != b[i] {
            return false;
        }
        i = i + 1;
    }
    assert(a@ =~= b@);
    true
}

/// Whether `s` consists of exactly the characters of `t`.
pub fn equals_str(s: &Vec<char>, t: &str) -> (r: bool)
    ensures
        r == (s@ == t@),
{
    let tc = chars_of(t);
    same_chars(s, &tc)
}

/// The character sequences held by a list of character vectors.
pub open spec fn pieces_view(v: Seq<Vec<char>>) -> Seq<Seq<char>> {
    Seq::new(v.len(), |i: int| v[i]@)
}

/// Splits `s` at every `'$'`, keeping empty pieces.
pub fn split_dollar(s: &Vec<char>) -> (parts: Vec<Vec<char>>)
    ensures
        pieces_view(parts@) == split_on(s@, '$'),
{
    let mut done: Vec<Vec<char>> = Vec::new();
    let mut cur: Vec<char> = Vec::new();
    let mut i: usize = 0;
    while i < s.len()
        invariant
            i <= s.len(),
            pieces_view(done@).push(cur@) == split_on(s@.take(i as int), '$'),
        decreases s.len() - i,
    {
        let c = s[i];
        let ghost before = pieces_view(done@).push(cur@);
        assert(s@.take(i as int + 1).drop_last() =~= s@.take(i as int));
        if c == '$' {
            let ghost old_done = pieces_view(done@);
            let ghost piece_view = cur@;
            let piece = cur;
            done.push(piece);
            cur = Vec::new();
            assert(pieces_view(done@) =~= old_done.push(piece_view));
            assert(pieces_view(done@).push(cur@) =~= before.push(Seq::<char>::empty()));
        } else {
            cur.push(c);
            assert(pieces_view(done@).push(cur@) =~= before.update(
                before.len() - 1,
                before.last().push(c),
            ));
        }
        i = i + 1;
    }
    assert(s@.take(s.len() as int) =~= s@);
    let ghost old_done = pieces_view(done@);
    let ghost last_view = cur@;
    done.push(cur);
    assert(pieces_view(done@) =~= old_done.push(last_view));
    done
}

/// Two lowercase hexadecimal digits for every byte.
pub fn hex_text(b: &Vec<u8>) -> (r: String)
    ensures
        r@ == hex_of(b@),
{
    proof {
        reveal_strlit("0123456789abcdef");
    }
    let mut r = String::new();
    let mut i: usize = 0;
    while i < b.len()
        invariant
            i <= b.len(),
            r@ == hex_of(b@.take(i as int)),
            HEX_DIGITS@.len() == 16,
        decreases b.len() - i,
    {
        let x = b[i];
        push_char(&mut r, HEX_DIGITS.get_char((x / 16) as usize));
        push_char(&mut r, HEX_DIGITS.get_char((x % 16) as usize));
        assert(b@.take(i as int + 1).drop_last() =~= b@.take(i as int));
        i = i + 1;
    }
    assert(b@.take(b.len() as int) =~= b@);
    r
}

/// Appends the decimal form of `n` to `s`.
fn push_decimal(s: &mut String, n: u8)
    ensures
        final(s)@ == old(s)@ + decimal_of(n),
{
    proof {
        reveal_strlit("0123456789");
    }
    assert(DECIMAL_DIGITS@.len() == 10);
    if n < 10 {
        push_char(s, DECIMAL_DIGITS.get_char(n as usize));
    } else if n < 100 {
        push_char(s, DECIMAL_DIGITS.get_char((n / 10) as usize));
        push_char(s, DECIMAL_DIGITS.get_char((n % 10) as usize));
    } else {
        push_char(s, DECIMAL_DIGITS.get_char((n / 100) as usize));
        push_char(s, DECIMAL_DIGITS.get_char(((n / 10) % 10) as usize));
        push_char(s, DECIMAL_DIGITS.get_char((n % 10) as usize));
    }
    assert(final(s)@ =~= old(s)@ + decimal_of(n));
}

/// The bytes in decimal, separated by `", "`.
pub fn decimal_text(b: &Vec<u8>) -> (r: String)
    ensures
        r@ == decimal_list(b@),
{
    let mut r = String::new();
    let mut i: usize = 0;
    while i < b.len()
        invariant
            i <= b.len(),
            r@ == decimal_list(b@.take(i as int)),
        decreases b.len() - i,
    {
        assert(b@.take(i as int + 1).drop_last() =~= b@.take(i as int));
        if i > 0 {
            r.append(", ");
        }
        push_decimal(&mut r, b[i]);
        proof {
            if i == 0 {
                assert(Seq::<char>::empty() + decimal_of(b@[0]) =~= decimal_of(b@[0]));
            }
        }
        i = i + 1;
    }
    assert(b@.take(b.len() as int) =~= b@);
    r
}

/// Relies on `std::str::from_utf8`: succeeds exactly on valid UTF-8 and
/// then yields the text that the bytes encode.
#[verifier::external_body]
pub(crate) fn utf8_text(b: &[u8]) -> (r: Option<&str>)
    ensures
        r is Some <==> valid_utf8(b@),
        r matches Some(s) ==> s@ == decode_utf8(b@),
{
    std::str::from_utf8(b).ok()
}

/// What `String::from_utf8_lossy` makes of a byte sequence.
pub uninterp spec fn lossy_text(b: Seq<u8>) -> Seq<char>;

/// Bytes read as text: decoded where they are valid UTF-8, and otherwise
/// with invalid sequences replaced.
pub open spec fn text_of_bytes(b: Seq<u8>) -> Seq<char> {
    if valid_utf8(b) {
        decode_utf8(b)
    } else {
        lossy_text(b)
    }
}

/// Relies on `String::from_utf8_lossy`: valid UTF-8 is decoded unchanged,
/// anything else has its invalid sequences replaced.
#[verifier::external_body]
pub(crate) fn utf8_lossy(b: &[u8]) -> (r: String)
    ensures
        r@ == lossy_text(b@),
        valid_utf8(b@) ==> r@ == decode_utf8(b@),
{
    String::from_utf8_lossy(b).into_owned()
}

} // verus!

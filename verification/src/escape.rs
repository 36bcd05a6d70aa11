//! Escaping and quoting of the free-text fields of a `WIFI:` configuration string.

use vstd::prelude::*;

verus! {

/// The characters that carry structure in a `WIFI:` string.
pub open spec fn is_reserved(c: char) -> bool {
    c == '\\' || c == '"' || c == ';' || c == ':'
}

/// What one character of a field becomes: itself, behind a backslash if it is reserved.
pub open spec fn escape_char(c: char) -> Seq<char> {
    if is_reserved(c) {
        seq!['\\', c]
    } else {
        seq![c]
    }
}

/// The escaped form of a field: every reserved character behind one backslash,
/// every other character unchanged, in the order of the field.
pub open spec fn escaped(s: Seq<char>) -> Seq<char>
    decreases s.len(),
{
    if s.len() == 0 {
        Seq::empty()
    } else {
        escaped(s.drop_last()) + escape_char(s.last())
    }
}

/// Whether a field holds a reserved character anywhere.
pub open spec fn has_reserved(s: Seq<char>) -> bool {
    exists|i: int| 0 <= i < s.len() && is_reserved(#[trigger] s[i])
}

/// A field between a pair of double quotes.
pub open spec fn quoted(s: Seq<char>) -> Seq<char> {
    seq!['"'] + s + seq!['"']
}

/// A field as it stands in the configuration string: escaped, or, where quoting
/// is asked for and escaping left the field as it was, between double quotes.
pub open spec fn rendered(s: Seq<char>, quote: bool) -> Seq<char> {
    if quote && escaped(s) == s {
        quoted(s)
    } else {
        escaped(s)
    }
}

/// Tells whether a character is one of the four reserved ones.
pub fn reserved(c: char) -> (r: bool)
    ensures
        r == is_reserved(c),
{
    c == '\\' || c == '"' || c == ';' || c == ':'
}

/// Escapes a field.
pub fn escape(field: &str) -> (out: String)
    ensures
        out@ == escaped(field@),
{
    let mut out = String::new();
    for c in it: field.chars()
        invariant
            it.seq() == field@,
            out@ == escaped(field@.take(it.index() as int)),
    {
        proof {
            let n = it.index() as int;
            assert(field@.take(n + 1).drop_last() =~= field@.take(n));
        }
        if reserved(c) {
            out.push('\\');
        }
        out.push(c);
    }
    proof {
        assert(field@.take(field@.len() as int) =~= field@);
    }
    out
}

/// Tells whether a field holds a reserved character.
pub fn contains_reserved(field: &str) -> (found: bool)
    ensures
        found == has_reserved(field@),
{
    let mut found = false;
    for c in it: field.chars()
        invariant
            it.seq() == field@,
            found == has_reserved(field@.take(it.index() as int)),
    {
        proof {
            let n = it.index() as int;
            let before = field@.take(n);
            let after = field@.take(n + 1);
            if has_reserved(before) {
                let i = choose|i: int| 0 <= i < before.len() && is_reserved(#[trigger] before[i]);
                assert(is_reserved(after[i]));
            }
            if is_reserved(c) {
                assert(is_reserved(after[n]));
            }
            if has_reserved(after) {
                let i = choose|i: int| 0 <= i < after.len() && is_reserved(#[trigger] after[i]);
                if i < n {
                    assert(is_reserved(before[i]));
                }
            }
        }
        if reserved(c) {
            found = true;
        }
    }
    proof {
        assert(field@.take(field@.len() as int) =~= field@);
    }
    found
}

/// Escaping never shortens a field, and lengthens it exactly where it holds a
/// reserved character.
pub proof fn lemma_escaped_unchanged(s: Seq<char>)
    ensures
        escaped(s).len() >= s.len(),
        escaped(s) == s <==> !has_reserved(s),
        escaped(s).len() == s.len() <==> !has_reserved(s),
    decreases s.len(),
{
    if s.len() > 0 {
        let front = s.drop_last();
        lemma_escaped_unchanged(front);
        if has_reserved(front) {
            let i = choose|i: int| 0 <= i < front.len() && is_reserved(#[trigger] front[i]);
            assert(is_reserved(s[i]));
        }
        if is_reserved(s.last()) {
            assert(is_reserved(s[s.len() - 1]));
        }
        if has_reserved(s) {
            let i = choose|i: int| 0 <= i < s.len() && is_reserved(#[trigger] s[i]);
            if i < s.len() - 1 {
                assert(is_reserved(front[i]));
            }
        }
        assert(escaped(s).len() == escaped(front).len() + escape_char(s.last()).len());
        if !has_reserved(s) {
            assert(escaped(s) =~= front.push(s.last()));
            assert(front.push(s.last()) =~= s);
        }
    } else {
        assert(escaped(s) =~= s);
    }
}

/// Escaping goes through a text piece by piece.
pub proof fn lemma_escaped_concat(a: Seq<char>, b: Seq<char>)
    ensures
        escaped(a + b) == escaped(a) + escaped(b),
    decreases b.len(),
{
    if b.len() == 0 {
        assert(a + b =~= a);
        assert(escaped(a) + escaped(b) =~= escaped(a));
    } else {
        lemma_escaped_concat(a, b.drop_last());
        assert((a + b).drop_last() =~= a + b.drop_last());
        assert((a + b).last() == b.last());
        assert(escaped(a + b) =~= escaped(a) + escaped(b));
    }
}

/// The escaped form of a text begins with the escaped form of its first character.
pub proof fn lemma_escaped_front(s: Seq<char>)
    requires
        s.len() > 0,
    ensures
        escaped(s) == escape_char(s[0]) + escaped(s.skip(1)),
{
    let head = seq![s[0]];
    reveal_with_fuel(escaped, 2);
    assert(head.drop_last() =~= Seq::<char>::empty());
    assert(escaped(head) =~= escape_char(s[0]));
    assert(head + s.skip(1) =~= s);
    lemma_escaped_concat(head, s.skip(1));
}

/// Reads an escaped text back: a backslash is dropped and the character behind
/// it is kept, whatever it is; every other character is kept.
pub open spec fn unescaped(t: Seq<char>) -> Seq<char>
    decreases t.len(),
{
    if t.len() == 0 {
        Seq::empty()
    } else if t[0] == '\\' && t.len() >= 2 {
        seq![t[1]] + unescaped(t.skip(2))
    } else {
        seq![t[0]] + unescaped(t.skip(1))
    }
}

/// How many reserved characters a text holds.
pub open spec fn reserved_count(s: Seq<char>) -> nat
    decreases s.len(),
{
    if s.len() == 0 {
        0
    } else if is_reserved(s.last()) {
        reserved_count(s.drop_last()) + 1
    } else {
        reserved_count(s.drop_last())
    }
}

/// A text in which every backslash stands before a reserved character that it
/// escapes, and no reserved character stands without such a backslash.
pub open spec fn well_escaped(t: Seq<char>) -> bool
    decreases t.len(),
{
    if t.len() == 0 {
        true
    } else if t[0] == '\\' {
        t.len() >= 2 && is_reserved(t[1]) && well_escaped(t.skip(2))
    } else {
        !is_reserved(t[0]) && well_escaped(t.skip(1))
    }
}

/// Reading an escaped field back gives the field: every character of it is
/// there, in order, and nothing else but the backslashes that escape.
pub proof fn lemma_escape_round_trip(s: Seq<char>)
    ensures
        unescaped(escaped(s)) == s,
    decreases s.len(),
{
    if s.len() == 0 {
        assert(unescaped(escaped(s)) =~= s);
    } else {
        let rest = s.skip(1);
        let t = escaped(s);
        lemma_escaped_front(s);
        lemma_escape_round_trip(rest);
        if is_reserved(s[0]) {
            assert(t.skip(2) =~= escaped(rest));
        } else {
            assert(t.skip(1) =~= escaped(rest));
        }
        assert(seq![s[0]] + rest =~= s);
    }
}

/// An escaped field is longer than the field by one backslash for each
/// reserved character.
pub proof fn lemma_escaped_len(s: Seq<char>)
    ensures
        escaped(s).len() == s.len() + reserved_count(s),
    decreases s.len(),
{
    if s.len() > 0 {
        lemma_escaped_len(s.drop_last());
    }
}

/// In an escaped field every reserved character is escaped, and nothing else is.
pub proof fn lemma_escaped_is_well_escaped(s: Seq<char>)
    ensures
        well_escaped(escaped(s)),
    decreases s.len(),
{
    if s.len() > 0 {
        let rest = s.skip(1);
        let t = escaped(s);
        lemma_escaped_front(s);
        lemma_escaped_is_well_escaped(rest);
        if is_reserved(s[0]) {
            assert(t.skip(2) =~= escaped(rest));
        } else {
            assert(t.skip(1) =~= escaped(rest));
        }
    }
}

/// A field that holds a reserved character is never quoted: it stands escaped,
/// each reserved character of it behind exactly one backslash and no other
/// character changed or added. A field that holds none stands as it is, between
/// double quotes where quoting is set.
pub proof fn lemma_rendered_field(s: Seq<char>, quote: bool)
    ensures
        has_reserved(s) ==> rendered(s, quote) == escaped(s),
        !has_reserved(s) && quote ==> rendered(s, quote) == quoted(s),
        !has_reserved(s) && !quote ==> rendered(s, quote) == s,
        unescaped(escaped(s)) == s,
        well_escaped(escaped(s)),
        escaped(s).len() == s.len() + reserved_count(s),
{
    lemma_escaped_unchanged(s);
    lemma_escape_round_trip(s);
    lemma_escaped_is_well_escaped(s);
    lemma_escaped_len(s);
}

/// The text with a backslash put before every occurrence of one character.
pub open spec fn backslashed(s: Seq<char>, c: char) -> Seq<char>
    decreases s.len(),
{
    if s.len() == 0 {
        Seq::empty()
    } else if s.last() == c {
        backslashed(s.drop_last(), c) + seq!['\\', c]
    } else {
        backslashed(s.drop_last(), c).push(s.last())
    }
}

/// The four replacements in their fixed order: the backslash first, then the
/// double quote, the semicolon and the colon.
pub open spec fn replaced_in_order(s: Seq<char>) -> Seq<char> {
    backslashed(backslashed(backslashed(backslashed(s, '\\'), '"'), ';'), ':')
}

/// Putting backslashes before one character goes through a text piece by piece.
pub proof fn lemma_backslashed_concat(a: Seq<char>, b: Seq<char>, c: char)
    ensures
        backslashed(a + b, c) == backslashed(a, c) + backslashed(b, c),
    decreases b.len(),
{
    if b.len() == 0 {
        assert(a + b =~= a);
        assert(backslashed(a, c) + backslashed(b, c) =~= backslashed(a, c));
    } else {
        lemma_backslashed_concat(a, b.drop_last(), c);
        assert((a + b).drop_last() =~= a + b.drop_last());
        assert((a + b).last() == b.last());
        assert(backslashed(a + b, c) =~= backslashed(a, c) + backslashed(b, c));
    }
}

/// What putting backslashes before `c` makes of a text of one or two characters.
proof fn lemma_backslashed_short(x: char, y: char, c: char)
    ensures
        backslashed(seq![x], c) == (if x == c {
            seq!['\\', x]
        } else {
            seq![x]
        }),
        backslashed(seq![x, y], c) == backslashed(seq![x], c) + backslashed(seq![y], c),
{
    reveal_with_fuel(backslashed, 2);
    assert(seq![x].drop_last() =~= Seq::<char>::empty());
    assert(seq![y].drop_last() =~= Seq::<char>::empty());
    assert(backslashed(seq![x], c) =~= (if x == c {
        seq!['\\', x]
    } else {
        seq![x]
    }));
    assert(seq![x] + seq![y] =~= seq![x, y]);
    lemma_backslashed_concat(seq![x], seq![y], c);
}

/// The four replacements go through a text piece by piece.
pub proof fn lemma_replaced_in_order_concat(a: Seq<char>, b: Seq<char>)
    ensures
        replaced_in_order(a + b) == replaced_in_order(a) + replaced_in_order(b),
{
    lemma_backslashed_concat(a, b, '\\');
    lemma_backslashed_concat(backslashed(a, '\\'), backslashed(b, '\\'), '"');
    lemma_backslashed_concat(
        backslashed(backslashed(a, '\\'), '"'),
        backslashed(backslashed(b, '\\'), '"'),
        ';',
    );
    lemma_backslashed_concat(
        backslashed(backslashed(backslashed(a, '\\'), '"'), ';'),
        backslashed(backslashed(backslashed(b, '\\'), '"'), ';'),
        ':',
    );
}

/// The four replacements make of one character what escaping makes of it.
proof fn lemma_replaced_in_order_char(x: char)
    ensures
        replaced_in_order(seq![x]) == escape_char(x),
{
    lemma_backslashed_short(x, x, '\\');
    lemma_backslashed_short(x, x, '"');
    lemma_backslashed_short(x, x, ';');
    lemma_backslashed_short(x, x, ':');
    lemma_backslashed_short('\\', x, '"');
    lemma_backslashed_short('\\', x, ';');
    lemma_backslashed_short('\\', x, ':');
    let first = backslashed(seq![x], '\\');
    let second = backslashed(first, '"');
    let third = backslashed(second, ';');
    if x == '\\' {
        assert(first =~= seq!['\\', x]);
        assert(second =~= seq!['\\', x]);
        assert(third =~= seq!['\\', x]);
        assert(backslashed(third, ':') =~= seq!['\\', x]);
    } else if x == '"' {
        assert(second =~= seq!['\\', x]);
        assert(third =~= seq!['\\', x]);
        assert(backslashed(third, ':') =~= seq!['\\', x]);
    } else if x == ';' {
        assert(third =~= seq!['\\', x]);
        assert(backslashed(third, ':') =~= seq!['\\', x]);
    }
}

/// Escaping is the same as four replacements made one after the other over the
/// whole text, provided the backslash is replaced first: the backslashes that
/// the later replacements put in are then never escaped again.
pub proof fn lemma_escaped_is_replaced_in_order(s: Seq<char>)
    ensures
        escaped(s) == replaced_in_order(s),
    decreases s.len(),
{
    if s.len() == 0 {
        assert(replaced_in_order(s) =~= Seq::<char>::empty());
    } else {
        let front = s.drop_last();
        let tail = seq![s.last()];
        lemma_escaped_is_replaced_in_order(front);
        lemma_replaced_in_order_char(s.last());
        lemma_replaced_in_order_concat(front, tail);
        assert(front + tail =~= s);
    }
}

/// Renders a field: escaped, or quoted where `quote` is set and the field holds
/// no reserved character.
pub fn render(field: &str, quote: bool) -> (out: String)
    ensures
        out@ == rendered(field@, quote),
{
    proof {
        lemma_escaped_unchanged(field@);
    }
    if quote && !contains_reserved(field) {
        let mut out = String::new();
        out.push('"');
        out.append(field);
        out.push('"');
        assert(out@ =~= quoted(field@));
        out
    } else {
        escape(field)
    }
}

} // verus!

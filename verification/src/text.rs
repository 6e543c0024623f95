//! Text building blocks: joining, decimal numbers, replacement and string literals.

use vstd::prelude::*;

verus! {

/// The view of every item of a sequence.
pub open spec fn views<T: View>(items: Seq<T>) -> Seq<T::V> {
    Seq::new(items.len(), |i: int| items[i]@)
}

/// The views of a sequence with one more item are the views with one more view.
pub proof fn lemma_views_push<T: View>(items: Seq<T>, item: T)
    ensures
        views(items.push(item)) == views(items).push(item@),
{
    assert(views(items.push(item)) =~= views(items).push(item@));
}

/// One more item of a sequence is taken by pushing the next one.
pub proof fn lemma_take_push<T>(items: Seq<T>, i: int)
    requires
        0 <= i < items.len(),
    ensures
        items.take(i + 1) == items.take(i).push(items[i]),
        items.take(i + 1).drop_last() == items.take(i),
        items.take(i + 1).last() == items[i],
{
    assert(items.take(i + 1) =~= items.take(i).push(items[i]));
    assert(items.take(i + 1).drop_last() =~= items.take(i));
}

/// The parts in order, with `sep` between each two neighbours.
pub open spec fn join(parts: Seq<Seq<char>>, sep: Seq<char>) -> Seq<char>
    decreases parts.len(),
{
    if parts.len() == 0 {
        Seq::empty()
    } else if parts.len() == 1 {
        parts[0]
    } else {
        join(parts.drop_last(), sep) + sep + parts.last()
    }
}

/// The parts in order, one after the other.
pub open spec fn concat(parts: Seq<Seq<char>>) -> Seq<char>
    decreases parts.len(),
{
    if parts.len() == 0 {
        Seq::empty()
    } else {
        concat(parts.drop_last()) + parts.last()
    }
}

/// Whether `part` stands somewhere in `text`, unbroken.
pub open spec fn occurs_in(part: Seq<char>, text: Seq<char>) -> bool {
    exists|at: int|
        0 <= at && at + part.len() <= text.len() && #[trigger] text.subrange(
            at,
            at + part.len(),
        ) == part
}

/// What stands in a text stands in every text that holds that text.
pub proof fn lemma_occurs_within(part: Seq<char>, before: Seq<char>, text: Seq<char>, after: Seq<char>)
    requires
        occurs_in(part, text),
    ensures
        occurs_in(part, before + text + after),
{
    let at = choose|at: int|
        0 <= at && at + part.len() <= text.len() && #[trigger] text.subrange(
            at,
            at + part.len(),
        ) == part;
    let whole = before + text + after;
    let moved = before.len() + at;
    assert(whole.subrange(moved, moved + part.len()) =~= text.subrange(at, at + part.len()));
}

/// A text stands in itself.
pub proof fn lemma_occurs_in_itself(text: Seq<char>)
    ensures
        occurs_in(text, text),
{
    assert(text.subrange(0, 0 + text.len() as int) =~= text);
}

/// Every part stands in what the parts are joined to.
pub proof fn lemma_join_holds_part(parts: Seq<Seq<char>>, sep: Seq<char>, i: int)
    requires
        0 <= i < parts.len(),
    ensures
        occurs_in(parts[i], join(parts, sep)),
    decreases parts.len(),
{
    let empty = Seq::<char>::empty();
    if parts.len() == 1 {
        lemma_occurs_in_itself(parts[0]);
    } else if i == parts.len() - 1 {
        lemma_occurs_in_itself(parts.last());
        lemma_occurs_within(parts.last(), join(parts.drop_last(), sep) + sep, parts.last(), empty);
        assert(join(parts.drop_last(), sep) + sep + parts.last() + empty =~= join(parts, sep));
    } else {
        lemma_join_holds_part(parts.drop_last(), sep, i);
        lemma_occurs_within(
            parts[i],
            empty,
            join(parts.drop_last(), sep),
            sep + parts.last(),
        );
        assert(empty + join(parts.drop_last(), sep) + (sep + parts.last()) =~= join(parts, sep));
    }
}

/// Appends a copy of `text` to a list of texts.
pub fn push_text(list: &mut Vec<String>, text: &str)
    ensures
        views(final(list)@) == views(old(list)@).push(text@),
{
    let item = text.to_owned();
    proof {
        lemma_views_push(list@, item);
    }
    list.push(item);
}

/// Appends a copy of every text of `more` to a list of texts.
pub fn push_all(list: &mut Vec<String>, more: &Vec<String>)
    ensures
        views(final(list)@) == views(old(list)@) + views(more@),
{
    let ghost before = views(list@);
    let mut i: usize = 0;
    assert(before + views(more@).take(0) =~= before);
    while i < more.len()
        invariant
            i <= more.len(),
            views(list@) == before + views(more@).take(i as int),
        decreases more.len() - i,
    {
        proof {
            lemma_views_push(list@, more@[i as int]);
            lemma_take_push(views(more@), i as int);
            assert((before + views(more@).take(i as int)).push(more@[i as int]@) =~= before
                + views(more@).take(i + 1));
        }
        list.push(more[i].clone());
        i += 1;
    }
    assert(views(more@).take(more.len() as int) =~= views(more@));
}

/// Joins `parts` with `sep` between each two neighbours.
pub fn join_text(parts: &Vec<String>, sep: &str) -> (r: String)
    ensures
        r@ == join(views(parts@), sep@),
{
    let mut out = String::new();
    let mut i: usize = 0;
    while i < parts.len()
        invariant
            i <= parts.len(),
            out@ == join(views(parts@).take(i as int), sep@),
        decreases parts.len() - i,
    {
        let ghost before = views(parts@).take(i as int);
        let ghost after = views(parts@).take(i + 1);
        if i > 0 {
            out.append(sep);
        }
        out.append(parts[i].as_str());
        proof {
            assert(after.drop_last() == before);
            assert(after.last() == parts@[i as int]@);
        }
        i += 1;
    }
    proof {
        assert(views(parts@).take(parts.len() as int) == views(parts@));
    }
    out
}

/// Puts `parts` one after the other.
pub fn concat_text(parts: &Vec<String>) -> (r: String)
    ensures
        r@ == concat(views(parts@)),
{
    let mut out = String::new();
    let mut i: usize = 0;
    while i < parts.len()
        invariant
            i <= parts.len(),
            out@ == concat(views(parts@).take(i as int)),
        decreases parts.len() - i,
    {
        let ghost before = views(parts@).take(i as int);
        let ghost after = views(parts@).take(i + 1);
        out.append(parts[i].as_str());
        proof {
            assert(after.drop_last() == before);
            assert(after.last() == parts@[i as int]@);
        }
        i += 1;
    }
    proof {
        assert(views(parts@).take(parts.len() as int) == views(parts@));
    }
    out
}

/// One decimal digit.
pub open spec fn digit(d: nat) -> Seq<char> {
    if d == 0 {
        "0"@
    } else if d == 1 {
        "1"@
    } else if d == 2 {
        "2"@
    } else if d == 3 {
        "3"@
    } else if d == 4 {
        "4"@
    } else if d == 5 {
        "5"@
    } else if d == 6 {
        "6"@
    } else if d == 7 {
        "7"@
    } else if d == 8 {
        "8"@
    } else {
        "9"@
    }
}

/// A number in decimal digits, without leading zeros.
pub open spec fn decimal(n: nat) -> Seq<char>
    decreases n,
{
    if n < 10 {
        digit(n)
    } else {
        decimal(n / 10) + digit(n % 10)
    }
}

/// A digit is one character, and different digits are different characters.
pub proof fn lemma_digits_differ(a: nat, b: nat)
    requires
        a < 10,
        b < 10,
    ensures
        digit(a).len() == 1,
        digit(a) == digit(b) ==> a == b,
{
    reveal_strlit("0");
    reveal_strlit("1");
    reveal_strlit("2");
    reveal_strlit("3");
    reveal_strlit("4");
    reveal_strlit("5");
    reveal_strlit("6");
    reveal_strlit("7");
    reveal_strlit("8");
    reveal_strlit("9");
    if digit(a) == digit(b) {
        assert(digit(a)[0] == digit(b)[0]);
    }
}

/// A number below ten is written with one digit, any other with more.
pub proof fn lemma_decimal_len(n: nat)
    ensures
        decimal(n).len() >= 1,
        n < 10 <==> decimal(n).len() == 1,
    decreases n,
{
    lemma_digits_differ(n % 10, 0);
    if n >= 10 {
        lemma_decimal_len(n / 10);
    }
}

/// Different numbers are written differently.
pub proof fn lemma_decimal_injective(a: nat, b: nat)
    requires
        decimal(a) == decimal(b),
    ensures
        a == b,
    decreases a,
{
    lemma_decimal_len(a);
    lemma_decimal_len(b);
    lemma_digits_differ(a % 10, b % 10);
    lemma_digits_differ(b % 10, a % 10);
    if a >= 10 {
        let high_a = decimal(a / 10);
        let high_b = decimal(b / 10);
        let low_a = digit(a % 10);
        let low_b = digit(b % 10);
        assert((high_a + low_a).drop_last() =~= high_a);
        assert((high_b + low_b).drop_last() =~= high_b);
        assert((high_a + low_a).last() == low_a[0]);
        assert((high_b + low_b).last() == low_b[0]);
        assert(low_a =~= low_b);
        lemma_decimal_injective(a / 10, b / 10);
    }
}

fn digit_text(d: usize) -> (r: &'static str)
    requires
        d < 10,
    ensures
        r@ == digit(d as nat),
{
    if d == 0 {
        "0"
    } else if d == 1 {
        "1"
    } else if d == 2 {
        "2"
    } else if d == 3 {
        "3"
    } else if d == 4 {
        "4"
    } else if d == 5 {
        "5"
    } else if d == 6 {
        "6"
    } else if d == 7 {
        "7"
    } else if d == 8 {
        "8"
    } else {
        "9"
    }
}

/// Writes `n` in decimal digits.
pub fn decimal_text(n: usize) -> (r: String)
    ensures
        r@ == decimal(n as nat),
    decreases n,
{
    if n < 10 {
        digit_text(n).to_owned()
    } else {
        let mut out = decimal_text(n / 10);
        out.append(digit_text(n % 10));
        out
    }
}

/// `text` with every occurrence of `from` replaced by `to`. Occurrences are
/// found from left to right and do not overlap. With an empty `from` the text
/// is left as it is.
pub open spec fn replace_all(text: Seq<char>, from: Seq<char>, to: Seq<char>) -> Seq<char>
    decreases text.len(),
{
    if from.len() == 0 || text.len() < from.len() {
        text
    } else if text.subrange(0, from.len() as int) == from {
        to + replace_all(text.subrange(from.len() as int, text.len() as int), from, to)
    } else {
        seq![text[0]] + replace_all(text.subrange(1, text.len() as int), from, to)
    }
}

/// A text that lacks one of the characters of `from` holds no occurrence of
/// `from`, so nothing in it is replaced.
pub proof fn lemma_replace_without(text: Seq<char>, from: Seq<char>, to: Seq<char>, k: int)
    requires
        0 <= k < from.len(),
        !text.contains(from[k]),
    ensures
        replace_all(text, from, to) == text,
    decreases text.len(),
{
    if text.len() >= from.len() {
        let start = text.subrange(0, from.len() as int);
        assert(start[k] == text[k]);
        assert(text.contains(text[k]));
        assert(start != from);
        let rest = text.subrange(1, text.len() as int);
        assert forall|c: char| rest.contains(c) implies text.contains(c) by {
            let i = choose|i: int| 0 <= i < rest.len() && rest[i] == c;
            assert(text[i + 1] == c);
        }
        lemma_replace_without(rest, from, to, k);
        assert(seq![text[0]] + rest =~= text);
    }
}

/// Calls `str::replace` of std with a string as the pattern. std documents
/// that every disjoint match of the pattern, searched from the left, is
/// replaced: that is `replace_all`. The empty pattern, which std matches
/// between all characters, is left out.
#[verifier::external_body]
fn replace(text: &str, from: &str, to: &str) -> (r: String)
    requires
        from@.len() > 0,
    ensures
        r@ == replace_all(text@, from@, to@),
{
    text.replace(from, to)
}

/// A type name as it is shown to a reader: no space before a comma or an
/// angle bracket, and none after an opening angle bracket.
pub open spec fn tidied(text: Seq<char>) -> Seq<char> {
    replace_all(
        replace_all(replace_all(replace_all(text, " ,"@, ","@), " >"@, ">"@), " <"@, "<"@),
        "< "@,
        "<"@,
    )
}

/// A name without spaces is tidy as it is.
pub proof fn tidied_without_spaces(text: Seq<char>)
    requires
        !text.contains(' '),
    ensures
        tidied(text) == text,
{
    reveal_strlit(" ,");
    reveal_strlit(" >");
    reveal_strlit(" <");
    reveal_strlit("< ");
    lemma_replace_without(text, " ,"@, ","@, 0);
    lemma_replace_without(text, " >"@, ">"@, 0);
    lemma_replace_without(text, " <"@, "<"@, 0);
    lemma_replace_without(text, "< "@, "<"@, 1);
}

/// Removes the spaces that token text has around commas and angle brackets.
pub fn tidy(text: &str) -> (r: String)
    ensures
        r@ == tidied(text@),
{
    proof {
        reveal_strlit(" ,");
        reveal_strlit(" >");
        reveal_strlit(" <");
        reveal_strlit("< ");
    }
    let commas = replace(text, " ,", ",");
    let closing = replace(commas.as_str(), " >", ">");
    let opening = replace(closing.as_str(), " <", "<");
    replace(opening.as_str(), "< ", "<")
}

/// Calls `String::push` of std, which appends one character.
#[verifier::external_body]
fn push_char(text: &mut String, c: char)
    ensures
        final(text)@ == old(text)@.push(c),
{
    text.push(c);
}

/// What stands for one character inside a string literal: a backslash comes
/// before a double quote and before a backslash, a carriage return is written
/// as `\r`, every other character stands for itself.
pub open spec fn escaped(c: char) -> Seq<char> {
    if c == '"' {
        seq!['\\', '"']
    } else if c == '\\' {
        seq!['\\', '\\']
    } else if c == '\r' {
        seq!['\\', 'r']
    } else {
        seq![c]
    }
}

/// The characters of `text`, each as it stands inside a string literal.
pub open spec fn escape(text: Seq<char>) -> Seq<char>
    decreases text.len(),
{
    if text.len() == 0 {
        Seq::empty()
    } else {
        escape(text.drop_last()) + escaped(text.last())
    }
}

/// The string literal that denotes `text`.
pub open spec fn string_literal(text: Seq<char>) -> Seq<char> {
    seq!['"'] + escape(text) + seq!['"']
}

/// Writes `text` as a string literal.
pub fn quote_text(text: &str) -> (r: String)
    ensures
        r@ == string_literal(text@),
{
    let n = text.unicode_len();
    let mut inner = String::new();
    let mut i: usize = 0;
    while i < n
        invariant
            n == text@.len(),
            i <= n,
            inner@ == escape(text@.take(i as int)),
        decreases n - i,
    {
        let c = text.get_char(i);
        let ghost before = inner@;
        if c == '"' {
            push_char(&mut inner, '\\');
            push_char(&mut inner, '"');
        } else if c == '\\' {
            push_char(&mut inner, '\\');
            push_char(&mut inner, '\\');
        } else if c == '\r' {
            push_char(&mut inner, '\\');
            push_char(&mut inner, 'r');
        } else {
            push_char(&mut inner, c);
        }
        proof {
            assert(text@.take(i + 1).drop_last() == text@.take(i as int));
            assert(text@.take(i + 1).last() == c);
            assert(inner@ == before + escaped(c));
        }
        i += 1;
    }
    proof {
        assert(text@.take(n as int) == text@);
    }
    let mut out = String::new();
    push_char(&mut out, '"');
    out.append(inner.as_str());
    push_char(&mut out, '"');
    proof {
        assert(out@ == string_literal(text@));
    }
    out
}

} // verus!

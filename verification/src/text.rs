//! Text as sequences of characters: white space, splitting, lines, trimming
//! and joining, each with a mathematical definition and a verified
//! implementation on `Vec<char>`.

use vstd::prelude::*;

verus! {

/// Whether `c` is white space: one of the code points that carry the Unicode
/// property `White_Space`.
pub open spec fn is_whitespace(c: char) -> bool {
    let u = c as u32;
    ||| 0x09 <= u <= 0x0D
    ||| u == 0x20
    ||| u == 0x85
    ||| u == 0xA0
    ||| u == 0x1680
    ||| 0x2000 <= u <= 0x200A
    ||| u == 0x2028
    ||| u == 0x2029
    ||| u == 0x202F
    ||| u == 0x205F
    ||| u == 0x3000
}

/// `s` without its leading white space.
pub open spec fn trim_start(s: Seq<char>) -> Seq<char>
    decreases s.len(),
{
    if s.len() > 0 && is_whitespace(s.first()) {
        trim_start(s.drop_first())
    } else {
        s
    }
}

/// `s` without its trailing white space.
pub open spec fn trim_end(s: Seq<char>) -> Seq<char>
    decreases s.len(),
{
    if s.len() > 0 && is_whitespace(s.last()) {
        trim_end(s.drop_last())
    } else {
        s
    }
}

/// `s` without its leading and trailing white space.
pub open spec fn trim(s: Seq<char>) -> Seq<char> {
    trim_end(trim_start(s))
}

/// The pieces of `s` between the occurrences of `sep`. There is always at
/// least one piece: a text with `n` separators has `n + 1` pieces, some of
/// them possibly empty.
pub open spec fn split(s: Seq<char>, sep: char) -> Seq<Seq<char>>
    decreases s.len(),
{
    if s.len() == 0 {
        seq![Seq::<char>::empty()]
    } else {
        let before = split(s.drop_last(), sep);
        if s.last() == sep {
            before.push(Seq::<char>::empty())
        } else {
            before.drop_last().push(before.last().push(s.last()))
        }
    }
}

/// `line` without one carriage return at its end, if it has one.
pub open spec fn strip_carriage_return(line: Seq<char>) -> Seq<char> {
    if line.len() > 0 && line.last() == '\r' {
        line.drop_last()
    } else {
        line
    }
}

/// The lines of `s`. A line ends at a line feed, or at a carriage return
/// directly followed by a line feed; neither belongs to the line. The last
/// line needs no line ending, and a text that ends with a line ending has no
/// empty line after it. A carriage return that no line feed follows stays.
pub open spec fn lines(s: Seq<char>) -> Seq<Seq<char>> {
    let pieces = split(s, '\n');
    let ended = pieces.drop_last().map_values(|p: Seq<char>| strip_carriage_return(p));
    if pieces.last().len() == 0 {
        ended
    } else {
        ended.push(pieces.last())
    }
}

/// The pieces, with `sep` between each two neighbours.
pub open spec fn join(pieces: Seq<Seq<char>>, sep: Seq<char>) -> Seq<char>
    decreases pieces.len(),
{
    if pieces.len() == 0 {
        Seq::<char>::empty()
    } else if pieces.len() == 1 {
        pieces[0]
    } else {
        join(pieces.drop_last(), sep) + sep + pieces.last()
    }
}

/// The character for a decimal digit.
pub open spec fn digit(d: nat) -> char
    recommends
        d < 10,
{
    seq!['0', '1', '2', '3', '4', '5', '6', '7', '8', '9'][d as int]
}

/// `n` in decimal, without sign or leading zeros.
pub open spec fn decimal(n: nat) -> Seq<char>
    decreases n,
{
    if n < 10 {
        seq![digit(n)]
    } else {
        decimal(n / 10).push(digit(n % 10))
    }
}

/// The character sequences that a vector of character vectors stands for.
pub open spec fn views(v: Seq<Vec<char>>) -> Seq<Seq<char>> {
    v.map_values(|p: Vec<char>| p@)
}

/// Splitting always yields at least one piece.
pub proof fn lemma_split_nonempty(s: Seq<char>, sep: char)
    ensures
        split(s, sep).len() >= 1,
    decreases s.len(),
{
    if s.len() > 0 {
        lemma_split_nonempty(s.drop_last(), sep);
    }
}

/// No piece of a split holds the separator.
pub proof fn lemma_split_pieces_lack_separator(s: Seq<char>, sep: char)
    ensures
        forall|i: int, j: int|
            0 <= i < split(s, sep).len() && 0 <= j < split(s, sep)[i].len() ==> split(
                s,
                sep,
            )[i][j] != sep,
    decreases s.len(),
{
    if s.len() > 0 {
        lemma_split_nonempty(s.drop_last(), sep);
        lemma_split_pieces_lack_separator(s.drop_last(), sep);
    }
}

/// Joining the pieces of a split with the separator gives the text back.
pub proof fn lemma_join_split(s: Seq<char>, sep: char)
    ensures
        join(split(s, sep), seq![sep]) == s,
    decreases s.len(),
{
    if s.len() > 0 {
        let shorter = s.drop_last();
        let before = split(shorter, sep);
        lemma_split_nonempty(shorter, sep);
        lemma_join_split(shorter, sep);
        assert(s == shorter.push(s.last()));
        if s.last() == sep {
            let now = before.push(Seq::<char>::empty());
            assert(now.drop_last() == before);
            assert(join(now, seq![sep]) == join(before, seq![sep]) + seq![sep] + Seq::<
                char,
            >::empty());
            assert(join(now, seq![sep]) == s);
        } else {
            let grown = before.last().push(s.last());
            let now = before.drop_last().push(grown);
            assert(now.drop_last() == before.drop_last());
            if before.len() == 1 {
                assert(join(before, seq![sep]) == before[0]);
                assert(join(now, seq![sep]) == grown);
            } else {
                assert(join(before, seq![sep]) == join(before.drop_last(), seq![sep]) + seq![sep]
                    + before.last());
                assert(join(now, seq![sep]) == join(before.drop_last(), seq![sep]) + seq![sep]
                    + grown);
                assert(join(now, seq![sep]) == join(before, seq![sep]).push(s.last()));
            }
        }
    }
}

/// A trimmed text neither begins nor ends with white space.
pub proof fn lemma_trim_has_no_margin(s: Seq<char>)
    ensures
        trim(s).len() > 0 ==> !is_whitespace(trim(s).first()) && !is_whitespace(trim(s).last()),
{
    lemma_trim_start_first(s);
    lemma_trim_end_keeps_first(trim_start(s));
}

proof fn lemma_trim_start_first(s: Seq<char>)
    ensures
        trim_start(s).len() > 0 ==> !is_whitespace(trim_start(s).first()),
    decreases s.len(),
{
    if s.len() > 0 && is_whitespace(s.first()) {
        lemma_trim_start_first(s.drop_first());
    }
}

proof fn lemma_trim_end_keeps_first(s: Seq<char>)
    ensures
        trim_end(s).len() > 0 ==> !is_whitespace(trim_end(s).last()) && trim_end(s).first()
            == s.first(),
        trim_end(s).len() <= s.len(),
    decreases s.len(),
{
    if s.len() > 0 && is_whitespace(s.last()) {
        lemma_trim_end_keeps_first(s.drop_last());
    }
}

/// Whether `s` holds nothing but white space.
pub open spec fn all_space(s: Seq<char>) -> bool {
    forall|i: int| 0 <= i < s.len() ==> is_whitespace(#[trigger] s[i])
}

/// White space in front of a text does not change what is left of it
/// without its leading white space.
pub proof fn lemma_trim_start_skips_padding(pad: Seq<char>, s: Seq<char>)
    requires
        all_space(pad),
    ensures
        trim_start(pad + s) == trim_start(s),
    decreases pad.len(),
{
    if pad.len() == 0 {
        assert(pad + s =~= s);
    } else {
        let whole = pad + s;
        assert(whole.first() == pad[0]);
        assert(whole.drop_first() =~= pad.drop_first() + s);
        assert(all_space(pad.drop_first())) by {
            assert forall|i: int| 0 <= i < pad.drop_first().len() implies is_whitespace(
                #[trigger] pad.drop_first()[i],
            ) by {
                assert(pad.drop_first()[i] == pad[i + 1]);
            }
        }
        lemma_trim_start_skips_padding(pad.drop_first(), s);
    }
}

/// White space behind a text does not change what is left of it without its
/// trailing white space.
pub proof fn lemma_trim_end_skips_padding(s: Seq<char>, pad: Seq<char>)
    requires
        all_space(pad),
    ensures
        trim_end(s + pad) == trim_end(s),
    decreases pad.len(),
{
    if pad.len() == 0 {
        assert(s + pad =~= s);
    } else {
        let whole = s + pad;
        assert(whole.last() == pad[pad.len() - 1]);
        assert(whole.drop_last() =~= s + pad.drop_last());
        assert(all_space(pad.drop_last())) by {
            assert forall|i: int| 0 <= i < pad.drop_last().len() implies is_whitespace(
                #[trigger] pad.drop_last()[i],
            ) by {
                assert(pad.drop_last()[i] == pad[i]);
            }
        }
        lemma_trim_end_skips_padding(s, pad.drop_last());
    }
}

/// A text is its leading white space followed by what `trim_start` leaves,
/// and that does not begin with white space.
pub proof fn lemma_trim_start_parts(s: Seq<char>)
    ensures
        trim_start(s).len() <= s.len(),
        all_space(s.take(s.len() - trim_start(s).len())),
        trim_start(s) == s.skip(s.len() - trim_start(s).len()),
        trim_start(s).len() > 0 ==> !is_whitespace(trim_start(s).first()),
    decreases s.len(),
{
    if s.len() > 0 && is_whitespace(s.first()) {
        let rest = s.drop_first();
        lemma_trim_start_parts(rest);
        let n = s.len() - trim_start(s).len();
        assert(trim_start(s) =~= s.skip(n)) by {
            assert(rest.skip(n - 1) =~= s.skip(n));
        }
        assert forall|i: int| 0 <= i < s.take(n).len() implies is_whitespace(
            #[trigger] s.take(n)[i],
        ) by {
            if i > 0 {
                assert(s.take(n)[i] == rest.take(n - 1)[i - 1]);
            }
        }
    } else {
        assert(s.skip(0) =~= s);
    }
}

/// A text is what `trim_end` leaves followed by its trailing white space.
pub proof fn lemma_trim_end_parts(s: Seq<char>)
    ensures
        trim_end(s).len() <= s.len(),
        all_space(s.skip(trim_end(s).len() as int)),
        trim_end(s) == s.take(trim_end(s).len() as int),
    decreases s.len(),
{
    if s.len() > 0 && is_whitespace(s.last()) {
        let rest = s.drop_last();
        lemma_trim_end_parts(rest);
        let m = trim_end(s).len() as int;
        assert(trim_end(s) =~= s.take(m)) by {
            assert(rest.take(m) =~= s.take(m));
        }
        assert forall|i: int| 0 <= i < s.skip(m).len() implies is_whitespace(
            #[trigger] s.skip(m)[i],
        ) by {
            if i < rest.skip(m).len() {
                assert(s.skip(m)[i] == rest.skip(m)[i]);
            }
        }
    } else {
        assert(s.take(s.len() as int) =~= s);
    }
}

/// White space around a text does not change what trimming leaves of it.
pub proof fn lemma_trim_ignores_padding(before: Seq<char>, s: Seq<char>, after: Seq<char>)
    requires
        all_space(before),
        all_space(after),
    ensures
        trim(before + s + after) == trim(s),
{
    assert(before + s + after =~= before + (s + after));
    lemma_trim_start_skips_padding(before, s + after);
    lemma_trim_start_parts(s);
    let n = s.len() - trim_start(s).len();
    let lead = s.take(n);
    let core = trim_start(s);
    assert(s =~= lead + core);
    assert(s + after =~= lead + (core + after));
    lemma_trim_start_skips_padding(lead, core + after);
    if core.len() > 0 {
        assert((core + after).first() == core.first());
        assert(trim_start(core + after) == core + after);
        lemma_trim_end_skips_padding(core, after);
    } else {
        assert(core + after =~= after + Seq::<char>::empty());
        lemma_trim_start_skips_padding(after, Seq::<char>::empty());
        assert(trim_start(core + after) == Seq::<char>::empty());
        assert(core =~= Seq::<char>::empty());
    }
}

/// A text is white space, then what trimming leaves of it, then white space
/// again.
pub proof fn lemma_trim_parts(s: Seq<char>) -> (margins: (Seq<char>, Seq<char>))
    ensures
        all_space(margins.0),
        all_space(margins.1),
        s == margins.0 + trim(s) + margins.1,
{
    lemma_trim_start_parts(s);
    let n = s.len() - trim_start(s).len();
    let middle = trim_start(s);
    lemma_trim_end_parts(middle);
    let m = trim_end(middle).len() as int;
    let margins = (s.take(n), middle.skip(m));
    assert(middle =~= middle.take(m) + middle.skip(m));
    assert(s =~= s.take(n) + s.skip(n));
    assert(s =~= margins.0 + trim(s) + margins.1);
    margins
}

/// The pieces of two texts put together: the pieces of the first, of which
/// the last goes on with the first piece of the second, and then the other
/// pieces of the second.
pub proof fn lemma_split_concat(x: Seq<char>, y: Seq<char>, sep: char)
    ensures
        split(x, sep).len() >= 1,
        split(y, sep).len() >= 1,
        split(x + y, sep) == split(x, sep).drop_last().push(
            split(x, sep).last() + split(y, sep).first(),
        ) + split(y, sep).drop_first(),
    decreases y.len(),
{
    lemma_split_nonempty(x, sep);
    lemma_split_nonempty(y, sep);
    let front = split(x, sep).drop_last();
    let last = split(x, sep).last();
    if y.len() == 0 {
        assert(x + y =~= x);
        assert(last + split(y, sep).first() =~= last);
        assert(front.push(last) =~= split(x, sep));
        assert(split(y, sep).drop_first() =~= Seq::<Seq<char>>::empty());
        assert(front.push(last) + Seq::<Seq<char>>::empty() =~= front.push(last));
    } else {
        let shorter = y.drop_last();
        let c = y.last();
        lemma_split_concat(x, shorter, sep);
        lemma_split_nonempty(shorter, sep);
        let whole = x + y;
        assert(whole.drop_last() =~= x + shorter);
        assert(whole.last() == c);
        let pieces = split(shorter, sep);
        let joined = split(x + shorter, sep);
        assert(joined == front.push(last + pieces.first()) + pieces.drop_first());
        if c == sep {
            assert(split(y, sep) == pieces.push(Seq::<char>::empty()));
            assert(split(y, sep).first() == pieces.first());
            assert(split(y, sep).drop_first() =~= pieces.drop_first().push(Seq::<char>::empty()));
            assert(split(whole, sep) =~= front.push(last + split(y, sep).first()) + split(
                y,
                sep,
            ).drop_first());
        } else {
            let grown = pieces.last().push(c);
            assert(split(y, sep) == pieces.drop_last().push(grown));
            if pieces.len() == 1 {
                assert(split(y, sep).first() == grown);
                assert(split(y, sep).drop_first() =~= Seq::<Seq<char>>::empty());
                assert(pieces.drop_first() =~= Seq::<Seq<char>>::empty());
                assert(joined =~= front.push(last + pieces.first()));
                assert(joined.last() == last + pieces.first());
                assert((last + pieces.first()).push(c) =~= last + grown);
                assert(joined.drop_last() =~= front);
                assert(split(whole, sep) =~= front.push(last + grown) + Seq::<
                    Seq<char>,
                >::empty());
            } else {
                assert(split(y, sep).first() == pieces.first());
                assert(split(y, sep).drop_first() =~= pieces.drop_first().drop_last().push(grown));
                assert(joined.last() == pieces.last());
                assert(joined.drop_last() =~= front.push(last + pieces.first())
                    + pieces.drop_first().drop_last());
                assert(split(whole, sep) =~= front.push(last + split(y, sep).first()) + split(
                    y,
                    sep,
                ).drop_first());
            }
        }
    }
}

/// A text without the separator is its own single piece.
pub proof fn lemma_split_single(s: Seq<char>, sep: char)
    requires
        forall|i: int| 0 <= i < s.len() ==> s[i] != sep,
    ensures
        split(s, sep) == seq![s],
    decreases s.len(),
{
    if s.len() == 0 {
        assert(s =~= Seq::<char>::empty());
    } else {
        lemma_split_single(s.drop_last(), sep);
        assert(s.drop_last().push(s.last()) =~= s);
        assert(seq![s.drop_last()].drop_last().push(s) =~= seq![s]);
    }
}

/// Splitting undoes joining: pieces that do not hold the separator, joined
/// with it between them, are the pieces of the joined text.
pub proof fn lemma_split_join(pieces: Seq<Seq<char>>, sep: char)
    requires
        pieces.len() >= 1,
        forall|i: int, j: int| 0 <= i < pieces.len() && 0 <= j < pieces[i].len() ==> pieces[i][j] != sep,
    ensures
        split(join(pieces, seq![sep]), sep) == pieces,
    decreases pieces.len(),
{
    if pieces.len() == 1 {
        lemma_split_single(pieces[0], sep);
        assert(seq![pieces[0]] =~= pieces);
    } else {
        let earlier = pieces.drop_last();
        let last = pieces.last();
        assert forall|i: int, j: int|
            0 <= i < earlier.len() && 0 <= j < earlier[i].len() implies earlier[i][j] != sep by {
            assert(earlier[i] == pieces[i]);
        }
        lemma_split_join(earlier, sep);
        let head = join(earlier, seq![sep]) + seq![sep];
        assert(head.drop_last() =~= join(earlier, seq![sep]));
        assert(head.last() == sep);
        assert(split(head, sep) == earlier.push(Seq::<char>::empty()));
        lemma_split_single(last, sep);
        lemma_split_concat(head, last, sep);
        assert(join(pieces, seq![sep]) == head + last);
        assert(Seq::<char>::empty() + last =~= last);
        assert(earlier.push(Seq::<char>::empty()).drop_last() =~= earlier);
        assert(seq![last].drop_first() =~= Seq::<Seq<char>>::empty());
        assert(split(head + last, sep) =~= earlier.push(last));
        assert(earlier.push(last) =~= pieces);
    }
}

/// The pieces of a text of white space hold nothing but white space.
pub proof fn lemma_split_of_space(s: Seq<char>, sep: char)
    requires
        all_space(s),
    ensures
        forall|i: int| 0 <= i < split(s, sep).len() ==> all_space(#[trigger] split(s, sep)[i]),
    decreases s.len(),
{
    if s.len() > 0 {
        let shorter = s.drop_last();
        assert(all_space(shorter)) by {
            assert forall|i: int| 0 <= i < shorter.len() implies is_whitespace(
                #[trigger] shorter[i],
            ) by {
                assert(shorter[i] == s[i]);
            }
        }
        lemma_split_of_space(shorter, sep);
        lemma_split_nonempty(shorter, sep);
        let before = split(shorter, sep);
        assert(is_whitespace(s[s.len() - 1]));
        assert forall|i: int| 0 <= i < split(s, sep).len() implies all_space(
            #[trigger] split(s, sep)[i],
        ) by {
            if i < before.len() - 1 {
                assert(split(s, sep)[i] == before[i]);
            } else if s.last() == sep {
                if i < before.len() {
                    assert(split(s, sep)[i] == before[i]);
                }
            } else {
                assert(split(s, sep)[i] == before.last().push(s.last()));
                assert(all_space(before[before.len() - 1]));
            }
        }
    }
}

/// Whether `c` is white space.
pub fn is_space(c: char) -> (b: bool)
    ensures
        b == is_whitespace(c),
{
    let u: u32 = c as u32;
    (0x09 <= u && u <= 0x0D) || u == 0x20 || u == 0x85 || u == 0xA0 || u == 0x1680 || (0x2000 <= u
        && u <= 0x200A) || u == 0x2028 || u == 0x2029 || u == 0x202F || u == 0x205F || u == 0x3000
}

/// The characters of a string slice, in order.
pub fn chars_of(s: &str) -> (v: Vec<char>)
    ensures
        v@ == s@,
{
    let mut v: Vec<char> = Vec::new();
    for c in it: s.chars()
        invariant
            v@ == it.seq().take(it.index() as int),
            it.seq() == s@,
    {
        v.push(c);
    }
    v
}

/// `String::push`: the character is appended at the end of the string.
#[verifier::external_body]
fn push_char(s: &mut String, c: char)
    ensures
        final(s)@ == old(s)@.push(c),
{
    s.push(c)
}

/// The string made of the characters `chars[from..to]`.
pub fn string_of_range(chars: &Vec<char>, from: usize, to: usize) -> (s: String)
    requires
        from <= to <= chars.len(),
    ensures
        s@ == chars@.subrange(from as int, to as int),
{
    let mut s = String::new();
    let mut i: usize = from;
    while i < to
        invariant
            from <= i <= to <= chars.len(),
            s@ == chars@.subrange(from as int, i as int),
        decreases to - i,
    {
        push_char(&mut s, chars[i]);
        i = i + 1;
    }
    s
}

/// The string made of the characters of `chars`.
pub fn string_of(chars: &Vec<char>) -> (s: String)
    ensures
        s@ == chars@,
{
    let s = string_of_range(chars, 0, chars.len());
    assert(chars@.subrange(0, chars.len() as int) == chars@);
    s
}

/// A copy of the characters `chars[from..to]`.
pub fn copy_range(chars: &Vec<char>, from: usize, to: usize) -> (v: Vec<char>)
    requires
        from <= to <= chars.len(),
    ensures
        v@ == chars@.subrange(from as int, to as int),
{
    let mut v: Vec<char> = Vec::new();
    let mut i: usize = from;
    while i < to
        invariant
            from <= i <= to <= chars.len(),
            v@ == chars@.subrange(from as int, i as int),
        decreases to - i,
    {
        v.push(chars[i]);
        i = i + 1;
    }
    v
}

/// Splits `chars` at each occurrence of `sep`.
pub fn split_chars(chars: &Vec<char>, sep: char) -> (pieces: Vec<Vec<char>>)
    ensures
        views(pieces@) == split(chars@, sep),
{
    let mut pieces: Vec<Vec<char>> = Vec::new();
    let mut current: Vec<char> = Vec::new();
    let mut i: usize = 0;
    assert(chars@.take(0) == Seq::<char>::empty());
    assert(views(pieces@).push(current@) == seq![Seq::<char>::empty()]);
    while i < chars.len()
        invariant
            i <= chars.len(),
            split(chars@.take(i as int), sep) == views(pieces@).push(current@),
        decreases chars.len() - i,
    {
        let c = chars[i];
        proof {
            let now = chars@.take(i + 1);
            assert(now.drop_last() == chars@.take(i as int));
            assert(now.last() == c);
        }
        let ghost before = views(pieces@);
        if c == sep {
            let ghost done = current@;
            pieces.push(current);
            current = Vec::new();
            assert(views(pieces@) == before.push(done));
        } else {
            let ghost grown = current@.push(c);
            current.push(c);
            assert(before.push(current@) == before.push(grown));
            assert(before.push(grown.drop_last()).drop_last() == before);
            assert(grown.drop_last() == before.push(grown.drop_last()).last());
        }
        i = i + 1;
    }
    assert(chars@.take(chars.len() as int) == chars@);
    let ghost before = views(pieces@);
    let ghost last = current@;
    pieces.push(current);
    assert(views(pieces@) == before.push(last));
    pieces
}

/// The lines of `chars`.
pub fn lines_of(chars: &Vec<char>) -> (result: Vec<Vec<char>>)
    ensures
        views(result@) == lines(chars@),
{
    let pieces = split_chars(chars, '\n');
    proof {
        lemma_split_nonempty(chars@, '\n');
    }
    let ghost all = split(chars@, '\n');
    let ghost ended = all.drop_last().map_values(|p: Seq<char>| strip_carriage_return(p));
    let count = pieces.len();
    let mut result: Vec<Vec<char>> = Vec::new();
    let mut i: usize = 0;
    while i + 1 < count
        invariant
            count == pieces.len(),
            count >= 1,
            i + 1 <= count,
            views(pieces@) == all,
            ended == all.drop_last().map_values(|p: Seq<char>| strip_carriage_return(p)),
            views(result@) == ended.take(i as int),
        decreases count - i,
    {
        let piece = &pieces[i];
        let n = piece.len();
        assert(piece@ == all[i as int]);
        let line = if n > 0 && piece[n - 1] == '\r' {
            copy_range(piece, 0, n - 1)
        } else {
            copy_range(piece, 0, n)
        };
        assert(line@ == strip_carriage_return(piece@));
        let ghost before = views(result@);
        result.push(line);
        assert(views(result@) == before.push(line@));
        assert(ended.take(i + 1) == ended.take(i as int).push(ended[i as int]));
        i = i + 1;
    }
    assert(ended.take(i as int) == ended);
    let tail = &pieces[count - 1];
    assert(tail@ == all.last());
    if tail.len() > 0 {
        let line = copy_range(tail, 0, tail.len());
        assert(line@ == tail@);
        let ghost before = views(result@);
        result.push(line);
        assert(views(result@) == before.push(line@));
    }
    result
}

/// Where the trimmed part of `chars` begins and ends.
pub fn trim_bounds(chars: &Vec<char>) -> (bounds: (usize, usize))
    ensures
        bounds.0 <= bounds.1 <= chars.len(),
        bounds.0 == chars.len() - trim_start(chars@).len(),
        chars@.subrange(bounds.0 as int, bounds.1 as int) == trim(chars@),
{
    let n = chars.len();
    let mut from: usize = 0;
    assert(chars@.skip(0) == chars@);
    while from < n && is_space(chars[from])
        invariant
            from <= n == chars.len(),
            trim_start(chars@) == trim_start(chars@.skip(from as int)),
        decreases n - from,
    {
        assert(chars@.skip(from as int).drop_first() == chars@.skip(from + 1));
        from = from + 1;
    }
    assert(trim_start(chars@) == chars@.skip(from as int));
    let mut to: usize = n;
    assert(chars@.skip(from as int) == chars@.subrange(from as int, to as int));
    while to > from && is_space(chars[to - 1])
        invariant
            from <= to <= n == chars.len(),
            trim(chars@) == trim_end(chars@.subrange(from as int, to as int)),
        decreases to,
    {
        assert(chars@.subrange(from as int, to as int).drop_last() == chars@.subrange(
            from as int,
            to - 1,
        ));
        to = to - 1;
    }
    (from, to)
}

/// `chars` without its leading and trailing white space.
pub fn trim_chars(chars: &Vec<char>) -> (v: Vec<char>)
    ensures
        v@ == trim(chars@),
{
    let (from, to) = trim_bounds(chars);
    copy_range(chars, from, to)
}

/// Appends the characters of `more` to `out`.
pub fn extend_chars(out: &mut Vec<char>, more: &Vec<char>)
    ensures
        final(out)@ == old(out)@ + more@,
{
    let mut i: usize = 0;
    assert(more@.take(0) == Seq::<char>::empty());
    while i < more.len()
        invariant
            i <= more.len(),
            out@ == old(out)@ + more@.take(i as int),
        decreases more.len() - i,
    {
        out.push(more[i]);
        assert(more@.take(i + 1) == more@.take(i as int).push(more@[i as int]));
        i = i + 1;
    }
    assert(more@.take(more.len() as int) == more@);
}

/// Joins the pieces, with `sep` between each two neighbours.
pub fn join_chars(pieces: &Vec<Vec<char>>, sep: &Vec<char>) -> (out: Vec<char>)
    ensures
        out@ == join(views(pieces@), sep@),
{
    let mut out: Vec<char> = Vec::new();
    let mut i: usize = 0;
    let ghost all = views(pieces@);
    assert(all.take(0) == Seq::<Seq<char>>::empty());
    while i < pieces.len()
        invariant
            i <= pieces.len(),
            all == views(pieces@),
            out@ == join(all.take(i as int), sep@),
        decreases pieces.len() - i,
    {
        proof {
            let now = all.take(i + 1);
            assert(now.drop_last() == all.take(i as int));
            assert(now.last() == pieces@[i as int]@);
        }
        if i > 0 {
            extend_chars(&mut out, sep);
        }
        extend_chars(&mut out, &pieces[i]);
        i = i + 1;
    }
    assert(all.take(pieces.len() as int) == all);
    out
}

/// Whether `chars` begins with `prefix`.
pub fn starts_with_chars(chars: &Vec<char>, prefix: &Vec<char>) -> (b: bool)
    ensures
        b == prefix@.is_prefix_of(chars@),
{
    if prefix.len() > chars.len() {
        return false;
    }
    let mut i: usize = 0;
    while i < prefix.len()
        invariant
            i <= prefix.len() <= chars.len(),
            forall|k: int| 0 <= k < i ==> prefix@[k] == chars@[k],
        decreases prefix.len() - i,
    {
        if prefix[i] != chars[i] {
            assert(prefix@[i as int] != chars@.subrange(0, prefix@.len() as int)[i as int]);
            return false;
        }
        i = i + 1;
    }
    assert(prefix@ == chars@.subrange(0, prefix@.len() as int));
    true
}

/// The character for the decimal digit `d`.
fn digit_char(d: u64) -> (c: char)
    requires
        d < 10,
    ensures
        c == digit(d as nat),
{
    if d == 0 {
        '0'
    } else if d == 1 {
        '1'
    } else if d == 2 {
        '2'
    } else if d == 3 {
        '3'
    } else if d == 4 {
        '4'
    } else if d == 5 {
        '5'
    } else if d == 6 {
        '6'
    } else if d == 7 {
        '7'
    } else if d == 8 {
        '8'
    } else {
        '9'
    }
}

/// Appends `n` in decimal to `out`.
pub fn push_decimal(out: &mut String, n: u64)
    ensures
        final(out)@ == old(out)@ + decimal(n as nat),
    decreases n,
{
    if n < 10 {
        push_char(out, digit_char(n));
        assert(old(out)@.push(digit(n as nat)) == old(out)@ + decimal(n as nat));
    } else {
        push_decimal(out, n / 10);
        push_char(out, digit_char(n % 10));
        assert((old(out)@ + decimal((n / 10) as nat)).push(digit((n % 10) as nat)) == old(out)@
            + decimal(n as nat));
    }
}

/// The two texts, one after the other.
pub fn append_str(a: &str, b: &str) -> (s: String)
    ensures
        s@ == a@ + b@,
{
    let mut s = a.to_owned();
    s.append(b);
    s
}

} // verus!

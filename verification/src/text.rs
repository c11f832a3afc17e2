//! Text utilities shared by every renderer: indentation, joining, line
//! re-indentation, and small character-level helpers.

use vstd::prelude::*;

verus! {

/// `n` space characters.
pub open spec fn spaces(n: nat) -> Seq<char> {
    Seq::new(n, |i: int| ' ')
}

/// `parts` joined with `sep` between consecutive elements.
pub open spec fn join_text(parts: Seq<Seq<char>>, sep: Seq<char>) -> Seq<char>
    decreases parts.len(),
{
    if parts.len() == 0 {
        seq![]
    } else if parts.len() == 1 {
        parts[0]
    } else {
        join_text(parts.drop_last(), sep) + sep + parts.last()
    }
}

/// The concatenation of all `parts`.
pub open spec fn concat_text(parts: Seq<Seq<char>>) -> Seq<char>
    decreases parts.len(),
{
    if parts.len() == 0 {
        seq![]
    } else {
        concat_text(parts.drop_last()) + parts.last()
    }
}

/// The views of a sequence of strings.
pub open spec fn texts(v: Seq<String>) -> Seq<Seq<char>> {
    Seq::new(v.len(), |i: int| v[i]@)
}

/// Unicode `White_Space` characters, as `char::is_whitespace` classifies them.
pub open spec fn is_white_space(c: char) -> bool {
    let u = c as u32;
    ||| 0x9 <= u <= 0xd
    ||| u == 0x20
    ||| u == 0x85
    ||| u == 0xa0
    ||| u == 0x1680
    ||| 0x2000 <= u <= 0x200a
    ||| u == 0x2028
    ||| u == 0x2029
    ||| u == 0x202f
    ||| u == 0x205f
    ||| u == 0x3000
}

/// `s` without its leading white space.
pub open spec fn trim_start(s: Seq<char>) -> Seq<char>
    decreases s.len(),
{
    if s.len() > 0 && is_white_space(s[0]) {
        trim_start(s.drop_first())
    } else {
        s
    }
}

/// Whether `sep` occurs in `s` at position `i`.
pub open spec fn sep_at(s: Seq<char>, sep: Seq<char>, i: int) -> bool {
    0 <= i && i + sep.len() <= s.len() && s.subrange(i, i + sep.len()) == sep
}

/// The pieces of `s[start..]` cut at every occurrence of `sep` found from `i` on,
/// scanning left to right as `str::split` does.
pub open spec fn split_from(s: Seq<char>, sep: Seq<char>, start: int, i: int) -> Seq<Seq<char>>
    decreases s.len() - i,
{
    if sep.len() == 0 || i < 0 || i + sep.len() > s.len() {
        seq![s.subrange(start, s.len() as int)]
    } else if sep_at(s, sep, i) {
        seq![s.subrange(start, i)] + split_from(s, sep, i + sep.len(), i + sep.len())
    } else {
        split_from(s, sep, start, i + 1)
    }
}

/// `s` cut at every occurrence of `sep`.
pub open spec fn split_text(s: Seq<char>, sep: Seq<char>) -> Seq<Seq<char>> {
    split_from(s, sep, 0, 0)
}

/// The line separator `set_indent` splits on: CR LF when `s` holds a carriage return.
pub open spec fn line_separator(s: Seq<char>) -> Seq<char> {
    if s.contains('\r') {
        seq!['\r', '\n']
    } else {
        seq!['\n']
    }
}

/// One line of `set_indent`'s result.
pub open spec fn reindented_line(line: Seq<char>, ident_level: nat) -> Seq<char> {
    spaces(ident_level) + trim_start(line)
}

/// What `set_indent` returns: every line re-indented, lines joined with LF.
pub open spec fn set_indent_text(s: Seq<char>, ident_level: nat) -> Seq<char> {
    let lines = split_text(s, line_separator(s));
    join_text(Seq::new(lines.len(), |i: int| reindented_line(lines[i], ident_level)), seq!['\n'])
}

/// `s` with every line feed turned into a space.
pub open spec fn newlines_to_spaces(s: Seq<char>) -> Seq<char> {
    Seq::new(s.len(), |i: int| if s[i] == '\n' { ' ' } else { s[i] })
}

/// The decimal digit for `d < 10`.
pub open spec fn digit_char(d: nat) -> char {
    if d == 0 { '0' }
    else if d == 1 { '1' }
    else if d == 2 { '2' }
    else if d == 3 { '3' }
    else if d == 4 { '4' }
    else if d == 5 { '5' }
    else if d == 6 { '6' }
    else if d == 7 { '7' }
    else if d == 8 { '8' }
    else { '9' }
}

/// Whether `s` begins with three dots, the mark of a rest parameter.
pub open spec fn starts_with_dots(s: Seq<char>) -> bool {
    s.len() >= 3 && s[0] == '.' && s[1] == '.' && s[2] == '.'
}

/// The decimal representation of `n`.
pub open spec fn decimal(n: nat) -> Seq<char>
    decreases n,
{
    if n < 10 {
        seq![digit_char(n)]
    } else {
        decimal(n / 10) + seq![digit_char(n % 10)]
    }
}

pub proof fn lemma_join_push(parts: Seq<Seq<char>>, sep: Seq<char>, x: Seq<char>)
    ensures
        join_text(parts.push(x), sep) == if parts.len() == 0 {
            x
        } else {
            join_text(parts, sep) + sep + x
        },
{
    assert(parts.push(x).drop_last() =~= parts);
}

pub proof fn lemma_texts_push(v: Seq<String>, x: String)
    ensures
        texts(v.push(x)) == texts(v).push(x@),
{
    assert(texts(v.push(x)) =~= texts(v).push(x@));
}

pub proof fn lemma_concat_push(parts: Seq<Seq<char>>, x: Seq<char>)
    ensures
        concat_text(parts.push(x)) == concat_text(parts) + x,
{
    assert(parts.push(x).drop_last() =~= parts);
}

proof fn lemma_sep_at_lf(s: Seq<char>, i: int)
    requires
        0 <= i < s.len(),
    ensures
        sep_at(s, seq!['\n'], i) <==> s[i] == '\n',
{
    if sep_at(s, seq!['\n'], i) {
        assert(s.subrange(i, i + 1)[0] == s[i]);
    }
    if s[i] == '\n' {
        assert(s.subrange(i, i + 1) =~= seq!['\n']);
    }
}

/// Scanning over characters that are not line feeds changes nothing.
proof fn lemma_split_skip(s: Seq<char>, start: int, i: int, e: int)
    requires
        0 <= start <= i <= e <= s.len(),
        forall|k: int| i <= k < e ==> s[k] != '\n',
    ensures
        split_from(s, seq!['\n'], start, i) == split_from(s, seq!['\n'], start, e),
    decreases e - i,
{
    if i < e {
        lemma_sep_at_lf(s, i);
        lemma_split_skip(s, start, i + 1, e);
    }
}

proof fn lemma_join_front(xs: Seq<Seq<char>>, sep: Seq<char>)
    requires
        xs.len() >= 2,
    ensures
        join_text(xs, sep) == xs[0] + sep + join_text(xs.drop_first(), sep),
    decreases xs.len(),
{
    if xs.len() == 2 {
        assert(xs.drop_last() =~= seq![xs[0]]);
        assert(xs.drop_first() =~= seq![xs[1]]);
        assert(join_text(seq![xs[0]], sep) == xs[0]);
        assert(join_text(seq![xs[1]], sep) == xs[1]);
    } else {
        lemma_join_front(xs.drop_last(), sep);
        let j = join_text(xs.drop_last().drop_first(), sep);
        assert(xs.drop_last().drop_first() =~= xs.drop_first().drop_last());
        assert(xs.drop_first().last() == xs.last());
        assert(xs.drop_last()[0] == xs[0]);
        assert(join_text(xs.drop_first(), sep) == j + sep + xs.last());
        assert(join_text(xs, sep) == join_text(xs.drop_last(), sep) + sep + xs.last());
        assert(xs[0] + sep + j + sep + xs.last() =~= xs[0] + sep + (j + sep + xs.last()));
    }
}

/// Cutting at line feeds undoes joining with line feeds pieces that hold none.
proof fn lemma_split_join(s: Seq<char>, start: int, xs: Seq<Seq<char>>)
    requires
        xs.len() >= 1,
        forall|k: int| 0 <= k < xs.len() ==> !(#[trigger] xs[k]).contains('\n'),
        0 <= start <= s.len(),
        s.subrange(start, s.len() as int) == join_text(xs, seq!['\n']),
    ensures
        split_from(s, seq!['\n'], start, start) == xs,
    decreases xs.len(),
{
    let x0 = xs[0];
    let e = start + x0.len();
    if xs.len() == 1 {
        assert(s.subrange(start, s.len() as int) == x0);
        assert forall|k: int| start <= k < s.len() implies s[k] != '\n' by {
            assert(s.subrange(start, s.len() as int)[k - start] == s[k]);
            if s[k] == '\n' {
                assert(x0.contains('\n'));
            }
        }
        lemma_split_skip(s, start, start, s.len() as int);
        assert(split_from(s, seq!['\n'], start, s.len() as int) == seq![s.subrange(
            start,
            s.len() as int,
        )]);
        assert(seq![s.subrange(start, s.len() as int)] =~= xs);
    } else {
        lemma_join_front(xs, seq!['\n']);
        let rest = join_text(xs.drop_first(), seq!['\n']);
        let t = s.subrange(start, s.len() as int);
        assert(t == x0 + seq!['\n'] + rest);
        assert forall|k: int| start <= k < e implies s[k] != '\n' by {
            assert(t[k - start] == s[k]);
            assert(t[k - start] == x0[k - start]);
            if s[k] == '\n' {
                assert(x0.contains('\n'));
            }
        }
        assert(t[x0.len() as int] == '\n');
        assert(s[e] == '\n');
        lemma_split_skip(s, start, start, e);
        lemma_sep_at_lf(s, e);
        assert(s.subrange(start, e) =~= x0) by {
            assert forall|k: int| 0 <= k < x0.len() implies s.subrange(start, e)[k] == x0[k] by {
                assert(t[k] == s[start + k]);
            }
        }
        assert(s.subrange(e + 1, s.len() as int) =~= rest) by {
            assert forall|k: int| 0 <= k < rest.len() implies s.subrange(e + 1, s.len() as int)[k]
                == rest[k] by {
                assert(t[x0.len() + 1 + k] == s[e + 1 + k]);
            }
        }
        assert forall|k: int| 0 <= k < xs.drop_first().len() implies !(
        #[trigger] xs.drop_first()[k]).contains('\n') by {
            assert(xs.drop_first()[k] == xs[k + 1]);
        }
        lemma_split_join(s, e + 1, xs.drop_first());
        assert(seq![x0] + xs.drop_first() =~= xs);
    }
}

/// No piece of a cut at line feeds holds one.
proof fn lemma_split_pieces(s: Seq<char>, start: int, i: int)
    requires
        0 <= start <= i <= s.len(),
        forall|k: int| start <= k < i ==> s[k] != '\n',
    ensures
        split_from(s, seq!['\n'], start, i).len() >= 1,
        forall|k: int|
            0 <= k < split_from(s, seq!['\n'], start, i).len() ==> !(#[trigger] split_from(
                s,
                seq!['\n'],
                start,
                i,
            )[k]).contains('\n'),
    decreases s.len() - i,
{
    let sep = seq!['\n'];
    if i + 1 > s.len() {
        let piece = s.subrange(start, s.len() as int);
        assert forall|m: int| 0 <= m < piece.len() implies piece[m] != '\n' by {
            assert(piece[m] == s[start + m]);
        }
    } else {
        lemma_sep_at_lf(s, i);
        if sep_at(s, sep, i) {
            lemma_split_pieces(s, i + 1, i + 1);
            let piece = s.subrange(start, i);
            assert forall|m: int| 0 <= m < piece.len() implies piece[m] != '\n' by {
                assert(piece[m] == s[start + m]);
            }
            let tail = split_from(s, sep, i + 1, i + 1);
            assert forall|k: int| 0 <= k < (seq![piece] + tail).len() implies !(#[trigger] (seq![piece]
                + tail)[k]).contains('\n') by {
                if k > 0 {
                    assert((seq![piece] + tail)[k] == tail[k - 1]);
                }
            }
        } else {
            lemma_split_pieces(s, start, i + 1);
        }
    }
}

/// Leading white space taken off leaves a tail of the text that starts with
/// something else.
proof fn lemma_trim_start(s: Seq<char>)
    ensures
        exists|k: int| 0 <= k <= s.len() && trim_start(s) == #[trigger] s.subrange(k, s.len() as int),
        trim_start(s).len() == 0 || !is_white_space(trim_start(s)[0]),
    decreases s.len(),
{
    if s.len() > 0 && is_white_space(s[0]) {
        lemma_trim_start(s.drop_first());
        let k = choose|k: int|
            0 <= k <= s.drop_first().len() && trim_start(s.drop_first()) == #[trigger] s.drop_first().subrange(
                k,
                s.drop_first().len() as int,
            );
        assert(s.drop_first().subrange(k, s.drop_first().len() as int) =~= s.subrange(
            k + 1,
            s.len() as int,
        ));
    } else {
        assert(s.subrange(0, s.len() as int) =~= s);
    }
}

/// For text whose lines end with a line feed alone, `set_indent` gives back
/// one line for each line, made of `ident_level` spaces and the line without
/// its leading white space, so that no white space follows the indentation.
pub proof fn law_set_indent_lines(s: Seq<char>, ident_level: nat)
    requires
        !s.contains('\r'),
    ensures
        split_text(set_indent_text(s, ident_level), seq!['\n']).len() == split_text(
            s,
            seq!['\n'],
        ).len(),
        forall|i: int|
            0 <= i < split_text(s, seq!['\n']).len() ==> #[trigger] split_text(
                set_indent_text(s, ident_level),
                seq!['\n'],
            )[i] == spaces(ident_level) + trim_start(split_text(s, seq!['\n'])[i]),
        forall|i: int|
            0 <= i < split_text(s, seq!['\n']).len() ==> trim_start(
                #[trigger] split_text(s, seq!['\n'])[i],
            ).len() == 0 || !is_white_space(trim_start(split_text(s, seq!['\n'])[i])[0]),
{
    let lines = split_text(s, seq!['\n']);
    assert(line_separator(s) == seq!['\n']);
    lemma_split_pieces(s, 0, 0);
    let out_lines = Seq::new(lines.len(), |i: int| reindented_line(lines[i], ident_level));
    let out = set_indent_text(s, ident_level);
    assert(out == join_text(out_lines, seq!['\n']));
    assert forall|k: int| 0 <= k < out_lines.len() implies !(#[trigger] out_lines[k]).contains('\n') by {
        lemma_trim_start(lines[k]);
        let j = choose|j: int|
            0 <= j <= lines[k].len() && trim_start(lines[k]) == #[trigger] lines[k].subrange(
                j,
                lines[k].len() as int,
            );
        if out_lines[k].contains('\n') {
            let m = choose|m: int| 0 <= m < out_lines[k].len() && out_lines[k][m] == '\n';
            if m < ident_level {
                assert(spaces(ident_level)[m] == ' ');
            } else {
                assert(out_lines[k][m] == trim_start(lines[k])[m - ident_level]);
                assert(lines[k][j + m - ident_level] == '\n');
                assert(lines[k].contains('\n'));
            }
        }
    }
    assert(out.subrange(0, out.len() as int) =~= out);
    lemma_split_join(out, 0, out_lines);
    assert forall|i: int| 0 <= i < lines.len() implies trim_start(#[trigger] lines[i]).len() == 0
        || !is_white_space(trim_start(lines[i])[0]) by {
        lemma_trim_start(lines[i]);
    }
}

/// Spaces in front of a text are all taken off with the rest of its leading
/// white space.
proof fn lemma_trim_spaces(m: nat, t: Seq<char>)
    ensures
        trim_start(spaces(m) + t) == trim_start(t),
    decreases m,
{
    if m == 0 {
        assert(spaces(0) + t =~= t);
    } else {
        let x = spaces(m) + t;
        assert(x[0] == ' ');
        assert(is_white_space(' '));
        assert(x.drop_first() =~= spaces((m - 1) as nat) + t);
        lemma_trim_spaces((m - 1) as nat, t);
    }
}

/// Taking off leading white space a second time changes nothing.
proof fn lemma_trim_twice(x: Seq<char>)
    ensures
        trim_start(trim_start(x)) == trim_start(x),
{
    lemma_trim_start(x);
}

/// A character that no part and not the separator holds is not in their join.
proof fn lemma_join_avoids(xs: Seq<Seq<char>>, sep: Seq<char>, ch: char)
    requires
        forall|k: int| 0 <= k < xs.len() ==> !(#[trigger] xs[k]).contains(ch),
        !sep.contains(ch),
    ensures
        !join_text(xs, sep).contains(ch),
    decreases xs.len(),
{
    if xs.len() == 1 {
        assert(!xs[0].contains(ch));
    } else if xs.len() > 1 {
        let front = xs.drop_last();
        assert forall|k: int| 0 <= k < front.len() implies !(#[trigger] front[k]).contains(ch) by {
            assert(front[k] == xs[k]);
        }
        lemma_join_avoids(front, sep, ch);
        let a = join_text(front, sep);
        let last = xs[xs.len() - 1];
        assert(!last.contains(ch));
        let j = a + sep + last;
        if j.contains(ch) {
            let m = choose|m: int| 0 <= m < j.len() && j[m] == ch;
            if m < a.len() {
                assert(a[m] == ch);
            } else if m < a.len() + sep.len() {
                assert(sep[m - a.len()] == ch);
            } else {
                assert(last[m - a.len() - sep.len()] == ch);
            }
        }
    }
}

/// No piece of a cut at line feeds holds a character the text does not hold.
proof fn lemma_split_avoids(s: Seq<char>, start: int, i: int, ch: char)
    requires
        0 <= start <= i <= s.len(),
        !s.contains(ch),
    ensures
        forall|k: int|
            0 <= k < split_from(s, seq!['\n'], start, i).len() ==> !(#[trigger] split_from(
                s,
                seq!['\n'],
                start,
                i,
            )[k]).contains(ch),
    decreases s.len() - i,
{
    let sep = seq!['\n'];
    if i + 1 > s.len() {
        let piece = s.subrange(start, s.len() as int);
        assert forall|m: int| 0 <= m < piece.len() implies piece[m] != ch by {
            assert(piece[m] == s[start + m]);
        }
        assert(!piece.contains(ch));
        assert(split_from(s, sep, start, i) == seq![piece]);
        assert(seq![piece][0] == piece);
    } else if sep_at(s, sep, i) {
        lemma_split_avoids(s, i + 1, i + 1, ch);
        let piece = s.subrange(start, i);
        assert forall|m: int| 0 <= m < piece.len() implies piece[m] != ch by {
            assert(piece[m] == s[start + m]);
        }
        let tail = split_from(s, sep, i + 1, i + 1);
        assert(!piece.contains(ch));
        assert forall|k: int| 0 <= k < (seq![piece] + tail).len() implies !(#[trigger] (seq![piece]
            + tail)[k]).contains(ch) by {
            if k == 0 {
                assert((seq![piece] + tail)[0] == piece);
            } else {
                assert((seq![piece] + tail)[k] == tail[k - 1]);
            }
        }
        assert(split_from(s, sep, start, i) == seq![piece] + tail);
    } else {
        lemma_split_avoids(s, start, i + 1, ch);
        assert(split_from(s, sep, start, i) == split_from(s, sep, start, i + 1));
    }
}

/// Re-indenting text twice gives what re-indenting it once at the second
/// level gives: the last indentation wins, and in particular re-indenting at
/// the same level again changes nothing.
pub proof fn law_set_indent_last_wins(s: Seq<char>, m: nat, n: nat)
    requires
        !s.contains('\r'),
    ensures
        set_indent_text(set_indent_text(s, m), n) == set_indent_text(s, n),
{
    let nl = seq!['\n'];
    let lines = split_text(s, nl);
    let out1 = set_indent_text(s, m);
    law_set_indent_lines(s, m);
    assert(line_separator(s) == nl);
    let ol = Seq::new(lines.len(), |i: int| reindented_line(lines[i], m));
    assert(out1 == join_text(ol, nl));
    lemma_split_avoids(s, 0, 0, '\r');
    assert forall|k: int| 0 <= k < ol.len() implies !(#[trigger] ol[k]).contains('\r') by {
        lemma_trim_start(lines[k]);
        let j = choose|j: int|
            0 <= j <= lines[k].len() && trim_start(lines[k]) == #[trigger] lines[k].subrange(
                j,
                lines[k].len() as int,
            );
        assert(!lines[k].contains('\r'));
        if ol[k].contains('\r') {
            let q = choose|q: int| 0 <= q < ol[k].len() && ol[k][q] == '\r';
            if q < m {
                assert(spaces(m)[q] == ' ');
            } else {
                assert(ol[k][q] == trim_start(lines[k])[q - m]);
                assert(lines[k][j + q - m] == '\r');
            }
        }
    }
    if nl.contains('\r') {
        assert(nl[0] == '\n');
    }
    lemma_join_avoids(ol, nl, '\r');
    assert(line_separator(out1) == nl);
    let lines2 = split_text(out1, nl);
    assert forall|i: int| 0 <= i < lines.len() implies reindented_line(#[trigger] lines2[i], n)
        == reindented_line(lines[i], n) by {
        assert(lines2[i] == spaces(m) + trim_start(lines[i]));
        lemma_trim_spaces(m, trim_start(lines[i]));
        lemma_trim_twice(lines[i]);
    }
    assert(Seq::new(lines2.len(), |i: int| reindented_line(lines2[i], n)) =~= Seq::new(
        lines.len(),
        |i: int| reindented_line(lines[i], n),
    ));
}

/// Returns a static string of `ident_level` spaces; levels above 100 are not supported.
pub fn indent(ident_level: usize) -> (r: &'static str)
    requires
        ident_level <= 100,
    ensures
        r@ == spaces(ident_level as nat),
{
    let much_space: &'static str = "                                                                                                    ";
    proof {
        reveal_strlit("                                                                                                    ");
        assert(much_space@ =~= spaces(100));
        assert(vstd::string::is_ascii(much_space));
    }
    let r = much_space.substring_ascii(0, ident_level);
    assert(r@ =~= spaces(ident_level as nat));
    r
}

/// The characters of a string, in order.
pub fn chars_of(s: &str) -> (v: Vec<char>)
    ensures
        v@ == s@,
{
    let mut v: Vec<char> = Vec::new();
    for c in it: s.chars()
        invariant
            v@ == it.seq().take(it.index() as int),
            it.seq() == s@,
    {
        v.push(c);
    }
    v
}

/// A fresh string with the contents of `s`.
pub fn owned(s: &str) -> (r: String)
    ensures
        r@ == s@,
{
    String::from_str(s)
}

/// Whether the string `s` reads exactly `lit`.
pub fn text_is(s: &String, lit: &str) -> (r: bool)
    ensures
        r == (s@ == lit@),
{
    let other = String::from_str(lit);
    *s == other
}

/// Joins `parts`, putting `sep` between consecutive ones.
pub fn join_strings(parts: &Vec<String>, sep: &str) -> (r: String)
    ensures
        r@ == join_text(texts(parts@), sep@),
{
    let mut r = String::new();
    let mut i: usize = 0;
    while i < parts.len()
        invariant
            i <= parts.len(),
            r@ == join_text(texts(parts@).take(i as int), sep@),
        decreases parts.len() - i,
    {
        proof {
            lemma_join_push(texts(parts@).take(i as int), sep@, parts@[i as int]@);
            assert(texts(parts@).take(i as int).push(parts@[i as int]@) =~= texts(parts@).take(
                i + 1,
            ));
        }
        if i > 0 {
            r.append(sep);
        }
        r.append(parts[i].as_str());
        i = i + 1;
    }
    assert(texts(parts@).take(i as int) =~= texts(parts@));
    r
}

/// Concatenates `parts`.
pub fn concat_strings(parts: &Vec<String>) -> (r: String)
    ensures
        r@ == concat_text(texts(parts@)),
{
    let mut r = String::new();
    let mut i: usize = 0;
    while i < parts.len()
        invariant
            i <= parts.len(),
            r@ == concat_text(texts(parts@).take(i as int)),
        decreases parts.len() - i,
    {
        proof {
            lemma_concat_push(texts(parts@).take(i as int), parts@[i as int]@);
            assert(texts(parts@).take(i as int).push(parts@[i as int]@) =~= texts(parts@).take(
                i + 1,
            ));
        }
        r.append(parts[i].as_str());
        i = i + 1;
    }
    assert(texts(parts@).take(i as int) =~= texts(parts@));
    r
}

/// Whether `c` is white space in the sense of `char::is_whitespace`.
pub fn is_white_space_char(c: char) -> (r: bool)
    ensures
        r == is_white_space(c),
{
    let u = c as u32;
    (0x9 <= u && u <= 0xd) || u == 0x20 || u == 0x85 || u == 0xa0 || u == 0x1680 || (0x2000 <= u
        && u <= 0x200a) || u == 0x2028 || u == 0x2029 || u == 0x202f || u == 0x205f || u == 0x3000
}

proof fn lemma_trim_start_step(s: Seq<char>, k: int, j: int)
    requires
        0 <= k < j <= s.len(),
        is_white_space(s[k]),
    ensures
        trim_start(s.subrange(k, j)) == trim_start(s.subrange(k + 1, j)),
{
    assert(s.subrange(k, j).drop_first() =~= s.subrange(k + 1, j));
}

/// Appends `indent(ident_level)` and the line `cs[start..end]` without its
/// leading white space.
fn push_reindented_line(
    out: &mut String,
    s: &str,
    cs: &Vec<char>,
    start: usize,
    end: usize,
    ident_level: usize,
)
    requires
        cs@ == s@,
        start <= end <= cs.len(),
        ident_level <= 100,
    ensures
        final(out)@ == old(out)@ + reindented_line(s@.subrange(start as int, end as int), ident_level as nat),
{
    let mut k = start;
    while k < end && is_white_space_char(cs[k])
        invariant
            start <= k <= end <= cs.len(),
            cs@ == s@,
            trim_start(s@.subrange(start as int, end as int)) == trim_start(
                s@.subrange(k as int, end as int),
            ),
        decreases end - k,
    {
        proof {
            lemma_trim_start_step(s@, k as int, end as int);
        }
        k = k + 1;
    }
    proof {
        if k < end {
            assert(!is_white_space(s@.subrange(k as int, end as int)[0]));
        }
    }
    out.append(indent(ident_level));
    let rest = s.substring_char(k, end);
    out.append(rest);
}

/// Replaces leading whitespace on every line with `ident_level` spaces.
/// Lines are cut at CR LF when the text holds a carriage return, else at LF,
/// and joined back with LF.
pub fn set_indent(s: &str, ident_level: usize) -> (r: String)
    requires
        ident_level <= 100,
    ensures
        r@ == set_indent_text(s@, ident_level as nat),
{
    let cs = chars_of(s);
    let n = cs.len();
    let mut has_cr = false;
    let mut j: usize = 0;
    while j < n
        invariant
            j <= n == cs.len(),
            cs@ == s@,
            has_cr == (exists|m: int| 0 <= m < j && cs@[m] == '\r'),
        decreases n - j,
    {
        if cs[j] == '\r' {
            has_cr = true;
        }
        j = j + 1;
    }
    let ghost sep = line_separator(s@);
    proof {
        if has_cr {
            let m = choose|m: int| 0 <= m < n && cs@[m] == '\r';
            assert(s@.contains('\r'));
        } else {
            assert(!s@.contains('\r'));
        }
    }
    let sep_len: usize = if has_cr { 2 } else { 1 };
    let ghost lines = split_text(s@, sep);
    let ghost mut done: Seq<Seq<char>> = seq![];
    let mut out = String::new();
    let mut start: usize = 0;
    let mut i: usize = 0;
    let mut first = true;
    while sep_len <= n - i
        invariant
            cs@ == s@,
            n == cs.len(),
            sep == line_separator(s@),
            sep_len == sep.len(),
            has_cr == s@.contains('\r'),
            start <= i <= n,
            lines == split_text(s@, sep),
            lines == done + split_from(s@, sep, start as int, i as int),
            ident_level <= 100,
            first == (done.len() == 0),
            out@ == join_text(
                Seq::new(done.len(), |k: int| reindented_line(done[k], ident_level as nat)),
                seq!['\n'],
            ),
        decreases n - i,
    {
        let found = if has_cr {
            cs[i] == '\r' && cs[i + 1] == '\n'
        } else {
            cs[i] == '\n'
        };
        proof {
            assert(found == sep_at(s@, sep, i as int)) by {
                if has_cr {
                    assert(sep =~= seq!['\r', '\n']);
                    if found {
                        assert(s@.subrange(i as int, i + 2) =~= sep);
                    }
                    if sep_at(s@, sep, i as int) {
                        assert(s@.subrange(i as int, i + 2)[0] == s@[i as int]);
                        assert(s@.subrange(i as int, i + 2)[1] == s@[i + 1]);
                    }
                } else {
                    assert(sep =~= seq!['\n']);
                    if found {
                        assert(s@.subrange(i as int, i + 1) =~= sep);
                    }
                    if sep_at(s@, sep, i as int) {
                        assert(s@.subrange(i as int, i + 1)[0] == s@[i as int]);
                    }
                }
            }
        }
        if found {
            let ghost line = s@.subrange(start as int, i as int);
            let ghost old_done = done;
            if !first {
                out.append("\n");
            }
            proof {
                reveal_strlit("\n");
            }
            push_reindented_line(&mut out, s, &cs, start, i, ident_level);
            proof {
                done = done.push(line);
                lemma_join_push(
                    Seq::new(old_done.len(), |k: int| reindented_line(old_done[k], ident_level as nat)),
                    seq!['\n'],
                    reindented_line(line, ident_level as nat),
                );
                assert(Seq::new(old_done.len(), |k: int| reindented_line(old_done[k], ident_level as nat)).push(
                    reindented_line(line, ident_level as nat),
                ) =~= Seq::new(done.len(), |k: int| reindented_line(done[k], ident_level as nat)));
                assert(done + split_from(s@, sep, (i + sep_len) as int, (i + sep_len) as int)
                    =~= old_done + split_from(s@, sep, start as int, i as int));
            }
            i = i + sep_len;
            start = i;
            first = false;
        } else {
            i = i + 1;
        }
    }
    let ghost line = s@.subrange(start as int, n as int);
    let ghost old_done = done;
    assert(split_from(s@, sep, start as int, i as int) == seq![line]);
    if !first {
        out.append("\n");
    }
    proof {
        reveal_strlit("\n");
    }
    push_reindented_line(&mut out, s, &cs, start, n, ident_level);
    proof {
        done = done.push(line);
        lemma_join_push(
            Seq::new(old_done.len(), |k: int| reindented_line(old_done[k], ident_level as nat)),
            seq!['\n'],
            reindented_line(line, ident_level as nat),
        );
        assert(Seq::new(old_done.len(), |k: int| reindented_line(old_done[k], ident_level as nat)).push(
            reindented_line(line, ident_level as nat),
        ) =~= Seq::new(done.len(), |k: int| reindented_line(done[k], ident_level as nat)));
        assert(lines =~= done);
    }
    out
}

/// The decimal digit `d` as a string.
fn digit_string(d: usize) -> (r: String)
    requires
        d < 10,
    ensures
        r@ == seq![digit_char(d as nat)],
{
    let lit: &str = if d == 0 { "0" }
        else if d == 1 { "1" }
        else if d == 2 { "2" }
        else if d == 3 { "3" }
        else if d == 4 { "4" }
        else if d == 5 { "5" }
        else if d == 6 { "6" }
        else if d == 7 { "7" }
        else if d == 8 { "8" }
        else { "9" };
    proof {
        reveal_strlit("0");
        reveal_strlit("1");
        reveal_strlit("2");
        reveal_strlit("3");
        reveal_strlit("4");
        reveal_strlit("5");
        reveal_strlit("6");
        reveal_strlit("7");
        reveal_strlit("8");
        reveal_strlit("9");
    }
    let r = String::from_str(lit);
    assert(r@ =~= seq![digit_char(d as nat)]);
    r
}

/// The decimal representation of `n`.
pub fn decimal_string(n: usize) -> (r: String)
    ensures
        r@ == decimal(n as nat),
    decreases n,
{
    if n < 10 {
        digit_string(n)
    } else {
        let mut r = decimal_string(n / 10);
        let d = digit_string(n % 10);
        r.append(d.as_str());
        r
    }
}

/// `s` with every line feed turned into a space.
pub fn replace_newlines(s: &str) -> (r: String)
    ensures
        r@ == newlines_to_spaces(s@),
{
    let cs = chars_of(s);
    let n = cs.len();
    let mut out = String::new();
    let mut start: usize = 0;
    let mut i: usize = 0;
    proof {
        reveal_strlit(" ");
    }
    while i < n
        invariant
            cs@ == s@,
            n == cs.len(),
            start <= i <= n,
            out@ + s@.subrange(start as int, i as int) == newlines_to_spaces(s@).take(i as int),
            forall|m: int| start <= m < i ==> s@[m] != '\n',
        decreases n - i,
    {
        let ghost old_out = out@;
        let ghost old_sub = s@.subrange(start as int, i as int);
        if cs[i] == '\n' {
            let piece = s.substring_char(start, i);
            out.append(piece);
            out.append(" ");
            proof {
                reveal_strlit(" ");
            }
            assert(out@ =~= old_out + old_sub + seq![' ']);
            i = i + 1;
            start = i;
            assert(newlines_to_spaces(s@).take(i as int) =~= newlines_to_spaces(s@).take(
                (i - 1) as int,
            ).push(' '));
            assert(out@ + s@.subrange(start as int, i as int) =~= out@);
        } else {
            i = i + 1;
            assert(newlines_to_spaces(s@).take(i as int) =~= newlines_to_spaces(s@).take(
                (i - 1) as int,
            ).push(s@[i - 1]));
            assert(s@.subrange(start as int, i as int) =~= old_sub.push(s@[i - 1]));
            assert(out@ + s@.subrange(start as int, i as int) =~= (old_out + old_sub).push(s@[i - 1]));
        }
    }
    let piece = s.substring_char(start, n);
    out.append(piece);
    assert(newlines_to_spaces(s@).take(n as int) =~= newlines_to_spaces(s@));
    out
}

/// Whether `s` begins with three dots.
pub fn has_dots_prefix(s: &String) -> (r: bool)
    ensures
        r == starts_with_dots(s@),
{
    let t = s.as_str();
    let n = t.unicode_len();
    n >= 3 && t.get_char(0) == '.' && t.get_char(1) == '.' && t.get_char(2) == '.'
}

/// `s` without its first three characters.
pub fn drop_dots_prefix(s: &String) -> (r: String)
    requires
        s@.len() >= 3,
    ensures
        r@ == s@.skip(3),
{
    let t = s.as_str();
    let n = t.unicode_len();
    let rest = t.substring_char(3, n);
    let r = String::from_str(rest);
    assert(r@ =~= s@.skip(3));
    r
}

} // verus!

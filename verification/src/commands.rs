use vstd::prelude::*;

use crate::json::push_char;

verus! {

/// A shell command proposed by the model.
#[derive(Debug)]
pub struct AIGeneratedCommand {
    pub command: String,
    pub description: Option<String>,
    pub rank: i32,
}

/// Whether `c` is white space in Unicode's sense (`char::is_whitespace`):
/// the property White_Space.
pub open spec fn is_white_space(c: char) -> bool {
    let u = c as u32;
    ||| 0x09 <= u <= 0x0d
    ||| u == 0x20
    ||| u == 0x85
    ||| u == 0xa0
    ||| u == 0x1680
    ||| 0x2000 <= u <= 0x200a
    ||| u == 0x2028
    ||| u == 0x2029
    ||| u == 0x202f
    ||| u == 0x205f
    ||| u == 0x3000
}

/// `s` without its leading white space.
pub open spec fn trim_start(s: Seq<char>) -> Seq<char>
    decreases s.len(),
{
    if s.len() > 0 && is_white_space(s[0]) {
        trim_start(s.drop_first())
    } else {
        s
    }
}

/// `s` without its trailing white space.
pub open spec fn trim_end(s: Seq<char>) -> Seq<char>
    decreases s.len(),
{
    if s.len() > 0 && is_white_space(s.last()) {
        trim_end(s.drop_last())
    } else {
        s
    }
}

/// `s` without leading and trailing white space (`str::trim`).
pub open spec fn trim(s: Seq<char>) -> Seq<char> {
    trim_end(trim_start(s))
}

/// The pieces of `s` between line feeds, in order: one more piece than
/// `s` has line feeds.
pub open spec fn pieces(s: Seq<char>) -> Seq<Seq<char>>
    decreases s.len(),
{
    if s.len() == 0 {
        seq![seq![]]
    } else {
        let p = pieces(s.drop_last());
        if s.last() == '\n' {
            p.push(seq![])
        } else {
            p.update(p.len() - 1, p.last().push(s.last()))
        }
    }
}

/// Whether a trimmed line is a command: it is not empty and is no `#`
/// comment.
pub open spec fn is_command(t: Seq<char>) -> bool {
    t.len() > 0 && t[0] != '#'
}

/// The trimmed lines among `lines` that are commands, in order.
pub open spec fn command_lines(lines: Seq<Seq<char>>) -> Seq<Seq<char>>
    decreases lines.len(),
{
    if lines.len() == 0 {
        seq![]
    } else {
        let rest = command_lines(lines.drop_last());
        let t = trim(lines.last());
        if is_command(t) {
            rest.push(t)
        } else {
            rest
        }
    }
}

/// The commands read from a reply: its lines, trimmed, that are neither
/// empty nor comments; where there is none, the whole reply trimmed.
pub open spec fn commands_of(reply: Seq<char>) -> Seq<Seq<char>> {
    let cs = command_lines(pieces(reply));
    if cs.len() == 0 {
        seq![trim(reply)]
    } else {
        cs
    }
}

/// What remains of `s` after its leading white space does not begin with
/// white space.
proof fn lemma_trim_start_lead(s: Seq<char>)
    ensures
        trim_start(s).len() == 0 || !is_white_space(trim_start(s)[0]),
    decreases s.len(),
{
    if s.len() > 0 && is_white_space(s[0]) {
        lemma_trim_start_lead(s.drop_first());
    }
}

/// Dropping trailing white space leaves a prefix that does not end in white
/// space.
proof fn lemma_trim_end_prefix(s: Seq<char>)
    ensures
        trim_end(s).len() <= s.len(),
        trim_end(s) =~= s.take(trim_end(s).len() as int),
        trim_end(s).len() == 0 || !is_white_space(trim_end(s).last()),
    decreases s.len(),
{
    if s.len() > 0 && is_white_space(s.last()) {
        lemma_trim_end_prefix(s.drop_last());
        assert(s.drop_last().take(trim_end(s).len() as int) =~= s.take(trim_end(s).len() as int));
    }
}

/// Trimming a trimmed text changes nothing.
pub proof fn lemma_trim_idempotent(s: Seq<char>)
    ensures
        trim(trim(s)) == trim(s),
{
    let a = trim_start(s);
    let t = trim_end(a);
    lemma_trim_start_lead(s);
    lemma_trim_end_prefix(a);
    if t.len() > 0 {
        assert(t[0] == a[0]);
    }
    assert(trim_start(t) == t);
    assert(trim_end(t) == t);
}

/// Every line kept as a command is trimmed and is a command.
proof fn lemma_command_lines_shape(lines: Seq<Seq<char>>)
    ensures
        forall|i: int|
            0 <= i < command_lines(lines).len() ==> trim(#[trigger] command_lines(lines)[i])
                == command_lines(lines)[i] && is_command(command_lines(lines)[i]),
    decreases lines.len(),
{
    if lines.len() > 0 {
        let rest = command_lines(lines.drop_last());
        let t = trim(lines.last());
        lemma_command_lines_shape(lines.drop_last());
        lemma_trim_idempotent(lines.last());
        assert forall|i: int| 0 <= i < command_lines(lines).len() implies trim(#[trigger] command_lines(lines)[i])
            == command_lines(lines)[i] && is_command(command_lines(lines)[i]) by {
            if i < rest.len() {
                assert(command_lines(lines)[i] == rest[i]);
            }
        }
    }
}

/// A reply always yields at least one command.
pub proof fn law_commands_never_empty(reply: Seq<char>)
    ensures
        commands_of(reply).len() >= 1,
{
}

/// No command begins or ends with white space.
pub proof fn law_commands_are_trimmed(reply: Seq<char>)
    ensures
        forall|i: int| 0 <= i < commands_of(reply).len() ==> trim(#[trigger] commands_of(reply)[i]) == commands_of(reply)[i],
{
    lemma_command_lines_shape(pieces(reply));
    lemma_trim_idempotent(reply);
}

/// Where some line of a reply is a command, every command read from it is a
/// line that is neither empty nor a `#` comment.
pub proof fn law_commands_are_command_lines(reply: Seq<char>)
    ensures
        command_lines(pieces(reply)).len() > 0 ==> forall|i: int|
            0 <= i < commands_of(reply).len() ==> is_command(#[trigger] commands_of(reply)[i]),
{
    lemma_command_lines_shape(pieces(reply));
}

/// The lines joined into one text, a line feed between each two.
pub open spec fn joined_lines(lines: Seq<Seq<char>>) -> Seq<char>
    decreases lines.len(),
{
    if lines.len() == 0 {
        seq![]
    } else if lines.len() == 1 {
        lines[0]
    } else {
        joined_lines(lines.drop_last()) + seq!['\n'] + lines.last()
    }
}

/// `s` holds no line feed.
pub open spec fn no_line_feed(s: Seq<char>) -> bool {
    forall|i: int| 0 <= i < s.len() ==> s[i] != '\n'
}

/// A text always has at least one piece.
proof fn lemma_pieces_nonempty(s: Seq<char>)
    ensures
        pieces(s).len() >= 1,
    decreases s.len(),
{
    if s.len() > 0 {
        lemma_pieces_nonempty(s.drop_last());
    }
}

/// No piece holds a line feed.
proof fn lemma_pieces_plain(s: Seq<char>)
    ensures
        forall|i: int| 0 <= i < pieces(s).len() ==> no_line_feed(#[trigger] pieces(s)[i]),
    decreases s.len(),
{
    if s.len() > 0 {
        let p = pieces(s.drop_last());
        lemma_pieces_plain(s.drop_last());
        lemma_pieces_nonempty(s.drop_last());
        if s.last() != '\n' {
            assert forall|i: int| 0 <= i < pieces(s).len() implies no_line_feed(#[trigger] pieces(s)[i]) by {
                if i == p.len() - 1 {
                    let q = p.last().push(s.last());
                    assert(pieces(s)[i] == q);
                    assert forall|k: int| 0 <= k < q.len() implies q[k] != '\n' by {
                        if k < p.last().len() {
                            assert(no_line_feed(p[p.len() - 1]));
                        }
                    }
                }
            }
        } else {
            assert forall|i: int| 0 <= i < pieces(s).len() implies no_line_feed(#[trigger] pieces(s)[i]) by {
                if i < p.len() {
                    assert(pieces(s)[i] == p[i]);
                }
            }
        }
    }
}

/// Appending text without line feeds extends the last piece.
proof fn lemma_pieces_append_plain(a: Seq<char>, b: Seq<char>)
    requires
        no_line_feed(b),
    ensures
        pieces(a + b) == pieces(a).update(pieces(a).len() - 1, pieces(a).last() + b),
    decreases b.len(),
{
    lemma_pieces_nonempty(a);
    let p = pieces(a);
    if b.len() == 0 {
        assert(a + b =~= a);
        assert(p.last() + b =~= p.last());
        assert(p.update(p.len() - 1, p.last() + b) =~= p);
    } else {
        let b0 = b.drop_last();
        assert forall|i: int| 0 <= i < b0.len() implies b0[i] != '\n' by {
            assert(b0[i] == b[i]);
        }
        lemma_pieces_append_plain(a, b0);
        assert((a + b).drop_last() =~= a + b0);
        assert((a + b).last() == b.last());
        assert(b.last() != '\n');
        let q = p.update(p.len() - 1, p.last() + b0);
        assert(q.last() == p.last() + b0);
        assert((p.last() + b0).push(b.last()) =~= p.last() + b);
        assert(q.update(q.len() - 1, q.last().push(b.last())) =~= p.update(p.len() - 1, p.last() + b));
    }
}

/// Lines without line feeds, joined, fall back into the same pieces.
proof fn lemma_pieces_of_joined(lines: Seq<Seq<char>>)
    requires
        lines.len() >= 1,
        forall|i: int| 0 <= i < lines.len() ==> no_line_feed(#[trigger] lines[i]),
    ensures
        pieces(joined_lines(lines)) == lines,
    decreases lines.len(),
{
    if lines.len() == 1 {
        lemma_pieces_append_plain(seq![], lines[0]);
        assert(seq![] + lines[0] =~= lines[0]);
        assert(pieces(Seq::<char>::empty()) == seq![Seq::<char>::empty()]);
        assert(Seq::<char>::empty() + lines[0] =~= lines[0]);
        assert(seq![Seq::<char>::empty()].update(0, Seq::<char>::empty() + lines[0]) =~= lines);
    } else {
        let init = lines.drop_last();
        assert forall|i: int| 0 <= i < init.len() implies no_line_feed(#[trigger] init[i]) by {
            assert(init[i] == lines[i]);
        }
        lemma_pieces_of_joined(init);
        let j = joined_lines(init);
        let jn = j.push('\n');
        assert(jn.drop_last() =~= j);
        assert(pieces(jn) == init.push(seq![]));
        assert(no_line_feed(lines.last()));
        lemma_pieces_append_plain(jn, lines.last());
        assert(jn + lines.last() =~= joined_lines(lines));
        assert(Seq::<char>::empty() + lines.last() =~= lines.last());
        assert(init.push(seq![]).update(init.len() as int, Seq::<char>::empty() + lines.last()) =~= lines);
    }
}

/// Lines that are already trimmed commands are all kept, unchanged.
proof fn lemma_command_lines_of_commands(lines: Seq<Seq<char>>)
    requires
        forall|i: int| 0 <= i < lines.len() ==> trim(#[trigger] lines[i]) == lines[i] && is_command(lines[i]),
    ensures
        command_lines(lines) == lines,
    decreases lines.len(),
{
    if lines.len() > 0 {
        let init = lines.drop_last();
        assert forall|i: int| 0 <= i < init.len() implies trim(#[trigger] init[i]) == init[i] && is_command(init[i]) by {
            assert(init[i] == lines[i]);
        }
        lemma_command_lines_of_commands(init);
        assert(trim(lines.last()) == lines.last());
        assert(init.push(lines.last()) =~= lines);
    }
}

/// Trimming keeps a text free of line feeds.
proof fn lemma_trim_plain(s: Seq<char>)
    requires
        no_line_feed(s),
    ensures
        no_line_feed(trim(s)),
    decreases s.len(),
{
    lemma_trim_start_plain(s);
    lemma_trim_end_prefix(trim_start(s));
    let a = trim_start(s);
    let t = trim(s);
    assert forall|i: int| 0 <= i < t.len() implies t[i] != '\n' by {
        assert(t[i] == a[i]);
    }
}

/// Dropping leading white space keeps a text free of line feeds.
proof fn lemma_trim_start_plain(s: Seq<char>)
    requires
        no_line_feed(s),
    ensures
        no_line_feed(trim_start(s)),
    decreases s.len(),
{
    if s.len() > 0 && is_white_space(s[0]) {
        let r = s.drop_first();
        assert forall|i: int| 0 <= i < r.len() implies r[i] != '\n' by {
            assert(r[i] == s[i + 1]);
        }
        lemma_trim_start_plain(r);
    }
}

/// The commands kept from lines without line feeds hold none.
proof fn lemma_command_lines_plain(lines: Seq<Seq<char>>)
    requires
        forall|i: int| 0 <= i < lines.len() ==> no_line_feed(#[trigger] lines[i]),
    ensures
        forall|i: int| 0 <= i < command_lines(lines).len() ==> no_line_feed(#[trigger] command_lines(lines)[i]),
    decreases lines.len(),
{
    if lines.len() > 0 {
        let init = lines.drop_last();
        assert forall|i: int| 0 <= i < init.len() implies no_line_feed(#[trigger] init[i]) by {
            assert(init[i] == lines[i]);
        }
        lemma_command_lines_plain(init);
        assert(no_line_feed(lines[lines.len() - 1]));
        lemma_trim_plain(lines.last());
        let rest = command_lines(init);
        assert forall|i: int| 0 <= i < command_lines(lines).len() implies no_line_feed(
            #[trigger] command_lines(lines)[i],
        ) by {
            if i < rest.len() {
                assert(command_lines(lines)[i] == rest[i]);
            }
        }
    }
}

/// Leading white space of a text that has more than white space stays
/// behind when a character is appended.
proof fn lemma_trim_start_push(x: Seq<char>, c: char)
    ensures
        trim_start(x.push(c)) == (if trim_start(x).len() == 0 {
            trim_start(seq![c])
        } else {
            trim_start(x).push(c)
        }),
    decreases x.len(),
{
    if x.len() == 0 {
        assert(x.push(c) =~= seq![c]);
    } else if is_white_space(x[0]) {
        assert(x.push(c).drop_first() =~= x.drop_first().push(c));
        lemma_trim_start_push(x.drop_first(), c);
    } else {
        assert(x.push(c)[0] == x[0]);
    }
}

/// Appending white space does not change what a text trims to.
proof fn lemma_trim_push_white(x: Seq<char>, c: char)
    requires
        is_white_space(c),
    ensures
        trim(x.push(c)) == trim(x),
{
    lemma_trim_start_push(x, c);
    if trim_start(x).len() == 0 {
        assert(seq![c].drop_first() =~= Seq::<char>::empty());
        assert(trim_start(seq![c]) == trim_start(Seq::<char>::empty()));
    } else {
        assert(trim_start(x).push(c).drop_last() =~= trim_start(x));
    }
}

/// Prepending white space does not change what a text trims to.
proof fn lemma_trim_prepend_white(x: Seq<char>, c: char)
    requires
        is_white_space(c),
    ensures
        trim(seq![c] + x) == trim(x),
{
    assert((seq![c] + x).drop_first() =~= x);
    assert((seq![c] + x)[0] == c);
}

/// Trailing white space brings no command line.
proof fn lemma_command_lines_drop_white(s: Seq<char>)
    requires
        s.len() > 0,
        is_white_space(s.last()),
    ensures
        command_lines(pieces(s.drop_last())) == command_lines(pieces(s)),
{
    let p = pieces(s.drop_last());
    lemma_pieces_nonempty(s.drop_last());
    if s.last() == '\n' {
        assert(p.push(seq![]).drop_last() =~= p);
        assert(trim(Seq::<char>::empty()) == Seq::<char>::empty());
    } else {
        let q = p.update(p.len() - 1, p.last().push(s.last()));
        assert(q.drop_last() =~= p.drop_last());
        lemma_trim_push_white(p.last(), s.last());
    }
}

/// Dropping trailing white space changes no command line.
proof fn lemma_command_lines_trim_end(s: Seq<char>)
    ensures
        command_lines(pieces(trim_end(s))) == command_lines(pieces(s)),
    decreases s.len(),
{
    if s.len() > 0 && is_white_space(s.last()) {
        lemma_command_lines_trim_end(s.drop_last());
        lemma_command_lines_drop_white(s);
    }
}

/// The pieces of a text with one more character in front.
proof fn lemma_pieces_prepend(c: char, t: Seq<char>)
    ensures
        pieces(seq![c] + t) == (if c == '\n' {
            seq![Seq::<char>::empty()] + pieces(t)
        } else {
            pieces(t).update(0, seq![c] + pieces(t)[0])
        }),
    decreases t.len(),
{
    let e = Seq::<char>::empty();
    lemma_pieces_nonempty(t);
    let ct = seq![c] + t;
    if t.len() == 0 {
        assert(ct =~= seq![c]);
        assert(ct.drop_last() =~= e);
        assert(ct.last() == c);
        assert(pieces(e) == seq![e]);
        assert(pieces(t) == seq![e]);
        if c == '\n' {
            assert(pieces(ct) == seq![e].push(e));
            assert(seq![e].push(e) =~= seq![e] + seq![e]);
        } else {
            assert(pieces(ct) == seq![e].update(0, e.push(c)));
            assert(e.push(c) =~= seq![c] + e);
        }
    } else {
        let t0 = t.drop_last();
        let d = t.last();
        lemma_pieces_prepend(c, t0);
        lemma_pieces_nonempty(t0);
        assert(ct.drop_last() =~= seq![c] + t0);
        assert(ct.last() == d);
        let p0 = pieces(t0);
        let pc = pieces(seq![c] + t0);
        if d == '\n' {
            assert(pieces(ct) == pc.push(e));
            assert(pieces(t) == p0.push(e));
        } else {
            assert(pieces(ct) == pc.update(pc.len() - 1, pc.last().push(d)));
            assert(pieces(t) == p0.update(p0.len() - 1, p0.last().push(d)));
        }
        if c == '\n' {
            assert(pc == seq![e] + p0);
            if d == '\n' {
                assert(pc.push(e) =~= seq![e] + p0.push(e));
            } else {
                let r = p0.update(p0.len() - 1, p0.last().push(d));
                assert(pc.update(pc.len() - 1, pc.last().push(d)) =~= seq![e] + r);
            }
        } else {
            assert(pc == p0.update(0, seq![c] + p0[0]));
            if d == '\n' {
                assert(pc.push(e) =~= p0.push(e).update(0, seq![c] + p0.push(e)[0]));
            } else {
                let r = p0.update(p0.len() - 1, p0.last().push(d));
                if p0.len() == 1 {
                    assert((seq![c] + p0[0]).push(d) =~= seq![c] + p0[0].push(d));
                }
                assert(pc.update(pc.len() - 1, pc.last().push(d)) =~= r.update(0, seq![c] + r[0]));
            }
        }
    }
}

/// The command lines of a list of lines with one more line in front.
proof fn lemma_command_lines_prepend(x: Seq<char>, ps: Seq<Seq<char>>)
    ensures
        command_lines(seq![x] + ps) == (if is_command(trim(x)) {
            seq![trim(x)]
        } else {
            seq![]
        }) + command_lines(ps),
    decreases ps.len(),
{
    let h: Seq<Seq<char>> = if is_command(trim(x)) {
        seq![trim(x)]
    } else {
        seq![]
    };
    if ps.len() == 0 {
        let xs = seq![x] + ps;
        assert(xs =~= seq![x]);
        assert(xs.drop_last() =~= Seq::<Seq<char>>::empty());
        assert(command_lines(Seq::<Seq<char>>::empty()) == Seq::<Seq<char>>::empty());
        assert(xs.last() == x);
        assert(command_lines(ps) == Seq::<Seq<char>>::empty());
        if is_command(trim(x)) {
            assert(command_lines(xs) == Seq::<Seq<char>>::empty().push(trim(x)));
            assert(Seq::<Seq<char>>::empty().push(trim(x)) =~= h + command_lines(ps));
        } else {
            assert(command_lines(xs) == Seq::<Seq<char>>::empty());
            assert(h + command_lines(ps) =~= Seq::<Seq<char>>::empty());
        }
    } else {
        let xs = seq![x] + ps;
        lemma_command_lines_prepend(x, ps.drop_last());
        assert(xs.drop_last() =~= seq![x] + ps.drop_last());
        assert(xs.last() == ps.last());
        let rest = command_lines(ps.drop_last());
        let t = trim(ps.last());
        assert(command_lines(xs.drop_last()) == h + rest);
        if is_command(t) {
            assert(command_lines(xs) == (h + rest).push(t));
            assert(command_lines(ps) == rest.push(t));
            assert((h + rest).push(t) =~= h + rest.push(t));
        } else {
            assert(command_lines(xs) == h + rest);
            assert(command_lines(ps) == rest);
        }
    }
}

/// Leading white space brings no command line.
proof fn lemma_command_lines_drop_first_white(s: Seq<char>)
    requires
        s.len() > 0,
        is_white_space(s[0]),
    ensures
        command_lines(pieces(s.drop_first())) == command_lines(pieces(s)),
{
    let c = s[0];
    let t = s.drop_first();
    assert(seq![c] + t =~= s);
    lemma_pieces_prepend(c, t);
    lemma_pieces_nonempty(t);
    let p = pieces(t);
    assert(seq![p[0]] + p.skip(1) =~= p);
    lemma_command_lines_prepend(p[0], p.skip(1));
    if c == '\n' {
        lemma_command_lines_prepend(Seq::<char>::empty(), p);
        assert(trim(Seq::<char>::empty()) == Seq::<char>::empty());
        assert(Seq::<Seq<char>>::empty() + command_lines(p) =~= command_lines(p));
    } else {
        let q = p.update(0, seq![c] + p[0]);
        assert(seq![seq![c] + p[0]] + p.skip(1) =~= q);
        lemma_command_lines_prepend(seq![c] + p[0], p.skip(1));
        lemma_trim_prepend_white(p[0], c);
    }
}

/// Dropping leading white space changes no command line.
proof fn lemma_command_lines_trim_start(s: Seq<char>)
    ensures
        command_lines(pieces(trim_start(s))) == command_lines(pieces(s)),
    decreases s.len(),
{
    if s.len() > 0 && is_white_space(s[0]) {
        lemma_command_lines_trim_start(s.drop_first());
        lemma_command_lines_drop_first_white(s);
    }
}

/// Reading the commands back from their lines gives the same commands: a
/// reply made of the commands read from a reply, one to a line, yields
/// those commands again, also where the whole reply was the one command.
pub proof fn law_commands_reparse(reply: Seq<char>)
    ensures
        commands_of(joined_lines(commands_of(reply))) == commands_of(reply),
{
    let cs = command_lines(pieces(reply));
    if cs.len() > 0 {
        lemma_command_lines_shape(pieces(reply));
        lemma_pieces_plain(reply);
        lemma_command_lines_plain(pieces(reply));
        lemma_pieces_of_joined(cs);
        lemma_command_lines_of_commands(cs);
    } else {
        let t = trim(reply);
        assert(joined_lines(seq![t]) == t);
        lemma_command_lines_trim_start(reply);
        lemma_command_lines_trim_end(trim_start(reply));
        lemma_trim_idempotent(reply);
    }
}

/// The lines trimmed.
pub open spec fn trimmed_lines(lines: Seq<Seq<char>>) -> Seq<Seq<char>> {
    lines.map_values(|p: Seq<char>| trim(p))
}

/// The kept lines are the trimmed lines that are neither empty nor begin
/// with `#`, in order.
proof fn lemma_command_lines_filter(lines: Seq<Seq<char>>)
    ensures
        command_lines(lines) == trimmed_lines(lines).filter(|t: Seq<char>| t.len() > 0 && t[0] != '#'),
    decreases lines.len(),
{
    reveal(Seq::filter);
    if lines.len() > 0 {
        lemma_command_lines_filter(lines.drop_last());
        let m = trimmed_lines(lines);
        assert(m.drop_last() =~= trimmed_lines(lines.drop_last()));
        assert(m.last() == trim(lines.last()));
    }
}

/// The commands read from a reply are its lines, trimmed, that are not
/// empty and do not begin with `#`, in the order of the lines; only where no
/// line is such is the whole reply, trimmed, the one command.
pub proof fn law_commands_are_the_kept_lines(reply: Seq<char>)
    ensures
        ({
            let kept = pieces(reply).map_values(|p: Seq<char>| trim(p)).filter(
                |t: Seq<char>| t.len() > 0 && t[0] != '#',
            );
            commands_of(reply) == if kept.len() > 0 {
                kept
            } else {
                seq![trim(reply)]
            }
        }),
{
    lemma_command_lines_filter(pieces(reply));
}

/// Every line that, trimmed, is not empty and does not begin with `#` is
/// read as a command, whatever else it holds (a `#` further in included).
pub proof fn law_every_command_line_is_kept(reply: Seq<char>, i: int)
    requires
        0 <= i < pieces(reply).len(),
        trim(pieces(reply)[i]).len() > 0,
        trim(pieces(reply)[i])[0] != '#',
    ensures
        commands_of(reply).contains(trim(pieces(reply)[i])),
{
    let lines = pieces(reply);
    let m = trimmed_lines(lines);
    let pred = |t: Seq<char>| t.len() > 0 && t[0] != '#';
    lemma_command_lines_filter(lines);
    assert(m[i] == trim(lines[i]));
    m.lemma_filter_contains(pred, i);
    assert(command_lines(lines).len() > 0);
}

/// Joining the pieces of a text with line feeds gives the text back, and no
/// piece holds a line feed: the pieces are the text's lines.
pub proof fn law_pieces_are_the_lines(s: Seq<char>)
    ensures
        joined_lines(pieces(s)) == s,
        forall|i: int| 0 <= i < pieces(s).len() ==> no_line_feed(#[trigger] pieces(s)[i]),
    decreases s.len(),
{
    lemma_pieces_plain(s);
    if s.len() == 0 {
        assert(pieces(s) == seq![Seq::<char>::empty()]);
        assert(s =~= Seq::<char>::empty());
    } else {
        let p = pieces(s.drop_last());
        law_pieces_are_the_lines(s.drop_last());
        lemma_pieces_nonempty(s.drop_last());
        if s.last() == '\n' {
            let q = p.push(seq![]);
            assert(q.drop_last() =~= p);
            assert(joined_lines(q) == joined_lines(p) + seq!['\n'] + Seq::<char>::empty());
            assert(joined_lines(p) + seq!['\n'] + Seq::<char>::empty() =~= s);
        } else {
            let q = p.update(p.len() - 1, p.last().push(s.last()));
            if p.len() == 1 {
                assert(joined_lines(p) == p[0]);
                assert(joined_lines(q) == q[0]);
                assert(q[0] =~= s);
            } else {
                assert(q.drop_last() =~= p.drop_last());
                assert(joined_lines(p) == joined_lines(p.drop_last()) + seq!['\n'] + p.last());
                assert(joined_lines(q) == joined_lines(p.drop_last()) + seq!['\n'] + p.last().push(s.last()));
                assert((joined_lines(p.drop_last()) + seq!['\n'] + p.last()).push(s.last())
                    =~= joined_lines(p.drop_last()) + seq!['\n'] + p.last().push(s.last()));
                assert(s =~= s.drop_last().push(s.last()));
            }
        }
    }
}

/// Trimming removes leading white space only.
proof fn lemma_trim_start_suffix(s: Seq<char>)
    ensures
        trim_start(s).len() <= s.len(),
        trim_start(s) =~= s.subrange(s.len() - trim_start(s).len(), s.len() as int),
        forall|k: int| 0 <= k < s.len() - trim_start(s).len() ==> is_white_space(#[trigger] s[k]),
    decreases s.len(),
{
    if s.len() > 0 && is_white_space(s[0]) {
        let r = s.drop_first();
        lemma_trim_start_suffix(r);
        assert forall|k: int| 0 <= k < s.len() - trim_start(s).len() implies is_white_space(#[trigger] s[k]) by {
            if k > 0 {
                assert(s[k] == r[k - 1]);
            }
        }
    }
}

/// What `trim_end` drops is white space.
proof fn lemma_trim_end_drops_white(s: Seq<char>)
    ensures
        forall|k: int| trim_end(s).len() <= k < s.len() ==> is_white_space(#[trigger] s[k]),
    decreases s.len(),
{
    lemma_trim_end_prefix(s);
    if s.len() > 0 && is_white_space(s.last()) {
        lemma_trim_end_drops_white(s.drop_last());
        assert forall|k: int| trim_end(s).len() <= k < s.len() implies is_white_space(#[trigger] s[k]) by {
            if k < s.len() - 1 {
                assert(s[k] == s.drop_last()[k]);
            }
        }
    }
}

/// Trimming a text leaves the part between its leading and its trailing
/// white space: a slice of the text, with white space only before and after
/// it, and neither beginning nor ending with white space.
pub proof fn law_trim_is_the_inner_slice(s: Seq<char>)
    ensures
        exists|a: int, b: int|
            {
                &&& 0 <= a <= b <= s.len()
                &&& trim(s) == s.subrange(a, b)
                &&& forall|k: int| 0 <= k < a ==> is_white_space(#[trigger] s[k])
                &&& forall|k: int| b <= k < s.len() ==> is_white_space(#[trigger] s[k])
                &&& a < b ==> !is_white_space(s[a]) && !is_white_space(s[b - 1])
            },
{
    let u = trim_start(s);
    let t = trim(s);
    lemma_trim_start_suffix(s);
    lemma_trim_start_lead(s);
    lemma_trim_end_prefix(u);
    lemma_trim_end_drops_white(u);
    let a = s.len() - u.len();
    let b = a + t.len();
    assert(t =~= s.subrange(a, b));
    assert forall|k: int| b <= k < s.len() implies is_white_space(#[trigger] s[k]) by {
        assert(s[k] == u[k - a]);
    }
    if a < b {
        assert(s[a] == u[0]);
        assert(t[0] == u[0]);
        assert(s[b - 1] == t.last());
    }
}

/// Whether `c` is white space (`char::is_whitespace`).
pub fn is_white_space_char(c: char) -> (r: bool)
    ensures
        r == is_white_space(c),
{
    let u = c as u32;
    (0x09 <= u && u <= 0x0d) || u == 0x20 || u == 0x85 || u == 0xa0 || u == 0x1680 || (0x2000 <= u && u
        <= 0x200a) || u == 0x2028 || u == 0x2029 || u == 0x202f || u == 0x205f || u == 0x3000
}

/// The bounds of `chars[lo..hi]` trimmed.
fn trimmed_bounds(chars: &Vec<char>, lo: usize, hi: usize) -> (r: (usize, usize))
    requires
        lo <= hi <= chars.len(),
    ensures
        lo <= r.0 <= r.1 <= hi,
        chars@.subrange(r.0 as int, r.1 as int) == trim(chars@.subrange(lo as int, hi as int)),
{
    let mut a = lo;
    while a < hi && is_white_space_char(chars[a])
        invariant
            lo <= a <= hi <= chars.len(),
            trim_start(chars@.subrange(lo as int, hi as int)) == trim_start(chars@.subrange(a as int, hi as int)),
        decreases hi - a,
    {
        assert(chars@.subrange(a as int, hi as int).drop_first() =~= chars@.subrange(a + 1, hi as int));
        a += 1;
    }
    assert(trim_start(chars@.subrange(a as int, hi as int)) == chars@.subrange(a as int, hi as int));
    let mut b = hi;
    while b > a && is_white_space_char(chars[b - 1])
        invariant
            lo <= a <= b <= hi <= chars.len(),
            trim_end(chars@.subrange(a as int, hi as int)) == trim_end(chars@.subrange(a as int, b as int)),
        decreases b - a,
    {
        assert(chars@.subrange(a as int, b as int).drop_last() =~= chars@.subrange(a as int, b - 1));
        b -= 1;
    }
    assert(trim_end(chars@.subrange(a as int, b as int)) == chars@.subrange(a as int, b as int));
    (a, b)
}

/// The text of `chars[lo..hi]`.
fn text_of(chars: &Vec<char>, lo: usize, hi: usize) -> (s: String)
    requires
        lo <= hi <= chars.len(),
    ensures
        s@ == chars@.subrange(lo as int, hi as int),
{
    let mut s = String::new();
    let mut i = lo;
    while i < hi
        invariant
            lo <= i <= hi <= chars.len(),
            s@ == chars@.subrange(lo as int, i as int),
        decreases hi - i,
    {
        push_char(&mut s, chars[i]);
        assert(chars@.subrange(lo as int, i + 1) =~= chars@.subrange(lo as int, i as int).push(chars@[i as int]));
        i += 1;
    }
    s
}

/// The characters of `s`.
fn chars_of(s: &str) -> (v: Vec<char>)
    ensures
        v@ == s@,
{
    let mut v: Vec<char> = Vec::new();
    for c in it: s.chars()
        invariant
            v@ == it.seq().take(it.index() as int),
    {
        v.push(c);
    }
    v
}


/// A command with no description and rank 0.
fn plain_command(command: String) -> (c: AIGeneratedCommand)
    ensures
        c.command == command,
        c.description is None,
        c.rank == 0,
{
    AIGeneratedCommand { command, description: None, rank: 0 }
}

/// The texts of a list of commands.
pub open spec fn command_texts(cs: Seq<AIGeneratedCommand>) -> Seq<Seq<char>> {
    cs.map_values(|c: AIGeneratedCommand| c.command@)
}

/// The shell commands in a reply of the model: each line, trimmed, that is
/// neither empty nor a `#` comment, in order; where no line is one, the
/// whole reply, trimmed, as the one command. No command has a description,
/// and each has rank 0.
pub fn parse_commands(reply: &str) -> (r: Vec<AIGeneratedCommand>)
    ensures
        command_texts(r@) == commands_of(reply@),
        forall|i: int| 0 <= i < r.len() ==> (#[trigger] r@[i]).description is None && r@[i].rank == 0,
{
    let chars = chars_of(reply);
    let n = chars.len();
    let mut commands: Vec<AIGeneratedCommand> = Vec::new();
    let mut start: usize = 0;
    let mut i: usize = 0;
    while i < n
        invariant
            n == chars.len(),
            chars@ == reply@,
            start <= i <= n,
            pieces(chars@.take(i as int)).len() >= 1,
            pieces(chars@.take(i as int)).last() == chars@.subrange(start as int, i as int),
            command_texts(commands@) == command_lines(pieces(chars@.take(i as int)).drop_last()),
            forall|k: int| 0 <= k < commands.len() ==> (#[trigger] commands@[k]).description is None
                && commands@[k].rank == 0,
        decreases n - i,
    {
        let ghost p = pieces(chars@.take(i as int));
        assert(chars@.take(i + 1).drop_last() =~= chars@.take(i as int));
        assert(chars@.take(i + 1).last() == chars@[i as int]);
        if chars[i] == '\n' {
            let (a, b) = trimmed_bounds(&chars, start, i);
            if a < b && chars[a] != '#' {
                let text = text_of(&chars, a, b);
                commands.push(plain_command(text));
            }
            proof {
                assert(pieces(chars@.take(i + 1)) == p.push(seq![]));
                assert(pieces(chars@.take(i + 1)).drop_last() =~= p);
                assert(p =~= p.drop_last().push(p.last()));
                assert(command_texts(commands@) =~= command_lines(p));
            }
            start = i + 1;
        } else {
            proof {
                let q = pieces(chars@.take(i + 1));
                assert(q == p.update(p.len() - 1, p.last().push(chars@[i as int])));
                assert(q.drop_last() =~= p.drop_last());
                assert(chars@.subrange(start as int, i + 1) =~= chars@.subrange(start as int, i as int).push(
                    chars@[i as int],
                ));
            }
        }
        i += 1;
    }
    let ghost p = pieces(chars@.take(n as int));
    assert(chars@.take(n as int) =~= chars@);
    let (a, b) = trimmed_bounds(&chars, start, n);
    if a < b && chars[a] != '#' {
        let text = text_of(&chars, a, b);
        commands.push(plain_command(text));
    }
    proof {
        assert(p =~= p.drop_last().push(p.last()));
        assert(command_texts(commands@) =~= command_lines(p));
    }
    if commands.len() == 0 {
        let (a, b) = trimmed_bounds(&chars, 0, n);
        let text = text_of(&chars, a, b);
        commands.push(plain_command(text));
        proof {
            assert(chars@.subrange(0, n as int) =~= chars@);
            assert(command_texts(commands@) =~= seq![trim(reply@)]);
        }
    }
    commands
}

} // verus!

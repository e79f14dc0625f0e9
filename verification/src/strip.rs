//! The comment-stripping transform: commented JSON text to comment-free
//! text, ready for a strict JSON parser.
//!
//! Two passes. The block pass removes every span from a `/*` marker up to
//! and including the nearest following `*/` marker, across line breaks; a
//! `/*` with no close marker after it is left untouched. The block pass
//! does not track string literals, so a `/*` inside a quoted string is
//! still treated as a comment start — a deliberate, documented limitation
//! of the format. The line pass then walks each line with two flags,
//! `in_string` and `escape`, and truncates the line at the first `//`
//! found outside a string; a `//` inside a quoted string is kept, an
//! escaped quote does not toggle the string state, and the escape state
//! is reset at the start of every line. Lines are rejoined with `\n`.

use vstd::prelude::*;
use vstd::string::*;

verus! {

// ---------------------------------------------------------------------
// Block-comment pass, specification
// ---------------------------------------------------------------------

/// The remainder of `s` after the first `*/` marker, or `None` when no
/// close marker occurs anywhere in `s`.
pub open spec fn after_block_close(s: Seq<char>) -> Option<Seq<char>>
    decreases s.len(),
{
    if s.len() < 2 {
        None
    } else if s[0] == '*' && s[1] == '/' {
        Some(s.skip(2))
    } else {
        after_block_close(s.skip(1))
    }
}

proof fn lemma_after_block_close_len(s: Seq<char>)
    ensures
        after_block_close(s) matches Some(rest) ==> rest.len() + 2 <= s.len(),
    decreases s.len(),
{
    if s.len() < 2 {
    } else if s[0] == '*' && s[1] == '/' {
    } else {
        lemma_after_block_close_len(s.skip(1));
    }
}

/// The block pass: every span from a `/*` to the nearest following `*/`
/// is removed, markers included; a `/*` with no later close marker stays.
pub open spec fn strip_blocks(s: Seq<char>) -> Seq<char>
    decreases s.len(),
    via strip_blocks_decreases
{
    if s.len() < 2 {
        s
    } else if s[0] == '/' && s[1] == '*' {
        match after_block_close(s.skip(2)) {
            Some(rest) => strip_blocks(rest),
            None => s,
        }
    } else {
        seq![s[0]] + strip_blocks(s.skip(1))
    }
}

#[via_fn]
proof fn strip_blocks_decreases(s: Seq<char>) {
    if s.len() >= 2 && s[0] == '/' && s[1] == '*' {
        lemma_after_block_close_len(s.skip(2));
    }
}

// ---------------------------------------------------------------------
// Line-comment pass, specification
// ---------------------------------------------------------------------

/// How many leading characters of `line` the line pass keeps, scanning
/// from position `i` with the string and escape flags as given. The scan
/// stops at the first `//` seen outside a string and not under a pending
/// escape; if none is found the whole line is kept.
pub open spec fn keep_len_from(line: Seq<char>, i: int, in_string: bool, escape: bool) -> int
    decreases line.len() - i,
{
    if i < 0 || i >= line.len() {
        line.len() as int
    } else if escape {
        keep_len_from(line, i + 1, in_string, false)
    } else if line[i] == '\\' {
        keep_len_from(line, i + 1, in_string, true)
    } else if line[i] == '"' {
        keep_len_from(line, i + 1, !in_string, false)
    } else if !in_string && line[i] == '/' && i + 1 < line.len() && line[i + 1] == '/' {
        i
    } else {
        keep_len_from(line, i + 1, in_string, false)
    }
}

/// One line after the line pass: its kept prefix.
pub open spec fn strip_line(line: Seq<char>) -> Seq<char> {
    line.take(keep_len_from(line, 0, false, false))
}

// ---------------------------------------------------------------------
// Splitting into lines and joining them back
// ---------------------------------------------------------------------

/// Index of the first newline in `s`, or `s.len()` when there is none.
pub open spec fn first_newline(s: Seq<char>) -> int
    decreases s.len(),
{
    if s.len() == 0 {
        0
    } else if s[0] == '\n' {
        0
    } else {
        1 + first_newline(s.skip(1))
    }
}

proof fn lemma_first_newline_bounds(s: Seq<char>)
    ensures
        0 <= first_newline(s) <= s.len(),
        first_newline(s) < s.len() ==> s[first_newline(s)] == '\n',
        forall|k: int| 0 <= k < first_newline(s) ==> s[k] != '\n',
    decreases s.len(),
{
    if s.len() == 0 {
    } else if s[0] == '\n' {
    } else {
        lemma_first_newline_bounds(s.skip(1));
        assert forall|k: int| 0 <= k < first_newline(s) implies s[k] != '\n' by {
            if k > 0 {
                assert(s.skip(1)[k - 1] == s[k]);
            }
        }
    }
}

/// `first_newline` is pinned down by its characterization: no newline
/// before `m`, and a newline at `m` unless `m` is the length.
proof fn lemma_first_newline_is(s: Seq<char>, m: int)
    requires
        0 <= m <= s.len(),
        forall|k: int| 0 <= k < m ==> s[k] != '\n',
        m < s.len() ==> s[m] == '\n',
    ensures
        first_newline(s) == m,
    decreases s.len(),
{
    if s.len() == 0 {
    } else if s[0] == '\n' {
        assert(m == 0);
    } else {
        assert(m >= 1);
        assert forall|k: int| 0 <= k < m - 1 implies s.skip(1)[k] != '\n' by {
            assert(s.skip(1)[k] == s[k + 1]);
        }
        assert(m - 1 < s.skip(1).len() ==> s.skip(1)[m - 1] == '\n');
        lemma_first_newline_is(s.skip(1), m - 1);
    }
}

/// A line without a final carriage return: the splitter drops one `\r`
/// immediately before each newline, as a `\r\n` ending marks one line.
pub open spec fn chomp_cr(line: Seq<char>) -> Seq<char> {
    if line.len() > 0 && line[line.len() - 1] == '\r' {
        line.drop_last()
    } else {
        line
    }
}

/// The lines of `s`: segments between newlines, a `\r` before each
/// newline dropped, and a final segment after the last newline included
/// only when it is not empty.
pub open spec fn split_lines(s: Seq<char>) -> Seq<Seq<char>>
    decreases s.len(),
    via split_lines_decreases
{
    if s.len() == 0 {
        Seq::empty()
    } else {
        let i = first_newline(s);
        if i >= s.len() {
            seq![s]
        } else {
            seq![chomp_cr(s.take(i))] + split_lines(s.skip(i + 1))
        }
    }
}

#[via_fn]
proof fn split_lines_decreases(s: Seq<char>) {
    if s.len() > 0 {
        lemma_first_newline_bounds(s);
    }
}

/// The lines joined back with single newline separators.
pub open spec fn join_lines(lines: Seq<Seq<char>>) -> Seq<char>
    decreases lines.len(),
{
    if lines.len() == 0 {
        Seq::empty()
    } else if lines.len() == 1 {
        lines[0]
    } else {
        lines[0] + seq!['\n'] + join_lines(lines.skip(1))
    }
}

/// Every line passed through the line pass.
pub open spec fn strip_all_lines(lines: Seq<Seq<char>>) -> Seq<Seq<char>> {
    lines.map_values(|line: Seq<char>| strip_line(line))
}

/// The whole transform: block pass, then the line pass on each line, the
/// results rejoined with newlines.
pub open spec fn strip_spec(s: Seq<char>) -> Seq<char> {
    join_lines(strip_all_lines(split_lines(strip_blocks(s))))
}

/// Joining one more line appends a separator (except before the first
/// line) and then the line itself.
proof fn lemma_join_take_succ(lines: Seq<Seq<char>>, m: int)
    requires
        0 <= m < lines.len(),
    ensures
        m == 0 ==> join_lines(lines.take(1)) == lines[0],
        m > 0 ==> join_lines(lines.take(m + 1)) == join_lines(lines.take(m)) + seq!['\n']
            + lines[m],
    decreases m,
{
    if m == 0 {
        assert(lines.take(1).len() == 1);
        assert(lines.take(1)[0] == lines[0]);
    } else {
        lemma_join_take_succ(lines.skip(1), m - 1);
        assert(lines.take(m + 1).skip(1) =~= lines.skip(1).take(m));
        assert(lines.take(m).skip(1) =~= lines.skip(1).take(m - 1));
        assert(lines.take(m + 1)[0] == lines[0]);
        assert(lines.take(m)[0] == lines[0]);
        assert(lines.skip(1)[m - 1] == lines[m]);
        if m == 1 {
            assert(join_lines(lines.take(2)) == lines.take(2)[0] + seq!['\n'] + join_lines(
                lines.skip(1).take(1),
            ));
            assert(join_lines(lines.take(1)) == lines[0]);
            assert(join_lines(lines.take(2)) == join_lines(lines.take(1)) + seq!['\n']
                + lines[1]);
        } else {
            assert(join_lines(lines.take(m + 1)) == lines[0] + seq!['\n'] + join_lines(
                lines.skip(1).take(m),
            ));
            assert(join_lines(lines.take(m)) == lines[0] + seq!['\n'] + join_lines(
                lines.skip(1).take(m - 1),
            ));
            assert(join_lines(lines.skip(1).take(m)) == join_lines(lines.skip(1).take(m - 1))
                + seq!['\n'] + lines.skip(1)[m - 1]);
            assert((lines[0] + seq!['\n'] + (join_lines(lines.skip(1).take(m - 1)) + seq!['\n']
                + lines[m])) =~= (lines[0] + seq!['\n'] + join_lines(lines.skip(1).take(m - 1)))
                + seq!['\n'] + lines[m]);
        }
    }
}

// ---------------------------------------------------------------------
// Executable transform
// ---------------------------------------------------------------------

/// Relies on String::push: appends one character at the end.
#[verifier::external_body]
fn push_char(s: &mut String, c: char)
    ensures
        final(s)@ == old(s)@.push(c),
{
    s.push(c)
}

fn to_chars(s: &str) -> (r: Vec<char>)
    ensures
        r@ == s@,
{
    let n = s.unicode_len();
    let mut r: Vec<char> = Vec::new();
    let mut i: usize = 0;
    while i < n
        invariant
            n == s@.len(),
            i <= n,
            r@ == s@.take(i as int),
        decreases n - i,
    {
        r.push(s.get_char(i));
        i += 1;
        proof {
            assert(r@ =~= s@.take(i as int));
        }
    }
    proof {
        assert(s@.take(n as int) =~= s@);
    }
    r
}

fn from_chars(v: &Vec<char>) -> (r: String)
    ensures
        r@ == v@,
{
    let mut r = String::new();
    let mut i: usize = 0;
    while i < v.len()
        invariant
            i <= v@.len(),
            r@ == v@.take(i as int),
        decreases v@.len() - i,
    {
        push_char(&mut r, v[i]);
        i += 1;
        proof {
            assert(r@ =~= v@.take(i as int));
        }
    }
    proof {
        assert(v@.take(v@.len() as int) =~= v@);
    }
    r
}

fn strip_blocks_exec(t: &Vec<char>) -> (out: Vec<char>)
    ensures
        out@ == strip_blocks(t@),
{
    let n = t.len();
    let mut out: Vec<char> = Vec::new();
    let mut i: usize = 0;
    proof {
        assert(t@.skip(0) =~= t@);
        assert(out@ + strip_blocks(t@) =~= strip_blocks(t@));
    }
    while i < n
        invariant
            n == t@.len(),
            i <= n,
            strip_blocks(t@) == out@ + strip_blocks(t@.skip(i as int)),
        decreases n - i,
    {
        if t[i] == '/' && i + 1 < n && t[i + 1] == '*' {
            proof {
                assert(t@.skip(i as int)[0] == t@[i as int]);
                assert(t@.skip(i as int)[1] == t@[i as int + 1]);
                assert(t@.skip(i as int).skip(2) =~= t@.skip(i as int + 2));
            }
            let mut j = i + 2;
            while j < n - 1 && !(t[j] == '*' && t[j + 1] == '/')
                invariant
                    n == t@.len(),
                    i as int + 1 < n,
                    i + 2 <= j <= n,
                    after_block_close(t@.skip(i as int + 2)) == after_block_close(
                        t@.skip(j as int),
                    ),
                decreases n - j,
            {
                proof {
                    assert(t@.skip(j as int)[0] == t@[j as int]);
                    assert(t@.skip(j as int)[1] == t@[j as int + 1]);
                    assert(t@.skip(j as int).skip(1) =~= t@.skip(j as int + 1));
                }
                j += 1;
            }
            if j < n - 1 {
                // close marker found at j: drop the span and continue after it
                proof {
                    assert(t@.skip(j as int)[0] == t@[j as int]);
                    assert(t@.skip(j as int)[1] == t@[j as int + 1]);
                    assert(t@.skip(j as int).skip(2) =~= t@.skip(j as int + 2));
                    assert(after_block_close(t@.skip(i as int + 2)) == Some(
                        t@.skip(j as int + 2),
                    ));
                    assert(t@.skip(i as int)[0] == t@[i as int]);
                    assert(t@.skip(i as int)[1] == t@[i as int + 1]);
                    assert(t@.skip(i as int).skip(2) =~= t@.skip(i as int + 2));
                    assert(strip_blocks(t@.skip(i as int)) == strip_blocks(t@.skip(j as int + 2)));
                }
                i = j + 2;
            } else {
                // no close marker anywhere after the open: keep the rest verbatim
                proof {
                    assert(t@.skip(j as int).len() < 2);
                    assert(after_block_close(t@.skip(i as int + 2)) is None);
                    assert(strip_blocks(t@.skip(i as int)) == t@.skip(i as int));
                }
                let ghost base = out@;
                let ghost start = i as int;
                proof {
                    assert(out@ =~= base + t@.subrange(start, start));
                }
                while i < n
                    invariant
                        n == t@.len(),
                        0 <= start <= i as int <= n,
                        out@ == base + t@.subrange(start, i as int),
                    decreases n - i,
                {
                    out.push(t[i]);
                    i += 1;
                    proof {
                        assert(out@ =~= base + t@.subrange(start, i as int));
                    }
                }
                proof {
                    assert(t@.subrange(start, n as int) =~= t@.skip(start));
                    assert(strip_blocks(t@.skip(i as int)) =~= Seq::<char>::empty());
                    assert(out@ + strip_blocks(t@.skip(i as int)) =~= base + t@.skip(start));
                }
            }
        } else {
            let ghost out0 = out@;
            out.push(t[i]);
            proof {
                assert(t@.skip(i as int)[0] == t@[i as int]);
                if i + 1 < n {
                    assert(t@.skip(i as int)[1] == t@[i as int + 1]);
                }
                assert(t@.skip(i as int).skip(1) =~= t@.skip(i as int + 1));
                assert(t@.skip(i as int) =~= seq![t@[i as int]] + t@.skip(i as int + 1));
                assert(strip_blocks(t@.skip(i as int)) == seq![t@[i as int]] + strip_blocks(
                    t@.skip(i as int + 1),
                ));
                assert(out@ + strip_blocks(t@.skip(i as int + 1)) =~= out0 + strip_blocks(
                    t@.skip(i as int),
                ));
            }
            i += 1;
        }
    }
    proof {
        assert(t@.skip(n as int) =~= Seq::<char>::empty());
        assert(out@ + strip_blocks(t@.skip(n as int)) =~= out@);
    }
    out
}

fn strip_lines_exec(t: &Vec<char>) -> (out: Vec<char>)
    ensures
        out@ == join_lines(strip_all_lines(split_lines(t@))),
{
    let ghost lines = split_lines(t@);
    let ghost outl = strip_all_lines(lines);
    let n = t.len();
    let mut out: Vec<char> = Vec::new();
    let mut pos: usize = 0;
    let mut first: bool = true;
    let ghost mut k: int = 0;
    proof {
        assert(t@.skip(0) =~= t@);
        assert(lines.skip(0) =~= lines);
    }
    while pos < n
        invariant
            n == t@.len(),
            pos <= n,
            lines == split_lines(t@),
            outl == strip_all_lines(lines),
            0 <= k <= outl.len(),
            split_lines(t@.skip(pos as int)) == lines.skip(k),
            out@ == join_lines(outl.take(k)),
            first == (k == 0),
        decreases n - pos,
    {
        // find the next newline
        let mut jn = pos;
        while jn < n && t[jn] != '\n'
            invariant
                n == t@.len(),
                pos <= jn <= n,
                forall|q: int| pos <= q < jn ==> t@[q] != '\n',
            decreases n - jn,
        {
            jn += 1;
        }
        proof {
            assert forall|q: int| 0 <= q < jn - pos implies t@.skip(pos as int)[q] != '\n' by {
                assert(t@.skip(pos as int)[q] == t@[pos + q]);
            }
            if (jn as int) < n {
                assert(t@.skip(pos as int)[jn - pos] == t@[jn as int]);
            }
            lemma_first_newline_is(t@.skip(pos as int), jn - pos);
        }
        // the line, with a carriage return before the newline dropped
        let le: usize = if jn < n && jn > pos && t[jn - 1] == '\r' {
            jn - 1
        } else {
            jn
        };
        let ghost line = t@.subrange(pos as int, le as int);
        proof {
            let s = t@.skip(pos as int);
            assert(s.len() > 0);
            if jn == n {
                assert(line =~= s);
                assert(split_lines(s) == seq![s]);
            } else {
                assert(s.take(jn - pos) =~= t@.subrange(pos as int, jn as int));
                if jn > pos && t@[jn as int - 1] == '\r' {
                    assert(s.take(jn - pos)[jn - pos - 1] == t@[jn as int - 1]);
                    assert(chomp_cr(s.take(jn - pos)) =~= line);
                } else {
                    assert(chomp_cr(s.take(jn - pos)) =~= line);
                }
                assert(s.skip(jn - pos + 1) =~= t@.skip(jn as int + 1));
                assert(split_lines(s) == seq![line] + split_lines(t@.skip(jn as int + 1)));
            }
            assert(split_lines(s).len() >= 1);
            assert(k < lines.len());
            assert(lines.skip(k)[0] == lines[k]);
            assert(lines[k] == line);
            assert(outl[k] == strip_line(line));
        }
        // scan for a line comment outside any string
        let mut m = pos;
        let mut ins = false;
        let mut esc = false;
        let mut cut = le;
        let mut found = false;
        while m < le && !found
            invariant
                n == t@.len(),
                pos <= m <= le <= n,
                line == t@.subrange(pos as int, le as int),
                !found ==> cut == le && keep_len_from(line, 0, false, false) == keep_len_from(
                    line,
                    m - pos,
                    ins,
                    esc,
                ),
                found ==> pos <= cut <= le && keep_len_from(line, 0, false, false) == cut - pos,
            decreases le - m + (if found { 0int } else { 1int }),
        {
            let c = t[m];
            proof {
                assert(line[m - pos] == t@[m as int]);
            }
            if esc {
                esc = false;
                m += 1;
            } else if c == '\\' {
                esc = true;
                m += 1;
            } else if c == '"' {
                ins = !ins;
                m += 1;
            } else if !ins && c == '/' && m + 1 < le && t[m + 1] == '/' {
                proof {
                    assert(line[m + 1 - pos] == t@[m as int + 1]);
                    assert(keep_len_from(line, m - pos, ins, esc) == m - pos);
                }
                cut = m;
                found = true;
            } else {
                m += 1;
            }
        }
        proof {
            if !found {
                assert(keep_len_from(line, le - pos, ins, esc) == line.len());
            }
            assert(keep_len_from(line, 0, false, false) == cut - pos);
            assert(strip_line(line) =~= t@.subrange(pos as int, cut as int));
        }
        // emit a separator (except before the first line), then the kept prefix
        let ghost out_before = out@;
        if !first {
            out.push('\n');
            proof {
                assert(out@ =~= out_before + seq!['\n']);
            }
        }
        let ghost out_sep = out@;
        let mut q = pos;
        proof {
            assert(out@ =~= out_sep + t@.subrange(pos as int, pos as int));
        }
        while q < cut
            invariant
                n == t@.len(),
                pos <= q <= cut <= n,
                out@ == out_sep + t@.subrange(pos as int, q as int),
            decreases cut - q,
        {
            out.push(t[q]);
            q += 1;
            proof {
                assert(out@ =~= out_sep + t@.subrange(pos as int, q as int));
            }
        }
        proof {
            lemma_join_take_succ(outl, k);
            if k == 0 {
                assert(out@ =~= join_lines(outl.take(1)));
            } else {
                assert(out@ =~= join_lines(outl.take(k)) + seq!['\n'] + outl[k]);
                assert(out@ =~= join_lines(outl.take(k + 1)));
            }
        }
        // step to the next line
        let ghost old_pos = pos as int;
        if jn < n {
            pos = jn + 1;
        } else {
            pos = n;
        }
        first = false;
        proof {
            k = k + 1;
            if (jn as int) < n {
                assert(lines.skip(k - 1).skip(1) =~= lines.skip(k));
                assert(split_lines(t@.skip(old_pos)).skip(1) =~= split_lines(
                    t@.skip(jn as int + 1),
                ));
                assert(split_lines(t@.skip(pos as int)) == lines.skip(k));
            } else {
                assert(lines.skip(k - 1) =~= seq![line]);
                assert(lines.skip(k) =~= Seq::<Seq<char>>::empty());
                assert(t@.skip(n as int) =~= Seq::<char>::empty());
                assert(split_lines(t@.skip(pos as int)) == lines.skip(k));
            }
        }
    }
    proof {
        assert(t@.skip(n as int) =~= Seq::<char>::empty());
        assert(lines.skip(k).len() == 0);
        assert(k == outl.len());
        assert(outl.take(k) =~= outl);
    }
    out
}

// ---------------------------------------------------------------------
// Laws of the transform
// ---------------------------------------------------------------------

/// The (in_string, escape) state of the line scanner before it reads
/// position `i`, starting from the line's beginning.
pub open spec fn scan_state(line: Seq<char>, i: int) -> (bool, bool)
    decreases i,
{
    if i <= 0 || i > line.len() {
        (false, false)
    } else {
        let prev = scan_state(line, i - 1);
        if prev.1 {
            (prev.0, false)
        } else if line[i - 1] == '\\' {
            (prev.0, true)
        } else if line[i - 1] == '"' {
            (!prev.0, false)
        } else {
            (prev.0, false)
        }
    }
}

/// A real line comment starts at `j`: a `//` that the scanner meets
/// outside any string and not under a pending escape.
pub open spec fn line_comment_at(line: Seq<char>, j: int) -> bool {
    &&& 0 <= j
    &&& j + 1 < line.len()
    &&& line[j] == '/'
    &&& line[j + 1] == '/'
    &&& !scan_state(line, j).0
    &&& !scan_state(line, j).1
}

/// The scanner's cut, started at `i` in the state the scan itself
/// reaches there, is the first real line comment at or after `i`, or the
/// line's end when there is none.
proof fn lemma_keep_len_from_state(line: Seq<char>, i: int, j: int)
    requires
        0 <= i <= j <= line.len(),
        forall|q: int| i <= q < j ==> !line_comment_at(line, q),
        j < line.len() ==> line_comment_at(line, j),
        j == line.len() ==> (forall|q: int| j <= q ==> !line_comment_at(line, q)),
    ensures
        keep_len_from(line, i, scan_state(line, i).0, scan_state(line, i).1) == j,
    decreases j - i,
{
    let st = scan_state(line, i);
    if i == j {
        if j < line.len() {
            // the scanner stands on a real line comment and cuts here
            assert(keep_len_from(line, i, st.0, st.1) == i);
        } else {
            // end of line: the whole line is kept
        }
    } else {
        // i < j: no cut happens at i, whatever the character is
        assert(scan_state(line, i + 1) == if st.1 {
            (st.0, false)
        } else if line[i] == '\\' {
            (st.0, true)
        } else if line[i] == '"' {
            (!st.0, false)
        } else {
            (st.0, false)
        });
        if !st.1 && line[i] != '\\' && line[i] != '"' && !st.0 && line[i] == '/' && i + 1
            < line.len() && line[i + 1] == '/' {
            assert(line_comment_at(line, i));
            assert(false);
        }
        lemma_keep_len_from_state(line, i + 1, j);
    }
}

/// Law: a line in which every `//` stands inside a string (or under an
/// escape) — that is, a line with no real line comment — is kept whole,
/// character for character.
pub proof fn lemma_string_slashes_preserved(line: Seq<char>)
    requires
        forall|q: int| !line_comment_at(line, q),
    ensures
        strip_line(line) == line,
{
    lemma_keep_len_from_state(line, 0, line.len() as int);
    assert(line.take(line.len() as int) =~= line);
}

/// Law: a `//` met outside any string removes the remainder of its line;
/// everything before it on the line is preserved verbatim.
pub proof fn lemma_line_comment_cuts(line: Seq<char>, j: int)
    requires
        line_comment_at(line, j),
        forall|q: int| q < j ==> !line_comment_at(line, q),
    ensures
        strip_line(line) == line.take(j),
{
    lemma_keep_len_from_state(line, 0, j);
}

/// Law, lifted to a whole text: when the block pass changes nothing and
/// no line holds a real line comment, the transform returns the text
/// unchanged up to the line-split/join normalization (a final newline
/// and carriage returns before newlines are dropped).
pub proof fn lemma_comment_free_text_preserved(s: Seq<char>)
    requires
        strip_blocks(s) == s,
        forall|li: int|
            0 <= li < split_lines(s).len() ==> (forall|q: int|
                !line_comment_at(#[trigger] split_lines(s)[li], q)),
    ensures
        strip_spec(s) == join_lines(split_lines(s)),
{
    assert forall|li: int|
        0 <= li < split_lines(s).len() implies #[trigger] strip_all_lines(split_lines(s))[li]
        == split_lines(s)[li] by {
        lemma_string_slashes_preserved(split_lines(s)[li]);
    }
    assert(strip_all_lines(split_lines(s)) =~= split_lines(s));
}

/// The first close marker in `t` stands at `m`.
proof fn lemma_after_close_at(t: Seq<char>, m: int)
    requires
        0 <= m,
        m + 2 <= t.len(),
        t[m] == '*',
        t[m + 1] == '/',
        forall|q: int| 0 <= q < m ==> !(#[trigger] t[q] == '*' && t[q + 1] == '/'),
    ensures
        after_block_close(t) == Some(t.skip(m + 2)),
    decreases m,
{
    if m == 0 {
    } else {
        assert forall|q: int| 0 <= q < m - 1 implies !(#[trigger] t.skip(1)[q] == '*' && t.skip(
            1,
        )[q + 1] == '/') by {
            assert(t.skip(1)[q] == t[q + 1]);
            assert(t.skip(1)[q + 1] == t[q + 2]);
        }
        assert(t.skip(1)[m - 1] == t[m]);
        assert(t.skip(1)[m] == t[m + 1]);
        lemma_after_close_at(t.skip(1), m - 1);
        assert(t.skip(1).skip(m + 1) =~= t.skip(m + 2));
    }
}

/// Law: the whole span of a block comment — from the first open marker
/// to the nearest following close marker, markers included, across any
/// number of lines — is removed; the text before it is preserved
/// verbatim and the text after it is transformed independently.
pub proof fn lemma_block_comment_removed(s: Seq<char>, i: int, j: int)
    requires
        0 <= i,
        i + 2 <= j,
        j + 2 <= s.len(),
        s[i] == '/',
        s[i + 1] == '*',
        s[j] == '*',
        s[j + 1] == '/',
        forall|q: int| 0 <= q < i ==> !(#[trigger] s[q] == '/' && s[q + 1] == '*'),
        forall|q: int| i + 2 <= q < j ==> !(#[trigger] s[q] == '*' && s[q + 1] == '/'),
    ensures
        strip_blocks(s) == s.take(i) + strip_blocks(s.skip(j + 2)),
    decreases i,
{
    if i == 0 {
        assert forall|q: int| 0 <= q < j - 2 implies !(#[trigger] s.skip(2)[q] == '*' && s.skip(
            2,
        )[q + 1] == '/') by {
            assert(s.skip(2)[q] == s[q + 2]);
            assert(s.skip(2)[q + 1] == s[q + 3]);
        }
        assert(s.skip(2)[j - 2] == s[j]);
        assert(s.skip(2)[j - 1] == s[j + 1]);
        lemma_after_close_at(s.skip(2), j - 2);
        assert(s.skip(2).skip(j) =~= s.skip(j + 2));
        assert(strip_blocks(s) == strip_blocks(s.skip(j + 2)));
        assert(s.take(0) + strip_blocks(s.skip(j + 2)) =~= strip_blocks(s.skip(j + 2)));
    } else {
        assert(s.len() >= 2);
        assert(!(s[0] == '/' && s[1] == '*'));
        assert(strip_blocks(s) == seq![s[0]] + strip_blocks(s.skip(1)));
        assert forall|q: int| 0 <= q < i - 1 implies !(#[trigger] s.skip(1)[q] == '/' && s.skip(
            1,
        )[q + 1] == '*') by {
            assert(s.skip(1)[q] == s[q + 1]);
            assert(s.skip(1)[q + 1] == s[q + 2]);
        }
        assert forall|q: int| i + 1 <= q < j - 1 implies !(#[trigger] s.skip(1)[q] == '*' && s.skip(
            1,
        )[q + 1] == '/') by {
            assert(s.skip(1)[q] == s[q + 1]);
            assert(s.skip(1)[q + 1] == s[q + 2]);
        }
        assert(s.skip(1)[i - 1] == s[i]);
        assert(s.skip(1)[i] == s[i + 1]);
        assert(s.skip(1)[j - 1] == s[j]);
        assert(s.skip(1)[j] == s[j + 1]);
        lemma_block_comment_removed(s.skip(1), i - 1, j - 1);
        assert(s.skip(1).skip(j + 1) =~= s.skip(j + 2));
        assert(s.take(i) =~= seq![s[0]] + s.skip(1).take(i - 1));
        assert(seq![s[0]] + (s.skip(1).take(i - 1) + strip_blocks(s.skip(j + 2))) =~= (
        seq![s[0]] + s.skip(1).take(i - 1)) + strip_blocks(s.skip(j + 2)));
    }
}

/// Remove `//` line comments and `/* */` block comments from JSON text.
///
/// Block spans are removed first, blindly to string literals; then each
/// line is truncated at the first `//` that stands outside a string.
pub fn strip_comments(text: &str) -> (r: String)
    ensures
        r@ == strip_spec(text@),
{
    let chars = to_chars(text);
    let no_blocks = strip_blocks_exec(&chars);
    let stripped = strip_lines_exec(&no_blocks);
    from_chars(&stripped)
}

} // verus!

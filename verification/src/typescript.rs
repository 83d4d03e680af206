use vstd::prelude::*;

use crate::text::{char_to_upper, chars_of, copy_str, push_char, push_str, upper};

verus! {

/// The pieces of `s` between occurrences of `sep`, as `str::split` yields them:
/// an empty string gives one empty piece.
pub open spec fn split_on(s: Seq<char>, sep: char) -> Seq<Seq<char>>
    decreases s.len(),
{
    if s.len() == 0 {
        seq![Seq::<char>::empty()]
    } else {
        let pieces = split_on(s.drop_last(), sep);
        if s.last() == sep {
            pieces.push(Seq::<char>::empty())
        } else {
            pieces.update(pieces.len() - 1, pieces.last().push(s.last()))
        }
    }
}

/// Splitting yields at least one part.
pub proof fn lemma_split_on_len(s: Seq<char>, sep: char)
    ensures
        split_on(s, sep).len() >= 1,
    decreases s.len(),
{
    if s.len() > 0 {
        lemma_split_on_len(s.drop_last(), sep);
    }
}

/// Splits `s` at every `sep`.
pub fn split_string(s: &str, sep: char) -> (pieces: Vec<String>)
    ensures
        pieces@.len() == split_on(s@, sep).len(),
        forall|j: int| 0 <= j < pieces@.len() ==> #[trigger] pieces@[j]@ == split_on(s@, sep)[j],
{
    let cs = chars_of(s);
    let mut done: Vec<String> = Vec::new();
    let mut current = String::new();
    let mut i: usize = 0;
    assert(cs@.subrange(0, 0) =~= Seq::<char>::empty());
    while i < cs.len()
        invariant
            cs@ == s@,
            i <= cs@.len(),
            done@.len() + 1 == split_on(cs@.subrange(0, i as int), sep).len(),
            forall|j: int|
                0 <= j < done@.len() ==> #[trigger] done@[j]@ == split_on(cs@.subrange(0, i as int), sep)[j],
            current@ == split_on(cs@.subrange(0, i as int), sep).last(),
        decreases cs@.len() - i,
    {
        let ghost before = cs@.subrange(0, i as int);
        assert(cs@.subrange(0, i + 1).drop_last() =~= before);
        proof {
            lemma_split_on_len(before, sep);
        }
        let c = cs[i];
        if c == sep {
            done.push(current);
            current = String::new();
        } else {
            push_char(&mut current, c);
        }
        i = i + 1;
    }
    assert(cs@.subrange(0, cs@.len() as int) =~= s@);
    done.push(current);
    done
}

/// `seg` with its first character in ASCII upper case.
pub open spec fn capitalized(seg: Seq<char>) -> Seq<char> {
    seq![upper(seg[0])] + seg.drop_first()
}

/// The capitalized pieces of `segs`, run together.
pub open spec fn capitalized_all(segs: Seq<Seq<char>>) -> Seq<char>
    decreases segs.len(),
{
    if segs.len() == 0 {
        Seq::<char>::empty()
    } else {
        capitalized_all(segs.drop_last()) + capitalized(segs.last())
    }
}

/// Some piece of `segs` from index `from` on is empty.
pub open spec fn has_empty_piece(segs: Seq<Seq<char>>, from: int) -> bool {
    exists|i: int| from <= i < segs.len() && (#[trigger] segs[i]).len() == 0
}

/// The error text for an operation name that has an empty `_`-separated piece.
pub open spec fn unconvertible_name(name: Seq<char>) -> Seq<char> {
    "operation name `"@ + name + "` cannot be converted to TypeScript"@
}

/// `name` (snake case) in lower camel case, or the error text.
pub open spec fn lower_camel_case(name: Seq<char>) -> Result<Seq<char>, Seq<char>> {
    let segs = split_on(name, '_');
    if segs[0].len() == 0 {
        Err("operation name cannot be empty when generating TypeScript"@)
    } else if has_empty_piece(segs, 1) {
        Err(unconvertible_name(name))
    } else {
        Ok(segs[0] + capitalized_all(segs.drop_first()))
    }
}

/// `name` (snake case) in upper camel case, or the error text.
pub open spec fn upper_camel_case(name: Seq<char>) -> Result<Seq<char>, Seq<char>> {
    let segs = split_on(name, '_');
    if has_empty_piece(segs, 0) {
        Err(unconvertible_name(name))
    } else {
        Ok(capitalized_all(segs))
    }
}

/// Appends `seg` with its first character in upper case.
fn push_capitalized(out: &mut String, seg: &str)
    requires
        seg@.len() > 0,
    ensures
        final(out)@ == old(out)@ + capitalized(seg@),
{
    let cs = chars_of(seg);
    push_char(out, char_to_upper(cs[0]));
    let mut i: usize = 1;
    while i < cs.len()
        invariant
            cs@ == seg@,
            1 <= i <= cs@.len(),
            out@ == old(out)@ + seq![upper(seg@[0])] + seg@.subrange(1, i as int),
        decreases cs@.len() - i,
    {
        push_char(out, cs[i]);
        i = i + 1;
        assert(out@ =~= old(out)@ + seq![upper(seg@[0])] + seg@.subrange(1, i as int));
    }
    assert(seg@.subrange(1, seg@.len() as int) =~= seg@.drop_first());
    assert(out@ =~= old(out)@ + capitalized(seg@));
}

/// Appends the capitalized pieces `pieces[from..]`, or reports that one is empty.
fn push_pieces(out: &mut String, pieces: &Vec<String>, from: usize) -> (ok: bool)
    requires
        from <= pieces@.len(),
    ensures
        ok == !has_empty_piece(pieces@.map_values(|p: String| p@), from as int),
        ok ==> final(out)@ == old(out)@ + capitalized_all(
            pieces@.map_values(|p: String| p@).subrange(from as int, pieces@.len() as int),
        ),
{
    let ghost segs = pieces@.map_values(|p: String| p@);
    let mut i: usize = from;
    assert(segs.subrange(from as int, from as int) =~= Seq::<Seq<char>>::empty());
    while i < pieces.len()
        invariant
            from <= i <= pieces@.len(),
            segs == pieces@.map_values(|p: String| p@),
            forall|j: int| from <= j < i ==> (#[trigger] segs[j]).len() > 0,
            out@ == old(out)@ + capitalized_all(segs.subrange(from as int, i as int)),
        decreases pieces@.len() - i,
    {
        if pieces[i].unicode_len() == 0 {
            assert(segs[i as int].len() == 0);
            return false;
        }
        push_capitalized(out, pieces[i].as_str());
        assert(segs.subrange(from as int, i + 1).drop_last() =~= segs.subrange(from as int, i as int));
        i = i + 1;
    }
    assert(!has_empty_piece(segs, from as int)) by {
        assert forall|j: int| from <= j < segs.len() implies (#[trigger] segs[j]).len() != 0 by {}
    }
    true
}

/// The name of the function generated for `name`.
pub fn to_lower_camel_case(name: &str) -> (r: Result<String, String>)
    ensures
        match (r, lower_camel_case(name@)) {
            (Ok(s), Ok(t)) => s@ == t,
            (Err(e), Err(t)) => e@ == t,
            _ => false,
        },
{
    let pieces = split_string(name, '_');
    let ghost segs = pieces@.map_values(|p: String| p@);
    proof {
        lemma_split_on_len(name@, '_');
        assert(segs =~= split_on(name@, '_'));
    }
    if pieces[0].unicode_len() == 0 {
        return Err(copy_str("operation name cannot be empty when generating TypeScript"));
    }
    let mut out = copy_str(pieces[0].as_str());
    if push_pieces(&mut out, &pieces, 1) {
        assert(segs.subrange(1, segs.len() as int) =~= segs.drop_first());
        Ok(out)
    } else {
        let mut e = copy_str("operation name `");
        push_str(&mut e, name);
        push_str(&mut e, "` cannot be converted to TypeScript");
        Err(e)
    }
}

/// The type-name prefix generated for `name`.
pub fn to_upper_camel_case(name: &str) -> (r: Result<String, String>)
    ensures
        match (r, upper_camel_case(name@)) {
            (Ok(s), Ok(t)) => s@ == t,
            (Err(e), Err(t)) => e@ == t,
            _ => false,
        },
{
    let pieces = split_string(name, '_');
    let ghost segs = pieces@.map_values(|p: String| p@);
    proof {
        assert(segs =~= split_on(name@, '_'));
    }
    let mut out = String::new();
    if push_pieces(&mut out, &pieces, 0) {
        assert(segs.subrange(0, segs.len() as int) =~= segs);
        assert(out@ =~= capitalized_all(segs));
        Ok(out)
    } else {
        let mut e = copy_str("operation name `");
        push_str(&mut e, name);
        push_str(&mut e, "` cannot be converted to TypeScript");
        Err(e)
    }
}

/// `s` with every `a b` pair, taken left to right without overlap, replaced by
/// `rep` (`str::replace` with a two-character pattern).
pub open spec fn replace_pair(s: Seq<char>, a: char, b: char, rep: Seq<char>) -> Seq<char>
    decreases s.len(),
{
    if s.len() < 2 {
        s
    } else if s[0] == a && s[1] == b {
        rep + replace_pair(s.subrange(2, s.len() as int), a, b, rep)
    } else {
        seq![s[0]] + replace_pair(s.drop_first(), a, b, rep)
    }
}

/// Replaces every `a b` pair of `s` by `rep`.
pub fn replace_pair_in(s: &str, a: char, b: char, rep: &str) -> (r: String)
    ensures
        r@ == replace_pair(s@, a, b, rep@),
{
    let cs = chars_of(s);
    let n = cs.len();
    let mut out = String::new();
    let mut i: usize = 0;
    assert(cs@.subrange(0, n as int) =~= cs@);
    while i < n
        invariant
            cs@ == s@,
            n == cs@.len(),
            i <= n,
            out@ + replace_pair(cs@.subrange(i as int, n as int), a, b, rep@) == replace_pair(s@, a, b, rep@),
        decreases n - i,
    {
        let ghost rest = cs@.subrange(i as int, n as int);
        if i + 1 < n && cs[i] == a && cs[i + 1] == b {
            assert(rest.subrange(2, rest.len() as int) =~= cs@.subrange(i + 2, n as int));
            let ghost before = out@;
            push_str(&mut out, rep);
            assert(out@ + replace_pair(cs@.subrange(i + 2, n as int), a, b, rep@) =~= before
                + replace_pair(rest, a, b, rep@));
            i = i + 2;
        } else {
            if i + 1 < n {
                assert(rest.drop_first() =~= cs@.subrange(i + 1, n as int));
            } else {
                assert(rest =~= seq![cs@[i as int]]);
                assert(cs@.subrange(i + 1, n as int) =~= Seq::<char>::empty());
            }
            let ghost before = out@;
            push_char(&mut out, cs[i]);
            assert(out@ + replace_pair(cs@.subrange(i + 1, n as int), a, b, rep@) =~= before
                + replace_pair(rest, a, b, rep@));
            i = i + 1;
        }
    }
    assert(cs@.subrange(n as int, n as int) =~= Seq::<char>::empty());
    assert(out@ + Seq::<char>::empty() =~= out@);
    out
}

/// `line` without the `\r` that ends it, if it ends with one.
pub open spec fn strip_cr(line: Seq<char>) -> Seq<char> {
    if line.len() > 0 && line.last() == '\r' {
        line.drop_last()
    } else {
        line
    }
}

/// The lines of `s` as `str::lines` yields them: split at `\n`, a `\r` before
/// it dropped, and no empty line after a final `\n`.
pub open spec fn text_lines(s: Seq<char>) -> Seq<Seq<char>> {
    let p = split_on(s, '\n');
    let body = p.drop_last().map_values(|l: Seq<char>| strip_cr(l));
    if p.last().len() == 0 {
        body
    } else {
        body.push(p.last())
    }
}

/// Each line after `indent * `, joined by newlines.
pub open spec fn comment_lines(lines: Seq<Seq<char>>, indent: Seq<char>) -> Seq<char>
    decreases lines.len(),
{
    if lines.len() == 0 {
        Seq::<char>::empty()
    } else if lines.len() == 1 {
        indent + " * "@ + lines[0]
    } else {
        comment_lines(lines.drop_last(), indent) + "\n"@ + indent + " * "@ + lines.last()
    }
}

/// `description` as a `/** ... */` block indented by `indent`; a `*/` inside it
/// becomes `* /`.
pub open spec fn doc_comment(description: Seq<char>, indent: Seq<char>) -> Seq<char> {
    indent + "/**\n"@ + comment_lines(
        text_lines(replace_pair(description, '*', '/', "* /"@)),
        indent,
    ) + "\n"@ + indent + " */"@
}

fn strip_cr_string(line: &str) -> (r: String)
    ensures
        r@ == strip_cr(line@),
{
    let n = line.unicode_len();
    if n > 0 && line.get_char(n - 1) == '\r' {
        copy_str(line.substring_char(0, n - 1))
    } else {
        copy_str(line)
    }
}

/// The lines of `s`.
pub fn lines_of(s: &str) -> (lines: Vec<String>)
    ensures
        lines@.len() == text_lines(s@).len(),
        forall|k: int| 0 <= k < lines@.len() ==> #[trigger] lines@[k]@ == text_lines(s@)[k],
{
    let parts = split_string(s, '\n');
    let ghost p = split_on(s@, '\n');
    let ghost body = p.drop_last().map_values(|l: Seq<char>| strip_cr(l));
    proof {
        lemma_split_on_len(s@, '\n');
    }
    let n = parts.len();
    let mut lines: Vec<String> = Vec::new();
    let mut j: usize = 0;
    while j + 1 < n
        invariant
            n == parts@.len(),
            n == p.len(),
            n >= 1,
            j + 1 <= n,
            forall|k: int| 0 <= k < n ==> #[trigger] parts@[k]@ == p[k],
            body == p.drop_last().map_values(|l: Seq<char>| strip_cr(l)),
            lines@.len() == j,
            forall|k: int| 0 <= k < j ==> #[trigger] lines@[k]@ == body[k],
        decreases n - j,
    {
        let line = strip_cr_string(parts[j].as_str());
        lines.push(line);
        j = j + 1;
    }
    if parts[n - 1].unicode_len() > 0 {
        let last = copy_str(parts[n - 1].as_str());
        lines.push(last);
    }
    proof {
        let t = text_lines(s@);
        assert(t.len() == lines@.len());
        assert forall|k: int| 0 <= k < lines@.len() implies #[trigger] lines@[k]@ == t[k] by {
            if k < n - 1 {
                assert(lines@[k]@ == body[k]);
            }
        }
    }
    lines
}

/// Renders `description` as a documentation comment indented by `indent`.
pub fn doc_comment_text(description: &str, indent: &str) -> (r: String)
    ensures
        r@ == doc_comment(description@, indent@),
{
    let safe = replace_pair_in(description, '*', '/', "* /");
    let lines = lines_of(safe.as_str());
    let ghost ls = text_lines(safe@);
    let mut out = copy_str(indent);
    push_str(&mut out, "/**\n");
    let ghost head = out@;
    let mut k: usize = 0;
    assert(ls.subrange(0, 0) =~= Seq::<Seq<char>>::empty());
    while k < lines.len()
        invariant
            ls == text_lines(safe@),
            lines@.len() == ls.len(),
            forall|q: int| 0 <= q < lines@.len() ==> #[trigger] lines@[q]@ == ls[q],
            k <= lines@.len(),
            out@ == head + comment_lines(ls.subrange(0, k as int), indent@),
        decreases lines@.len() - k,
    {
        let ghost prev = ls.subrange(0, k as int);
        assert(ls.subrange(0, k + 1).drop_last() =~= prev);
        if k > 0 {
            push_str(&mut out, "\n");
        }
        push_str(&mut out, indent);
        push_str(&mut out, " * ");
        push_str(&mut out, lines[k].as_str());
        assert(lines@[k as int]@ == ls[k as int]);
        if k == 0 {
            assert(out@ =~= head + comment_lines(ls.subrange(0, k + 1), indent@));
        } else {
            assert(out@ =~= head + comment_lines(ls.subrange(0, k + 1), indent@));
        }
        k = k + 1;
    }
    assert(ls.subrange(0, ls.len() as int) =~= ls);
    push_str(&mut out, "\n");
    push_str(&mut out, indent);
    push_str(&mut out, " */");
    assert(out@ =~= doc_comment(description@, indent@));
    out
}

} // verus!

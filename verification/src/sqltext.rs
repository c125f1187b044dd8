//! The text layer: splitting a line on a field separator, sanitizing header
//! tokens into identifiers, escaping values into SQL string literals, and
//! composing the `create table` and `insert` statements.

use vstd::prelude::*;

verus! {

/// The characters an identifier may keep: `[a-z0-9_]`.
pub open spec fn is_ident_char(c: char) -> bool {
    ('a' <= c && c <= 'z') || ('0' <= c && c <= '9') || c == '_'
}

/// One character of a sanitized identifier: ASCII uppercase letters are
/// lowercased; anything then outside `[a-z0-9_]` becomes `_`.
pub open spec fn sanitize_char(c: char) -> char {
    if 'A' <= c && c <= 'Z' {
        ((c as u32) + 32) as char
    } else if is_ident_char(c) {
        c
    } else {
        '_'
    }
}

/// A raw header token turned into a safe identifier, one character for one.
pub open spec fn sanitize_chars(s: Seq<char>) -> Seq<char> {
    s.map_values(|c: char| sanitize_char(c))
}

/// What one character of a raw value contributes to a SQL string literal:
/// a `'` is doubled, every other character stands as it is.
pub open spec fn escape_one(c: char) -> Seq<char> {
    if c == '\'' {
        seq!['\'', '\'']
    } else {
        seq![c]
    }
}

/// A raw value turned into the body of a SQL string literal: every `'`
/// becomes `''`; no other character is treated specially.
pub open spec fn escape_chars(s: Seq<char>) -> Seq<char>
    decreases s.len(),
{
    if s.len() == 0 {
        s
    } else {
        escape_one(s[0]) + escape_chars(s.drop_first())
    }
}

/// The inverse reading of an escaped literal body: scanning left to right,
/// every `''` becomes a single `'`.
pub open spec fn unescape_chars(s: Seq<char>) -> Seq<char>
    decreases s.len(),
{
    if s.len() == 0 {
        s
    } else if s.len() >= 2 && s[0] == '\'' && s[1] == '\'' {
        seq!['\''] + unescape_chars(s.skip(2))
    } else {
        seq![s[0]] + unescape_chars(s.skip(1))
    }
}

/// A line split on the field separator into raw tokens, in order, keeping
/// empty tokens; matches are leftmost and non-overlapping. An empty separator
/// leaves the whole line as a single token.
pub open spec fn split_chars(s: Seq<char>, sep: Seq<char>) -> Seq<Seq<char>>
    decreases s.len(),
{
    if sep.len() == 0 || s.len() == 0 {
        seq![s]
    } else if s.len() >= sep.len() && s.subrange(0, sep.len() as int) == sep {
        seq![Seq::<char>::empty()] + split_chars(s.skip(sep.len() as int), sep)
    } else {
        let rest = split_chars(s.drop_first(), sep);
        seq![seq![s[0]] + rest[0]] + rest.drop_first()
    }
}

/// Parts joined with a separator between each pair of neighbours.
pub open spec fn join_chars(parts: Seq<Seq<char>>, sep: Seq<char>) -> Seq<char>
    decreases parts.len(),
{
    if parts.len() == 0 {
        Seq::empty()
    } else if parts.len() == 1 {
        parts[0]
    } else {
        parts[0] + sep + join_chars(parts.drop_first(), sep)
    }
}

/// One column of the `create table` body: one space of indentation, the
/// identifier, and the `text` type.
pub open spec fn column_def(c: Seq<char>) -> Seq<char> {
    " "@ + c + " text"@
}

/// One value of an `insert` statement: the escaped body in single quotes.
pub open spec fn quoted_value(v: Seq<char>) -> Seq<char> {
    "'"@ + escape_chars(v) + "'"@
}

/// The column identifiers a header line yields: the line split on the field
/// separator, each raw token sanitized, order and count kept.
pub open spec fn sanitized_columns(line: Seq<char>, sep: Seq<char>) -> Seq<Seq<char>> {
    split_chars(line, sep).map_values(|t: Seq<char>| sanitize_chars(t))
}

/// A header line split into `n` raw tokens yields exactly `n` column
/// identifiers, in input order, each the sanitized form of its raw token;
/// these are the identifiers the `create table` statement lists.
pub proof fn lemma_header_columns(line: Seq<char>, sep: Seq<char>)
    ensures
        sanitized_columns(line, sep).len() == split_chars(line, sep).len(),
        forall|i: int|
            0 <= i < split_chars(line, sep).len() ==> sanitized_columns(line, sep)[i]
                == sanitize_chars(split_chars(line, sep)[i]),
{
}

/// The exact text of the `create table` statement for the given table name
/// and sanitized column list.
pub open spec fn create_table_text(table: Seq<char>, cols: Seq<Seq<char>>) -> Seq<char> {
    "create table "@ + table + " (\n"@
        + join_chars(cols.map_values(|c: Seq<char>| column_def(c)), ",\n"@)
        + "\n);\n"@
}

/// The exact text of one `insert` statement for the given table name, column
/// list and raw (unescaped) values.
pub open spec fn insert_text(table: Seq<char>, cols: Seq<Seq<char>>, vals: Seq<Seq<char>>) -> Seq<char> {
    "insert into "@ + table + " ("@ + join_chars(cols, ", "@)
        + ") values ("@
        + join_chars(vals.map_values(|v: Seq<char>| quoted_value(v)), ", "@)
        + ");\n"@
}

/// Relies on String::push: appends exactly the one given character.
#[verifier::external_body]
fn push_char(s: &mut String, c: char)
    ensures
        final(s)@ == old(s)@.push(c),
{
    s.push(c)
}

/// Turns a raw header token into a safe identifier, per `sanitize_chars`.
pub fn sanitize(s: &str) -> (r: String)
    ensures
        r@ == sanitize_chars(s@),
{
    let n = s.unicode_len();
    let mut out = String::new();
    let mut i: usize = 0;
    while i < n
        invariant
            n == s@.len(),
            i <= n,
            out@ == sanitize_chars(s@.subrange(0, i as int)),
        decreases n - i,
    {
        let c = s.get_char(i);
        let sc: char = if 'A' <= c && c <= 'Z' {
            (((c as u8) + 32) as char)
        } else if ('a' <= c && c <= 'z') || ('0' <= c && c <= '9') || c == '_' {
            c
        } else {
            '_'
        };
        proof {
            assert(sc == sanitize_char(s@[i as int]));
        }
        push_char(&mut out, sc);
        i = i + 1;
        proof {
            assert(out@ =~= sanitize_chars(s@.subrange(0, i as int)));
        }
    }
    proof {
        assert(s@.subrange(0, n as int) =~= s@);
    }
    out
}

/// Escaping a value one character longer appends that character's escaping.
proof fn lemma_escape_push(a: Seq<char>, c: char)
    ensures
        escape_chars(a.push(c)) == escape_chars(a) + escape_one(c),
    decreases a.len(),
{
    if a.len() == 0 {
        assert(a.push(c).drop_first() =~= Seq::<char>::empty());
        assert(a.push(c)[0] == c);
        assert(escape_chars(a.push(c)) == escape_one(c) + escape_chars(Seq::<char>::empty()));
        assert(escape_one(c) + escape_chars(Seq::<char>::empty()) =~= escape_chars(a) + escape_one(c));
    } else {
        assert(a.push(c).drop_first() =~= a.drop_first().push(c));
        assert(a.push(c)[0] == a[0]);
        lemma_escape_push(a.drop_first(), c);
        assert(escape_chars(a.push(c)) == escape_one(a[0]) + (escape_chars(a.drop_first()) + escape_one(c)));
        assert(escape_one(a[0]) + (escape_chars(a.drop_first()) + escape_one(c)) =~= (escape_one(a[0])
            + escape_chars(a.drop_first())) + escape_one(c));
    }
}

/// Escaping is round-trip safe: reading `escape_chars(s)` back with every
/// `''` turned into a single `'` reproduces `s` exactly, for every `s`.
pub proof fn lemma_escape_round_trip(s: Seq<char>)
    ensures
        unescape_chars(escape_chars(s)) == s,
    decreases s.len(),
{
    if s.len() == 0 {
    } else {
        let rest = s.drop_first();
        let e = escape_chars(s);
        lemma_escape_round_trip(rest);
        if s[0] == '\'' {
            assert(e == seq!['\'', '\''] + escape_chars(rest));
            assert(e.len() >= 2 && e[0] == '\'' && e[1] == '\'');
            assert(e.skip(2) =~= escape_chars(rest));
            assert(unescape_chars(e) == seq!['\''] + rest);
            assert(seq!['\''] + rest =~= s);
        } else {
            assert(e == seq![s[0]] + escape_chars(rest));
            assert(e[0] == s[0]);
            assert(e.skip(1) =~= escape_chars(rest));
            assert(unescape_chars(e) == seq![s[0]] + rest);
            assert(seq![s[0]] + rest =~= s);
        }
    }
}

/// The separator stands in `s` at position `i`.
spec fn sep_at(s: Seq<char>, i: int, sep: Seq<char>) -> bool {
    0 <= i && i + sep.len() <= s.len() && s.subrange(i, i + sep.len()) == sep
}

/// The first of `parts` with `t` glued onto its front, then the rest.
spec fn prepend_first(t: Seq<char>, parts: Seq<Seq<char>>) -> Seq<Seq<char>> {
    seq![t + parts[0]] + parts.drop_first()
}

/// A split always yields at least one token.
pub proof fn lemma_split_nonempty(s: Seq<char>, sep: Seq<char>)
    ensures
        split_chars(s, sep).len() >= 1,
    decreases s.len(),
{
    if sep.len() == 0 || s.len() == 0 {
    } else if s.len() >= sep.len() && s.subrange(0, sep.len() as int) == sep {
        lemma_split_nonempty(s.skip(sep.len() as int), sep);
    } else {
        lemma_split_nonempty(s.drop_first(), sep);
    }
}

/// Whether the separator stands in the line at character position `i`.
fn matches_at(line: &str, i: usize, sep: &str) -> (b: bool)
    requires
        i <= line@.len(),
    ensures
        b == sep_at(line@, i as int, sep@),
{
    let n = line.unicode_len();
    let sep_n = sep.unicode_len();
    if sep_n > n - i {
        return false;
    }
    let mut j: usize = 0;
    while j < sep_n
        invariant
            n == line@.len(),
            sep_n == sep@.len(),
            i + sep_n <= n,
            j <= sep_n,
            forall|k: int| 0 <= k < j ==> line@[i + k] == sep@[k],
        decreases sep_n - j,
    {
        if line.get_char(i + j) != sep.get_char(j) {
            proof {
                assert(line@.subrange(i as int, i + sep@.len())[j as int] == line@[i + j]);
            }
            return false;
        }
        j = j + 1;
    }
    proof {
        assert(line@.subrange(i as int, i + sep@.len()) =~= sep@);
    }
    true
}

/// Splits a line on the field separator into raw tokens, per `split_chars`:
/// order and count are kept, empty tokens included.
pub fn split_line(line: &str, sep: &str) -> (r: Vec<String>)
    ensures
        r.deep_view() == split_chars(line@, sep@),
{
    let n = line.unicode_len();
    let sep_n = sep.unicode_len();
    let mut done: Vec<String> = Vec::new();
    if sep_n == 0 {
        done.push(line.to_owned());
        proof {
            assert(done.deep_view() =~= split_chars(line@, sep@));
        }
        return done;
    }
    let mut cur = String::new();
    let mut i: usize = 0;
    proof {
        assert(line@.skip(0) =~= line@);
        lemma_split_nonempty(line@, sep@);
        assert(done.deep_view() + prepend_first(cur@, split_chars(line@.skip(i as int), sep@))
            =~= split_chars(line@, sep@));
    }
    while i < n
        invariant
            n == line@.len(),
            sep_n == sep@.len(),
            sep_n > 0,
            i <= n,
            done.deep_view() + prepend_first(cur@, split_chars(line@.skip(i as int), sep@))
                == split_chars(line@, sep@),
        decreases n - i,
    {
        let ghost rest = line@.skip(i as int);
        let ghost old_done = done.deep_view();
        let ghost old_cur = cur@;
        if matches_at(line, i, sep) {
            let finished = cur;
            cur = String::new();
            done.push(finished);
            i = i + sep_n;
            proof {
                assert(rest.subrange(0, sep@.len() as int) =~= line@.subrange(
                    i - sep_n,
                    i - sep_n + sep@.len(),
                ));
                assert(rest.len() >= sep@.len() && rest.subrange(0, sep@.len() as int) == sep@);
                assert(split_chars(rest, sep@) == seq![Seq::<char>::empty()] + split_chars(
                    rest.skip(sep@.len() as int),
                    sep@,
                ));
                assert(rest.skip(sep@.len() as int) =~= line@.skip(i as int));
                let tail = split_chars(line@.skip(i as int), sep@);
                lemma_split_nonempty(line@.skip(i as int), sep@);
                assert(prepend_first(old_cur, split_chars(rest, sep@)) =~= seq![old_cur] + tail);
                assert(prepend_first(Seq::<char>::empty(), tail) =~= tail) by {
                    assert(Seq::<char>::empty() + tail[0] =~= tail[0]);
                    assert(seq![tail[0]] + tail.drop_first() =~= tail);
                }
                assert(done.deep_view() =~= old_done + seq![old_cur]);
                assert(done.deep_view() + prepend_first(cur@, split_chars(line@.skip(i as int), sep@))
                    =~= (old_done + seq![old_cur]) + tail);
                assert((old_done + seq![old_cur]) + tail =~= old_done + (seq![old_cur] + tail));
            }
        } else {
            let c = line.get_char(i);
            push_char(&mut cur, c);
            i = i + 1;
            proof {
                assert(!(rest.len() >= sep@.len() && rest.subrange(0, sep@.len() as int) == sep@)) by {
                    if rest.len() >= sep@.len() && rest.subrange(0, sep@.len() as int) == sep@ {
                        assert(rest.subrange(0, sep@.len() as int) =~= line@.subrange(
                            i - 1,
                            i - 1 + sep@.len(),
                        ));
                    }
                }
                assert(rest.drop_first() =~= line@.skip(i as int));
                let tail = split_chars(line@.skip(i as int), sep@);
                lemma_split_nonempty(line@.skip(i as int), sep@);
                assert(split_chars(rest, sep@) == seq![seq![rest[0]] + tail[0]] + tail.drop_first());
                assert(rest[0] == line@[i - 1]);
                assert(old_cur + (seq![rest[0]] + tail[0]) =~= cur@ + tail[0]);
                assert(prepend_first(old_cur, split_chars(rest, sep@)) =~= prepend_first(cur@, tail)) by {
                    assert(split_chars(rest, sep@).drop_first() =~= tail.drop_first());
                    assert(split_chars(rest, sep@)[0] == seq![rest[0]] + tail[0]);
                }
            }
        }
    }
    proof {
        assert(line@.skip(n as int) =~= Seq::<char>::empty());
        let tail = split_chars(Seq::<char>::empty(), sep@);
        assert(tail =~= seq![Seq::<char>::empty()]);
        assert(prepend_first(cur@, tail) =~= seq![cur@]);
    }
    let ghost pre_done = done.deep_view();
    done.push(cur);
    proof {
        assert(done.deep_view() =~= pre_done + seq![done@[done@.len() - 1]@]);
        assert(done.deep_view() =~= split_chars(line@, sep@));
    }
    done
}

/// Turns a raw value into the body of a SQL string literal, per
/// `escape_chars`.
pub fn escape(s: &str) -> (r: String)
    ensures
        r@ == escape_chars(s@),
{
    let n = s.unicode_len();
    let mut out = String::new();
    let mut i: usize = 0;
    while i < n
        invariant
            n == s@.len(),
            i <= n,
            out@ == escape_chars(s@.subrange(0, i as int)),
        decreases n - i,
    {
        let c = s.get_char(i);
        if c == '\'' {
            push_char(&mut out, '\'');
            push_char(&mut out, '\'');
        } else {
            push_char(&mut out, c);
        }
        proof {
            lemma_escape_push(s@.subrange(0, i as int), s@[i as int]);
            assert(s@.subrange(0, i as int).push(s@[i as int]) =~= s@.subrange(0, i + 1 as int));
            assert(out@ =~= escape_chars(s@.subrange(0, i + 1 as int)));
        }
        i = i + 1;
    }
    proof {
        assert(s@.subrange(0, n as int) =~= s@);
    }
    out
}

/// Joining one part more appends a separator (unless nothing stood before)
/// and the part.
proof fn lemma_join_push(parts: Seq<Seq<char>>, x: Seq<char>, sep: Seq<char>)
    ensures
        join_chars(parts.push(x), sep) == if parts.len() == 0 {
            x
        } else {
            join_chars(parts, sep) + sep + x
        },
    decreases parts.len(),
{
    if parts.len() == 0 {
        assert(parts.push(x)[0] == x);
    } else {
        assert(parts.push(x)[0] == parts[0]);
        assert(parts.push(x).drop_first() =~= parts.drop_first().push(x));
        lemma_join_push(parts.drop_first(), x, sep);
        if parts.len() == 1 {
            assert(join_chars(parts.push(x), sep) == parts[0] + sep + x);
        } else {
            assert(join_chars(parts.push(x), sep) == parts[0] + sep + (join_chars(
                parts.drop_first(),
                sep,
            ) + sep + x));
            assert(parts[0] + sep + (join_chars(parts.drop_first(), sep) + sep + x) =~= (parts[0]
                + sep + join_chars(parts.drop_first(), sep)) + sep + x);
        }
    }
}

/// Joins the given parts with the separator between each pair of neighbours,
/// per `join_chars`.
pub fn join_with(parts: &Vec<String>, sep: &str) -> (r: String)
    ensures
        r@ == join_chars(parts.deep_view(), sep@),
{
    let mut out = String::new();
    let mut i: usize = 0;
    proof {
        assert(parts.deep_view().subrange(0, 0) =~= Seq::<Seq<char>>::empty());
    }
    while i < parts.len()
        invariant
            i <= parts@.len(),
            out@ == join_chars(parts.deep_view().subrange(0, i as int), sep@),
        decreases parts@.len() - i,
    {
        let ghost prefix = parts.deep_view().subrange(0, i as int);
        if i > 0 {
            out.append(sep);
        }
        out.append(parts[i].as_str());
        proof {
            lemma_join_push(prefix, parts.deep_view()[i as int], sep@);
            assert(prefix.push(parts.deep_view()[i as int]) =~= parts.deep_view().subrange(
                0,
                i + 1 as int,
            ));
        }
        i = i + 1;
    }
    proof {
        assert(parts.deep_view().subrange(0, parts@.len() as int) =~= parts.deep_view());
    }
    out
}

/// Sanitizes every raw token of a header line, keeping order and count.
pub fn sanitize_all(tokens: &Vec<String>) -> (r: Vec<String>)
    ensures
        r.deep_view() == tokens.deep_view().map_values(|t: Seq<char>| sanitize_chars(t)),
{
    let mut cols: Vec<String> = Vec::new();
    let mut i: usize = 0;
    while i < tokens.len()
        invariant
            i <= tokens@.len(),
            cols@.len() == i,
            forall|k: int|
                0 <= k < i ==> #[trigger] cols.deep_view()[k] == sanitize_chars(
                    tokens.deep_view()[k],
                ),
        decreases tokens@.len() - i,
    {
        let col = sanitize(tokens[i].as_str());
        let ghost prev = cols.deep_view();
        cols.push(col);
        i = i + 1;
        proof {
            assert(cols.deep_view() =~= prev.push(col@));
        }
    }
    proof {
        assert(cols.deep_view() =~= tokens.deep_view().map_values(|t: Seq<char>| sanitize_chars(t)));
    }
    cols
}

/// Builds the ` <col> text` line of each column, per `column_def`.
fn build_column_defs(cols: &Vec<String>) -> (r: Vec<String>)
    ensures
        r.deep_view() == cols.deep_view().map_values(|c: Seq<char>| column_def(c)),
{
    let mut defs: Vec<String> = Vec::new();
    let mut i: usize = 0;
    while i < cols.len()
        invariant
            i <= cols@.len(),
            defs@.len() == i,
            forall|k: int|
                0 <= k < i ==> #[trigger] defs.deep_view()[k] == column_def(cols.deep_view()[k]),
        decreases cols@.len() - i,
    {
        let mut def = String::new();
        def.append(" ");
        def.append(cols[i].as_str());
        def.append(" text");
        proof {
            assert(def@ =~= column_def(cols.deep_view()[i as int]));
        }
        let ghost prev = defs.deep_view();
        defs.push(def);
        i = i + 1;
        proof {
            assert(defs.deep_view() =~= prev.push(def@));
        }
    }
    proof {
        assert(defs.deep_view() =~= cols.deep_view().map_values(|c: Seq<char>| column_def(c)));
    }
    defs
}

/// Composes the full `create table` statement, per `create_table_text`.
pub fn build_create_table(table: &str, cols: &Vec<String>) -> (r: String)
    ensures
        r@ == create_table_text(table@, cols.deep_view()),
{
    let defs = build_column_defs(cols);
    let body = join_with(&defs, ",\n");
    let mut out = String::new();
    out.append("create table ");
    out.append(table);
    out.append(" (\n");
    out.append(body.as_str());
    out.append("\n);\n");
    proof {
        assert(out@ =~= create_table_text(table@, cols.deep_view()));
    }
    out
}

/// Builds the quoted, escaped form of each raw value, per `quoted_value`.
fn build_quoted_values(vals: &Vec<String>) -> (r: Vec<String>)
    ensures
        r.deep_view() == vals.deep_view().map_values(|v: Seq<char>| quoted_value(v)),
{
    let mut quoted: Vec<String> = Vec::new();
    let mut i: usize = 0;
    while i < vals.len()
        invariant
            i <= vals@.len(),
            quoted@.len() == i,
            forall|k: int|
                0 <= k < i ==> #[trigger] quoted.deep_view()[k] == quoted_value(vals.deep_view()[k]),
        decreases vals@.len() - i,
    {
        let escaped = escape(vals[i].as_str());
        let mut q = String::new();
        q.append("'");
        q.append(escaped.as_str());
        q.append("'");
        proof {
            assert(q@ =~= quoted_value(vals.deep_view()[i as int]));
        }
        let ghost prev = quoted.deep_view();
        quoted.push(q);
        i = i + 1;
        proof {
            assert(quoted.deep_view() =~= prev.push(q@));
        }
    }
    proof {
        assert(quoted.deep_view() =~= vals.deep_view().map_values(|v: Seq<char>| quoted_value(v)));
    }
    quoted
}

/// Composes one full `insert` statement from the columns and the raw values,
/// per `insert_text`.
pub fn build_insert(table: &str, cols: &Vec<String>, vals: &Vec<String>) -> (r: String)
    ensures
        r@ == insert_text(table@, cols.deep_view(), vals.deep_view()),
{
    let col_list = join_with(cols, ", ");
    let quoted = build_quoted_values(vals);
    let val_list = join_with(&quoted, ", ");
    let mut out = String::new();
    out.append("insert into ");
    out.append(table);
    out.append(" (");
    out.append(col_list.as_str());
    out.append(") values (");
    out.append(val_list.as_str());
    out.append(");\n");
    proof {
        assert(out@ =~= insert_text(table@, cols.deep_view(), vals.deep_view()));
    }
    out
}

} // verus!

use vstd::prelude::*;

use crate::text::{push_char, push_text};

verus! {

/// The pieces of `s` between occurrences of `sep`: one more than there are
/// separators.
pub open spec fn split(s: Seq<char>, sep: char) -> Seq<Seq<char>>
    decreases s.len(),
{
    if s.len() == 0 {
        seq![Seq::<char>::empty()]
    } else {
        let init = split(s.drop_last(), sep);
        if s.last() == sep {
            init.push(Seq::<char>::empty())
        } else {
            init.update(init.len() - 1, init.last().push(s.last()))
        }
    }
}

/// `parts` written one after the other with `sep` between two neighbours.
pub open spec fn join(parts: Seq<Seq<char>>, sep: char) -> Seq<char>
    decreases parts.len(),
{
    if parts.len() <= 1 {
        if parts.len() == 0 {
            Seq::<char>::empty()
        } else {
            parts[0]
        }
    } else {
        join(parts.drop_last(), sep) + seq![sep] + parts.last()
    }
}

/// `lines`, each ended by a newline.
pub open spec fn lines_text(lines: Seq<Seq<char>>) -> Seq<char>
    decreases lines.len(),
{
    if lines.len() == 0 {
        Seq::<char>::empty()
    } else {
        lines_text(lines.drop_last()) + lines.last() + seq!['\n']
    }
}

pub open spec fn free_of(s: Seq<char>, c: char) -> bool {
    forall|i: int| 0 <= i < s.len() ==> s[i] != c
}

pub open spec fn all_free_of(parts: Seq<Seq<char>>, c: char) -> bool {
    forall|i: int| 0 <= i < parts.len() ==> free_of(#[trigger] parts[i], c)
}

pub proof fn lemma_split_nonempty(s: Seq<char>, sep: char)
    ensures
        split(s, sep).len() >= 1,
    decreases s.len(),
{
    if s.len() > 0 {
        lemma_split_nonempty(s.drop_last(), sep);
    }
}

/// Appending text without a separator extends the last piece.
pub proof fn lemma_split_append(a: Seq<char>, b: Seq<char>, sep: char)
    requires
        free_of(b, sep),
    ensures
        split(a + b, sep) == split(a, sep).update(
            split(a, sep).len() - 1,
            split(a, sep).last() + b,
        ),
    decreases b.len(),
{
    lemma_split_nonempty(a, sep);
    if b.len() == 0 {
        assert(a + b =~= a);
        assert(split(a, sep).last() + b =~= split(a, sep).last());
        assert(split(a, sep).update(split(a, sep).len() - 1, split(a, sep).last())
            =~= split(a, sep));
    } else {
        let b0 = b.drop_last();
        assert(free_of(b0, sep));
        lemma_split_append(a, b0, sep);
        assert((a + b).drop_last() =~= a + b0);
        assert((a + b).last() == b.last());
        assert(b[b.len() - 1] != sep);
        let sa = split(a, sep);
        let init = split(a + b0, sep);
        assert(init.len() == sa.len());
        assert(init.last() == sa.last() + b0);
        assert(split(a + b, sep) == init.update(init.len() - 1, init.last().push(b.last())));
        assert(sa.last() + b0 + seq![b.last()] =~= sa.last() + b);
        assert((sa.last() + b0).push(b.last()) =~= sa.last() + b);
        assert(split(a + b, sep) =~= split(a, sep).update(
            split(a, sep).len() - 1,
            split(a, sep).last() + b,
        ));
    }
}

/// Splitting undoes joining, where no part holds the separator.
pub proof fn lemma_split_join(parts: Seq<Seq<char>>, sep: char)
    requires
        parts.len() >= 1,
        all_free_of(parts, sep),
    ensures
        split(join(parts, sep), sep) == parts,
    decreases parts.len(),
{
    if parts.len() == 1 {
        assert(free_of(parts[0], sep));
        lemma_split_append(Seq::<char>::empty(), parts[0], sep);
        assert(Seq::<char>::empty() + parts[0] =~= parts[0]);
        assert(split(join(parts, sep), sep) =~= parts);
    } else {
        let init = parts.drop_last();
        assert forall|i: int| 0 <= i < init.len() implies free_of(#[trigger] init[i], sep) by {
            assert(init[i] == parts[i]);
        }
        lemma_split_join(init, sep);
        let head = join(init, sep) + seq![sep];
        assert(head.drop_last() =~= join(init, sep));
        assert(split(head, sep) == split(join(init, sep), sep).push(Seq::<char>::empty()));
        assert(free_of(parts.last(), sep));
        lemma_split_append(head, parts.last(), sep);
        assert(Seq::<char>::empty() + parts.last() =~= parts.last());
        assert(split(join(parts, sep), sep) =~= parts);
    }
}

/// A join of parts free of a character other than the separator is free of it.
pub proof fn lemma_join_free(parts: Seq<Seq<char>>, sep: char, c: char)
    requires
        sep != c,
        all_free_of(parts, c),
    ensures
        free_of(join(parts, sep), c),
    decreases parts.len(),
{
    if parts.len() == 1 {
        assert(free_of(parts[0], c));
    } else if parts.len() > 1 {
        let init = parts.drop_last();
        assert forall|i: int| 0 <= i < init.len() implies free_of(#[trigger] init[i], c) by {
            assert(init[i] == parts[i]);
        }
        lemma_join_free(init, sep, c);
        assert(free_of(parts.last(), c));
        let j = join(parts, sep);
        assert forall|i: int| 0 <= i < j.len() implies j[i] != c by {
            let a = join(init, sep);
            if i < a.len() {
                assert(j[i] == a[i]);
            } else if i == a.len() {
                assert(j[i] == sep);
            } else {
                assert(j[i] == parts.last()[i - a.len() - 1]);
            }
        }
    }
}

/// Lines each ended by a newline are the newline-join of the lines and one empty
/// piece.
pub proof fn lemma_lines_text(lines: Seq<Seq<char>>)
    ensures
        lines_text(lines) == join(lines.push(Seq::<char>::empty()), '\n'),
    decreases lines.len(),
{
    let p = lines.push(Seq::<char>::empty());
    assert(p.drop_last() =~= lines);
    if lines.len() == 0 {
        assert(join(p, '\n') =~= Seq::<char>::empty());
    } else {
        lemma_lines_text(lines.drop_last());
        assert(lines.drop_last().push(Seq::<char>::empty()).drop_last() =~= lines.drop_last());
        if lines.len() == 1 {
            assert(join(lines, '\n') == lines[0]);
            assert(lines_text(lines.drop_last()) =~= Seq::<char>::empty());
        } else {
            assert(join(lines.drop_last().push(Seq::<char>::empty()), '\n') =~= join(
                lines.drop_last(),
                '\n',
            ) + seq!['\n']);
        }
        assert(join(p, '\n') =~= join(lines, '\n') + seq!['\n']);
        assert(lines_text(lines) =~= join(p, '\n'));
    }
}

/// The lines of a text, without the empty piece after a final newline.
pub open spec fn data_lines(text: Seq<char>) -> Seq<Seq<char>> {
    let p = split(text, '\n');
    if p.last().len() == 0 {
        p.drop_last()
    } else {
        p
    }
}

/// The fields of each row below the header line, or `None` where the first line is
/// not `header` or a row has another number of fields than `width`. A text without
/// lines holds no rows.
pub open spec fn table_rows(text: Seq<char>, header: Seq<char>, width: nat) -> Option<
    Seq<Seq<Seq<char>>>,
> {
    let lines = data_lines(text);
    if lines.len() == 0 {
        Some(Seq::empty())
    } else if lines[0] != header {
        None
    } else if exists|k: int| 1 <= k < lines.len() && #[trigger] split(lines[k], '\t').len() != width {
        None
    } else {
        Some(lines.drop_first().map_values(|l: Seq<char>| split(l, '\t')))
    }
}

/// The text of a table: the header line, then each row's fields separated by tabs,
/// every line ended by a newline.
pub open spec fn table_text(header: Seq<char>, rows: Seq<Seq<Seq<char>>>) -> Seq<char> {
    lines_text(seq![header] + rows.map_values(|r: Seq<Seq<char>>| join(r, '\t')))
}

pub open spec fn fields_view(row: Seq<String>) -> Seq<Seq<char>> {
    row.map_values(|f: String| f@)
}

pub open spec fn rows_view(rows: Seq<Vec<String>>) -> Seq<Seq<Seq<char>>> {
    rows.map_values(|r: Vec<String>| fields_view(r@))
}

pub open spec fn pieces_view(v: Seq<Vec<char>>) -> Seq<Seq<char>> {
    v.map_values(|p: Vec<char>| p@)
}

/// Relies on std's `str::chars`, collected into a vector: the characters in order.
#[verifier::external_body]
pub(crate) fn chars_of(s: &str) -> (r: Vec<char>)
    ensures
        r@ == s@,
{
    s.chars().collect()
}

/// Relies on std's `String::from_iter` over characters: the characters in order.
#[verifier::external_body]
fn string_of(cs: &Vec<char>) -> (r: String)
    ensures
        r@ == cs@,
{
    cs.iter().collect()
}

/// The pieces of `cs` between occurrences of `sep`.
pub fn split_on(cs: &Vec<char>, sep: char) -> (r: Vec<Vec<char>>)
    ensures
        pieces_view(r@) == split(cs@, sep),
{
    let mut done: Vec<Vec<char>> = Vec::new();
    let mut cur: Vec<char> = Vec::new();
    let mut i: usize = 0;
    assert(cs@.take(0) =~= Seq::<char>::empty());
    assert(pieces_view(done@).push(cur@) =~= split(cs@.take(0), sep));
    while i < cs.len()
        invariant
            i <= cs@.len(),
            pieces_view(done@).push(cur@) == split(cs@.take(i as int), sep),
        decreases cs.len() - i,
    {
        let c = cs[i];
        let ghost before = split(cs@.take(i as int), sep);
        assert(cs@.take(i + 1).drop_last() =~= cs@.take(i as int));
        assert(cs@.take(i + 1).last() == c);
        if c == sep {
            let ghost old_done = done@;
            done.push(cur);
            cur = Vec::new();
            assert(pieces_view(done@) =~= pieces_view(old_done).push(before.last()));
            assert(pieces_view(done@).push(cur@) =~= before.push(Seq::<char>::empty()));
        } else {
            let ghost old_cur = cur@;
            cur.push(c);
            assert(pieces_view(done@).push(cur@) =~= before.update(
                before.len() - 1,
                old_cur.push(c),
            ));
        }
        i = i + 1;
    }
    assert(cs@.take(cs@.len() as int) =~= cs@);
    done.push(cur);
    assert(pieces_view(done@) =~= split(cs@, sep));
    done
}

/// Writes a table: the header line, then one line for each row, fields separated
/// by tabs.
pub fn write_table(header: &str, rows: &Vec<Vec<String>>) -> (r: String)
    ensures
        r@ == table_text(header@, rows_view(rows@)),
{
    let mut out = String::new();
    push_text(&mut out, header);
    push_char(&mut out, '\n');
    assert(rows_view(rows@.take(0)) =~= Seq::<Seq<Seq<char>>>::empty());
    assert((seq![header@] + Seq::<Seq<Seq<char>>>::empty().map_values(
        |r: Seq<Seq<char>>| join(r, '\t'),
    )) =~= seq![header@]);
    assert(seq![header@].drop_last() =~= Seq::<Seq<char>>::empty());
    assert(lines_text(Seq::<Seq<char>>::empty()) == Seq::<char>::empty());
    assert(seq![header@].last() == header@);
    assert(lines_text(seq![header@]) =~= header@ + seq!['\n']);
    assert(out@ =~= table_text(header@, rows_view(rows@.take(0))));
    let mut i: usize = 0;
    while i < rows.len()
        invariant
            i <= rows@.len(),
            out@ == table_text(header@, rows_view(rows@.take(i as int))),
        decreases rows.len() - i,
    {
        let row = &rows[i];
        let ghost base = out@;
        let ghost fv = fields_view(row@);
        let mut j: usize = 0;
        assert(fv.take(0) =~= Seq::<Seq<char>>::empty());
        while j < row.len()
            invariant
                i < rows@.len(),
                j <= row@.len(),
                row == rows@[i as int],
                fv == fields_view(row@),
                out@ == base + join(fv.take(j as int), '\t'),
            decreases row.len() - j,
        {
            assert(fv.take(j + 1).drop_last() =~= fv.take(j as int));
            if j > 0 {
                push_char(&mut out, '\t');
            }
            push_text(&mut out, row[j].as_str());
            if j == 0 {
                assert(out@ =~= base + join(fv.take(j + 1), '\t'));
            } else {
                assert(out@ =~= base + join(fv.take(j + 1), '\t'));
            }
            j = j + 1;
        }
        assert(fv.take(row@.len() as int) =~= fv);
        push_char(&mut out, '\n');
        let ghost lines_before = seq![header@] + rows_view(rows@.take(i as int)).map_values(
            |r: Seq<Seq<char>>| join(r, '\t'),
        );
        let ghost lines_after = seq![header@] + rows_view(rows@.take(i + 1)).map_values(
            |r: Seq<Seq<char>>| join(r, '\t'),
        );
        assert(lines_after.drop_last() =~= lines_before);
        assert(lines_after.last() == join(fv, '\t'));
        assert(out@ =~= table_text(header@, rows_view(rows@.take(i + 1))));
        i = i + 1;
    }
    assert(rows@.take(rows@.len() as int) =~= rows@);
    out
}

/// Reads a table written by `write_table`: the fields of each row below the header,
/// or `None` where the text does not have that shape.
pub fn read_table(text: &str, header: &str, width: usize) -> (r: Option<Vec<Vec<String>>>)
    ensures
        match table_rows(text@, header@, width as nat) {
            None => r is None,
            Some(rows) => r matches Some(t) && rows_view(t@) == rows,
        },
{
    let cs = chars_of(text);
    let lines = split_on(&cs, '\n');
    proof {
        lemma_split_nonempty(text@, '\n');
    }
    let ghost dl = data_lines(text@);
    let mut n: usize = lines.len();
    if lines[n - 1].len() == 0 {
        n = n - 1;
    }
    assert(dl =~= pieces_view(lines@).take(n as int));
    if n == 0 {
        let empty: Vec<Vec<String>> = Vec::new();
        assert(rows_view(empty@) =~= Seq::<Seq<Seq<char>>>::empty());
        return Some(empty);
    }
    let first = string_of(&lines[0]);
    let expected = header.to_owned();
    assert(dl[0] == first@);
    if !(first == expected) {
        return None;
    }
    assert(dl[0] == header@);
    let mut rows: Vec<Vec<String>> = Vec::new();
    let mut k: usize = 1;
    while k < n
        invariant
            1 <= k <= n,
            n <= lines@.len(),
            dl == pieces_view(lines@).take(n as int),
            dl == data_lines(text@),
            dl.len() == n,
            dl[0] == header@,
            rows_view(rows@) == dl.subrange(1, k as int).map_values(
                |l: Seq<char>| split(l, '\t'),
            ),
            forall|m: int| 1 <= m < k ==> #[trigger] split(dl[m], '\t').len() == width,
        decreases n - k,
    {
        let fields = split_on(&lines[k], '\t');
        assert(dl[k as int] == lines@[k as int]@);
        assert(pieces_view(fields@).len() == fields@.len());
        if fields.len() != width {
            assert(1 <= k < dl.len() && split(dl[k as int], '\t').len() != width);
            return None;
        }
        let mut row: Vec<String> = Vec::new();
        let mut j: usize = 0;
        while j < fields.len()
            invariant
                j <= fields@.len(),
                fields_view(row@) == pieces_view(fields@).take(j as int),
            decreases fields.len() - j,
        {
            let f = string_of(&fields[j]);
            let ghost old_row = row@;
            row.push(f);
            assert(row@ == old_row.push(f));
            assert(fields_view(old_row).len() == old_row.len());
            assert(old_row.len() == j);
            assert(row@.len() == j + 1);
            assert(fields_view(row@).len() == j + 1);
            assert forall|m: int| 0 <= m < j + 1 implies fields_view(row@)[m] == pieces_view(
                fields@,
            ).take(j + 1)[m] by {
                if m < j {
                    assert(fields_view(row@)[m] == fields_view(old_row)[m]);
                }
            }
            assert(fields_view(row@) =~= pieces_view(fields@).take(j + 1));
            j = j + 1;
        }
        assert(fields_view(row@) =~= split(dl[k as int], '\t'));
        let ghost old_rows = rows@;
        let ghost new_row = fields_view(row@);
        rows.push(row);
        assert(rows_view(old_rows).len() == old_rows.len());
        assert(rows_view(rows@).len() == rows@.len());
        assert(rows_view(rows@).len() == k);
        assert forall|m: int| 0 <= m < k implies rows_view(rows@)[m] == dl.subrange(
            1,
            k + 1,
        ).map_values(|l: Seq<char>| split(l, '\t'))[m] by {
            if m < k - 1 {
                assert(rows_view(rows@)[m] == rows_view(old_rows)[m]);
            } else {
                assert(rows_view(rows@)[m] == new_row);
            }
        }
        assert(rows_view(rows@) =~= dl.subrange(1, k + 1).map_values(
            |l: Seq<char>| split(l, '\t'),
        ));
        k = k + 1;
    }
    assert(dl.subrange(1, n as int) =~= dl.drop_first());
    Some(rows)
}

/// Rows of `width` fields that hold neither tab nor newline.
pub open spec fn plain_rows(rows: Seq<Seq<Seq<char>>>, width: nat) -> bool {
    forall|i: int|
        0 <= i < rows.len() ==> {
            &&& (#[trigger] rows[i]).len() == width
            &&& all_free_of(rows[i], '\t')
            &&& all_free_of(rows[i], '\n')
        }
}

/// Round trip: reading back a written table gives the rows that were written, where
/// the header line holds no newline and no field holds a tab or a newline.
pub proof fn lemma_table_round_trip(header: Seq<char>, rows: Seq<Seq<Seq<char>>>, width: nat)
    requires
        width >= 1,
        free_of(header, '\n'),
        plain_rows(rows, width),
    ensures
        table_rows(table_text(header, rows), header, width) == Some(rows),
{
    let lines = seq![header] + rows.map_values(|r: Seq<Seq<char>>| join(r, '\t'));
    assert forall|k: int| 1 <= k < lines.len() implies #[trigger] split(lines[k], '\t')
        == rows[k - 1] by {
        assert(lines[k] == join(rows[k - 1], '\t'));
        lemma_split_join(rows[k - 1], '\t');
    }
    let p = lines.push(Seq::<char>::empty());
    assert forall|k: int| 0 <= k < p.len() implies free_of(#[trigger] p[k], '\n') by {
        if k == 0 {
            assert(p[k] == header);
        } else if k < lines.len() {
            assert(p[k] == join(rows[k - 1], '\t'));
            lemma_join_free(rows[k - 1], '\t', '\n');
        } else {
            assert(p[k] == Seq::<char>::empty());
        }
    }
    lemma_lines_text(lines);
    lemma_split_join(p, '\n');
    let text = table_text(header, rows);
    assert(split(text, '\n') == p);
    assert(p.drop_last() =~= lines);
    assert(data_lines(text) == lines);
    assert(lines.drop_first().map_values(|l: Seq<char>| split(l, '\t')) =~= rows);
}

/// Every row that a table yields has `width` fields.
pub proof fn lemma_table_rows_width(text: Seq<char>, header: Seq<char>, width: nat)
    requires
        table_rows(text, header, width) is Some,
    ensures
        forall|i: int|
            0 <= i < table_rows(text, header, width)->0.len() ==> (#[trigger] table_rows(
                text,
                header,
                width,
            )->0[i]).len() == width,
{
    let lines = data_lines(text);
    if lines.len() > 0 {
        assert forall|i: int| 0 <= i < table_rows(text, header, width)->0.len() implies (
        #[trigger] table_rows(text, header, width)->0[i]).len() == width by {
            assert(table_rows(text, header, width)->0[i] == split(lines[i + 1], '\t'));
        }
    }
}

} // verus!

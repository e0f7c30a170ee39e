use vstd::prelude::*;

use crate::conversion_rate::ConversionRate;
use crate::decimal::{decimal_of_text, decimal_text, is_number_char, parse_text, to_text};
use crate::errors::CurrencyError;
use crate::storage::{DataInfo, DataInfoError, DataInfoSuccess, Elapsed};
use crate::symbols::Symbols;
use crate::tsv::{
    all_free_of, data_lines, free_of, lemma_table_round_trip, lemma_table_rows_width, plain_rows,
    read_table, rows_view, split_on, table_rows, table_text, write_table,
};

verus! {

pub open spec fn symbols_header() -> Seq<char> {
    "code\tname"@
}

pub open spec fn rates_header() -> Seq<char> {
    "from\tto\trate"@
}

/// The fields of a symbol in a file: code, name.
pub open spec fn symbol_row(s: Symbols) -> Seq<Seq<char>> {
    seq![s.code@, s.name@]
}

/// The fields of a rate in a file: from, to, rate.
pub open spec fn rate_row(r: ConversionRate) -> Seq<Seq<char>> {
    seq![r.from@, r.to@, decimal_text(r.rate.parts())]
}

pub open spec fn symbol_rows(items: Seq<Symbols>) -> Seq<Seq<Seq<char>>> {
    items.map_values(|s: Symbols| symbol_row(s))
}

pub open spec fn rate_rows(items: Seq<ConversionRate>) -> Seq<Seq<Seq<char>>> {
    items.map_values(|r: ConversionRate| rate_row(r))
}

/// A field that a file can hold: no tab, no newline.
pub open spec fn plain_field(s: Seq<char>) -> bool {
    free_of(s, '\t') && free_of(s, '\n')
}

pub open spec fn plain_symbols(items: Seq<Symbols>) -> bool {
    forall|i: int|
        0 <= i < items.len() ==> plain_field((#[trigger] items[i]).code@) && plain_field(
            items[i].name@,
        )
}

pub open spec fn plain_rates(items: Seq<ConversionRate>) -> bool {
    forall|i: int|
        0 <= i < items.len() ==> plain_field((#[trigger] items[i]).from@) && plain_field(
            items[i].to@,
        )
}

pub open spec fn valid_rates(items: Seq<ConversionRate>) -> bool {
    forall|i: int| 0 <= i < items.len() ==> (#[trigger] items[i]).rate.wf()
}

/// Number of data rows of a file: its lines but the header.
pub open spec fn row_count(text: Seq<char>) -> nat {
    if data_lines(text).len() == 0 {
        0
    } else {
        (data_lines(text).len() - 1) as nat
    }
}

proof fn lemma_plain_fields(row: Seq<Seq<char>>)
    requires
        forall|k: int| 0 <= k < row.len() ==> plain_field(#[trigger] row[k]),
    ensures
        all_free_of(row, '\t'),
        all_free_of(row, '\n'),
{
    assert forall|k: int| 0 <= k < row.len() implies free_of(#[trigger] row[k], '\t') by {
        assert(plain_field(row[k]));
    }
    assert forall|k: int| 0 <= k < row.len() implies free_of(#[trigger] row[k], '\n') by {
        assert(plain_field(row[k]));
    }
}

/// The file text of a symbol list: a header, then code and name on each line.
///
/// Where no code or name holds a tab or a newline, the text reads back as the
/// same rows.
pub fn encode_symbols(items: &Vec<Symbols>) -> (r: String)
    ensures
        r@ == table_text(symbols_header(), symbol_rows(items@)),
        plain_symbols(items@) ==> table_rows(r@, symbols_header(), 2) == Some(
            symbol_rows(items@),
        ),
{
    let mut rows: Vec<Vec<String>> = Vec::new();
    let mut i: usize = 0;
    while i < items.len()
        invariant
            i <= items@.len(),
            rows_view(rows@) == symbol_rows(items@).take(i as int),
        decreases items.len() - i,
    {
        let mut row: Vec<String> = Vec::new();
        row.push(items[i].code.clone());
        row.push(items[i].name.clone());
        let ghost old_rows = rows@;
        rows.push(row);
        assert(rows_view(old_rows).len() == old_rows.len());
        assert(rows_view(rows@) =~= symbol_rows(items@).take(i + 1)) by {
            assert(rows_view(rows@).len() == rows@.len());
            assert forall|m: int| 0 <= m <= i implies #[trigger] rows_view(rows@)[m]
                == symbol_rows(items@)[m] by {
                if m < i {
                    assert(rows_view(rows@)[m] == rows_view(old_rows)[m]);
                } else {
                    assert(rows_view(rows@)[m] =~= symbol_row(items@[m]));
                }
            }
        }
        i = i + 1;
    }
    assert(symbol_rows(items@).take(items@.len() as int) =~= symbol_rows(items@));
    let text = write_table("code\tname", &rows);
    proof {
        if plain_symbols(items@) {
            reveal_strlit("code\tname");
            let sr = symbol_rows(items@);
            assert forall|k: int| 0 <= k < sr.len() implies {
                &&& (#[trigger] sr[k]).len() == 2
                &&& all_free_of(sr[k], '\t')
                &&& all_free_of(sr[k], '\n')
            } by {
                assert(plain_field(items@[k].code@) && plain_field(items@[k].name@));
                lemma_plain_fields(sr[k]);
            }
            assert(plain_rows(sr, 2));
            lemma_table_round_trip(symbols_header(), sr, 2);
        }
    }
    text
}

/// Reads a symbol file: the symbols of its rows, or a storage error where the
/// header is not `code, name` or a row has not two fields.
pub fn decode_symbols(text: &str) -> (r: Result<Vec<Symbols>, CurrencyError>)
    ensures
        match table_rows(text@, symbols_header(), 2) {
            None => r matches Err(CurrencyError::Storage { .. }),
            Some(rows) => r matches Ok(v) && symbol_rows(v@) == rows,
        },
{
    let rows = match read_table(text, "code\tname", 2) {
        Some(rows) => rows,
        None => {
            return Err(CurrencyError::Storage { message: "malformed symbols file".to_owned() });
        },
    };
    let ghost rv = rows_view(rows@);
    let mut res: Vec<Symbols> = Vec::new();
    let mut i: usize = 0;
    while i < rows.len()
        invariant
            i <= rows@.len(),
            rv == rows_view(rows@),
            rv == table_rows(text@, symbols_header(), 2)->0,
            table_rows(text@, symbols_header(), 2) is Some,
            symbol_rows(res@) == rv.take(i as int),
        decreases rows.len() - i,
    {
        let row = &rows[i];
        assert(rows_view(rows@)[i as int] == crate::tsv::fields_view(row@));
        proof {
            lemma_table_rows_width(text@, symbols_header(), 2);
            assert(rv[i as int].len() == 2);
        }
        let ghost old_res = res@;
        let s = Symbols { code: row[0].clone(), name: row[1].clone() };
        res.push(s);
        assert(symbol_rows(old_res).len() == old_res.len());
        assert(symbol_rows(res@) =~= rv.take(i + 1)) by {
            assert(symbol_rows(res@).len() == res@.len());
            assert forall|m: int| 0 <= m <= i implies #[trigger] symbol_rows(res@)[m] == rv[m] by {
                if m < i {
                    assert(symbol_rows(res@)[m] == symbol_rows(old_res)[m]);
                } else {
                    assert(symbol_rows(res@)[m] =~= rv[m]);
                }
            }
        }
        i = i + 1;
    }
    assert(rv.take(rows@.len() as int) =~= rv);
    Ok(res)
}

/// Every row read from a rate file has a rate field that parses as a decimal.
pub open spec fn rates_parse(rows: Seq<Seq<Seq<char>>>) -> bool {
    forall|i: int| 0 <= i < rows.len() ==> (decimal_of_text(#[trigger] rows[i][2]) is Some)
}

/// A rate read back from the fields of a row.
pub open spec fn rate_matches_row(r: ConversionRate, row: Seq<Seq<char>>) -> bool {
    &&& r.from@ == row[0]
    &&& r.to@ == row[1]
    &&& decimal_of_text(row[2]) == Some(r.rate.parts())
}

/// The file text of a rate list: a header, then from, to and rate on each line.
///
/// Where no currency code holds a tab or a newline, the text reads back as the
/// same rows.
pub fn encode_conversion_rates(items: &Vec<ConversionRate>) -> (r: String)
    requires
        valid_rates(items@),
    ensures
        r@ == table_text(rates_header(), rate_rows(items@)),
        plain_rates(items@) ==> table_rows(r@, rates_header(), 3) == Some(rate_rows(items@)),
{
    let mut rows: Vec<Vec<String>> = Vec::new();
    let mut i: usize = 0;
    while i < items.len()
        invariant
            i <= items@.len(),
            valid_rates(items@),
            rows_view(rows@) == rate_rows(items@).take(i as int),
            forall|m: int| 0 <= m < i ==> plain_field(#[trigger] rate_rows(items@)[m][2]),
        decreases items.len() - i,
    {
        let mut row: Vec<String> = Vec::new();
        row.push(items[i].from.clone());
        row.push(items[i].to.clone());
        assert(items@[i as int].rate.wf());
        let t = to_text(items[i].rate);
        row.push(t);
        let ghost old_rows = rows@;
        rows.push(row);
        assert(rows_view(old_rows).len() == old_rows.len());
        assert(rows_view(rows@) =~= rate_rows(items@).take(i + 1)) by {
            assert(rows_view(rows@).len() == rows@.len());
            assert forall|m: int| 0 <= m <= i implies #[trigger] rows_view(rows@)[m]
                == rate_rows(items@)[m] by {
                if m < i {
                    assert(rows_view(rows@)[m] == rows_view(old_rows)[m]);
                } else {
                    assert(rows_view(rows@)[m] =~= rate_row(items@[m]));
                }
            }
        }
        assert(plain_field(rate_rows(items@)[i as int][2])) by {
            assert(rate_rows(items@)[i as int][2] == t@);
            assert forall|k: int| 0 <= k < t@.len() implies t@[k] != '\t' && t@[k] != '\n' by {
                assert(is_number_char(t@[k]));
            }
        }
        i = i + 1;
    }
    assert(rate_rows(items@).take(items@.len() as int) =~= rate_rows(items@));
    let text = write_table("from\tto\trate", &rows);
    proof {
        if plain_rates(items@) {
            reveal_strlit("from\tto\trate");
            let rr = rate_rows(items@);
            assert forall|k: int| 0 <= k < rr.len() implies {
                &&& (#[trigger] rr[k]).len() == 3
                &&& all_free_of(rr[k], '\t')
                &&& all_free_of(rr[k], '\n')
            } by {
                assert(plain_field(items@[k].from@) && plain_field(items@[k].to@));
                assert(plain_field(rr[k][2]));
                lemma_plain_fields(rr[k]);
            }
            assert(plain_rows(rr, 3));
            lemma_table_round_trip(rates_header(), rr, 3);
        }
    }
    text
}

/// Reads a rate file: the rates of its rows, or a storage error where the header is
/// not `from, to, rate`, a row has not three fields, or a rate does not parse.
pub fn decode_conversion_rates(text: &str) -> (r: Result<Vec<ConversionRate>, CurrencyError>)
    ensures
        match table_rows(text@, rates_header(), 3) {
            None => r matches Err(CurrencyError::Storage { .. }),
            Some(rows) => if rates_parse(rows) {
                r matches Ok(v) && v@.len() == rows.len() && valid_rates(v@) && forall|i: int|
                    0 <= i < rows.len() ==> rate_matches_row(#[trigger] v@[i], rows[i])
            } else {
                r matches Err(CurrencyError::Storage { .. })
            },
        },
{
    let rows = match read_table(text, "from\tto\trate", 3) {
        Some(rows) => rows,
        None => {
            return Err(CurrencyError::Storage { message: "malformed rates file".to_owned() });
        },
    };
    let ghost rv = rows_view(rows@);
    proof {
        lemma_table_rows_width(text@, rates_header(), 3);
    }
    let mut res: Vec<ConversionRate> = Vec::new();
    let mut i: usize = 0;
    while i < rows.len()
        invariant
            i <= rows@.len(),
            rv == rows_view(rows@),
            rv == table_rows(text@, rates_header(), 3)->0,
            table_rows(text@, rates_header(), 3) is Some,
            forall|m: int| 0 <= m < rv.len() ==> (#[trigger] rv[m]).len() == 3,
            res@.len() == i,
            valid_rates(res@),
            forall|m: int| 0 <= m < i ==> rate_matches_row(#[trigger] res@[m], rv[m]),
        decreases rows.len() - i,
    {
        let row = &rows[i];
        assert(rv[i as int] == crate::tsv::fields_view(row@));
        assert(rv[i as int].len() == 3);
        assert(rv[i as int][0] == row@[0]@ && rv[i as int][1] == row@[1]@);
        let rate = match parse_text(row[2].as_str()) {
            Some(rate) => rate,
            None => {
                assert(rv[i as int][2] == row@[2]@);
                assert(decimal_of_text(rv[i as int][2]) is None);
                assert(!rates_parse(rv));
                return Err(CurrencyError::Storage { message: "malformed rate".to_owned() });
            },
        };
        let ghost old_res = res@;
        res.push(ConversionRate { from: row[0].clone(), to: row[1].clone(), rate });
        assert forall|m: int| 0 <= m <= i implies rate_matches_row(#[trigger] res@[m], rv[m]) by {
            if m < i {
                assert(res@[m] == old_res[m]);
            }
        }
        i = i + 1;
    }
    assert(rv.len() == rows@.len());
    assert forall|m: int| 0 <= m < rv.len() implies decimal_of_text(#[trigger] rv[m][2]) is Some by {
        assert(rate_matches_row(res@[m], rv[m]));
    }
    Ok(res)
}

/// Number of data rows of a file text.
pub fn count_rows(text: &str) -> (r: usize)
    ensures
        r == row_count(text@),
{
    let cs = crate::tsv::chars_of(text);
    let lines = split_on(&cs, '\n');
    proof {
        crate::tsv::lemma_split_nonempty(text@, '\n');
    }
    assert(crate::tsv::pieces_view(lines@).len() == lines@.len());
    let mut n: usize = lines.len();
    if lines[n - 1].len() == 0 {
        n = n - 1;
    }
    if n == 0 {
        0
    } else {
        n - 1
    }
}

/// Report on a dataset file: `None` for `age` where the file does not exist, else
/// the time since its last modification; the row count is read from `text`.
pub fn data_info_of_file(age: Option<Elapsed>, text: &str) -> (r: DataInfo)
    ensures
        match age {
            None => r matches DataInfo::Error(_),
            Some(e) => r matches DataInfo::Success(s) && s.seconds_since_last_update == e
                && s.number_of_line == row_count(text@),
        },
{
    match age {
        None => DataInfo::Error(
            DataInfoError {
                error: CurrencyError::Storage {
                    message: "the dataset file does not exist".to_owned(),
                },
            },
        ),
        Some(e) => DataInfo::Success(
            DataInfoSuccess { seconds_since_last_update: e, number_of_line: count_rows(text) },
        ),
    }
}

} // verus!

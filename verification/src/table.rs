//! Rendering CSV input as a boxed text table. Record splitting is done by
//! the `csv` crate and cell padding by the `pad` crate, both behind exact
//! contracts; column sizing and row layout are verified here.

use vstd::prelude::*;
use vstd::utf8::encode_utf8;

use pad::{Alignment, PadStr};

use crate::err::RuntimeError;
use crate::text::trim_of;
use crate::text::trim;

verus! {

/// Spaces added around the widest cell of each column.
pub const COL_PADDING: usize = 2;

/// The records of a CSV document: one sequence of cell values per row, or
/// nothing when the document is malformed, as the `csv` reader decides it.
pub uninterp spec fn csv_rows_of(s: Seq<char>) -> Option<Seq<Seq<Seq<char>>>>;

/// Relies on `csv::ReaderBuilder` and `StringRecord`: every record of the
/// input as owned strings, or `None` exactly when the reader reports an
/// error; the outcome depends on the input alone.
#[verifier::external_body]
fn parse_csv(input: &str) -> (r: Option<Vec<Vec<String>>>)
    ensures
        r is Some <==> csv_rows_of(input@) is Some,
        r matches Some(v) ==> Some(v.deep_view()) == csv_rows_of(input@),
{
    let mut rdr = csv::ReaderBuilder::new().has_headers(false).from_reader(input.as_bytes());
    let mut rows: Vec<Vec<String>> = Vec::new();
    for rec in rdr.records() {
        match rec {
            Ok(r) => rows.push(r.iter().map(|f| f.to_string()).collect()),
            Err(_) => return None,
        }
    }
    Some(rows)
}

/// The display width of a string, as the `unicode-width` crate measures it:
/// a function of the characters alone.
pub uninterp spec fn display_width_of(s: Seq<char>) -> nat;

/// `n` spaces.
pub open spec fn spaces(n: int) -> Seq<char> {
    Seq::new(if n >= 0 { n as nat } else { 0 }, |i: int| ' ')
}

/// `n` dashes.
pub open spec fn dashes(n: int) -> Seq<char> {
    Seq::new(if n >= 0 { n as nat } else { 0 }, |i: int| '-')
}

/// A cell padded to a width, centered and shifted left when uneven.
pub open spec fn spec_pad_middle(s: Seq<char>, w: int) -> Seq<char> {
    let cols = display_width_of(s) as int;
    if cols >= w {
        s
    } else {
        spaces((w - cols) / 2) + s + spaces((w - cols) - (w - cols) / 2)
    }
}

/// Relies on `pad::PadStr::pad_to_width_with_alignment` with `Middle`
/// alignment: input at least as wide as the target is returned unchanged,
/// and narrower input is centered between spaces, the left side getting
/// half the difference rounded down.
#[verifier::external_body]
fn pad_middle(s: &str, width: usize) -> (r: String)
    ensures
        display_width_of(s@) >= width ==> r@ == s@,
        display_width_of(s@) < width ==> r@ == spec_pad_middle(s@, width as int),
{
    s.pad_to_width_with_alignment(width, Alignment::Middle)
}

/// One column: its (trimmed) title and the padded width of its widest cell.
struct CsvColumn {
    title: String,
    max_length: usize,
}

/// The value of one column.
#[verifier::ext_equal]
pub struct ColV {
    pub title: Seq<char>,
    pub max_length: int,
}

impl View for CsvColumn {
    type V = ColV;

    closed spec fn view(&self) -> ColV {
        ColV { title: self.title@, max_length: self.max_length as int }
    }
}

/// The value of a table: its columns and its (trimmed) body cells.
#[verifier::ext_equal]
pub struct TableV {
    pub columns: Seq<ColV>,
    pub rows: Seq<Seq<Seq<char>>>,
}

/// A CSV document shaped for display: the first record gives the column
/// titles, the rest the body rows, every cell trimmed, every column as wide
/// as its widest cell plus padding.
pub struct CsvTable {
    columns: Vec<CsvColumn>,
    rows: Vec<Vec<String>>,
}

/// The values of a vector of cell strings.
pub open spec fn cells_view(v: Seq<String>) -> Seq<Seq<char>> {
    v.map_values(|t: String| t@)
}

impl View for CsvTable {
    type V = TableV;

    closed spec fn view(&self) -> TableV {
        TableV {
            columns: Seq::new(self.columns@.len(), |i: int| self.columns@[i]@),
            rows: Seq::new(self.rows@.len(), |i: int| cells_view(self.rows@[i]@)),
        }
    }
}

/// The padded width a (already trimmed) cell value asks for; saturated at
/// the machine's limit.
pub open spec fn cell_width(v: Seq<char>) -> int {
    if encode_utf8(v).len() + COL_PADDING <= usize::MAX {
        encode_utf8(v).len() + COL_PADDING
    } else {
        usize::MAX as int
    }
}

/// Account one cell at column `idx`: widen an existing column, or open a
/// new untitled one.
pub open spec fn col_update(cols: Seq<ColV>, idx: int, w: int) -> Seq<ColV> {
    if 0 <= idx < cols.len() {
        cols.update(
            idx,
            ColV {
                title: cols[idx].title,
                max_length: if cols[idx].max_length >= w {
                    cols[idx].max_length
                } else {
                    w
                },
            },
        )
    } else {
        cols.push(ColV { title: Seq::empty(), max_length: w })
    }
}

/// The columns made from the (trimmed) header record.
pub open spec fn header_cols(hdr: Seq<Seq<char>>) -> Seq<ColV> {
    hdr.map_values(|h: Seq<char>| ColV { title: trim_of(h), max_length: cell_width(trim_of(h)) })
}

/// Account one record's cells from column `idx` on.
pub open spec fn fold_row(cols: Seq<ColV>, vals: Seq<Seq<char>>, idx: int) -> Seq<ColV>
    decreases vals.len(),
{
    if vals.len() == 0 {
        cols
    } else {
        fold_row(col_update(cols, idx, cell_width(trim_of(vals[0]))), vals.drop_first(), idx + 1)
    }
}

/// Account every body record.
pub open spec fn fold_rows(cols: Seq<ColV>, rows: Seq<Seq<Seq<char>>>) -> Seq<ColV>
    decreases rows.len(),
{
    if rows.len() == 0 {
        cols
    } else {
        fold_rows(fold_row(cols, rows[0], 0), rows.drop_first())
    }
}

/// Every cell of every record trimmed.
pub open spec fn trimmed_rows(rows: Seq<Seq<Seq<char>>>) -> Seq<Seq<Seq<char>>> {
    rows.map_values(|row: Seq<Seq<char>>| row.map_values(|v: Seq<char>| trim_of(v)))
}

/// The table a CSV document denotes.
pub open spec fn spec_table(all: Seq<Seq<Seq<char>>>) -> TableV {
    if all.len() == 0 {
        TableV { columns: Seq::empty(), rows: Seq::empty() }
    } else {
        TableV {
            columns: fold_rows(header_cols(all[0]), all.drop_first()),
            rows: trimmed_rows(all.drop_first()),
        }
    }
}

proof fn lemma_col_update_len(cols: Seq<ColV>, idx: int, w: int)
    requires
        0 <= idx <= cols.len(),
    ensures
        col_update(cols, idx, w).len() >= cols.len(),
        col_update(cols, idx, w).len() >= idx + 1,
{
}

proof fn lemma_fold_row_len(cols: Seq<ColV>, vals: Seq<Seq<char>>, idx: int)
    requires
        0 <= idx <= cols.len(),
    ensures
        fold_row(cols, vals, idx).len() >= cols.len(),
        fold_row(cols, vals, idx).len() >= idx + vals.len(),
    decreases vals.len(),
{
    if vals.len() > 0 {
        lemma_col_update_len(cols, idx, cell_width(trim_of(vals[0])));
        lemma_fold_row_len(
            col_update(cols, idx, cell_width(trim_of(vals[0]))),
            vals.drop_first(),
            idx + 1,
        );
    }
}

impl CsvTable {
    /// Every body row fits inside the columns.
    pub open spec fn wf(&self) -> bool {
        forall|r: int|
            0 <= r < self@.rows.len() ==> (#[trigger] self@.rows[r]).len() <= self@.columns.len()
    }

    /// Open a column titled with the (trimmed) header cell, as wide as the
    /// title plus padding.
    pub fn process_header_value(value: &str, csv_struct: &mut CsvTable)
        ensures
            final(csv_struct)@.columns == old(csv_struct)@.columns.push(
                ColV { title: value@, max_length: cell_width(value@) },
            ),
            final(csv_struct)@.rows == old(csv_struct)@.rows,
    {
        let bv = value.as_bytes_vec();
        let l = bv.len();
        let w = if l <= usize::MAX - COL_PADDING {
            l + COL_PADDING
        } else {
            usize::MAX
        };
        proof {
            assert(w as int == cell_width(value@));
        }
        csv_struct.columns.push(CsvColumn { title: String::from_str(value), max_length: w });
        proof {
            assert(final(csv_struct)@.columns =~~= old(csv_struct)@.columns.push(
                ColV { title: value@, max_length: cell_width(value@) },
            ));
            assert(final(csv_struct)@.rows =~~= old(csv_struct)@.rows);
        }
    }

    /// Account one body cell: widen or open column `index`, and append the
    /// cell to the row being built.
    pub fn process_body_value(index: usize, value: &str, row: &mut Vec<String>, csv_struct: &mut CsvTable)
        ensures
            final(csv_struct)@.columns == col_update(
                old(csv_struct)@.columns,
                index as int,
                cell_width(value@),
            ),
            final(csv_struct)@.rows == old(csv_struct)@.rows,
            cells_view(final(row)@) == cells_view(old(row)@).push(value@),
    {
        let bv = value.as_bytes_vec();
        let l = bv.len();
        let w = if l <= usize::MAX - COL_PADDING {
            l + COL_PADDING
        } else {
            usize::MAX
        };
        proof {
            assert(w as int == cell_width(value@));
        }
        if index < csv_struct.columns.len() {
            let col = csv_struct.columns.remove(index);
            let widened = CsvColumn {
                title: col.title,
                max_length: if col.max_length >= w {
                    col.max_length
                } else {
                    w
                },
            };
            csv_struct.columns.insert(index, widened);
            proof {
                assert(final(csv_struct)@.columns =~~= col_update(
                    old(csv_struct)@.columns,
                    index as int,
                    cell_width(value@),
                ));
            }
        } else {
            csv_struct.columns.push(CsvColumn { title: String::new(), max_length: w });
            proof {
                assert(final(csv_struct)@.columns =~~= col_update(
                    old(csv_struct)@.columns,
                    index as int,
                    cell_width(value@),
                ));
            }
        }
        row.push(String::from_str(value));
        proof {
            assert(final(csv_struct)@.rows =~~= old(csv_struct)@.rows);
            assert(cells_view(final(row)@) =~~= cells_view(old(row)@).push(value@));
        }
    }

    /// Shape a CSV document for display: succeeds exactly when the reader
    /// accepts the document, and then denotes [`spec_table`] of its records.
    pub fn from_string(input: &str) -> (r: Result<CsvTable, RuntimeError>)
        ensures
            r is Ok <==> csv_rows_of(input@) is Some,
            r matches Ok(t) ==> (csv_rows_of(input@) matches Some(all) && t@ == spec_table(all)
                && t.wf()),
            r matches Err(e) ==> e@ == "Malformed CSV input"@,
    {
        match parse_csv(input) {
            None => Err(RuntimeError::from_str("Malformed CSV input")),
            Some(rows) => {
                let ghost all = rows.deep_view();
                let mut result = CsvTable { columns: Vec::new(), rows: Vec::new() };
                if rows.len() == 0 {
                    proof {
                        assert(result@ =~~= spec_table(all));
                    }
                    return Ok(result);
                }
                let header = &rows[0];
                let hn = header.len();
                let mut j: usize = 0;
                proof {
                    assert(header.deep_view() =~~= all[0]);
                    assert(result@.columns =~~= header_cols(all[0].take(0)));
                }
                while j < hn
                    invariant
                        j <= hn,
                        hn == all[0].len(),
                        header.deep_view() == all[0],
                        result@.columns == header_cols(all[0].take(j as int)),
                        result@.rows.len() == 0,
                    decreases hn - j,
                {
                    let tv = trim(header[j].as_str());
                    CsvTable::process_header_value(tv.as_str(), &mut result);
                    proof {
                        assert(all[0].take(j as int + 1) =~= all[0].take(j as int).push(
                            all[0][j as int],
                        ));
                        assert(result@.columns =~~= header_cols(all[0].take(j as int + 1)));
                    }
                    j += 1;
                }
                proof {
                    assert(all[0].take(hn as int) =~= all[0]);
                    assert(all.drop_first().take(0) =~= Seq::<Seq<Seq<char>>>::empty());
                    assert(fold_rows(header_cols(all[0]), all.drop_first().take(0))
                        == header_cols(all[0]));
                    assert(result@.rows =~~= trimmed_rows(all.drop_first().take(0)));
                }
                let rn = rows.len();
                let mut i: usize = 1;
                while i < rn
                    invariant
                        1 <= i <= rn,
                        rn == rows@.len(),
                        rows.deep_view() == all,
                        all.len() == rn,
                        result@.columns == fold_rows(
                            header_cols(all[0]),
                            all.drop_first().take(i as int - 1),
                        ),
                        result@.rows == trimmed_rows(all.drop_first().take(i as int - 1)),
                    decreases rn - i,
                {
                    let rec = &rows[i];
                    let cn = rec.len();
                    let mut row: Vec<String> = Vec::new();
                    let ghost cols0 = result@.columns;
                    let mut j2: usize = 0;
                    proof {
                        assert(rec.deep_view() =~~= all[i as int]);
                        assert(all[i as int].skip(0) =~= all[i as int]);
                        assert(cells_view(row@) =~~= Seq::<Seq<char>>::empty());
                    }
                    while j2 < cn
                        invariant
                            j2 <= cn,
                            cn == all[i as int].len(),
                            0 <= i < all.len(),
                            rec.deep_view() == all[i as int],
                            fold_row(cols0, all[i as int], 0) == fold_row(
                                result@.columns,
                                all[i as int].skip(j2 as int),
                                j2 as int,
                            ),
                            cells_view(row@) == all[i as int].take(j2 as int).map_values(
                                |v: Seq<char>| trim_of(v),
                            ),
                            result@.rows == trimmed_rows(all.drop_first().take(i as int - 1)),
                        decreases cn - j2,
                    {
                        let ghost rem = all[i as int].skip(j2 as int);
                        proof {
                            assert(rem[0] == all[i as int][j2 as int]);
                            assert(rem.drop_first() =~= all[i as int].skip(j2 as int + 1));
                        }
                        let tv = trim(rec[j2].as_str());
                        CsvTable::process_body_value(j2, tv.as_str(), &mut row, &mut result);
                        proof {
                            assert(all[i as int].take(j2 as int + 1) =~= all[i as int].take(
                                j2 as int,
                            ).push(all[i as int][j2 as int]));
                            assert(cells_view(row@) =~~= all[i as int].take(j2 as int + 1)
                                .map_values(|v: Seq<char>| trim_of(v)));
                        }
                        j2 += 1;
                    }
                    proof {
                        assert(all[i as int].skip(cn as int) =~= Seq::<Seq<char>>::empty());
                        assert(all[i as int].take(cn as int) =~= all[i as int]);
                    }
                    let ghost rows0 = result@.rows;
                    let ghost rowv = cells_view(row@);
                    result.rows.push(row);
                    proof {
                        assert(all.drop_first().take(i as int) =~= all.drop_first().take(
                            i as int - 1,
                        ).push(all[i as int]));
                        assert(all.drop_first()[i as int - 1] == all[i as int]);
                        assert(rowv == all[i as int].map_values(|v: Seq<char>| trim_of(v)));
                        assert(result@.rows =~~= rows0.push(rowv));
                        assert(trimmed_rows(all.drop_first().take(i as int)) =~~= trimmed_rows(
                            all.drop_first().take(i as int - 1),
                        ).push(all[i as int].map_values(|v: Seq<char>| trim_of(v))));
                        assert(result@.rows =~~= trimmed_rows(all.drop_first().take(i as int)));
                        assert(fold_rows(header_cols(all[0]), all.drop_first().take(i as int))
                            == fold_row(
                            fold_rows(header_cols(all[0]), all.drop_first().take(i as int - 1)),
                            all[i as int],
                            0,
                        )) by {
                            lemma_fold_rows_push(
                                header_cols(all[0]),
                                all.drop_first().take(i as int - 1),
                                all[i as int],
                            );
                        }
                    }
                    i += 1;
                }
                proof {
                    assert(all.drop_first().take(rn as int - 1) =~= all.drop_first());
                    assert(result@ =~~= spec_table(all));
                    lemma_table_wf(all);
                }
                Ok(result)
            },
        }
    }
}

/// The cells of the spacing row: each column as dashes, closed by a bar.
pub open spec fn spacing_cells(cols: Seq<ColV>) -> Seq<char>
    decreases cols.len(),
{
    if cols.len() == 0 {
        Seq::empty()
    } else {
        dashes(cols[0].max_length) + seq!['|'] + spacing_cells(cols.drop_first())
    }
}

/// A spacing row: a bar, dashes and bars, a newline.
pub open spec fn spacing_row(cols: Seq<ColV>) -> Seq<char> {
    seq!['|'] + spacing_cells(cols) + seq!['\n']
}

/// The cells of the title row: each title centered in its column.
pub open spec fn header_cells(cols: Seq<ColV>) -> Seq<char>
    decreases cols.len(),
{
    if cols.len() == 0 {
        Seq::empty()
    } else {
        spec_pad_middle(cols[0].title, cols[0].max_length) + seq!['|'] + header_cells(
            cols.drop_first(),
        )
    }
}

/// The title row.
pub open spec fn header_row(cols: Seq<ColV>) -> Seq<char> {
    seq!['|'] + header_cells(cols) + seq!['\n']
}

/// The cells of one body row, each centered in its column, starting at
/// column `idx`.
pub open spec fn body_cells(row: Seq<Seq<char>>, cols: Seq<ColV>, idx: int) -> Seq<char>
    recommends
        idx + row.len() <= cols.len(),
    decreases row.len(),
{
    if row.len() == 0 {
        Seq::empty()
    } else {
        spec_pad_middle(row[0], cols[idx].max_length) + seq!['|'] + body_cells(
            row.drop_first(),
            cols,
            idx + 1,
        )
    }
}

/// One body row.
pub open spec fn body_row(row: Seq<Seq<char>>, cols: Seq<ColV>) -> Seq<char> {
    seq!['|'] + body_cells(row, cols, 0) + seq!['\n']
}

/// All body rows, in order.
pub open spec fn body_rows_text(rows: Seq<Seq<Seq<char>>>, cols: Seq<ColV>) -> Seq<char>
    decreases rows.len(),
{
    if rows.len() == 0 {
        Seq::empty()
    } else {
        body_row(rows[0], cols) + body_rows_text(rows.drop_first(), cols)
    }
}

/// The rendered table: spacing, titles, spacing, the body rows, spacing.
pub open spec fn spec_render(t: TableV) -> Seq<char> {
    spacing_row(t.columns) + header_row(t.columns) + spacing_row(t.columns) + body_rows_text(
        t.rows,
        t.columns,
    ) + spacing_row(t.columns)
}

fn push_dashes(out: &mut String, n: usize)
    ensures
        final(out)@ == old(out)@ + dashes(n as int),
{
    let mut i: usize = 0;
    proof {
        reveal_strlit("-");
        assert(out@ + dashes(0) =~= out@);
    }
    while i < n
        invariant
            i <= n,
            out@ == old(out)@ + dashes(i as int),
        decreases n - i,
    {
        proof {
            reveal_strlit("-");
            assert("-"@ =~= seq!['-']);
            assert(dashes(i as int + 1) =~= dashes(i as int) + seq!['-']);
            assert((old(out)@ + dashes(i as int)) + "-"@ =~= old(out)@ + dashes(i as int + 1));
        }
        out.append("-");
        i += 1;
    }
}

impl CsvTable {
    /// The title row when `use_col_titles`, the spacing row otherwise.
    fn get_header_or_spacing_row(&self, use_col_titles: bool) -> (r: String)
        ensures
            use_col_titles ==> r@ == header_row(self@.columns),
            !use_col_titles ==> r@ == spacing_row(self@.columns),
    {
        let ghost cols = self@.columns;
        let mut result = String::from_str("|");
        let n = self.columns.len();
        let mut k: usize = 0;
        proof {
            reveal_strlit("|");
            assert(result@ =~= seq!['|']);
            assert(cols.skip(0) =~= cols);
            assert(result@ + spacing_cells(cols) =~= seq!['|'] + spacing_cells(cols));
            assert(result@ + header_cells(cols) =~= seq!['|'] + header_cells(cols));
        }
        while k < n
            invariant
                k <= n,
                n == cols.len(),
                cols == self@.columns,
                use_col_titles ==> seq!['|'] + header_cells(cols) == result@ + header_cells(
                    cols.skip(k as int),
                ),
                !use_col_titles ==> seq!['|'] + spacing_cells(cols) == result@ + spacing_cells(
                    cols.skip(k as int),
                ),
            decreases n - k,
        {
            let ghost rem = cols.skip(k as int);
            proof {
                assert(rem[0] == cols[k as int]);
                assert(rem.drop_first() =~= cols.skip(k as int + 1));
                reveal_strlit("|");
                assert("|"@ =~= seq!['|']);
            }
            let col = &self.columns[k];
            if use_col_titles {
                let padded = pad_middle(col.title.as_str(), col.max_length);
                proof {
                    assert((result@ + padded@) + "|"@ =~= result@ + (spec_pad_middle(
                        rem[0].title,
                        rem[0].max_length,
                    ) + seq!['|']));
                }
                result.append(padded.as_str());
                result.append("|");
            } else {
                let ghost before = result@;
                push_dashes(&mut result, col.max_length);
                proof {
                    assert((before + dashes(rem[0].max_length)) + "|"@ =~= before + (dashes(
                        rem[0].max_length,
                    ) + seq!['|']));
                }
                result.append("|");
            }
            k += 1;
        }
        proof {
            assert(cols.skip(n as int) =~= Seq::<ColV>::empty());
            reveal_strlit("\n");
            assert("\n"@ =~= seq!['\n']);
            assert(header_cells(cols.skip(n as int)) =~= Seq::<char>::empty());
            assert(spacing_cells(cols.skip(n as int)) =~= Seq::<char>::empty());
            if use_col_titles {
                assert(result@ + Seq::<char>::empty() =~= result@);
                assert((seq!['|'] + header_cells(cols)) + "\n"@ =~= header_row(cols));
            } else {
                assert(result@ + Seq::<char>::empty() =~= result@);
                assert((seq!['|'] + spacing_cells(cols)) + "\n"@ =~= spacing_row(cols));
            }
        }
        result.append("\n");
        result
    }

    /// One body row rendered between bars.
    fn get_body_row(&self, row: &Vec<String>) -> (r: String)
        requires
            cells_view(row@).len() <= self@.columns.len(),
        ensures
            r@ == body_row(cells_view(row@), self@.columns),
    {
        let ghost cols = self@.columns;
        let ghost rowv = cells_view(row@);
        let mut result = String::from_str("|");
        let n = row.len();
        let mut k: usize = 0;
        proof {
            reveal_strlit("|");
            assert(result@ =~= seq!['|']);
            assert(rowv.skip(0) =~= rowv);
            assert(result@ + body_cells(rowv, cols, 0) =~= seq!['|'] + body_cells(rowv, cols, 0));
        }
        while k < n
            invariant
                k <= n,
                n == rowv.len(),
                rowv == cells_view(row@),
                cols == self@.columns,
                rowv.len() <= cols.len(),
                seq!['|'] + body_cells(rowv, cols, 0) == result@ + body_cells(
                    rowv.skip(k as int),
                    cols,
                    k as int,
                ),
            decreases n - k,
        {
            let ghost rem = rowv.skip(k as int);
            proof {
                assert(rem[0] == rowv[k as int]);
                assert(rem.drop_first() =~= rowv.skip(k as int + 1));
                reveal_strlit("|");
                assert("|"@ =~= seq!['|']);
            }
            let col = &self.columns[k];
            let padded = pad_middle(row[k].as_str(), col.max_length);
            proof {
                assert((result@ + padded@) + "|"@ =~= result@ + (spec_pad_middle(
                    rem[0],
                    cols[k as int].max_length,
                ) + seq!['|']));
            }
            result.append(padded.as_str());
            result.append("|");
            k += 1;
        }
        proof {
            assert(rowv.skip(n as int) =~= Seq::<Seq<char>>::empty());
            assert(rowv.skip(n as int).len() == 0);
            reveal_strlit("\n");
            assert("\n"@ =~= seq!['\n']);
            assert(result@ + Seq::<char>::empty() =~= result@);
            assert((seq!['|'] + body_cells(rowv, cols, 0)) + "\n"@ =~= body_row(rowv, cols));
        }
        result.append("\n");
        result
    }

    /// The whole table as text: spacing, titles, spacing, every body row,
    /// and a closing spacing row.
    pub fn render(&self) -> (r: String)
        requires
            self.wf(),
        ensures
            r@ == spec_render(self@),
    {
        let ghost cols = self@.columns;
        let ghost rows = self@.rows;
        let spacing = self.get_header_or_spacing_row(false);
        let headers = self.get_header_or_spacing_row(true);
        let mut result = spacing.clone();
        result.append(headers.as_str());
        result.append(spacing.as_str());
        let n = self.rows.len();
        let mut i: usize = 0;
        proof {
            assert(rows.skip(0) =~= rows);
        }
        while i < n
            invariant
                i <= n,
                n == rows.len(),
                cols == self@.columns,
                rows == self@.rows,
                self.wf(),
                spacing@ == spacing_row(cols),
                result@ + body_rows_text(rows.skip(i as int), cols) == (spacing_row(cols)
                    + header_row(cols) + spacing_row(cols)) + body_rows_text(rows, cols),
            decreases n - i,
        {
            let ghost rem = rows.skip(i as int);
            proof {
                assert(rem[0] == rows[i as int]);
                assert(rem.drop_first() =~= rows.skip(i as int + 1));
            }
            let line = self.get_body_row(&self.rows[i]);
            proof {
                assert(cells_view(self.rows@[i as int]@) == rows[i as int]);
                assert((result@ + line@) + body_rows_text(rows.skip(i as int + 1), cols)
                    =~= result@ + (body_row(rows[i as int], cols) + body_rows_text(
                    rows.skip(i as int + 1),
                    cols,
                )));
            }
            result.append(line.as_str());
            i += 1;
        }
        proof {
            assert(rows.skip(n as int).len() == 0);
            assert(body_rows_text(rows.skip(n as int), cols) =~= Seq::<char>::empty());
            assert(result@ + Seq::<char>::empty() =~= result@);
            assert(((spacing_row(cols) + header_row(cols) + spacing_row(cols)) + body_rows_text(
                rows,
                cols,
            )) + spacing_row(cols) =~= spec_render(self@));
        }
        result.append(spacing.as_str());
        result
    }
}

proof fn lemma_fold_rows_push(cols: Seq<ColV>, rows: Seq<Seq<Seq<char>>>, row: Seq<Seq<char>>)
    ensures
        fold_rows(cols, rows.push(row)) == fold_row(fold_rows(cols, rows), row, 0),
    decreases rows.len(),
{
    if rows.len() == 0 {
        assert(rows.push(row)[0] == row);
        assert(rows.push(row).drop_first() =~= Seq::<Seq<Seq<char>>>::empty());
        assert(fold_rows(cols, rows) == cols);
        assert(fold_rows(cols, rows.push(row)) == fold_rows(
            fold_row(cols, row, 0),
            rows.push(row).drop_first(),
        ));
        assert(fold_rows(fold_row(cols, row, 0), rows.push(row).drop_first()) == fold_row(
            cols,
            row,
            0,
        ));
    } else {
        assert(rows.push(row)[0] == rows[0]);
        assert(rows.push(row).drop_first() =~= rows.drop_first().push(row));
        lemma_fold_rows_push(fold_row(cols, rows[0], 0), rows.drop_first(), row);
        assert(fold_rows(cols, rows.push(row)) == fold_rows(
            fold_row(cols, rows[0], 0),
            rows.drop_first().push(row),
        ));
        assert(fold_rows(cols, rows) == fold_rows(fold_row(cols, rows[0], 0), rows.drop_first()));
    }
}

proof fn lemma_fold_rows_len(cols: Seq<ColV>, rows: Seq<Seq<Seq<char>>>)
    ensures
        fold_rows(cols, rows).len() >= cols.len(),
        forall|r: int|
            0 <= r < rows.len() ==> (#[trigger] rows[r]).len() <= fold_rows(cols, rows).len(),
    decreases rows.len(),
{
    if rows.len() > 0 {
        lemma_fold_row_len(cols, rows[0], 0);
        lemma_fold_rows_len(fold_row(cols, rows[0], 0), rows.drop_first());
        assert(forall|r: int|
            1 <= r < rows.len() ==> (#[trigger] rows[r]) == rows.drop_first()[r - 1]);
    }
}

proof fn lemma_table_wf(all: Seq<Seq<Seq<char>>>)
    ensures
        forall|r: int|
            0 <= r < spec_table(all).rows.len() ==> (#[trigger] spec_table(all).rows[r]).len()
                <= spec_table(all).columns.len(),
{
    if all.len() > 0 {
        lemma_fold_rows_len(header_cols(all[0]), all.drop_first());
        assert(forall|r: int|
            0 <= r < all.drop_first().len() ==> (#[trigger] trimmed_rows(all.drop_first())[r]).len()
                == all.drop_first()[r].len());
    }
}

} // verus!

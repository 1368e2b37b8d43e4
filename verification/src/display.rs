//! What is shown of a result set: the table of texts that the pages of a
//! query add up to, and the command line of the pager that shows it.

use crate::json::{json_text, render};
use crate::presto::{Object, QueryResults, QueryResultsView};
use crate::text::chars_of;
use vstd::prelude::*;
use vstd::string::*;

verus! {

/// The views of a list of strings.
pub open spec fn strings_view(strings: Seq<String>) -> Seq<Seq<char>> {
    strings.map_values(|s: String| s@)
}

/// The views of a list of rows of strings.
pub open spec fn grid_view(rows: Seq<Vec<String>>) -> Seq<Seq<Seq<char>>> {
    rows.map_values(|row: Vec<String>| strings_view(row@))
}

/// The views of a list of pages.
pub open spec fn pages_view(pages: Seq<QueryResults>) -> Seq<QueryResultsView> {
    pages.map_values(|page: QueryResults| page@)
}

/// The texts of the cells of a row.
pub open spec fn row_texts(row: Seq<Object>) -> Seq<Seq<char>> {
    Seq::new(row.len(), |i: int| json_text(row[i]))
}

/// The rows of a page as texts; none where the page holds no data.
pub open spec fn page_rows(page: QueryResultsView) -> Seq<Seq<Seq<char>>> {
    match page.data {
        Some(rows) => Seq::new(rows.len(), |i: int| row_texts(rows[i])),
        None => Seq::empty(),
    }
}

/// The table that a result set is shown as: the column titles and the rows,
/// every cell as text.
#[derive(Debug)]
pub struct Table {
    /// The titles, once a page has given the columns.
    pub titles: Option<Vec<String>>,
    /// The rows of all pages so far, in order.
    pub rows: Vec<Vec<String>>,
}

/// A `Table` as plain text values.
pub struct TableView {
    pub titles: Option<Seq<Seq<char>>>,
    pub rows: Seq<Seq<Seq<char>>>,
}

impl View for Table {
    type V = TableView;

    open spec fn view(&self) -> TableView {
        TableView {
            titles: match self.titles {
                Some(titles) => Some(strings_view(titles@)),
                None => None,
            },
            rows: grid_view(self.rows@),
        }
    }
}

/// A table with one more page: the titles are those of the first page that
/// has columns, and the rows of every page are added at the end.
pub open spec fn with_page(table: TableView, page: QueryResultsView) -> TableView {
    TableView {
        titles: match table.titles {
            Some(titles) => Some(titles),
            None => page.columns,
        },
        rows: table.rows + page_rows(page),
    }
}

/// The table that `pages` add up to, taken in order.
pub open spec fn table_of(pages: Seq<QueryResultsView>) -> TableView
    decreases pages.len(),
{
    if pages.len() == 0 {
        TableView { titles: None, rows: Seq::empty() }
    } else {
        with_page(table_of(pages.drop_last()), pages.last())
    }
}

/// The titles of a table are the columns of the first page that has any;
/// its rows are the rows of the pages one after the other.
pub proof fn lemma_table_of(pages: Seq<QueryResultsView>, k: int)
    requires
        0 <= k < pages.len(),
        pages[k].columns is Some,
        forall|j: int| 0 <= j < k ==> (#[trigger] pages[j]).columns is None,
    ensures
        table_of(pages).titles == pages[k].columns,
        table_of(pages.take(k)).titles is None,
        table_of(pages).rows == table_of(pages.take(k)).rows + page_rows(pages[k]) + table_of(
            pages.skip(k + 1),
        ).rows,
    decreases pages.len(),
{
    let earlier = pages.drop_last();
    if k == pages.len() - 1 {
        assert(pages.take(k) =~= earlier);
        lemma_no_titles(earlier);
        assert(pages.skip(k + 1) =~= Seq::<QueryResultsView>::empty());
        assert(table_of(pages).rows =~= table_of(pages.take(k)).rows + page_rows(pages[k])
            + table_of(pages.skip(k + 1)).rows);
    } else {
        lemma_table_of(earlier, k);
        assert(earlier.take(k) =~= pages.take(k));
        let after = pages.skip(k + 1);
        assert(after.drop_last() =~= earlier.skip(k + 1));
        assert(after.last() == pages.last());
        assert(table_of(pages).rows =~= table_of(pages.take(k)).rows + page_rows(pages[k])
            + table_of(pages.skip(k + 1)).rows);
    }
}

/// Pages without columns give a table without titles.
pub proof fn lemma_no_titles(pages: Seq<QueryResultsView>)
    requires
        forall|j: int| 0 <= j < pages.len() ==> (#[trigger] pages[j]).columns is None,
    ensures
        table_of(pages).titles is None,
    decreases pages.len(),
{
    if pages.len() > 0 {
        let earlier = pages.drop_last();
        assert forall|j: int| 0 <= j < earlier.len() implies (#[trigger] earlier[j]).columns
            is None by {
            assert(earlier[j] == pages[j]);
        }
        lemma_no_titles(earlier);
    }
}

/// The cells of a row as texts.
pub fn render_row(row: &Vec<Object>) -> (texts: Vec<String>)
    ensures
        strings_view(texts@) == row_texts(row@),
{
    let mut texts: Vec<String> = Vec::new();
    for i in 0..row.len()
        invariant
            texts@.len() == i,
            forall|j: int| 0 <= j < i ==> (#[trigger] texts@[j])@ == json_text(row@[j]),
    {
        texts.push(render(&row[i]));
    }
    assert(strings_view(texts@) =~= row_texts(row@));
    texts
}

impl Table {
    /// A table without titles or rows.
    pub fn new() -> (table: Table)
        ensures
            table@ == table_of(Seq::empty()),
    {
        let table = Table { titles: None, rows: Vec::new() };
        assert(grid_view(table.rows@) =~= Seq::empty());
        table
    }

    /// Whether the table holds no row.
    pub fn is_empty(&self) -> (empty: bool)
        ensures
            empty == (self@.rows.len() == 0),
    {
        self.rows.len() == 0
    }

    /// Adds a page: its columns become the titles unless an earlier page
    /// gave them, and its rows are added at the end.
    pub fn add_page(&mut self, page: &QueryResults)
        ensures
            final(self)@ == with_page(old(self)@, page@),
    {
        if self.titles.is_none() {
            if let Some(columns) = &page.columns {
                let mut titles: Vec<String> = Vec::new();
                for i in 0..columns.len()
                    invariant
                        titles@.len() == i,
                        forall|j: int| 0 <= j < i ==> (#[trigger] titles@[j])@ == columns@[j].name@,
                {
                    titles.push(columns[i].name.clone());
                }
                assert(strings_view(titles@) =~= page@.columns->0);
                self.titles = Some(titles);
            }
        }
        let ghost titled = self.titles;
        assert(self@.titles == with_page(old(self)@, page@).titles);
        if let Some(rows) = &page.data {
            let ghost before = grid_view(self.rows@);
            for i in 0..rows.len()
                invariant
                    self.titles == titled,
                    before == old(self)@.rows,
                    grid_view(self.rows@) == before + page_rows(page@).take(i as int),
                    page.data == Some(*rows),
            {
                let texts = render_row(&rows[i]);
                let ghost earlier = self.rows@;
                self.rows.push(texts);
                assert(grid_view(self.rows@) =~= grid_view(earlier).push(strings_view(texts@)));
                assert(page_rows(page@).take(i + 1) =~= page_rows(page@).take(i as int).push(
                    page_rows(page@)[i as int],
                ));
            }
            assert(page_rows(page@).take(rows.len() as int) =~= page_rows(page@));
        } else {
            assert(grid_view(self.rows@) + page_rows(page@) =~= grid_view(self.rows@));
        }
    }
}

/// The table that `data` adds up to: the titles of the first page that has
/// columns, and the rows of all pages in order, every cell as text.
pub fn display_data(data: &Vec<QueryResults>) -> (table: Table)
    ensures
        table@ == table_of(pages_view(data@)),
{
    let mut table = Table::new();
    for i in 0..data.len()
        invariant
            table@ == table_of(pages_view(data@).take(i as int)),
    {
        table.add_page(&data[i]);
        assert(pages_view(data@).take(i + 1).drop_last() =~= pages_view(data@).take(i as int));
    }
    assert(pages_view(data@).take(data.len() as int) =~= pages_view(data@));
    table
}

/// The parts of `s` between the occurrences of `sep`. There is always at
/// least one part, and a part is empty where two separators meet or where
/// one stands at an end.
pub open spec fn split(s: Seq<char>, sep: char) -> Seq<Seq<char>>
    decreases s.len(),
{
    if s.len() == 0 {
        seq![Seq::<char>::empty()]
    } else {
        let parts = split(s.drop_last(), sep);
        if s.last() == sep {
            parts.push(Seq::empty())
        } else {
            parts.drop_last().push(parts.last().push(s.last()))
        }
    }
}

/// A pager command line taken apart.
#[derive(Debug)]
pub struct PagerCommand {
    /// The program to start.
    pub program: String,
    /// Its arguments, in order.
    pub args: Vec<String>,
}

/// Takes a pager command line apart at its spaces: the first part is the
/// program, the others are its arguments.
pub fn pager_command(pager: &str) -> (command: PagerCommand)
    ensures
        command.program@ == split(pager@, ' ')[0],
        strings_view(command.args@) == split(pager@, ' ').skip(1),
{
    let chars = chars_of(pager);
    let mut parts: Vec<String> = Vec::new();
    let mut start: usize = 0;
    assert(chars@.take(0) =~= Seq::<char>::empty());
    assert(strings_view(parts@).push(chars@.subrange(0, 0)) =~= split(chars@.take(0), ' '));
    for i in 0..chars.len()
        invariant
            start <= i,
            chars@ == pager@,
            split(chars@.take(i as int), ' ') == strings_view(parts@).push(
                chars@.subrange(start as int, i as int),
            ),
    {
        assert(chars@.take(i + 1).drop_last() =~= chars@.take(i as int));
        if chars[i] == ' ' {
            let ghost earlier = parts@;
            parts.push(String::from_str(pager.substring_char(start, i)));
            assert(strings_view(parts@) =~= strings_view(earlier).push(
                chars@.subrange(start as int, i as int),
            ));
            start = i + 1;
            assert(chars@.subrange(start as int, i + 1) =~= Seq::<char>::empty());
        } else {
            assert(chars@.subrange(start as int, i + 1) =~= chars@.subrange(
                start as int,
                i as int,
            ).push(chars@[i as int]));
            assert(strings_view(parts@).push(chars@.subrange(start as int, i as int)).drop_last()
                =~= strings_view(parts@));
        }
    }
    assert(chars@.take(chars.len() as int) =~= chars@);
    let ghost earlier = parts@;
    parts.push(String::from_str(pager.substring_char(start, chars.len())));
    assert(strings_view(parts@) =~= strings_view(earlier).push(
        chars@.subrange(start as int, chars.len() as int),
    ));
    let program = parts.remove(0);
    assert(strings_view(parts@) =~= split(pager@, ' ').skip(1));
    PagerCommand { program, args: parts }
}

} // verus!

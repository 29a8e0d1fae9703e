use vstd::prelude::*;
use crate::decimal::{parse_scaled, scaled_i32};
use crate::food::NewFood;
use crate::text::{lines_of, split_on, trim, views, chars_of, split_chars, trim_chars, string_of};

verus! {

/// Lines at the top of an import file that hold no food.
pub const HEADER_LINES: usize = 3;

/// The separator between the cells of a line.
pub const CELL_SEPARATOR: char = ';';

/// Which cell of a line holds the name, the calories and the protein.
pub const NAME_CELL: usize = 0;

pub const CALORIES_CELL: usize = 3;

pub const PROTEIN_CELL: usize = 6;

/// What is wrong with a line of an import file.
#[derive(Clone, Copy, Debug, PartialEq, Eq, Structural)]
pub enum RowProblem {
    /// The line has fewer cells than the protein cell needs.
    MissingCells,
    /// The calorie cell is not a non-negative decimal number that fits.
    BadCalories,
    /// The protein cell is not a non-negative decimal number that fits.
    BadProtein,
}

/// The first line of an import file that could not be read, counted from the
/// first line after the header, and what is wrong with it.
#[derive(Clone, Copy, Debug, PartialEq, Eq, Structural)]
pub struct ImportError {
    pub row: usize,
    pub problem: RowProblem,
}

/// `s` without one pair of surrounding double quotes.
pub open spec fn unquote(s: Seq<char>) -> Seq<char> {
    if s.len() >= 2 && s[0] == '"' && s.last() == '"' {
        s.subrange(1, s.len() - 1)
    } else {
        s
    }
}

/// The food that one line of an import file describes: its name, and its
/// calories and protein per 100 g in hundredths.
pub open spec fn row_value(line: Seq<char>) -> Result<(Seq<char>, int, int), RowProblem> {
    let cells = split_on(line, CELL_SEPARATOR);
    if cells.len() <= PROTEIN_CELL {
        Err(RowProblem::MissingCells)
    } else if scaled_i32(trim(cells[CALORIES_CELL as int])) is None {
        Err(RowProblem::BadCalories)
    } else if scaled_i32(trim(cells[PROTEIN_CELL as int])) is None {
        Err(RowProblem::BadProtein)
    } else {
        Ok(
            (
                unquote(trim(cells[NAME_CELL as int])),
                scaled_i32(trim(cells[CALORIES_CELL as int]))->0,
                scaled_i32(trim(cells[PROTEIN_CELL as int]))->0,
            ),
        )
    }
}

/// The lines of an import file after its header.
pub open spec fn data_lines(contents: Seq<char>) -> Seq<Seq<char>> {
    let l = lines_of(contents);
    if l.len() <= HEADER_LINES {
        Seq::empty()
    } else {
        l.skip(HEADER_LINES as int)
    }
}

pub open spec fn food_matches(f: NewFood, v: (Seq<char>, int, int)) -> bool {
    f.name@ == v.0 && f.calories as int == v.1 && f.protein as int == v.2
}

fn unquote_chars(s: Vec<char>) -> (r: Vec<char>)
    ensures
        r@ == unquote(s@),
{
    let n = s.len();
    if n >= 2 && s[0] == '"' && s[n - 1] == '"' {
        crate::text::copy_range(&s, 1, n - 1)
    } else {
        s
    }
}

/// Reads one line of an import file.
pub fn parse_row(line: &Vec<char>) -> (r: Result<NewFood, RowProblem>)
    ensures
        match (r, row_value(line@)) {
            (Ok(f), Ok(v)) => food_matches(f, v),
            (Err(p), Err(q)) => p == q,
            _ => false,
        },
{
    let cells = split_chars(line, CELL_SEPARATOR);
    let ghost cv = split_on(line@, CELL_SEPARATOR);
    assert(views(cells@).len() == cells@.len());
    if cells.len() <= PROTEIN_CELL {
        return Err(RowProblem::MissingCells);
    }
    assert(cells@[CALORIES_CELL as int]@ == cv[CALORIES_CELL as int]);
    assert(cells@[PROTEIN_CELL as int]@ == cv[PROTEIN_CELL as int]);
    assert(cells@[NAME_CELL as int]@ == cv[NAME_CELL as int]);
    let calories = match parse_scaled(&trim_chars(&cells[CALORIES_CELL])) {
        Some(v) => v,
        None => return Err(RowProblem::BadCalories),
    };
    let protein = match parse_scaled(&trim_chars(&cells[PROTEIN_CELL])) {
        Some(v) => v,
        None => return Err(RowProblem::BadProtein),
    };
    let name = unquote_chars(trim_chars(&cells[NAME_CELL]));
    Ok(NewFood { name: string_of(&name), calories, protein })
}

/// Reads every food of an import file: the lines after the header, each split
/// at `;`, with the name in the first cell (trimmed, surrounding quotes taken
/// off) and the calories and protein per 100 g in the fourth and seventh.
/// The first line that cannot be read makes the whole file fail, so that no
/// food of it is stored.
pub fn parse_food_file(contents: &str) -> (r: Result<Vec<NewFood>, ImportError>)
    ensures
        r is Ok <==> forall|i: int|
            0 <= i < data_lines(contents@).len() ==> #[trigger] row_value(data_lines(contents@)[i]) is Ok,
        r is Ok ==> r->Ok_0@.len() == data_lines(contents@).len() && forall|i: int|
            0 <= i < r->Ok_0@.len() ==> food_matches(
                #[trigger] r->Ok_0@[i],
                row_value(data_lines(contents@)[i])->Ok_0,
            ),
        r is Err ==> {
            let e = r->Err_0;
            &&& e.row < data_lines(contents@).len()
            &&& row_value(data_lines(contents@)[e.row as int]) == Err::<
                (Seq<char>, int, int),
                RowProblem,
            >(e.problem)
            &&& forall|j: int| 0 <= j < e.row ==> #[trigger] row_value(data_lines(contents@)[j]) is Ok
        },
{
    let chars = chars_of(contents);
    let pieces = split_chars(&chars, '\n');
    let ghost p = split_on(contents@, '\n');
    let mut end = pieces.len();
    proof {
        crate::text::lemma_split_nonempty(contents@, '\n');
    }
    if pieces[end - 1].len() == 0 {
        end = end - 1;
    }
    assert(views(pieces@.take(end as int)) =~= lines_of(contents@));
    let ghost rows = data_lines(contents@);
    let mut foods: Vec<NewFood> = Vec::new();
    if end <= HEADER_LINES {
        return Ok(foods);
    }
    let mut i: usize = HEADER_LINES;
    while i < end
        invariant
            HEADER_LINES <= i <= end <= pieces@.len(),
            views(pieces@.take(end as int)) == lines_of(contents@),
            rows == data_lines(contents@),
            rows.len() == end - HEADER_LINES,
            foods@.len() == i - HEADER_LINES,
            forall|k: int| 0 <= k < foods@.len() ==> #[trigger] row_value(rows[k]) is Ok,
            forall|k: int| 0 <= k < foods@.len() ==> food_matches(
                #[trigger] foods@[k],
                row_value(rows[k])->Ok_0,
            ),
        decreases end - i,
    {
        assert(pieces@[i as int]@ == rows[i - HEADER_LINES]);
        match parse_row(&pieces[i]) {
            Ok(f) => {
                foods.push(f);
            },
            Err(problem) => {
                return Err(ImportError { row: i - HEADER_LINES, problem });
            },
        }
        i = i + 1;
    }
    Ok(foods)
}

} // verus!

//! The records of one extract: the header row, then one record for each row
//! of the sheet, its cells in the order of their columns' offsets.

use crate::error::ExportError;
use crate::formatter::{format_string, rendered, token_models, Token, TokenModel};
use crate::headers::{chosen_fields, field_names, flattened, texts};
use crate::schema::Schema;
use crate::text::{decimal, i64_to_string, signed_decimal, u64_to_string};
use vstd::prelude::*;

verus! {

/// The slot of the runtime parameter table that holds the player's name.
pub const PLAYER_NAME_SLOT: u32 = 1;

/// The name that stands in for the player wherever a string names them.
pub fn player_name() -> (name: &'static str)
    ensures
        name@ == seq!['P', 'l', 'a', 'y', 'e', 'r', ' ', 'P', 'l', 'a', 'y', 'e', 'r'],
{
    proof {
        reveal_strlit("Player Player");
    }
    let name = "Player Player";
    assert(name@ =~= seq!['P', 'l', 'a', 'y', 'e', 'r', ' ', 'P', 'l', 'a', 'y', 'e', 'r']);
    name
}

/// The language of the strings of a sheet.
#[derive(Debug, Clone, Copy, PartialEq, Eq, Structural)]
pub enum Language {
    English,
    German,
    French,
    Japanese,
    Korean,
    ChineseSimplified,
    ChineseTraditional,
    /// No language, or one that has no code.
    Unknown,
}

/// The short code of a language, as it stands in the path of an extract.
pub open spec fn code_of(language: Language) -> Seq<char> {
    match language {
        Language::English => seq!['e', 'n'],
        Language::German => seq!['d', 'e'],
        Language::French => seq!['f', 'r'],
        Language::Japanese => seq!['j', 'a'],
        Language::Korean => seq!['k', 'r'],
        Language::ChineseSimplified => seq!['c', 'h', 's'],
        Language::ChineseTraditional => seq!['c', 'h', 't'],
        Language::Unknown => seq!['?', '?'],
    }
}

/// Returns the short code of a language.
pub fn language_code(language: &Language) -> (code: &'static str)
    ensures
        code@ == code_of(*language),
{
    proof {
        reveal_strlit("en");
        reveal_strlit("de");
        reveal_strlit("fr");
        reveal_strlit("ja");
        reveal_strlit("kr");
        reveal_strlit("chs");
        reveal_strlit("cht");
        reveal_strlit("??");
    }
    let code = match language {
        Language::English => "en",
        Language::German => "de",
        Language::French => "fr",
        Language::Japanese => "ja",
        Language::Korean => "kr",
        Language::ChineseSimplified => "chs",
        Language::ChineseTraditional => "cht",
        Language::Unknown => "??",
    };
    assert(code@ =~= code_of(*language));
    code
}

/// The value of one cell of a row.
#[derive(Debug)]
pub enum Cell {
    /// A tagged string, as its tokens.
    Text(Vec<Token>),
    Bool(bool),
    I8(i8),
    I16(i16),
    I32(i32),
    I64(i64),
    U8(u8),
    U16(u16),
    U32(u32),
    U64(u64),
    /// A 32-bit float, as the text that the reader's number formatting gave
    /// it.
    Float(String),
}

/// The model of a `Cell`: integers of every width are one kind.
pub enum CellModel {
    Text(Seq<TokenModel>),
    Bool(bool),
    Integer(int),
    Float(Seq<char>),
}

impl View for Cell {
    type V = CellModel;

    open spec fn view(&self) -> CellModel {
        match *self {
            Cell::Text(tokens) => CellModel::Text(token_models(tokens@)),
            Cell::Bool(value) => CellModel::Bool(value),
            Cell::I8(value) => CellModel::Integer(value as int),
            Cell::I16(value) => CellModel::Integer(value as int),
            Cell::I32(value) => CellModel::Integer(value as int),
            Cell::I64(value) => CellModel::Integer(value as int),
            Cell::U8(value) => CellModel::Integer(value as int),
            Cell::U16(value) => CellModel::Integer(value as int),
            Cell::U32(value) => CellModel::Integer(value as int),
            Cell::U64(value) => CellModel::Integer(value as int),
            Cell::Float(text) => CellModel::Float(text@),
        }
    }
}

/// The text of a truth value: `True` or `False`.
pub open spec fn bool_text(value: bool) -> Seq<char> {
    if value {
        seq!['T', 'r', 'u', 'e']
    } else {
        seq!['F', 'a', 'l', 's', 'e']
    }
}

/// The text of a cell: a tagged string rendered, a truth value capitalised,
/// an integer in decimal, a float as it was handed in.
pub open spec fn cell_text(cell: CellModel) -> Seq<char> {
    match cell {
        CellModel::Text(tokens) => rendered(tokens),
        CellModel::Bool(value) => bool_text(value),
        CellModel::Integer(value) => signed_decimal(value),
        CellModel::Float(text) => text,
    }
}

/// Transforms the given cell to its text.
pub fn field_to_string(field: &Cell) -> (text: String)
    ensures
        text@ == cell_text(field@),
{
    match field {
        Cell::Text(tokens) => format_string(tokens),
        Cell::Bool(value) => {
            proof {
                reveal_strlit("True");
                reveal_strlit("False");
            }
            let text = if *value {
                String::from_str("True")
            } else {
                String::from_str("False")
            };
            assert(text@ =~= bool_text(*value));
            text
        },
        Cell::I8(value) => i64_to_string(*value as i64),
        Cell::I16(value) => i64_to_string(*value as i64),
        Cell::I32(value) => i64_to_string(*value as i64),
        Cell::I64(value) => i64_to_string(*value),
        Cell::U8(value) => u64_to_string(*value as u64),
        Cell::U16(value) => u64_to_string(*value as u64),
        Cell::U32(value) => u64_to_string(*value as u64),
        Cell::U64(value) => u64_to_string(*value),
        Cell::Float(text) => text.clone(),
    }
}

/// Whether column `a` comes before column `b`: by its offset, and by its
/// position where the offsets are equal.
pub open spec fn precedes(offsets: Seq<u16>, a: int, b: int) -> bool {
    offsets[a] < offsets[b] || (offsets[a] == offsets[b] && a < b)
}

/// Whether `order` lists every column of `offsets` once, in ascending order
/// of offset, columns of one offset in the order they had.
pub open spec fn is_offset_order(offsets: Seq<u16>, order: Seq<usize>) -> bool {
    &&& order.len() == offsets.len()
    &&& forall|k: int| 0 <= k < order.len() ==> 0 <= #[trigger] order[k] < offsets.len()
    &&& forall|i: usize| i < offsets.len() ==> #[trigger] order.contains(i)
    &&& forall|a: int, b: int|
        0 <= a < b < order.len() ==> precedes(offsets, #[trigger] order[a] as int, #[trigger] order[b] as int)
}

/// The columns of `offsets` in offset order.
pub open spec fn offset_order(offsets: Seq<u16>) -> Seq<usize> {
    choose|order: Seq<usize>| is_offset_order(offsets, order)
}

/// At most one sequence is the offset order of given offsets.
pub proof fn offset_order_is_unique(offsets: Seq<u16>, first: Seq<usize>, second: Seq<usize>)
    requires
        is_offset_order(offsets, first),
        is_offset_order(offsets, second),
    ensures
        first == second,
{
    assert forall|k: int| 0 <= k < first.len() implies first[k] == second[k] by {
        orders_agree(offsets, first, second, k);
    }
    assert(first =~= second);
}

/// Two offset orders of the same offsets agree at every position.
proof fn orders_agree(offsets: Seq<u16>, first: Seq<usize>, second: Seq<usize>, k: int)
    requires
        is_offset_order(offsets, first),
        is_offset_order(offsets, second),
        0 <= k < first.len(),
    ensures
        first[k] == second[k],
    decreases k,
{
    assert forall|j: int| 0 <= j < k implies first[j] == second[j] by {
        orders_agree(offsets, first, second, j);
    }
    if first[k] != second[k] {
        // Each of the two columns stands somewhere in the other order, and
        // not before `k`, where the orders agree: so each comes after the
        // other.
        assert(second.contains(first[k]));
        let m = choose|m: int| 0 <= m < second.len() && second[m] == first[k];
        assert(first.contains(second[k]));
        let n = choose|n: int| 0 <= n < first.len() && first[n] == second[k];
        if m < k {
            assert(precedes(offsets, first[m] as int, first[k] as int));
        }
        if n < k {
            assert(precedes(offsets, second[n] as int, second[k] as int));
        }
        assert(m > k);
        assert(n > k);
        assert(precedes(offsets, second[k] as int, second[m] as int));
        assert(precedes(offsets, first[k] as int, first[n] as int));
    }
}

/// The positions of the columns in ascending order of their offsets; columns
/// with the same offset keep their order.
pub fn column_order(offsets: &Vec<u16>) -> (order: Vec<usize>)
    ensures
        is_offset_order(offsets@, order@),
        order@ == offset_order(offsets@),
{
    let mut order: Vec<usize> = Vec::new();
    let mut i: usize = 0;
    while i < offsets.len()
        invariant
            i <= offsets.len(),
            order@.len() == i,
            forall|k: int| 0 <= k < order@.len() ==> 0 <= #[trigger] order@[k] < i,
            forall|c: usize| c < i ==> #[trigger] order@.contains(c),
            forall|a: int, b: int|
                0 <= a < b < order@.len() ==> precedes(
                    offsets@,
                    #[trigger] order@[a] as int,
                    #[trigger] order@[b] as int,
                ),
        decreases offsets.len() - i,
    {
        let key = offsets[i];
        let mut p: usize = order.len();
        while p > 0 && offsets[order[p - 1]] > key
            invariant
                p <= order@.len(),
                order@.len() == i,
                i < offsets.len(),
                key == offsets@[i as int],
                forall|k: int| 0 <= k < order@.len() ==> 0 <= #[trigger] order@[k] < i,
                forall|k: int| p <= k < order@.len() ==> offsets@[#[trigger] order@[k] as int] > key,
            decreases p,
        {
            p = p - 1;
        }
        let ghost before = order@;
        order.insert(p, i);
        proof {
            let after = order@;
            assert forall|c: usize| c < i + 1 implies #[trigger] after.contains(c) by {
                if c < i {
                    assert(before.contains(c));
                    let k = choose|k: int| 0 <= k < before.len() && before[k] == c;
                    if k < p {
                        assert(after[k] == c);
                    } else {
                        assert(after[k + 1] == c);
                    }
                } else {
                    assert(after[p as int] == c);
                }
            }
            assert forall|a: int, b: int| 0 <= a < b < after.len() implies precedes(
                offsets@,
                #[trigger] after[a] as int,
                #[trigger] after[b] as int,
            ) by {
                let x = if a < p { a } else { a - 1 };
                let y = if b < p { b } else { b - 1 };
                if a == p {
                    assert(after[b] == before[y]);
                } else if b == p {
                    assert(after[a] == before[x]);
                    if p > 0 {
                        if x < p - 1 {
                            assert(precedes(offsets@, before[x] as int, before[p - 1] as int));
                        }
                    }
                } else {
                    assert(after[a] == before[x]);
                    assert(after[b] == before[y]);
                }
            }
        }
        i = i + 1;
    }
    proof {
        assert(is_offset_order(offsets@, order@));
        offset_order_is_unique(offsets@, order@, offset_order(offsets@));
    }
    order
}

/// One row of a sheet: its identifiers, and one cell for each column of the
/// sheet, in the order in which the sheet lists its columns.
#[derive(Debug)]
pub struct Row {
    pub row_id: u32,
    pub subrow_id: u16,
    pub cells: Vec<Cell>,
}

/// The model of a `Row`.
pub struct RowModel {
    pub row_id: nat,
    pub subrow_id: nat,
    pub cells: Seq<CellModel>,
}

impl View for Row {
    type V = RowModel;

    open spec fn view(&self) -> RowModel {
        RowModel {
            row_id: self.row_id as nat,
            subrow_id: self.subrow_id as nat,
            cells: self.cells@.map_values(|cell: Cell| cell@),
        }
    }
}

/// What was read of one sheet: whether its rows have subrows, the offset of
/// each column, and the rows in the order in which the sheet gives them.
#[derive(Debug)]
pub struct SheetData {
    pub has_subrows: bool,
    pub offsets: Vec<u16>,
    pub rows: Vec<Row>,
}

/// The model of a `SheetData`.
pub struct SheetModel {
    pub has_subrows: bool,
    pub offsets: Seq<u16>,
    pub rows: Seq<RowModel>,
}

impl View for SheetData {
    type V = SheetModel;

    open spec fn view(&self) -> SheetModel {
        SheetModel {
            has_subrows: self.has_subrows,
            offsets: self.offsets@,
            rows: self.rows@.map_values(|row: Row| row@),
        }
    }
}

/// The identifier of a row: `row.subrow` in a sheet with subrows, `row` in
/// any other.
pub open spec fn row_label(has_subrows: bool, row_id: nat, subrow_id: nat) -> Seq<char> {
    if has_subrows {
        decimal(row_id) + seq!['.'] + decimal(subrow_id)
    } else {
        decimal(row_id)
    }
}

/// Whether the row has exactly one cell for each entry of `order`, and
/// `order` names cells of the row only.
pub open spec fn fits(order: Seq<usize>, row: RowModel) -> bool {
    &&& row.cells.len() == order.len()
    &&& forall|k: int| 0 <= k < order.len() ==> #[trigger] order[k] < row.cells.len()
}

/// The record of a row: its identifier, then the texts of its cells in the
/// given order.
pub open spec fn record_of(has_subrows: bool, order: Seq<usize>, row: RowModel) -> Seq<Seq<char>> {
    seq![row_label(has_subrows, row.row_id, row.subrow_id)] + Seq::new(
        order.len(),
        |k: int| cell_text(row.cells[order[k] as int]),
    )
}

/// The records of an extract: the headers, then the record of each row, its
/// cells in offset order.
pub open spec fn table_of(headers: Seq<Seq<char>>, sheet: SheetModel) -> Seq<Seq<Seq<char>>> {
    seq![headers] + Seq::new(
        sheet.rows.len(),
        |r: int| record_of(sheet.has_subrows, offset_order(sheet.offsets), sheet.rows[r]),
    )
}

/// Whether every row of the sheet has one cell for each column.
pub open spec fn decodable(sheet: SheetModel) -> bool {
    forall|r: int| 0 <= r < sheet.rows.len() ==> (#[trigger] sheet.rows[r]).cells.len()
        == sheet.offsets.len()
}

/// What the extract of a sheet under a schema is: `NameMissing` if the
/// schema's headers cannot be resolved; else `SheetDecode` if a row lacks a
/// cell or has one too many; else the records.
pub open spec fn extract(schema: crate::schema::SchemaModel, sheet: SheetModel) -> Result<
    Seq<Seq<Seq<char>>>,
    ExportError,
> {
    match flattened(chosen_fields(schema)) {
        Err(e) => Err(e),
        Ok(headers) => if decodable(sheet) {
            Ok(table_of(headers, sheet))
        } else {
            Err(ExportError::SheetDecode)
        },
    }
}

/// The texts of a list of records.
pub open spec fn record_texts(records: Seq<Vec<String>>) -> Seq<Seq<Seq<char>>> {
    records.map_values(|record: Vec<String>| texts(record@))
}

/// The model of the outcome of an extract.
pub open spec fn outcome_records(outcome: Result<Vec<Vec<String>>, ExportError>) -> Result<
    Seq<Seq<Seq<char>>>,
    ExportError,
> {
    match outcome {
        Ok(records) => Ok(record_texts(records@)),
        Err(e) => Err(e),
    }
}

/// Composes the identifier of a row.
pub fn row_identifier(has_subrows: bool, row_id: u32, subrow_id: u16) -> (id: String)
    ensures
        id@ == row_label(has_subrows, row_id as nat, subrow_id as nat),
{
    let mut id = u64_to_string(row_id as u64);
    if has_subrows {
        proof {
            reveal_strlit(".");
        }
        id.append(".");
        let sub = u64_to_string(subrow_id as u64);
        id.append(sub.as_str());
        assert(id@ =~= row_label(has_subrows, row_id as nat, subrow_id as nat));
    }
    id
}

/// The record of one row: its identifier, then the text of each cell that
/// `order` names, in that order. Fails with `SheetDecode` exactly if the row
/// does not fit the order.
pub fn record(has_subrows: bool, order: &Vec<usize>, row: &Row) -> (outcome: Result<
    Vec<String>,
    ExportError,
>)
    ensures
        match outcome {
            Ok(list) => fits(order@, row@) && texts(list@) == record_of(has_subrows, order@, row@),
            Err(e) => e == ExportError::SheetDecode && !fits(order@, row@),
        },
{
    if row.cells.len() != order.len() {
        return Err(ExportError::SheetDecode);
    }
    let mut data: Vec<String> = Vec::new();
    data.push(row_identifier(has_subrows, row.row_id, row.subrow_id));
    let mut k: usize = 0;
    while k < order.len()
        invariant
            k <= order.len(),
            row.cells.len() == order.len(),
            data@.len() == k + 1,
            data@[0]@ == row_label(has_subrows, row.row_id as nat, row.subrow_id as nat),
            forall|j: int| 0 <= j < k ==> #[trigger] order@[j] < row.cells.len(),
            forall|j: int|
                0 <= j < k ==> (#[trigger] data@[j + 1])@ == cell_text(
                    row.cells@[order@[j] as int]@,
                ),
        decreases order.len() - k,
    {
        let column = order[k];
        if column >= row.cells.len() {
            return Err(ExportError::SheetDecode);
        }
        let text = field_to_string(&row.cells[column]);
        data.push(text);
        k = k + 1;
    }
    proof {
        let expected = record_of(has_subrows, order@, row@);
        assert(texts(data@).len() == expected.len());
        assert forall|i: int| 0 <= i < expected.len() implies texts(data@)[i] == expected[i] by {
            if i > 0 {
                assert(data@[(i - 1) + 1]@ == cell_text(row.cells@[order@[i - 1] as int]@));
            }
        }
        assert(texts(data@) =~= expected);
    }
    Ok(data)
}

/// Generates the records of the extract of a sheet: the headers that the
/// schema gives, then the record of each row in the order of the rows, the
/// cells of each in the order of their columns' offsets.
pub fn sheet(schema: &Schema, data: &SheetData) -> (outcome: Result<Vec<Vec<String>>, ExportError>)
    ensures
        outcome_records(outcome) == extract(schema@, data@),
{
    let names = match field_names(schema) {
        Ok(names) => names,
        Err(e) => {
            return Err(e);
        },
    };
    let order = column_order(&data.offsets);
    let ghost headers = texts(names@);
    let mut records: Vec<Vec<String>> = Vec::new();
    records.push(names);
    let mut r: usize = 0;
    while r < data.rows.len()
        invariant
            r <= data.rows.len(),
            flattened(chosen_fields(schema@)) == Ok::<Seq<Seq<char>>, ExportError>(headers),
            is_offset_order(data.offsets@, order@),
            order@ == offset_order(data.offsets@),
            records@.len() == r + 1,
            texts(records@[0]@) == headers,
            forall|j: int| 0 <= j < r ==> (#[trigger] data@.rows[j]).cells.len() == data.offsets@.len(),
            forall|j: int|
                0 <= j < r ==> texts((#[trigger] records@[j + 1])@) == record_of(
                    data.has_subrows,
                    order@,
                    data@.rows[j],
                ),
        decreases data.rows.len() - r,
    {
        let row = &data.rows[r];
        assert(row@ == data@.rows[r as int]);
        match record(data.has_subrows, &order, row) {
            Ok(list) => {
                records.push(list);
            },
            Err(e) => {
                assert(!decodable(data@));
                return Err(e);
            },
        }
        r = r + 1;
    }
    proof {
        assert(decodable(data@));
        let expected = table_of(headers, data@);
        assert(record_texts(records@).len() == expected.len());
        assert forall|i: int| 0 <= i < expected.len() implies record_texts(records@)[i]
            == expected[i] by {
            if i > 0 {
                assert(texts(records@[(i - 1) + 1]@) == record_of(
                    data.has_subrows,
                    order@,
                    data@.rows[i - 1],
                ));
            }
        }
        assert(record_texts(records@) =~= expected);
    }
    Ok(records)
}

/// The path of the schema document of a sheet: `schemas/<sheet>.yml`.
pub open spec fn schema_path_of(sheet_name: Seq<char>) -> Seq<char> {
    seq!['s', 'c', 'h', 'e', 'm', 'a', 's', '/'] + sheet_name + seq!['.', 'y', 'm', 'l']
}

/// The path of the extract of a sheet in a language:
/// `output/<code>/<sheet>.csv`.
pub open spec fn output_path_of(language: Language, sheet_name: Seq<char>) -> Seq<char> {
    seq!['o', 'u', 't', 'p', 'u', 't', '/'] + code_of(language) + seq!['/'] + sheet_name + seq![
        '.',
        'c',
        's',
        'v',
    ]
}

/// Returns the path of the schema document of a sheet.
pub fn schema_path(sheet_name: &str) -> (path: String)
    ensures
        path@ == schema_path_of(sheet_name@),
{
    proof {
        reveal_strlit("schemas/");
        reveal_strlit(".yml");
    }
    let mut path = String::from_str("schemas/");
    path.append(sheet_name);
    path.append(".yml");
    assert(path@ =~= schema_path_of(sheet_name@));
    path
}

/// Returns the path of the extract of a sheet in a language.
pub fn output_path(language: &Language, sheet_name: &str) -> (path: String)
    ensures
        path@ == output_path_of(*language, sheet_name@),
{
    proof {
        reveal_strlit("output/");
        reveal_strlit("/");
        reveal_strlit(".csv");
    }
    let mut path = String::from_str("output/");
    path.append(language_code(language));
    path.append("/");
    path.append(sheet_name);
    path.append(".csv");
    assert(path@ =~= output_path_of(*language, sheet_name@));
    path
}

} // verus!

//! The vertex payload of a sheet of marching quads: six vertices per cell,
//! recomputed in full for every frame.

use crate::error::ConfigError;
use crate::march::{lemma_march_full_period, MarchConfig, MarchModel};
use vstd::arithmetic::div_mod::lemma_fundamental_div_mod_converse;
use vstd::arithmetic::mul::{lemma_mul_inequality, lemma_mul_upper_bound};
use vstd::prelude::*;

verus! {

/// The number of vertices that make up one quad: two triangles.
pub const VERTICES_PER_QUAD: usize = 6;

/// One vertex record: a position in whole units.
#[derive(Clone, Copy, Debug, PartialEq, Eq, Structural)]
pub struct Vertex {
    pub x: u32,
    pub y: u32,
}

/// The mathematical model of a [`QuadSheet`].
pub struct QuadModel {
    pub columns: nat,
    pub rows: nat,
    pub spacing: nat,
    pub width: nat,
    pub height: nat,
    pub march: MarchModel,
}

impl QuadModel {
    /// The number of quads on the sheet.
    pub open spec fn cells(self) -> nat {
        self.columns * self.rows
    }

    /// The number of vertex records that one frame holds.
    pub open spec fn vertex_count(self) -> nat {
        6 * self.cells()
    }

    /// The column of the quad that the record at `address` belongs to. Quads
    /// are laid out row by row.
    pub open spec fn column_of(self, address: int) -> int {
        (address / 6) % (self.columns as int)
    }

    /// The row of the quad that the record at `address` belongs to.
    pub open spec fn row_of(self, address: int) -> int {
        (address / 6) / (self.columns as int)
    }

    /// How far right of its quad's left edge the `corner`-th vertex lies.
    pub open spec fn corner_dx(self, corner: int) -> nat {
        if corner == 1 || corner == 3 || corner == 5 {
            self.width
        } else {
            0
        }
    }

    /// How far below its quad's top edge the `corner`-th vertex lies.
    pub open spec fn corner_dy(self, corner: int) -> nat {
        if corner == 2 || corner == 4 || corner == 5 {
            self.height
        } else {
            0
        }
    }

    /// The horizontal position of the record at `address` in the frame at
    /// `iteration`.
    pub open spec fn vertex_x(self, iteration: nat, address: int) -> int {
        self.spacing + self.column_of(address) * (self.spacing + self.width)
            + self.march.offset_x(iteration) + self.corner_dx(address % 6)
    }

    /// The vertical position of the record at `address` in the frame at
    /// `iteration`.
    pub open spec fn vertex_y(self, iteration: nat, address: int) -> int {
        self.spacing + self.row_of(address) * (self.spacing + self.height)
            + self.march.offset_y(iteration) + self.corner_dy(address % 6)
    }

    /// The largest horizontal position that any frame holds.
    pub open spec fn max_x(self) -> int {
        self.spacing + (self.columns - 1) * (self.spacing + self.width)
            + self.march.max_offset_x() + self.width
    }

    /// The largest vertical position that any frame holds.
    pub open spec fn max_y(self) -> int {
        self.spacing + (self.rows - 1) * (self.spacing + self.height)
            + self.march.max_offset_y() + self.height
    }

    /// The march is well formed, a frame's records can be counted, and every
    /// position fits a vertex record.
    pub open spec fn wf(self) -> bool {
        &&& self.march.wf()
        &&& self.vertex_count() <= usize::MAX
        &&& self.cells() > 0 ==> self.max_x() <= u32::MAX && self.max_y() <= u32::MAX
    }
}

/// `records` is the frame of `sheet` at `iteration`: one record per address,
/// each at its position.
pub open spec fn is_quad_frame(records: Seq<Vertex>, sheet: QuadModel, iteration: nat) -> bool {
    &&& records.len() == sheet.vertex_count()
    &&& forall|address: int|
        0 <= address < records.len() ==> {
            &&& (#[trigger] records[address]).x == sheet.vertex_x(iteration, address)
            &&& records[address].y == sheet.vertex_y(iteration, address)
        }
}

/// A sheet of `columns` by `rows` quads, each `width` by `height`, set
/// `spacing` apart, which marches as a whole.
#[derive(Clone, Copy, Debug)]
pub struct QuadSheet {
    columns: u32,
    rows: u32,
    spacing: u32,
    width: u32,
    height: u32,
    march: MarchConfig,
}

impl View for QuadSheet {
    type V = QuadModel;

    closed spec fn view(&self) -> QuadModel {
        QuadModel {
            columns: self.columns as nat,
            rows: self.rows as nat,
            spacing: self.spacing as nat,
            width: self.width as nat,
            height: self.height as nat,
            march: self.march@,
        }
    }
}

/// The largest position along one axis, for `count >= 1` quads.
fn max_position(count: u32, spacing: u32, extent: u32, period: u32, step: u32) -> (m: u128)
    requires
        count >= 1,
        period >= 1,
    ensures
        m == spacing + (count - 1) * (spacing + extent) + (period - 1) * step + extent,
{
    let pitch: u128 = spacing as u128 + extent as u128;
    proof {
        lemma_mul_upper_bound(
            (count - 1) as int,
            u32::MAX as int,
            pitch as int,
            2 * (u32::MAX as int),
        );
        lemma_mul_upper_bound((period - 1) as int, u32::MAX as int, step as int, u32::MAX as int);
    }
    spacing as u128 + (count - 1) as u128 * pitch + (period - 1) as u128 * (step as u128)
        + extent as u128
}

impl QuadSheet {
    #[verifier::type_invariant]
    pub(crate) open spec fn inv(&self) -> bool {
        self@.wf()
    }

    /// Describes a sheet. It is rejected with `TooManyInstances` where the
    /// records of one frame cannot be counted, else with `CoordinateOverflow`
    /// where some position would not fit a vertex record.
    pub fn new(
        columns: u32,
        rows: u32,
        spacing: u32,
        width: u32,
        height: u32,
        march: MarchConfig,
    ) -> (r: Result<QuadSheet, ConfigError>)
        ensures
            ({
                let model = QuadModel {
                    columns: columns as nat,
                    rows: rows as nat,
                    spacing: spacing as nat,
                    width: width as nat,
                    height: height as nat,
                    march: march@,
                };
                if model.vertex_count() > usize::MAX {
                    r == Err::<QuadSheet, ConfigError>(ConfigError::TooManyInstances)
                } else if model.cells() > 0 && (model.max_x() > u32::MAX || model.max_y()
                    > u32::MAX) {
                    r == Err::<QuadSheet, ConfigError>(ConfigError::CoordinateOverflow)
                } else {
                    r is Ok && r->Ok_0@ == model
                }
            }),
    {
        proof {
            use_type_invariant(&march);
            lemma_mul_upper_bound(columns as int, u32::MAX as int, rows as int, u32::MAX as int);
            assert((columns as nat * rows as nat > 0) <==> (columns > 0 && rows > 0))
                by (nonlinear_arith);
        }
        let vertices: u128 = 6 * (columns as u128 * rows as u128);
        if vertices > usize::MAX as u128 {
            return Err(ConfigError::TooManyInstances);
        }
        if columns > 0 && rows > 0 {
            let max_x = max_position(columns, spacing, width, march.period_x(), march.step_x());
            let max_y = max_position(rows, spacing, height, march.period_y(), march.step_y());
            if max_x > u32::MAX as u128 || max_y > u32::MAX as u128 {
                return Err(ConfigError::CoordinateOverflow);
            }
        }
        Ok(QuadSheet { columns, rows, spacing, width, height, march })
    }

    /// The number of vertex records that one frame holds: the capacity that
    /// a region must have to receive it.
    pub fn vertex_count(&self) -> (n: usize)
        ensures
            n == self@.vertex_count(),
    {
        proof {
            use_type_invariant(self);
        }
        let cells: u64 = self.columns as u64 * self.rows as u64;
        (6 * cells as u128) as usize
    }
}

/// The cell in row `row` and column `column` is the `row * columns + column`-th
/// of the sheet.
proof fn lemma_cell_position(row: int, column: int, rows: int, columns: int)
    requires
        0 <= row < rows,
        0 <= column < columns,
    ensures
        0 <= row * columns + column < rows * columns,
        (row * columns + column) / columns == row,
        (row * columns + column) % columns == column,
        row * columns + columns == (row + 1) * columns,
{
    assert(row * columns + columns == (row + 1) * columns) by (nonlinear_arith);
    lemma_mul_inequality(row + 1, rows, columns);
    lemma_fundamental_div_mod_converse(row * columns + column, columns, row, column);
}

/// Writes the two triangles of one quad at `address`.
fn write_quad(
    output: &mut Vec<Vertex>,
    address: usize,
    left: u32,
    right: u32,
    top: u32,
    bottom: u32,
)
    requires
        address + 6 <= old(output).len(),
    ensures
        final(output)@.len() == old(output)@.len(),
        forall|a: int|
            0 <= a < address || address + 6 <= a < old(output)@.len() ==> final(output)@[a] == old(
                output,
            )@[a],
        final(output)@[address + 0] == (Vertex { x: left, y: top }),
        final(output)@[address + 1] == (Vertex { x: right, y: top }),
        final(output)@[address + 2] == (Vertex { x: left, y: bottom }),
        final(output)@[address + 3] == (Vertex { x: right, y: top }),
        final(output)@[address + 4] == (Vertex { x: left, y: bottom }),
        final(output)@[address + 5] == (Vertex { x: right, y: bottom }),
{
    output[address] = Vertex { x: left, y: top };
    output[address + 1] = Vertex { x: right, y: top };
    output[address + 2] = Vertex { x: left, y: bottom };
    output[address + 3] = Vertex { x: right, y: top };
    output[address + 4] = Vertex { x: left, y: bottom };
    output[address + 5] = Vertex { x: right, y: bottom };
}

/// Writes the frame of `sheet` at `iteration` into `output`, which stands for
/// the region that receives it.
///
/// Every record of `output` is overwritten, and what is written depends on
/// `sheet` and `iteration` alone. Where `output` has not exactly the capacity
/// of one frame, nothing is written and the mismatch is reported.
pub fn upload(
    output: &mut Vec<Vertex>,
    sheet: &QuadSheet,
    iteration: u32,
) -> (r: Result<(), ConfigError>)
    ensures
        old(output)@.len() != sheet@.vertex_count() ==> r == Err::<(), ConfigError>(
            ConfigError::CapacityMismatch,
        ) && final(output)@ == old(output)@,
        old(output)@.len() == sheet@.vertex_count() ==> r is Ok && is_quad_frame(
            final(output)@,
            sheet@,
            iteration as nat,
        ),
{
    proof {
        use_type_invariant(sheet);
    }
    if output.len() != sheet.vertex_count() {
        return Err(ConfigError::CapacityMismatch);
    }
    let offset = sheet.march.offset(iteration);
    let pitch_x: u64 = sheet.spacing as u64 + sheet.width as u64;
    let pitch_y: u64 = sheet.spacing as u64 + sheet.height as u64;
    let ghost model = sheet@;
    let ghost frame = iteration as nat;
    let mut address: usize = 0;
    let mut row: u32 = 0;
    while row < sheet.rows
        invariant
            model == sheet@,
            model.wf(),
            frame == iteration as nat,
            output@.len() == model.vertex_count(),
            offset.x == model.march.offset_x(frame),
            offset.y == model.march.offset_y(frame),
            offset.x <= model.march.max_offset_x(),
            offset.y <= model.march.max_offset_y(),
            pitch_x == model.spacing + model.width,
            pitch_y == model.spacing + model.height,
            row <= sheet.rows,
            address == 6 * (row * model.columns),
            forall|a: int|
                0 <= a < address ==> {
                    &&& (#[trigger] output@[a]).x == model.vertex_x(frame, a)
                    &&& output@[a].y == model.vertex_y(frame, a)
                },
        decreases sheet.rows - row,
    {
        let mut column: u32 = 0;
        while column < sheet.columns
            invariant
                model == sheet@,
                model.wf(),
                frame == iteration as nat,
                output@.len() == model.vertex_count(),
                offset.x == model.march.offset_x(frame),
                offset.y == model.march.offset_y(frame),
                offset.x <= model.march.max_offset_x(),
                offset.y <= model.march.max_offset_y(),
                pitch_x == model.spacing + model.width,
                pitch_y == model.spacing + model.height,
                row < sheet.rows,
                column <= sheet.columns,
                address == 6 * (row * model.columns + column),
                forall|a: int|
                    0 <= a < address ==> {
                        &&& (#[trigger] output@[a]).x == model.vertex_x(frame, a)
                        &&& output@[a].y == model.vertex_y(frame, a)
                    },
            decreases sheet.columns - column,
        {
            proof {
                lemma_cell_position(
                    row as int,
                    column as int,
                    model.rows as int,
                    model.columns as int,
                );
                lemma_mul_inequality(column as int, model.columns - 1, pitch_x as int);
                lemma_mul_inequality(row as int, model.rows - 1, pitch_y as int);
            }
            let x: u64 = sheet.spacing as u64 + column as u64 * pitch_x + offset.x;
            let y: u64 = sheet.spacing as u64 + row as u64 * pitch_y + offset.y;
            let left: u32 = x as u32;
            let right: u32 = (x + sheet.width as u64) as u32;
            let top: u32 = y as u32;
            let bottom: u32 = (y + sheet.height as u64) as u32;
            write_quad(output, address, left, right, top, bottom);
            address += 6;
            column += 1;
        }
        proof {
            assert(row * model.columns + model.columns == (row + 1) * model.columns)
                by (nonlinear_arith);
        }
        row += 1;
    }
    proof {
        assert(sheet.rows * model.columns == model.cells()) by (nonlinear_arith)
            requires
                sheet.rows == model.rows,
        ;
    }
    Ok(())
}

/// The payload is a function of its inputs: any two frames of one sheet at
/// one iteration are the same, record for record.
pub proof fn lemma_quad_frame_deterministic(
    first: Seq<Vertex>,
    second: Seq<Vertex>,
    sheet: QuadModel,
    iteration: nat,
)
    requires
        is_quad_frame(first, sheet, iteration),
        is_quad_frame(second, sheet, iteration),
    ensures
        first == second,
{
}

/// The frame repeats with the march: a full period on, every record is where
/// it was.
pub proof fn lemma_quad_frame_periodic(records: Seq<Vertex>, sheet: QuadModel, iteration: nat)
    requires
        sheet.march.wf(),
        is_quad_frame(records, sheet, iteration),
    ensures
        is_quad_frame(records, sheet, iteration + sheet.march.full_period()),
{
    lemma_march_full_period(sheet.march, iteration);
}

} // verus!

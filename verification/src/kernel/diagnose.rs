use vstd::prelude::*;

verus! {

/// Rows of the screen.
pub const SCREEN_ROWS: u32 = 25;

/// The diagnostic window: whether tracing is on, how many rows it takes at the bottom
/// of the screen, and where the next character goes.
#[derive(Debug, Clone, Copy)]
pub struct Diagnose {
    pub trace_on: bool,
    pub rows: u32,
    pub row: u32,
    pub column: u32,
}

impl Diagnose {
    /// Tracing on, a window of 10 rows.
    pub fn new() -> (r: Self)
        ensures
            r == (Diagnose { trace_on: true, rows: 10, row: 10, column: 0 }),
    {
        Diagnose { trace_on: true, rows: 10, row: 10, column: 0 }
    }

    pub fn trace_on(&mut self)
        ensures
            *final(self) == (Diagnose { trace_on: true, ..*old(self) }),
    {
        self.trace_on = true;
    }

    pub fn trace_off(&mut self)
        ensures
            *final(self) == (Diagnose { trace_on: false, ..*old(self) }),
    {
        self.trace_on = false;
    }

    pub fn is_trace_on(&self) -> (r: bool)
        ensures
            r == self.trace_on,
    {
        self.trace_on
    }

    /// Starts the window over: first row of the window, first column.
    pub fn clear_screen(&mut self)
        requires
            old(self).rows <= SCREEN_ROWS,
        ensures
            *final(self) == (Diagnose { row: (SCREEN_ROWS - old(self).rows) as u32, column: 0, ..*old(self) }),
    {
        self.row = SCREEN_ROWS - self.rows;
        self.column = 0;
    }

    /// Rows of the window.
    pub fn diagnose_rows(&self) -> (r: u32)
        ensures
            r == self.rows,
    {
        self.rows
    }

    /// Shows a window of `rows` rows, starting at its first row.
    pub fn diagnose_enable_rows(&mut self, rows: u32)
        requires
            rows <= SCREEN_ROWS,
        ensures
            *final(self) == (Diagnose { rows, row: (SCREEN_ROWS - rows) as u32, column: 0, ..*old(self) }),
    {
        self.rows = rows;
        self.row = SCREEN_ROWS - rows;
        self.column = 0;
    }

    /// Hides the window.
    pub fn diagnose_disable_rows(&mut self)
        requires
            old(self).rows <= SCREEN_ROWS,
        ensures
            *final(self) == (Diagnose { rows: 0, row: SCREEN_ROWS, column: 0, ..*old(self) }),
    {
        self.clear_screen();
        self.rows = 0;
        self.row = SCREEN_ROWS;
        self.column = 0;
    }
}

} // verus!

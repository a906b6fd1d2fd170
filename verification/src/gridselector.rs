//! The grid selector: items laid out in rows of a fixed column count, with a
//! hovered cell the user moves around and a selected cell.
//!
//! The navigation math lives in the state type. Rows are filled left to
//! right; a last row holding fewer items than the column count is drawn
//! centered when both counts are odd, and the vertical motions shift their
//! target to stay visually above or below the hovered cell in that case.

use vstd::prelude::*;
use crate::style::Color;

verus! {

/// One selectable item: its label text.
#[derive(Debug, Clone)]
pub struct GridItem(pub String);

impl GridItem {
    pub fn new(value: String) -> (r: GridItem)
        ensures
            r.0 == value,
    {
        GridItem(value)
    }

    /// The item's label.
    pub fn as_str(&self) -> (r: &str)
        ensures
            r@ == self.0@,
    {
        self.0.as_str()
    }
}

/// Where the hovered cell lands on a downward motion, or `None` at the last
/// row: one row down, clamped to the last item; when the next row is a
/// shorter, centered last row (both counts odd), the target shifts to the
/// cell drawn below, or to that row's first or last item from the fringes.
pub open spec fn spec_move_down(items_len: int, columns: int, hovered: int) -> Option<int>
    recommends
        columns >= 1,
        0 <= hovered < items_len,
{
    let next_row_start = (hovered / columns + 1) * columns;
    let last = items_len - 1;
    if next_row_start > last {
        None
    } else {
        let base = if hovered + columns <= last {
            hovered + columns
        } else {
            last
        };
        let next_row_count = if columns <= last - next_row_start + 1 {
            columns
        } else {
            last - next_row_start + 1
        };
        let idx = if next_row_count % 2 != 0 && columns % 2 != 0 && next_row_count < columns {
            let shift = (columns - next_row_count) / 2;
            if hovered % columns >= shift && hovered % columns < columns - shift {
                hovered + columns - shift
            } else if hovered % columns < shift {
                next_row_start
            } else {
                last
            }
        } else {
            base
        };
        Some(
            if idx <= last {
                idx
            } else {
                last
            },
        )
    }
}

/// Where the hovered cell lands on an upward motion, or `None` on the first
/// row: one row up; from a shorter, centered last row (both counts odd) the
/// target shifts to the cell drawn above.
pub open spec fn spec_move_up(items_len: int, columns: int, hovered: int) -> Option<int>
    recommends
        columns >= 1,
        0 <= hovered < items_len,
{
    if hovered / columns == 0 {
        None
    } else {
        let base = if hovered >= columns {
            hovered - columns
        } else {
            0
        };
        let last_row_start = (items_len / columns) * columns;
        let last_row_count = items_len % columns;
        let idx = if hovered >= last_row_start && last_row_count % 2 != 0 && columns % 2 != 0
            && last_row_count < columns {
            let shift = (columns - last_row_count) / 2;
            if hovered >= columns - shift {
                hovered - (columns - shift)
            } else {
                0
            }
        } else {
            base
        };
        Some(
            if idx <= items_len - 1 {
                idx
            } else {
                items_len - 1
            },
        )
    }
}

/// State of the grid selector: the items, the selected and hovered indices,
/// and the column count of the layout.
#[derive(Debug, Clone)]
pub struct GridSelectorState {
    pub items: Vec<GridItem>,
    pub selected: Option<usize>,
    pub hovered: Option<usize>,
    pub columns: usize,
}

impl GridSelectorState {
    /// The state invariant: at least one column, and both indices in range.
    pub open spec fn inv(self) -> bool {
        &&& self.columns >= 1
        &&& match self.selected {
            Some(i) => i < self.items@.len(),
            None => true,
        }
        &&& match self.hovered {
            Some(i) => i < self.items@.len(),
            None => true,
        }
    }

    /// A fresh state over the given items: nothing selected, the first item
    /// hovered, five columns.
    pub fn new(items: Vec<GridItem>) -> (r: GridSelectorState)
        ensures
            r.items == items,
            r.selected is None,
            r.hovered == Some(0usize),
            r.columns == 5,
            items@.len() >= 1 ==> r.inv(),
    {
        GridSelectorState { items, selected: None, hovered: Some(0), columns: 5 }
    }

    /// This state with another column count.
    pub fn columns(self, columns: usize) -> (r: GridSelectorState)
        ensures
            r == (GridSelectorState { columns, ..self }),
    {
        GridSelectorState { columns, ..self }
    }

    /// The selected item, as a copy of its label.
    pub fn selected(&self) -> (r: Option<GridItem>)
        requires
            self.inv(),
        ensures
            match r {
                Some(g) => self.selected matches Some(i) && g.0@ == self.items@[i as int].0@,
                None => self.selected is None,
            },
    {
        match self.selected {
            Some(i) => Some(GridItem(self.items[i].0.clone())),
            None => None,
        }
    }

    /// The index of the selected item.
    pub fn selected_index(&self) -> (r: Option<usize>)
        ensures
            r == self.selected,
    {
        self.selected
    }

    /// The hovered item, as a copy of its label.
    pub fn hovered(&self) -> (r: Option<GridItem>)
        requires
            self.inv(),
        ensures
            match r {
                Some(g) => self.hovered matches Some(i) && g.0@ == self.items@[i as int].0@,
                None => self.hovered is None,
            },
    {
        match self.hovered {
            Some(i) => Some(GridItem(self.items[i].0.clone())),
            None => None,
        }
    }

    /// Move the hover one cell right, wrapping to the first item past the
    /// last; with nothing hovered the first item becomes hovered.
    pub fn move_right(&mut self) -> (r: bool)
        requires
            old(self).inv(),
            old(self).items@.len() >= 1,
        ensures
            final(self).inv(),
            final(self).items == old(self).items,
            final(self).selected == old(self).selected,
            final(self).columns == old(self).columns,
            final(self).hovered == match old(self).hovered {
                Some(h) => if h + 1 < old(self).items@.len() {
                    Some((h + 1) as usize)
                } else {
                    Some(0usize)
                },
                None => Some(0usize),
            },
            r == true,
    {
        let n = self.items.len();
        self.hovered = match self.hovered {
            Some(h) => {
                let next = h + 1;
                if next < n {
                    Some(next)
                } else {
                    Some(0)
                }
            },
            None => Some(0),
        };
        true
    }

    /// Move the hover one cell left, wrapping to the last item before the
    /// first; with nothing hovered the first item becomes hovered.
    pub fn move_left(&mut self) -> (r: bool)
        requires
            old(self).inv(),
            old(self).items@.len() >= 1,
        ensures
            final(self).inv(),
            final(self).items == old(self).items,
            final(self).selected == old(self).selected,
            final(self).columns == old(self).columns,
            final(self).hovered == match old(self).hovered {
                Some(h) => if h > 0 {
                    Some((h - 1) as usize)
                } else {
                    Some((old(self).items@.len() - 1) as usize)
                },
                None => Some(0usize),
            },
            r == true,
    {
        self.hovered = match self.hovered {
            Some(h) => {
                if h > 0 {
                    Some(h - 1)
                } else {
                    Some(self.items.len() - 1)
                }
            },
            None => Some(0),
        };
        true
    }

    /// Move the hover one row down; nothing happens on the last row or with
    /// nothing hovered.
    pub fn move_down(&mut self) -> (r: bool)
        requires
            old(self).inv(),
            old(self).items@.len() >= 1,
            old(self).items@.len() + old(self).columns <= usize::MAX,
        ensures
            final(self).inv(),
            final(self).items == old(self).items,
            final(self).selected == old(self).selected,
            final(self).columns == old(self).columns,
            match old(self).hovered {
                Some(h) => match spec_move_down(
                    old(self).items@.len() as int,
                    old(self).columns as int,
                    h as int,
                ) {
                    Some(idx) => final(self).hovered == Some(idx as usize) && r == true,
                    None => final(self).hovered == old(self).hovered && r == false,
                },
                None => final(self).hovered == old(self).hovered && r == false,
            },
    {
        if let Some(hovered) = self.hovered {
            let items_per_row = self.columns;
            let num_items = self.items.len();
            let current_row = hovered / items_per_row;
            proof {
                vstd::arithmetic::div_mod::lemma_fundamental_div_mod(
                    hovered as int,
                    items_per_row as int,
                );
                assert((current_row as int) * (items_per_row as int) <= hovered as int)
                    by (nonlinear_arith)
                    requires
                        current_row as int == hovered as int / items_per_row as int,
                        items_per_row >= 1,
                        hovered as int == (items_per_row as int) * (hovered as int
                            / items_per_row as int) + (hovered as int) % (items_per_row as int),
                        (hovered as int) % (items_per_row as int) >= 0,
                ;
                assert((current_row as int + 1) * (items_per_row as int) == (current_row as int)
                    * (items_per_row as int) + items_per_row as int) by (nonlinear_arith);
            }
            let next_row_start = (current_row + 1) * items_per_row;
            let last_item_index = num_items - 1;
            if next_row_start > last_item_index {
                return false;
            }
            let mut next_index = if hovered + items_per_row <= last_item_index {
                hovered + items_per_row
            } else {
                last_item_index
            };
            let next_row_count = if items_per_row <= last_item_index - next_row_start + 1 {
                items_per_row
            } else {
                last_item_index - next_row_start + 1
            };
            if next_row_count % 2 != 0 && items_per_row % 2 != 0 && next_row_count < items_per_row {
                let shift = (items_per_row - next_row_count) / 2;
                if hovered % items_per_row >= shift && hovered % items_per_row < items_per_row
                    - shift {
                    next_index = hovered + items_per_row - shift;
                } else {
                    next_index = if hovered % items_per_row < shift {
                        next_row_start
                    } else {
                        last_item_index
                    };
                }
            }
            self.hovered = Some(
                if next_index <= last_item_index {
                    next_index
                } else {
                    last_item_index
                },
            );
            return true;
        }
        false
    }

    /// Move the hover one row up; nothing happens on the first row or with
    /// nothing hovered.
    pub fn move_up(&mut self) -> (r: bool)
        requires
            old(self).inv(),
            old(self).items@.len() >= 1,
        ensures
            final(self).inv(),
            final(self).items == old(self).items,
            final(self).selected == old(self).selected,
            final(self).columns == old(self).columns,
            match old(self).hovered {
                Some(h) => match spec_move_up(
                    old(self).items@.len() as int,
                    old(self).columns as int,
                    h as int,
                ) {
                    Some(idx) => final(self).hovered == Some(idx as usize) && r == true,
                    None => final(self).hovered == old(self).hovered && r == false,
                },
                None => final(self).hovered == old(self).hovered && r == false,
            },
    {
        if let Some(hovered) = self.hovered {
            let row_number = hovered / self.columns;
            if row_number == 0 {
                return false;
            }
            let mut next_index = if hovered >= self.columns {
                hovered - self.columns
            } else {
                0
            };
            let n_items = self.items.len();
            proof {
                vstd::arithmetic::div_mod::lemma_fundamental_div_mod(
                    self.items@.len() as int,
                    self.columns as int,
                );
                assert((self.items@.len() as int / self.columns as int) * (self.columns as int)
                    <= self.items@.len() as int) by (nonlinear_arith)
                    requires
                        self.columns >= 1,
                        self.items@.len() as int == (self.columns as int) * (
                        self.items@.len() as int / self.columns as int) + (
                        self.items@.len() as int) % (self.columns as int),
                        (self.items@.len() as int) % (self.columns as int) >= 0,
                ;
            }
            let last_row_start = (n_items / self.columns) * self.columns;
            let is_last_row = hovered >= last_row_start;
            if is_last_row {
                let last_row_count = self.items.len() % self.columns;
                if last_row_count % 2 != 0 && self.columns % 2 != 0 && last_row_count
                    < self.columns {
                    let shift = (self.columns - last_row_count) / 2;
                    next_index = if hovered >= self.columns - shift {
                        hovered - (self.columns - shift)
                    } else {
                        0
                    };
                }
            }
            let last = self.items.len() - 1;
            self.hovered = Some(
                if next_index <= last {
                    next_index
                } else {
                    last
                },
            );
            return true;
        }
        false
    }

    /// Move the hover to the first cell of its row; nothing happens with
    /// nothing hovered.
    pub fn move_to_row_start(&mut self) -> (r: bool)
        requires
            old(self).inv(),
            old(self).items@.len() >= 1,
        ensures
            final(self).inv(),
            final(self).items == old(self).items,
            final(self).selected == old(self).selected,
            final(self).columns == old(self).columns,
            match old(self).hovered {
                Some(h) => final(self).hovered == Some(
                    ((h as int / old(self).columns as int) * old(self).columns as int) as usize,
                ) && r == true,
                None => final(self).hovered == old(self).hovered && r == false,
            },
    {
        if let Some(hovered) = self.hovered {
            proof {
                vstd::arithmetic::div_mod::lemma_fundamental_div_mod(
                    hovered as int,
                    self.columns as int,
                );
                assert((hovered as int / self.columns as int) * (self.columns as int)
                    <= hovered as int) by (nonlinear_arith)
                    requires
                        self.columns >= 1,
                        hovered as int == (self.columns as int) * (hovered as int
                            / self.columns as int) + (hovered as int) % (self.columns as int),
                        (hovered as int) % (self.columns as int) >= 0,
                ;
            }
            let row_start = (hovered / self.columns) * self.columns;
            self.hovered = Some(row_start);
            true
        } else {
            false
        }
    }

    /// Move the hover to the last cell of its row, clamped to the last item;
    /// nothing happens with nothing hovered.
    pub fn move_to_row_end(&mut self) -> (r: bool)
        requires
            old(self).inv(),
            old(self).items@.len() >= 1,
            old(self).items@.len() + old(self).columns <= usize::MAX,
        ensures
            final(self).inv(),
            final(self).items == old(self).items,
            final(self).selected == old(self).selected,
            final(self).columns == old(self).columns,
            match old(self).hovered {
                Some(h) => ({
                    let row_end = (h as int / old(self).columns as int + 1) * old(
                        self,
                    ).columns as int - 1;
                    let last = old(self).items@.len() - 1;
                    final(self).hovered == Some(
                        (if row_end <= last {
                            row_end
                        } else {
                            last
                        }) as usize,
                    ) && r == true
                }),
                None => final(self).hovered == old(self).hovered && r == false,
            },
    {
        if let Some(hovered) = self.hovered {
            proof {
                vstd::arithmetic::div_mod::lemma_fundamental_div_mod(
                    hovered as int,
                    self.columns as int,
                );
                assert((hovered as int / self.columns as int) * (self.columns as int)
                    <= hovered as int) by (nonlinear_arith)
                    requires
                        self.columns >= 1,
                        hovered as int == (self.columns as int) * (hovered as int
                            / self.columns as int) + (hovered as int) % (self.columns as int),
                        (hovered as int) % (self.columns as int) >= 0,
                ;
            }
            proof {
                assert((hovered as int / self.columns as int + 1) * (self.columns as int) == (
                hovered as int / self.columns as int) * (self.columns as int)
                    + self.columns as int) by (nonlinear_arith);
            }
            let candidate = (hovered / self.columns + 1) * self.columns - 1;
            let last = self.items.len() - 1;
            let row_end = if candidate <= last {
                candidate
            } else {
                last
            };
            self.hovered = Some(row_end);
            true
        } else {
            false
        }
    }

    /// Select the hovered item; nothing happens with nothing hovered.
    pub fn select(&mut self) -> (r: bool)
        requires
            old(self).inv(),
        ensures
            final(self).inv(),
            final(self).items == old(self).items,
            final(self).hovered == old(self).hovered,
            final(self).columns == old(self).columns,
            match old(self).hovered {
                Some(h) => final(self).selected == Some(h) && r == true,
                None => final(self).selected == old(self).selected && r == false,
            },
    {
        if let Some(hovered) = self.hovered {
            self.selected = Some(hovered);
            true
        } else {
            false
        }
    }
}

/// The grid selector's colors: the plain item color and the colors of the
/// hovered and the selected cell.
#[derive(Debug, Clone, Copy)]
pub struct GridSelector {
    pub color: Color,
    pub hovered_color: Color,
    pub selected_color: Color,
}

impl Default for GridSelector {
    /// Plain items in the terminal's own color, hovered blue, selected green.
    fn default() -> (r: GridSelector)
        ensures
            r == (GridSelector {
                color: Color::Reset,
                hovered_color: Color::Blue,
                selected_color: Color::Green,
            }),
    {
        GridSelector { color: Color::Reset, hovered_color: Color::Blue, selected_color: Color::Green }
    }
}

impl GridSelector {
    /// This selector with another plain item color.
    pub fn with_color(self, color: Color) -> (r: GridSelector)
        ensures
            r == (GridSelector { color, ..self }),
    {
        GridSelector { color, ..self }
    }

    /// This selector with another hovered color.
    pub fn with_hovered_color(self, color: Color) -> (r: GridSelector)
        ensures
            r == (GridSelector { hovered_color: color, ..self }),
    {
        GridSelector { hovered_color: color, ..self }
    }

    /// This selector with another selected color.
    pub fn with_selected_color(self, color: Color) -> (r: GridSelector)
        ensures
            r == (GridSelector { selected_color: color, ..self }),
    {
        GridSelector { selected_color: color, ..self }
    }

    /// The color of the cell at `for_idx`: the selected color on the
    /// selected cell, else the hovered color on the hovered cell, else the
    /// plain color.
    pub fn get_color(&self, for_idx: usize, state: &GridSelectorState) -> (r: Color)
        ensures
            r == if state.selected == Some(for_idx) {
                self.selected_color
            } else if state.hovered == Some(for_idx) {
                self.hovered_color
            } else {
                self.color
            },
    {
        let mut color = self.color;
        if let Some(hovered_idx) = state.hovered {
            if for_idx == hovered_idx {
                color = self.hovered_color;
            }
        }
        if let Some(selected_index) = state.selected {
            if for_idx == selected_index {
                color = self.selected_color;
            }
        }
        color
    }
}

} // verus!

//! Pure navigation state for a front end: which tab is shown and how the
//! process table is sorted. The event handling and drawing live with the
//! embedding application; the cycling and index rules are decided here.

use vstd::prelude::*;

verus! {

/// The tabs of a front end, in display order.
#[derive(Debug, Clone, Copy, PartialEq, Eq, Structural)]
pub enum Tab {
    Dashboard,
    Processes,
    Services,
    Storage,
    Network,
    Partitions,
    Alerts,
}

/// The sortable columns of the process table.
#[derive(Debug, Clone, Copy, PartialEq, Eq, Structural)]
pub enum SortColumn {
    Name,
    Cpu,
    Memory,
    DiskIo,
    User,
}

/// The tab after `t` in display order, wrapping around.
pub open spec fn spec_next_tab(t: Tab) -> Tab {
    match t {
        Tab::Dashboard => Tab::Processes,
        Tab::Processes => Tab::Services,
        Tab::Services => Tab::Storage,
        Tab::Storage => Tab::Network,
        Tab::Network => Tab::Partitions,
        Tab::Partitions => Tab::Alerts,
        Tab::Alerts => Tab::Dashboard,
    }
}

/// The tab before `t` in display order, wrapping around.
pub open spec fn spec_previous_tab(t: Tab) -> Tab {
    match t {
        Tab::Dashboard => Tab::Alerts,
        Tab::Processes => Tab::Dashboard,
        Tab::Services => Tab::Processes,
        Tab::Storage => Tab::Services,
        Tab::Network => Tab::Storage,
        Tab::Partitions => Tab::Network,
        Tab::Alerts => Tab::Partitions,
    }
}

/// The display position of `t`.
pub open spec fn spec_tab_index(t: Tab) -> int {
    match t {
        Tab::Dashboard => 0,
        Tab::Processes => 1,
        Tab::Services => 2,
        Tab::Storage => 3,
        Tab::Network => 4,
        Tab::Partitions => 5,
        Tab::Alerts => 6,
    }
}

impl Tab {
    /// The next tab, wrapping around after the last.
    pub fn next(self) -> (t: Tab)
        ensures
            t == spec_next_tab(self),
    {
        match self {
            Tab::Dashboard => Tab::Processes,
            Tab::Processes => Tab::Services,
            Tab::Services => Tab::Storage,
            Tab::Storage => Tab::Network,
            Tab::Network => Tab::Partitions,
            Tab::Partitions => Tab::Alerts,
            Tab::Alerts => Tab::Dashboard,
        }
    }

    /// The previous tab, wrapping around before the first.
    pub fn previous(self) -> (t: Tab)
        ensures
            t == spec_previous_tab(self),
    {
        match self {
            Tab::Dashboard => Tab::Alerts,
            Tab::Processes => Tab::Dashboard,
            Tab::Services => Tab::Processes,
            Tab::Storage => Tab::Services,
            Tab::Network => Tab::Storage,
            Tab::Partitions => Tab::Network,
            Tab::Alerts => Tab::Partitions,
        }
    }

    /// The display position of this tab.
    pub fn index(self) -> (i: usize)
        ensures
            i as int == spec_tab_index(self),
            i < 7,
    {
        match self {
            Tab::Dashboard => 0,
            Tab::Processes => 1,
            Tab::Services => 2,
            Tab::Storage => 3,
            Tab::Network => 4,
            Tab::Partitions => 5,
            Tab::Alerts => 6,
        }
    }

    /// The tab at display position `i`; out-of-range positions keep
    /// `fallback`.
    pub fn from_index(i: usize, fallback: Tab) -> (t: Tab)
        ensures
            i < 7 ==> spec_tab_index(t) == i as int,
            i >= 7 ==> t == fallback,
    {
        match i {
            0 => Tab::Dashboard,
            1 => Tab::Processes,
            2 => Tab::Services,
            3 => Tab::Storage,
            4 => Tab::Network,
            5 => Tab::Partitions,
            6 => Tab::Alerts,
            _ => fallback,
        }
    }
}

/// The sort column after `c` in cycling order.
pub open spec fn spec_next_sort_column(c: SortColumn) -> SortColumn {
    match c {
        SortColumn::Name => SortColumn::Cpu,
        SortColumn::Cpu => SortColumn::Memory,
        SortColumn::Memory => SortColumn::DiskIo,
        SortColumn::DiskIo => SortColumn::User,
        SortColumn::User => SortColumn::Name,
    }
}

impl SortColumn {
    /// The next sort column, cycling through all five.
    pub fn next(self) -> (c: SortColumn)
        ensures
            c == spec_next_sort_column(self),
    {
        match self {
            SortColumn::Name => SortColumn::Cpu,
            SortColumn::Cpu => SortColumn::Memory,
            SortColumn::Memory => SortColumn::DiskIo,
            SortColumn::DiskIo => SortColumn::User,
            SortColumn::User => SortColumn::Name,
        }
    }
}

} // verus!

use vstd::prelude::*;

verus! {

/// Identifier used by relative-placement rules.
pub type UiControlID = usize;

/// Sizing policy of one axis.
#[derive(Debug, Clone, Copy, PartialEq, Eq, Structural)]
pub enum Params {
    MatchParent,
    WrapContent,
    Exact(u16),
}

/// Relative placement of a control against a sibling or its parent.
#[derive(Debug, Clone, Copy, PartialEq, Eq, Structural)]
pub enum Neighborhood {
    Above(UiControlID),
    Below(UiControlID),
    ToLeftOf(UiControlID),
    ToRightOf(UiControlID),
    AlignTop(UiControlID),
    AlignBottom(UiControlID),
    AlignLeft(UiControlID),
    AlignRight(UiControlID),
    AlignParentLeft,
    AlignParentRight,
    AlignParentTop,
    AlignParentBottom,
}

/// Primary axis of linear containers and splitters.
#[derive(Debug, Clone, Copy, PartialEq, Eq, Structural)]
pub enum Orientation {
    Horizontal,
    Vertical,
}

/// Whether a widget is shown, hidden but laid out, or left out of layout.
#[derive(Debug, Clone, Copy, PartialEq, Eq, Structural)]
pub enum Visibility {
    Visible,
    Invisible,
    Gone,
}

/// Space kept free around a widget, per side.
#[derive(Debug, Clone, Copy, PartialEq, Eq, Structural)]
pub struct Margins {
    pub left: u16,
    pub top: u16,
    pub right: u16,
    pub bottom: u16,
}

impl Margins {
    pub fn zero() -> (r: Margins)
        ensures
            r == (Margins { left: 0, top: 0, right: 0, bottom: 0 }),
    {
        Margins { left: 0, top: 0, right: 0, bottom: 0 }
    }

    pub fn distinct(left: u16, top: u16, right: u16, bottom: u16) -> (r: Margins)
        ensures
            r == (Margins { left, top, right, bottom }),
    {
        Margins { left, top, right, bottom }
    }
}

/// The largest size value.
pub const MAX_SIZE: u16 = 65535;

/// `x` cut down to the range of a size.
pub open spec fn fit(x: int) -> u16 {
    if x < 0 {
        0
    } else if x > u16::MAX {
        u16::MAX
    } else {
        x as u16
    }
}

/// Space left on one axis once both margins are taken off, never below zero.
pub open spec fn inner_space(p: u16, a: u16, b: u16) -> u16 {
    fit(p - a - b)
}

/// What a policy gives on one axis, for a widget that is not gone.
pub open spec fn resolve(policy: Params, parent: u16, wrap: u16) -> u16 {
    match policy {
        Params::Exact(n) => n,
        Params::MatchParent => parent,
        Params::WrapContent => wrap,
    }
}

pub fn inner(p: u16, a: u16, b: u16) -> (r: u16)
    ensures
        r == inner_space(p, a, b),
{
    let s: u32 = a as u32 + b as u32;
    if s >= p as u32 {
        0
    } else {
        (p as u32 - s) as u16
    }
}

pub fn fit_size(x: u64) -> (r: u16)
    ensures
        r == fit(x as int),
{
    if x > MAX_SIZE as u64 {
        MAX_SIZE
    } else {
        x as u16
    }
}

/// Resolves one axis from its policy, the parent's space and the content size.
pub fn resolve_axis(policy: Params, parent: u16, wrap: u16) -> (r: u16)
    ensures
        r == resolve(policy, parent, wrap),
{
    match policy {
        Params::Exact(n) => n,
        Params::MatchParent => parent,
        Params::WrapContent => wrap,
    }
}

} // verus!

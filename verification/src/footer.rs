//! The footer state: which tab is active, and how tab actions change it.

use crate::err::Res;
use crate::uid::{FilterUid, LineUid};
use vstd::prelude::*;

verus! {

/// A footer tab that is not a filter tab.
#[derive(Debug, Clone, Copy, PartialEq, Eq, Structural)]
pub enum NormalFooterTab {
    /// The statistics tab.
    Info,
}

impl NormalFooterTab {
    /// Lists all tabs.
    pub fn all() -> (r: Vec<NormalFooterTab>)
        ensures
            r@ == seq![NormalFooterTab::Info],
    {
        let mut v: Vec<NormalFooterTab> = Vec::new();
        v.push(NormalFooterTab::Info);
        proof {
            assert(v@ =~= seq![NormalFooterTab::Info]);
        }
        v
    }
}

/// A footer tab.
#[derive(Debug, Clone, Copy, PartialEq, Eq, Structural)]
pub enum FooterTab {
    /// A tab that is not a filter tab.
    Normal(NormalFooterTab),
    /// The tab of a filter line.
    Filter(LineUid),
}

impl FooterTab {
    /// Filter tab constructor.
    pub fn filter(uid: LineUid) -> (r: FooterTab)
        ensures
            r == FooterTab::Filter(uid),
    {
        FooterTab::Filter(uid)
    }

    /// The normal tab, if any.
    pub fn get_normal_tab(self) -> (r: Option<NormalFooterTab>)
        ensures
            r == match self {
                FooterTab::Normal(tab) => Some(tab),
                FooterTab::Filter(_) => None::<NormalFooterTab>,
            },
    {
        match self {
            FooterTab::Normal(tab) => Some(tab),
            FooterTab::Filter(_) => None,
        }
    }

    /// The active filter line, if any.
    pub fn get_filter(self) -> (r: Option<LineUid>)
        ensures
            r == match self {
                FooterTab::Normal(_) => None::<LineUid>,
                FooterTab::Filter(uid) => Some(uid),
            },
    {
        match self {
            FooterTab::Normal(_) => None,
            FooterTab::Filter(uid) => Some(uid),
        }
    }
}

/// A message for the footer.
#[derive(Debug, Clone, Copy, PartialEq, Eq, Structural)]
pub enum FooterMsg {
    /// Toggles a footer tab.
    ToggleTab(FooterTab),
    /// A filter was removed.
    Removed(FilterUid),
}

/// The footer state.
#[derive(Debug)]
pub struct Footer {
    /// The active footer tab, if any.
    pub active: Option<FooterTab>,
}

impl Footer {
    /// Constructor: no tab is active.
    pub fn new() -> (r: Footer)
        ensures
            r.active is None,
    {
        Footer { active: None }
    }

    /// Applies a footer action; the result says whether a display should
    /// re-render.
    ///
    /// Toggling the active tab deactivates it, toggling any other tab
    /// activates it. When the active filter is removed, the tab falls back
    /// to the aggregate line.
    pub fn update(&mut self, msg: FooterMsg) -> (r: Res<bool>)
        ensures
            match msg {
                FooterMsg::ToggleTab(tab) => r == Res::<bool>::Ok(true) && final(self).active == (
                if old(self).active == Some(tab) {
                    None::<FooterTab>
                } else {
                    Some(tab)
                }),
                FooterMsg::Removed(uid) => if old(self).active == Some(
                    FooterTab::Filter(LineUid::Filter(uid)),
                ) {
                    r == Res::<bool>::Ok(true) && final(self).active == Some(
                        FooterTab::Filter(LineUid::Everything),
                    )
                } else {
                    r == Res::<bool>::Ok(false) && final(self).active == old(self).active
                },
            },
    {
        match msg {
            FooterMsg::ToggleTab(tab) => {
                if self.active == Some(tab) {
                    self.active = None;
                } else {
                    self.active = Some(tab);
                }
                Ok(true)
            },
            FooterMsg::Removed(uid) => {
                if self.active == Some(FooterTab::Filter(LineUid::Filter(uid))) {
                    self.active = Some(FooterTab::Filter(LineUid::Everything));
                    Ok(true)
                } else {
                    Ok(false)
                }
            },
        }
    }

    /// True if the footer is expanded.
    pub fn is_expanded(&self) -> (r: bool)
        ensures
            r == (self.active is Some),
    {
        match self.active {
            Some(_) => true,
            None => false,
        }
    }
}

} // verus!

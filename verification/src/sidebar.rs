//! State of the skill sidebar: its visibility, the skills it lists, its
//! width, and the label it shows when collapsed to an icon.

use vstd::prelude::*;
use crate::formatting::{decimal, push_decimal};

verus! {

/// Information about a loaded skill.
#[derive(Debug, Clone, PartialEq)]
pub struct SkillInfo {
    /// Name of the skill.
    pub name: String,
    /// Short description of what the skill does.
    pub description: String,
    /// Whether the skill is currently active.
    pub active: bool,
}

/// Sidebar panel listing the loaded skills.
#[derive(Debug, Clone)]
pub struct SkillSidebar {
    /// Whether the sidebar is currently visible.
    pub visible: bool,
    /// List of loaded skills.
    pub skills: Vec<SkillInfo>,
    /// Width of the sidebar in columns.
    pub width: u16,
}

/// The icon of the collapsed sidebar.
pub open spec fn bolt() -> char {
    '\u{26a1}'
}

impl SkillSidebar {
    /// Default width of the sidebar in columns.
    pub const DEFAULT_WIDTH: u16 = 30;
    /// Width below which the sidebar collapses to icon-only mode.
    pub const COLLAPSE_THRESHOLD: u16 = 20;

    /// A hidden sidebar with no skills and the default width.
    pub fn new() -> (s: Self)
        ensures
            !s.visible,
            s.skills@.len() == 0,
            s.width == Self::DEFAULT_WIDTH,
    {
        SkillSidebar { visible: false, skills: Vec::new(), width: Self::DEFAULT_WIDTH }
    }

    /// Flips visibility; skills and width are unchanged.
    pub fn toggle(&mut self)
        ensures
            final(self).visible == !old(self).visible,
            final(self).skills@ == old(self).skills@,
            final(self).width == old(self).width,
    {
        self.visible = !self.visible;
    }

    /// Replaces the listed skills; visibility and width are unchanged.
    pub fn update_skills(&mut self, skills: Vec<SkillInfo>)
        ensures
            final(self).skills@ == skills@,
            final(self).visible == old(self).visible,
            final(self).width == old(self).width,
    {
        self.skills = skills;
    }

    /// Whether the sidebar renders icon-only.
    pub fn is_collapsed(&self) -> (b: bool)
        ensures
            b == (self.width < Self::COLLAPSE_THRESHOLD),
    {
        self.width < Self::COLLAPSE_THRESHOLD
    }

    /// Number of active skills.
    pub fn active_count(&self) -> (n: usize)
        ensures
            n == self.skills@.filter(|s: SkillInfo| s.active).len(),
    {
        let mut n: usize = 0;
        let mut i: usize = 0;
        while i < self.skills.len()
            invariant
                i <= self.skills@.len(),
                n == self.skills@.take(i as int).filter(|s: SkillInfo| s.active).len(),
                n <= i,
            decreases self.skills@.len() - i,
        {
            proof {
                assert(self.skills@.take(i + 1) =~= self.skills@.take(i as int).push(self.skills@[i as int]));
                self.skills@.take(i as int).lemma_filter_len_push(|s: SkillInfo| s.active, self.skills@[i as int]);
            }
            if self.skills[i].active {
                n = n + 1;
            }
            i = i + 1;
        }
        proof {
            assert(self.skills@.take(self.skills@.len() as int) =~= self.skills@);
        }
        n
    }

    /// The collapsed label: the icon alone when no skill is loaded, else the
    /// icon followed by the number of skills.
    pub fn collapsed_label(&self) -> (s: String)
        ensures
            s@ == (if self.skills@.len() == 0 {
                seq![bolt()]
            } else {
                seq![bolt()] + decimal(self.skills@.len())
            }),
    {
        let mut s = String::new();
        s.push('\u{26a1}');
        let count = self.skills.len();
        if count > 0 {
            push_decimal(&mut s, count as u64);
        }
        s
    }
}

impl Default for SkillSidebar {
    fn default() -> (s: Self)
        ensures
            !s.visible,
            s.skills@.len() == 0,
            s.width == Self::DEFAULT_WIDTH,
    {
        Self::new()
    }
}

} // verus!
